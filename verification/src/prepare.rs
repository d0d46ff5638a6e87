//! Preparing a new catalog root, one storage operation at a time.

use crate::archive::{ArchiveError, ArchiveObjectRef, FANOUT, MAX_HEIGHT};
use crate::catalog;
use crate::catalog::{ArchiveRoot, ArchivedSegment, Page, PageView};
use crate::tree;
use crate::tree::Pages;
use vstd::prelude::*;

verus! {

/// The storage operation that a preparation waits for.
pub enum CatalogStep {
    /// Read the page that this reference names.
    Load(ArchiveRoot),
    /// Store this page at this height.
    Write {
        /// The page.
        page: Page,
        /// Its height.
        height: u32,
    },
    /// Nothing: this is the new root.
    Done(ArchiveRoot),
}

/// A branch on the way down, without its last child.
pub struct PathNode {
    /// The children that stay.
    pub children: Vec<ArchiveRoot>,
    /// The height of the branch.
    pub height: u32,
}

/// A branch on the way down as mathematical values.
pub struct PathView {
    /// The children that stay.
    pub children: Seq<ArchiveRoot>,
    /// The height of the branch.
    pub height: u32,
}

/// A page that is being stored.
pub struct PendingPage {
    /// Height of the page.
    pub height: u32,
    /// Index of the first record below the page.
    pub start: u64,
    /// Index after the last record below the page.
    pub end: u64,
    /// The page itself.
    pub page: Ghost<PageView>,
}

/// What follows once a page is stored.
pub enum AfterWrite {
    /// It takes the place of one page.
    Replace,
    /// It stands beside this one.
    Beside(ArchiveRoot),
    /// These entries go into another page beside it.
    Split(Vec<ArchiveRoot>),
    /// It is the new root.
    Top,
}

/// What follows once a page is stored, as mathematical values.
pub enum AfterView {
    /// It takes the place of one page.
    Replace,
    /// It stands beside this one.
    Beside(ArchiveRoot),
    /// These entries go into another page beside it.
    Split(Seq<ArchiveRoot>),
    /// It is the new root.
    Top,
}

/// Where a preparation stands.
pub enum AppendPhase {
    /// A page on the rightmost path is being read.
    Loading {
        /// The page's reference.
        root: ArchiveRoot,
        /// The segment to append.
        entry: ArchivedSegment,
    },
    /// A page is being stored.
    Writing {
        /// The page.
        pending: PendingPage,
        /// What follows.
        after: AfterWrite,
    },
    /// The new root has been handed out.
    Finished,
}

/// A preparation of a new root.
pub struct CatalogAppend {
    /// Branches on the way down, topmost first.
    pub path: Vec<PathNode>,
    /// Height of the old root.
    pub top_height: u32,
    /// Where the preparation stands.
    pub phase: AppendPhase,
}

impl PathNode {
    /// The branch as mathematical values.
    pub open spec fn view(&self) -> PathView {
        PathView { children: self.children@, height: self.height }
    }
}

impl AfterWrite {
    /// What follows as mathematical values.
    pub open spec fn view(&self) -> AfterView {
        match self {
            AfterWrite::Replace => AfterView::Replace,
            AfterWrite::Beside(left) => AfterView::Beside(*left),
            AfterWrite::Split(right) => AfterView::Split(right@),
            AfterWrite::Top => AfterView::Top,
        }
    }
}

/// The root that results if `roots` stand in the place of the page below
/// `path`.
pub open spec fn ascended(
    object: spec_fn(PageView) -> ArchiveObjectRef,
    path: Seq<PathView>,
    top_height: u32,
    roots: Seq<ArchiveRoot>,
) -> ArchiveRoot
    decreases path.len(),
{
    if path.len() == 0 {
        tree::new_root(object, roots, top_height)
    } else {
        ascended(
            object,
            path.drop_last(),
            top_height,
            tree::branch_roots(object, path.last().children + roots, path.last().height),
        )
    }
}

/// Why a page on the rightmost path cannot be used; `None` where it can.
pub open spec fn load_refusal(root: ArchiveRoot, page: PageView) -> Option<&'static str> {
    match catalog::page_refusal(root, page) {
        Some(reason) => Some(reason),
        None => match page {
            PageView::Leaf(_) => None,
            PageView::Branch(children) => if catalog::root_ok(children.last()) {
                None
            } else {
                Some("invalid catalog root")
            },
        },
    }
}

impl CatalogAppend {
    /// The path as mathematical values.
    pub open spec fn path_view(self) -> Seq<PathView> {
        Seq::new(self.path@.len(), |i: int| self.path@[i]@)
    }

    /// Heights and page sizes are within the catalog's limits, and a page that
    /// is being stored is not empty.
    pub open spec fn wf(self) -> bool {
        &&& self.top_height <= MAX_HEIGHT
        &&& forall|i: int|
            0 <= i < self.path@.len() ==> (#[trigger] self.path@[i]).children@.len() < FANOUT
                && self.path@[i].height <= MAX_HEIGHT
        &&& match self.phase {
            AppendPhase::Loading { root, .. } => catalog::root_ok(root),
            AppendPhase::Writing { pending, after } => {
                &&& pending.page@.spans().len() > 0
                &&& pending.start == pending.page@.spans()[0].0
                &&& pending.end == pending.page@.spans().last().1
                &&& after matches AfterWrite::Split(right) ==> right@.len() > 0
            },
            AppendPhase::Finished => true,
        }
    }

    /// The root that the preparation leads to, if `pages` are the stored pages
    /// and `object` names the pages that are going to be stored.
    pub open spec fn outcome(
        self,
        pages: Pages,
        object: spec_fn(PageView) -> ArchiveObjectRef,
    ) -> ArchiveRoot {
        match self.phase {
            AppendPhase::Loading { root, entry } => ascended(
                object,
                self.path_view(),
                self.top_height,
                tree::appended(pages, object, root, entry),
            ),
            AppendPhase::Writing { pending, after } => {
                let fresh = tree::stored(object, pending.page@, pending.height);
                match after {
                    AfterWrite::Replace => ascended(
                        object,
                        self.path_view(),
                        self.top_height,
                        seq![fresh],
                    ),
                    AfterWrite::Beside(left) => ascended(
                        object,
                        self.path_view(),
                        self.top_height,
                        seq![left, fresh],
                    ),
                    AfterWrite::Split(right) => ascended(
                        object,
                        self.path_view(),
                        self.top_height,
                        seq![
                            fresh,
                            tree::stored(object, PageView::Branch(right@), pending.height),
                        ],
                    ),
                    AfterWrite::Top => fresh,
                }
            },
            AppendPhase::Finished => arbitrary(),
        }
    }

    /// The step is the operation that the preparation waits for.
    pub open spec fn awaits(self, step: CatalogStep) -> bool {
        match step {
            CatalogStep::Load(root) => self.phase matches AppendPhase::Loading {
                root: expected,
                ..
            } && root == expected,
            CatalogStep::Write { page, height } => self.phase matches AppendPhase::Writing {
                pending,
                ..
            } && pending.page@ == page@ && pending.height == height,
            CatalogStep::Done(_) => self.phase is Finished,
        }
    }

    /// This page is being stored, and what follows is known.
    pub open spec fn stores(self, page: PageView, height: int, after: AfterView) -> bool {
        self.phase matches AppendPhase::Writing { pending, after: kept } && pending.page@ == page
            && pending.height == height && kept@ == after
    }

    /// Where the preparation stands once `roots` have taken the place of the
    /// page below `path`: the branch above is written anew, in two pages where
    /// it outgrows one, and above the topmost branch two roots need a new one.
    pub open spec fn above(self, path: Seq<PathView>, top_height: u32, roots: Seq<ArchiveRoot>) -> bool {
        &&& self.top_height == top_height
        &&& if path.len() == 0 {
            &&& self.path_view().len() == 0
            &&& if roots.len() == 1 {
                self.phase is Finished
            } else {
                self.stores(PageView::Branch(roots), top_height + 1, AfterView::Top)
            }
        } else {
            let grown = path.last().children + roots;
            let height = path.last().height as int;
            &&& self.path_view() == path.drop_last()
            &&& if grown.len() > FANOUT {
                self.stores(
                    PageView::Branch(grown.take(FANOUT as int)),
                    height,
                    AfterView::Split(grown.skip(FANOUT as int)),
                )
            } else {
                self.stores(PageView::Branch(grown), height, AfterView::Replace)
            }
        }
    }

    /// Where the preparation stands after it has read `page`: a full leaf stays
    /// beside a new one, a smaller leaf is written with the segment, and a
    /// branch leads to its last child.
    pub open spec fn after_load(self, page: PageView, next: CatalogAppend) -> bool {
        let root = self.phase->Loading_root;
        let entry = self.phase->Loading_entry;
        &&& next.top_height == self.top_height
        &&& match page {
            PageView::Leaf(segments) => {
                &&& next.path_view() == self.path_view()
                &&& if segments.len() >= FANOUT {
                    next.stores(PageView::Leaf(seq![entry]), 0, AfterView::Beside(root))
                } else {
                    next.stores(PageView::Leaf(segments.push(entry)), 0, AfterView::Replace)
                }
            },
            PageView::Branch(children) => {
                &&& next.path_view() == self.path_view().push(
                    PathView { children: children.drop_last(), height: root.height },
                )
                &&& next.phase == (AppendPhase::Loading { root: children.last(), entry })
                &&& children.last().height < root.height
            },
        }
    }

    /// Where the preparation stands after its page was stored as `object`.
    pub open spec fn after_store(self, object: ArchiveObjectRef, next: CatalogAppend) -> bool {
        let pending = self.phase->pending;
        let fresh = catalog::root_of(pending.page@, pending.height, object);
        match self.phase->after {
            AfterWrite::Replace => next.above(self.path_view(), self.top_height, seq![fresh]),
            AfterWrite::Beside(left) => next.above(
                self.path_view(),
                self.top_height,
                seq![left, fresh],
            ),
            AfterWrite::Split(right) => {
                &&& next.top_height == self.top_height
                &&& next.path_view() == self.path_view()
                &&& next.stores(
                    PageView::Branch(right@),
                    pending.height as int,
                    AfterView::Beside(fresh),
                )
            },
            AfterWrite::Top => {
                &&& next.top_height == self.top_height
                &&& next.path_view() == self.path_view()
                &&& next.phase is Finished
            },
        }
    }

    /// An upper bound on the storage operations that are still to come.
    pub open spec fn steps_left(self) -> nat {
        let path = self.path@.len();
        match self.phase {
            AppendPhase::Loading { root, .. } => 3 + 2 * path + 3 * (root.height as nat),
            AppendPhase::Writing { after, .. } => match after {
                AfterWrite::Split(_) => 3 + 2 * path,
                AfterWrite::Replace | AfterWrite::Beside(_) => 2 + 2 * path,
                AfterWrite::Top => 1,
            },
            AppendPhase::Finished => 0,
        }
    }

    /// One storage operation leads from this state to the next one.
    pub open spec fn moves_on(self, next: CatalogAppend) -> bool {
        match self.phase {
            AppendPhase::Loading { root, .. } => exists|page: PageView| #[trigger]
                self.after_load(page, next) && catalog::page_ok(root, page),
            AppendPhase::Writing { .. } => exists|object: ArchiveObjectRef| #[trigger]
                self.after_store(object, next),
            AppendPhase::Finished => false,
        }
    }

    /// The preparation goes on to the same root as before, or hands it out.
    pub open spec fn leads_to(
        self,
        step: CatalogStep,
        pages: Pages,
        object: spec_fn(PageView) -> ArchiveObjectRef,
        root: ArchiveRoot,
    ) -> bool {
        match step {
            CatalogStep::Done(fresh) => fresh == root,
            _ => self.outcome(pages, object) == root,
        }
    }

    /// Starts storing a leaf.
    fn write_leaf(&mut self, entries: Vec<ArchivedSegment>, after: AfterWrite) -> (step:
        CatalogStep)
        requires
            old(self).top_height <= MAX_HEIGHT,
            forall|i: int|
                0 <= i < old(self).path@.len() ==> (
                #[trigger] old(self).path@[i]).children@.len() < FANOUT && old(
                    self,
                ).path@[i].height <= MAX_HEIGHT,
            entries@.len() > 0,
            !(after is Split),
        ensures
            final(self).wf(),
            final(self).path == old(self).path,
            final(self).top_height == old(self).top_height,
            step matches CatalogStep::Write { page, height } && page@ == PageView::Leaf(entries@)
                && height == 0,
            final(self).awaits(step),
            final(self).phase matches AppendPhase::Writing { after: kept, .. } && kept == after,
            final(self).stores(PageView::Leaf(entries@), 0, after@),
    {
        let start: u64 = entries[0].start;
        let end: u64 = entries[entries.len() - 1].end;
        let ghost page = PageView::Leaf(entries@);
        proof {
            let spans = catalog::leaf_spans(entries@);
            assert(spans[0] == (entries@[0].start, entries@[0].end));
            assert(spans.last() == (entries@.last().start, entries@.last().end));
        }
        self.phase =
        AppendPhase::Writing {
            pending: PendingPage { height: 0, start, end, page: Ghost(page) },
            after,
        };
        CatalogStep::Write { page: Page::Leaf(entries), height: 0 }
    }

    /// Starts storing a branch.
    fn write_branch(&mut self, children: Vec<ArchiveRoot>, height: u32, after: AfterWrite) -> (step:
        CatalogStep)
        requires
            old(self).top_height <= MAX_HEIGHT,
            forall|i: int|
                0 <= i < old(self).path@.len() ==> (
                #[trigger] old(self).path@[i]).children@.len() < FANOUT && old(
                    self,
                ).path@[i].height <= MAX_HEIGHT,
            children@.len() > 0,
            after matches AfterWrite::Split(right) ==> right@.len() > 0,
        ensures
            final(self).wf(),
            final(self).path == old(self).path,
            final(self).top_height == old(self).top_height,
            final(self).awaits(step),
            step matches CatalogStep::Write { page, height: at } && page@ == PageView::Branch(
                children@,
            ) && at == height,
            final(self).phase matches AppendPhase::Writing { after: kept, .. } && kept == after,
            final(self).stores(PageView::Branch(children@), height as int, after@),
    {
        let start: u64 = children[0].start;
        let end: u64 = children[children.len() - 1].end;
        let ghost page = PageView::Branch(children@);
        proof {
            let spans = catalog::root_spans(children@);
            assert(spans[0] == (children@[0].start, children@[0].end));
            assert(spans.last() == (children@.last().start, children@.last().end));
        }
        self.phase =
        AppendPhase::Writing {
            pending: PendingPage { height, start, end, page: Ghost(page) },
            after,
        };
        CatalogStep::Write { page: Page::Branch(children), height }
    }

    /// Puts `roots` into the place of the page below the path.
    fn ascend(&mut self, roots: Vec<ArchiveRoot>) -> (step: CatalogStep)
        requires
            old(self).top_height <= MAX_HEIGHT,
            forall|i: int|
                0 <= i < old(self).path@.len() ==> (
                #[trigger] old(self).path@[i]).children@.len() < FANOUT && old(
                    self,
                ).path@[i].height <= MAX_HEIGHT,
            1 <= roots@.len() <= 2,
        ensures
            final(self).wf(),
            final(self).awaits(step),
            final(self).above(old(self).path_view(), old(self).top_height, roots@),
            step matches CatalogStep::Done(root) ==> root == roots@[0],
            forall|pages: Pages, object: spec_fn(PageView) -> ArchiveObjectRef|
                #![trigger ascended(object, old(self).path_view(), old(self).top_height, roots@), final(self).outcome(pages, object)]
                final(self).leads_to(
                    step,
                    pages,
                    object,
                    ascended(object, old(self).path_view(), old(self).top_height, roots@),
                ),
            step is Done ==> forall|object: spec_fn(PageView) -> ArchiveObjectRef|
                #![trigger ascended(object, old(self).path_view(), old(self).top_height, roots@)]
                step->Done_0 == ascended(
                    object,
                    old(self).path_view(),
                    old(self).top_height,
                    roots@,
                ),
    {
        let ghost before = *self;
        let mut roots = roots;
        match self.path.pop() {
            None => {
                proof {
                    assert(before.path_view().len() == 0);
                }
                if roots.len() == 1 {
                    self.phase = AppendPhase::Finished;
                    CatalogStep::Done(roots.remove(0))
                } else {
                    self.write_branch(roots, self.top_height + 1, AfterWrite::Top)
                }
            },
            Some(node) => {
                let ghost seen = node@;
                proof {
                    assert(before.path_view().last() == seen);
                    assert(before.path@[before.path@.len() - 1] == node);
                    assert(self.path_view() =~= before.path_view().drop_last());
                    assert forall|i: int| 0 <= i < self.path@.len() implies (
                    #[trigger] self.path@[i]).children@.len() < FANOUT && self.path@[i].height
                        <= MAX_HEIGHT by {
                        assert(self.path@[i] == before.path@[i]);
                    }
                }
                let height: u32 = node.height;
                let mut children = node.children;
                let ghost grown = seen.children + roots@;
                children.append(&mut roots);
                assert(children@ == grown);
                if children.len() > FANOUT {
                    let right = children.split_off(FANOUT);
                    proof {
                        assert(children@ =~= grown.take(FANOUT as int));
                        assert(right@ =~= grown.skip(FANOUT as int));
                    }
                    self.write_branch(children, height, AfterWrite::Split(right))
                } else {
                    self.write_branch(children, height, AfterWrite::Replace)
                }
            },
        }
    }

    /// Goes on with a page that was read.
    ///
    /// The page must fit the reference it was read by. A full leaf stays as it
    /// is beside a new one; otherwise the path is written anew from the leaf
    /// up.
    pub fn loaded(&mut self, page: Page) -> (result: Result<CatalogStep, ArchiveError>)
        requires
            old(self).wf(),
            old(self).phase is Loading,
        ensures
            ({
                let root = old(self).phase->root;
                match load_refusal(root, page@) {
                    None => {
                        &&& result is Ok
                        &&& catalog::page_ok(root, page@)
                        &&& final(self).wf()
                        &&& final(self).awaits(result->Ok_0)
                        &&& old(self).after_load(page@, *final(self))
                        &&& old(self).moves_on(*final(self))
                        &&& forall|pages: Pages, object: spec_fn(PageView) -> ArchiveObjectRef|
                            #![trigger old(self).outcome(pages, object)]
                            pages.contains_key(root.object) && pages[root.object] == page@
                                ==> final(self).leads_to(
                                result->Ok_0,
                                pages,
                                object,
                                old(self).outcome(pages, object),
                            )
                    },
                    Some(reason) => catalog::corrupt(result, reason),
                }
            }),
    {
        let ghost before = *self;
        let ghost view = page@;
        let mut phase = AppendPhase::Finished;
        std::mem::swap(&mut phase, &mut self.phase);
        match phase {
            AppendPhase::Loading { root, entry } => {
                match catalog::check_page(&root, &page) {
                    Ok(()) => {},
                    Err(error) => {
                        return Err(error);
                    },
                }
                match page {
                    Page::Leaf(mut entries) => {
                        if entries.len() >= FANOUT {
                            let mut single: Vec<ArchivedSegment> = Vec::new();
                            single.push(entry);
                            proof {
                                assert(single@ =~= seq![entry]);
                            }
                            let step = self.write_leaf(single, AfterWrite::Beside(root));
                            assert(before.after_load(view, *self));
                            Ok(step)
                        } else {
                            entries.push(entry);
                            let step = self.write_leaf(entries, AfterWrite::Replace);
                            assert(before.after_load(view, *self));
                            Ok(step)
                        }
                    },
                    Page::Branch(mut children) => {
                        let ghost all = children@;
                        match children.pop() {
                            None => vstd::pervasive::unreached(),
                            Some(last) => {
                                assert(all.last() == last);
                                assert(children@ =~= all.drop_last());
                                match catalog::check_root(&last) {
                                    Ok(()) => {},
                                    Err(error) => {
                                        return Err(error);
                                    },
                                }
                                let ghost node = PathView {
                                    children: all.drop_last(),
                                    height: root.height,
                                };
                                self.path.push(PathNode { children, height: root.height });
                                let next = last.clone();
                                self.phase = AppendPhase::Loading { root: last, entry };
                                proof {
                                    assert(self.path_view() =~= before.path_view().push(node));
                                    assert(self.path_view().drop_last() =~= before.path_view());
                                    assert forall|i: int| 0 <= i < self.path@.len() implies (
                                    #[trigger] self.path@[i]).children@.len() < FANOUT
                                        && self.path@[i].height <= MAX_HEIGHT by {
                                        if i < before.path@.len() {
                                            assert(self.path@[i] == before.path@[i]);
                                        }
                                    }
                                    assert(all[all.len() - 1] == last);
                                    assert(before.after_load(view, *self));
                                }
                                Ok(CatalogStep::Load(next))
                            },
                        }
                    },
                }
            },
            _ => vstd::pervasive::unreached(),
        }
    }

    /// Goes on with a page that was stored as `object`.
    pub fn written(&mut self, object: ArchiveObjectRef) -> (step: CatalogStep)
        requires
            old(self).wf(),
            old(self).phase is Writing,
        ensures
            final(self).wf(),
            final(self).awaits(step),
            old(self).after_store(object, *final(self)),
            old(self).moves_on(*final(self)),
            step matches CatalogStep::Done(root) ==> root == catalog::root_of(
                old(self).phase->pending.page@,
                old(self).phase->pending.height,
                object,
            ),
            forall|pages: Pages, names: spec_fn(PageView) -> ArchiveObjectRef|
                #![trigger old(self).outcome(pages, names)]
                names(old(self).phase->pending.page@) == object ==> final(self).leads_to(
                    step,
                    pages,
                    names,
                    old(self).outcome(pages, names),
                ),
    {
        let ghost before = *self;
        let mut phase = AppendPhase::Finished;
        std::mem::swap(&mut phase, &mut self.phase);
        match phase {
            AppendPhase::Writing { pending, after } => {
                let fresh = ArchiveRoot {
                    format: 1,
                    height: pending.height,
                    start: pending.start,
                    end: pending.end,
                    object,
                };
                proof {
                    assert(fresh == catalog::root_of(pending.page@, pending.height, object));
                    assert(self.path_view() =~= before.path_view());
                }
                let step = match after {
                    AfterWrite::Top => {
                        self.phase = AppendPhase::Finished;
                        CatalogStep::Done(fresh)
                    },
                    AfterWrite::Replace => {
                        let mut roots: Vec<ArchiveRoot> = Vec::new();
                        roots.push(fresh);
                        assert(roots@ =~= seq![fresh]);
                        self.ascend(roots)
                    },
                    AfterWrite::Beside(left) => {
                        let mut roots: Vec<ArchiveRoot> = Vec::new();
                        roots.push(left);
                        roots.push(fresh);
                        assert(roots@ =~= seq![left, fresh]);
                        self.ascend(roots)
                    },
                    AfterWrite::Split(right) => self.write_branch(
                        right,
                        pending.height,
                        AfterWrite::Beside(fresh),
                    ),
                };
                assert(before.after_store(object, *self));
                step
            },
            _ => vstd::pervasive::unreached(),
        }
    }
}

/// Every storage operation brings a preparation nearer to its end: fewer are
/// left than before.
pub proof fn law_preparation_moves_on(before: CatalogAppend, after: CatalogAppend)
    requires
        before.wf(),
        before.moves_on(after),
    ensures
        after.steps_left() < before.steps_left(),
{
    assert(before.path_view().len() == before.path@.len());
    assert(after.path_view().len() == after.path@.len());
}

/// The state after the one at `i` follows from it by one storage operation.
pub open spec fn follows(run: Seq<CatalogAppend>, i: int) -> bool {
    run[i].moves_on(run[i + 1])
}

/// A preparation ends: however its pages come back, it performs no more storage
/// operations than are left at its beginning, and for one that has just begun
/// that is at most three for each level of the catalog.
pub proof fn law_preparation_ends(run: Seq<CatalogAppend>)
    requires
        run.len() > 0,
        forall|i: int| 0 <= i < run.len() ==> (#[trigger] run[i]).wf(),
        forall|i: int| 0 <= i < run.len() - 1 ==> #[trigger] follows(run, i),
    ensures
        run.len() - 1 + run.last().steps_left() <= run[0].steps_left(),
        run[0].path@.len() == 0 ==> run.len() - 1 <= 3 * (MAX_HEIGHT + 1),
    decreases run.len(),
{
    if run.len() > 1 {
        let earlier = run.drop_last();
        let last = run.len() - 1;
        assert forall|i: int| 0 <= i < earlier.len() - 1 implies #[trigger] follows(
            earlier,
            i,
        ) by {
            assert(follows(run, i));
        }
        law_preparation_ends(earlier);
        assert(follows(run, last - 1));
        law_preparation_moves_on(run[last - 1], run[last]);
    }
}

/// The catalog of archived segments.
pub struct ArchiveCatalog;

impl ArchiveCatalog {
    /// A catalog; its pages are wherever the caller keeps them.
    pub fn new() -> ArchiveCatalog {
        ArchiveCatalog
    }

    /// Starts preparing a new immutable root with `entry` at the end of
    /// `previous`. No control state or hot data is changed.
    ///
    /// The entry must be a nonempty range that begins where the catalog ends.
    pub fn prepare_append(
        &self,
        previous: Option<ArchiveRoot>,
        entry: ArchivedSegment,
    ) -> (result: Result<(CatalogAppend, CatalogStep), ArchiveError>)
        ensures
            result matches Ok((append, _)) ==> append.path@.len() == 0 && match previous {
                None => append.top_height == 0 && append.stores(
                    PageView::Leaf(seq![entry]),
                    0,
                    AfterView::Top,
                ),
                Some(root) => append.top_height == root.height && append.phase
                    == (AppendPhase::Loading { root, entry }),
            },
            if entry.start >= entry.end || (previous matches Some(root) && root.end
                != entry.start) {
                catalog::corrupt(result, "archive append is not contiguous")
            } else {
                match previous {
                    None => {
                        &&& result matches Ok((append, step)) && append.wf() && append.awaits(step)
                            && forall|pages: Pages, object: spec_fn(PageView) -> ArchiveObjectRef|
                            #[trigger] append.outcome(pages, object) == tree::stored(
                                object,
                                PageView::Leaf(seq![entry]),
                                0,
                            )
                    },
                    Some(root) => if !catalog::root_ok(root) {
                        catalog::corrupt(result, "invalid catalog root")
                    } else {
                        result matches Ok((append, step)) && append.wf() && append.awaits(step)
                            && step == CatalogStep::Load(root) && forall|
                            pages: Pages,
                            object: spec_fn(PageView) -> ArchiveObjectRef,
                        | #[trigger]
                            append.outcome(pages, object) == tree::new_root(
                                object,
                                tree::appended(pages, object, root, entry),
                                root.height,
                            )
                    },
                }
            },
    {
        let gap: bool = match &previous {
            Some(root) => root.end != entry.start,
            None => false,
        };
        if entry.start >= entry.end || gap {
            return Err(ArchiveError::Corrupt("archive append is not contiguous".to_owned()));
        }
        match previous {
            None => {
                let mut append = CatalogAppend {
                    path: Vec::new(),
                    top_height: 0,
                    phase: AppendPhase::Finished,
                };
                let mut entries: Vec<ArchivedSegment> = Vec::new();
                entries.push(entry);
                assert(entries@ =~= seq![entry]);
                let step = append.write_leaf(entries, AfterWrite::Top);
                Ok((append, step))
            },
            Some(root) => {
                match catalog::check_root(&root) {
                    Ok(()) => {},
                    Err(error) => {
                        return Err(error);
                    },
                }
                let step = CatalogStep::Load(root.clone());
                let append = CatalogAppend {
                    path: Vec::new(),
                    top_height: root.height,
                    phase: AppendPhase::Loading { root, entry },
                };
                assert(append.path_view() =~= Seq::<PathView>::empty());
                Ok((append, step))
            },
        }
    }
}

/// A preparation begins exactly with a nonempty segment that continues the
/// catalog, whose root must be within limits: it reads the old root first, or
/// stores the first leaf of a new catalog.
pub proof fn law_preparation_needs_a_continuation(
    catalog: &ArchiveCatalog,
    previous: Option<ArchiveRoot>,
    entry: ArchivedSegment,
    result: Result<(CatalogAppend, CatalogStep), ArchiveError>,
)
    requires
        call_ensures(ArchiveCatalog::prepare_append, (catalog, previous, entry), result),
    ensures
        result is Ok <==> entry.start < entry.end && (previous is None || {
            let root = previous->Some_0;
            &&& root.end == entry.start
            &&& root.format == 1 && root.height <= 16 && root.start < root.end
                && root.object.byte_len <= 65536
        }),
        result is Err ==> result->Err_0 is Corrupt,
        result is Ok && previous is Some ==> result->Ok_0.1 == CatalogStep::Load(previous->Some_0),
        result is Ok && previous is None ==> {
            let step = result->Ok_0.1;
            &&& step is Write
            &&& step->page is Leaf
            &&& step->page->Leaf_0@ == seq![entry]
            &&& step->height == 0
        },
{
    if result is Ok && previous is None {
        let (append, step) = result->Ok_0;
        assert(append.awaits(step));
        assert(step->page@ == PageView::Leaf(seq![entry]));
    }
}

/// A page that was read leads on: a branch to its last child, a leaf with room
/// to the same leaf with the new segment at its end, and a full leaf to a new one
/// with that segment alone. A page that does not fit its reference is refused.
pub proof fn law_read_pages_lead_to_the_end(
    append: &mut CatalogAppend,
    page: Page,
    result: Result<CatalogStep, ArchiveError>,
    fits: Result<(), ArchiveError>,
)
    requires
        old(append).wf(),
        old(append).phase is Loading,
        call_ensures(CatalogAppend::loaded, (append, page), result),
        call_ensures(catalog::check_page, (&old(append).phase->Loading_root, &page), fits),
    ensures
        result is Ok ==> fits is Ok,
        page is Leaf ==> (result is Ok <==> fits is Ok),
        result is Err ==> result->Err_0 is Corrupt,
        result is Ok && page is Branch ==> result->Ok_0 == CatalogStep::Load(
            page->Branch_0@.last(),
        ),
        result is Ok && page is Leaf ==> {
            let step = result->Ok_0;
            let entry = old(append).phase->Loading_entry;
            &&& step is Write && step->height == 0 && step->page is Leaf
            &&& page->Leaf_0@.len() < 32 ==> step->page->Leaf_0@ == page->Leaf_0@.push(entry)
            &&& page->Leaf_0@.len() >= 32 ==> step->page->Leaf_0@ == seq![entry]
        },
{
    if result is Ok {
        let step = result->Ok_0;
        assert(final(append).awaits(step));
        if page is Leaf {
            assert(page@ == PageView::Leaf(page->Leaf_0@));
        } else {
            assert(page@ == PageView::Branch(page->Branch_0@));
        }
    }
}

/// A stored page takes its place in the branch above, behind the children that
/// stay: in one page if they are at most 32, else the first 32 of them first and
/// the others next. Above the topmost branch one page is the new root, and two go
/// under a root of their own, one level higher.
pub proof fn law_stored_pages_take_their_place(
    append: &mut CatalogAppend,
    object: ArchiveObjectRef,
    step: CatalogStep,
    fresh: ArchiveRoot,
    roots: Seq<ArchiveRoot>,
)
    requires
        old(append).wf(),
        old(append).phase is Writing,
        call_ensures(CatalogAppend::written, (append, object), step),
        fresh.format == 1,
        fresh.object == object,
        fresh.height == old(append).phase->pending.height,
        fresh.start == old(append).phase->pending.start,
        fresh.end == old(append).phase->pending.end,
        roots == match old(append).phase->after {
            AfterWrite::Beside(left) => seq![left, fresh],
            _ => seq![fresh],
        },
    ensures
        old(append).phase->after is Top ==> step == CatalogStep::Done(fresh),
        old(append).phase->after is Split ==> {
            &&& step is Write && step->page is Branch
            &&& step->page->Branch_0@ == old(append).phase->after->Split_0@
            &&& step->height == old(append).phase->pending.height
        },
        old(append).phase->after is Replace && old(append).path@.len() == 0 ==> step
            == CatalogStep::Done(fresh),
        old(append).phase->after is Beside && old(append).path@.len() == 0 ==> {
            &&& step is Write && step->page is Branch
            &&& step->page->Branch_0@ == roots
            &&& step->height == old(append).top_height + 1
        },
        (old(append).phase->after is Replace || old(append).phase->after is Beside) && old(
            append,
        ).path@.len() > 0 ==> {
            let above = old(append).path@.last();
            let grown = above.children@ + roots;
            &&& step is Write && step->page is Branch && step->height == above.height
            &&& grown.len() <= 32 ==> step->page->Branch_0@ == grown
            &&& grown.len() > 32 ==> step->page->Branch_0@ == grown.take(32)
        },
{
    let pending = old(append).phase->pending;
    assert(fresh == catalog::root_of(pending.page@, pending.height, object));
    assert(final(append).awaits(step));
    assert(old(append).path_view().len() == old(append).path@.len());
    if old(append).path@.len() > 0 {
        assert(old(append).path_view().last() == old(append).path@.last()@);
    }
}

} // verus!
