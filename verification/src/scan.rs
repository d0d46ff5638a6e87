//! Reading a catalog in order, one page at a time.

use crate::archive::{ArchiveError, FANOUT};
use crate::catalog;
use crate::catalog::{ArchiveRoot, ArchivedSegment, Page, PageView};
use crate::prepare::ArchiveCatalog;
use crate::tree;
use crate::tree::Pages;
use vstd::prelude::*;

verus! {

/// An ordered walk over the segments that reach beyond a record index. It
/// keeps at most a fanout of siblings for each level, never all history.
pub struct CatalogScan {
    /// Pages still to be read, the next one last.
    pub stack: Vec<ArchiveRoot>,
    /// Segments that end at or before this record index are skipped.
    pub start: u64,
}

/// The segments that reach beyond `start`.
pub open spec fn beyond(segments: Seq<ArchivedSegment>, start: u64) -> Seq<ArchivedSegment>
    decreases segments.len(),
{
    if segments.len() == 0 {
        Seq::empty()
    } else {
        let rest = beyond(segments.drop_last(), start);
        if segments.last().end > start {
            rest.push(segments.last())
        } else {
            rest
        }
    }
}

/// What the walk still has to yield: the segments below the last page, then
/// those below the one before it, and so on.
pub open spec fn remaining(pages: Pages, stack: Seq<ArchiveRoot>, start: u64) -> Seq<
    ArchivedSegment,
>
    decreases stack.len(),
{
    if stack.len() == 0 {
        Seq::empty()
    } else {
        beyond(tree::entries(pages, stack.last()), start) + remaining(
            pages,
            stack.drop_last(),
            start,
        )
    }
}

pub proof fn lemma_beyond_concat(a: Seq<ArchivedSegment>, b: Seq<ArchivedSegment>, start: u64)
    ensures
        beyond(a + b, start) == beyond(a, start) + beyond(b, start),
    decreases b.len(),
{
    if b.len() == 0 {
        assert(a + b =~= a);
        assert(beyond(a, start) + beyond(b, start) =~= beyond(a, start));
    } else {
        assert((a + b).drop_last() =~= a + b.drop_last());
        lemma_beyond_concat(a, b.drop_last(), start);
        assert((beyond(a, start) + beyond(b.drop_last(), start)).push(b.last()) =~= beyond(
            a,
            start,
        ) + beyond(b.drop_last(), start).push(b.last()));
    }
}

/// Segments that all end at or before `start` yield nothing.
proof fn lemma_nothing_beyond(segments: Seq<ArchivedSegment>, start: u64)
    requires
        forall|i: int| 0 <= i < segments.len() ==> (#[trigger] segments[i]).end <= start,
    ensures
        beyond(segments, start) == Seq::<ArchivedSegment>::empty(),
    decreases segments.len(),
{
    if segments.len() > 0 {
        assert(segments[segments.len() - 1].end <= start);
        lemma_nothing_beyond(segments.drop_last(), start);
    }
}

proof fn lemma_span_ends(spans: Seq<(u64, u64)>, start: u64, i: int, j: int)
    requires
        catalog::contiguous(spans, start),
        0 <= i <= j < spans.len(),
    ensures
        spans[i].1 <= spans[j].1,
    decreases j - i,
{
    if i < j {
        lemma_span_ends(spans, start, i, j - 1);
        assert(catalog::placed(spans, start, j));
    }
}

/// Every segment below a readable root ends within the root's range.
pub proof fn lemma_entries_end_within(pages: Pages, root: ArchiveRoot)
    requires
        tree::readable(pages, root),
    ensures
        forall|i: int|
            0 <= i < tree::entries(pages, root).len() ==> (#[trigger] tree::entries(
                pages,
                root,
            )[i]).end <= root.end,
    decreases root.height, 1nat, 0nat,
{
    match pages[root.object] {
        PageView::Leaf(segments) => {
            let spans = catalog::leaf_spans(segments);
            assert(tree::entries(pages, root) == segments);
            assert forall|i: int| 0 <= i < segments.len() implies (#[trigger] segments[i]).end
                <= root.end by {
                lemma_span_ends(spans, root.start, i, segments.len() - 1);
                assert(spans[i] == (segments[i].start, segments[i].end));
            }
        },
        PageView::Branch(children) => {
            let spans = catalog::root_spans(children);
            assert forall|i: int| 0 <= i < children.len() implies (#[trigger] children[i]).end
                <= root.end && children[i].height < root.height && tree::readable(
                pages,
                children[i],
            ) by {
                lemma_span_ends(spans, root.start, i, children.len() - 1);
                assert(spans[i] == (children[i].start, children[i].end));
            }
            lemma_children_end_within(pages, children, root.height, root.end);
            assert(tree::entries(pages, root) == tree::entries_of(pages, children, root.height));
        },
    }
}

proof fn lemma_children_end_within(
    pages: Pages,
    roots: Seq<ArchiveRoot>,
    height: u32,
    end: u64,
)
    requires
        forall|i: int|
            0 <= i < roots.len() ==> (#[trigger] roots[i]).end <= end && roots[i].height < height
                && tree::readable(pages, roots[i]),
    ensures
        forall|i: int|
            0 <= i < tree::entries_of(pages, roots, height).len() ==> (#[trigger] tree::entries_of(
                pages,
                roots,
                height,
            )[i]).end <= end,
    decreases height, 0nat, roots.len(),
{
    if roots.len() > 0 {
        let last = roots.last();
        assert(roots[roots.len() - 1] == last);
        assert forall|i: int| 0 <= i < roots.drop_last().len() implies (
        #[trigger] roots.drop_last()[i]).end <= end && roots.drop_last()[i].height < height
            && tree::readable(pages, roots.drop_last()[i]) by {
            assert(roots.drop_last()[i] == roots[i]);
        }
        lemma_children_end_within(pages, roots.drop_last(), height, end);
        lemma_entries_end_within(pages, last);
        let before = tree::entries_of(pages, roots.drop_last(), height);
        let all = tree::entries_of(pages, roots, height);
        assert(all == before + tree::entries(pages, last));
        assert forall|i: int| 0 <= i < all.len() implies (#[trigger] all[i]).end <= end by {
            if i < before.len() {
                assert(all[i] == before[i]);
            } else {
                assert(all[i] == tree::entries(pages, last)[i - before.len()]);
            }
        }
    }
}

/// Reversed children on the stack yield what their parent stood for.
proof fn lemma_children_remaining(
    pages: Pages,
    stack: Seq<ArchiveRoot>,
    children: Seq<ArchiveRoot>,
    height: u32,
    start: u64,
)
    requires
        forall|i: int| 0 <= i < children.len() ==> (#[trigger] children[i]).height < height,
    ensures
        remaining(pages, stack + children.reverse(), start) == beyond(
            tree::entries_of(pages, children, height),
            start,
        ) + remaining(pages, stack, start),
    decreases children.len(),
{
    if children.len() == 0 {
        assert(stack + children.reverse() =~= stack);
        assert(beyond(tree::entries_of(pages, children, height), start) + remaining(
            pages,
            stack,
            start,
        ) =~= remaining(pages, stack, start));
    } else {
        let first = children[0];
        let rest = children.drop_first();
        let all = stack + children.reverse();
        assert(all.drop_last() =~= stack + rest.reverse());
        assert(all.last() == first);
        assert forall|i: int| 0 <= i < rest.len() implies (#[trigger] rest[i]).height < height by {
            assert(rest[i] == children[i + 1]);
        }
        lemma_children_remaining(pages, stack, rest, height, start);
        tree::lemma_entries_concat(pages, seq![first], rest, height);
        tree::lemma_single(pages, first, height);
        assert(seq![first] + rest =~= children);
        lemma_beyond_concat(
            tree::entries(pages, first),
            tree::entries_of(pages, rest, height),
            start,
        );
        assert(beyond(tree::entries(pages, first), start) + (beyond(
            tree::entries_of(pages, rest, height),
            start,
        ) + remaining(pages, stack, start)) =~= (beyond(tree::entries(pages, first), start)
            + beyond(tree::entries_of(pages, rest, height), start)) + remaining(
            pages,
            stack,
            start,
        ));
    }
}

/// The last page of a stack that reaches beyond `start`.
pub open spec fn last_beyond(stack: Seq<ArchiveRoot>, start: u64) -> Option<ArchiveRoot>
    decreases stack.len(),
{
    if stack.len() == 0 {
        None
    } else if stack.last().end > start {
        Some(stack.last())
    } else {
        last_beyond(stack.drop_last(), start)
    }
}

proof fn lemma_none_beyond(stack: Seq<ArchiveRoot>, start: u64)
    requires
        forall|i: int| 0 <= i < stack.len() ==> (#[trigger] stack[i]).end <= start,
    ensures
        last_beyond(stack, start) is None,
    decreases stack.len(),
{
    if stack.len() > 0 {
        assert(stack[stack.len() - 1].end <= start);
        lemma_none_beyond(stack.drop_last(), start);
    }
}

proof fn lemma_last_beyond(stack: Seq<ArchiveRoot>, start: u64, k: int)
    requires
        0 <= k < stack.len(),
        stack[k].end > start,
        forall|i: int| k < i < stack.len() ==> (#[trigger] stack[i]).end <= start,
    ensures
        last_beyond(stack, start) == Some(stack[k]),
    decreases stack.len(),
{
    if k < stack.len() - 1 {
        assert(stack[stack.len() - 1].end <= start);
        assert forall|i: int| k < i < stack.drop_last().len() implies (
        #[trigger] stack.drop_last()[i]).end <= start by {
            assert(stack.drop_last()[i] == stack[i]);
        }
        lemma_last_beyond(stack.drop_last(), start, k);
    }
}

/// References of one height.
pub open spec fn level_count(stack: Seq<ArchiveRoot>, height: int) -> nat
    decreases stack.len(),
{
    if stack.len() == 0 {
        0
    } else {
        level_count(stack.drop_last(), height) + if stack.last().height == height {
            1nat
        } else {
            0
        }
    }
}

/// At most a fanout of references for each height, and higher ones first.
pub open spec fn narrow(stack: Seq<ArchiveRoot>) -> bool {
    &&& forall|i: int, j: int|
        0 <= i < j < stack.len() ==> (#[trigger] stack[i]).height >= (#[trigger] stack[j]).height
    &&& forall|height: int| #[trigger] level_count(stack, height) <= FANOUT
}

/// Every reference stands at least this high.
pub open spec fn at_least(stack: Seq<ArchiveRoot>, height: u32) -> bool {
    forall|i: int| 0 <= i < stack.len() ==> (#[trigger] stack[i]).height >= height
}

proof fn lemma_count_concat(a: Seq<ArchiveRoot>, b: Seq<ArchiveRoot>, height: int)
    ensures
        level_count(a + b, height) == level_count(a, height) + level_count(b, height),
    decreases b.len(),
{
    if b.len() == 0 {
        assert(a + b =~= a);
    } else {
        assert((a + b).drop_last() =~= a + b.drop_last());
        assert((a + b).last() == b.last());
        lemma_count_concat(a, b.drop_last(), height);
    }
}

proof fn lemma_count_bounds(stack: Seq<ArchiveRoot>, height: int)
    ensures
        level_count(stack, height) <= stack.len(),
        (forall|i: int| 0 <= i < stack.len() ==> (#[trigger] stack[i]).height != height)
            ==> level_count(stack, height) == 0,
    decreases stack.len(),
{
    if stack.len() > 0 {
        lemma_count_bounds(stack.drop_last(), height);
        if forall|i: int| 0 <= i < stack.len() ==> (#[trigger] stack[i]).height != height {
            assert(stack[stack.len() - 1].height != height);
            assert forall|i: int| 0 <= i < stack.drop_last().len() implies (
            #[trigger] stack.drop_last()[i]).height != height by {
                assert(stack[i].height != height);
            }
        }
    }
}

/// Taking references off keeps a stack narrow, and what lies below one of them
/// stands at least as high.
proof fn lemma_narrow_take(stack: Seq<ArchiveRoot>, k: int)
    requires
        narrow(stack),
        0 <= k <= stack.len(),
    ensures
        narrow(stack.take(k)),
        k < stack.len() ==> at_least(stack.take(k), stack[k].height),
{
    assert forall|height: int| #[trigger] level_count(stack.take(k), height) <= FANOUT by {
        lemma_count_concat(stack.take(k), stack.skip(k), height);
        assert(stack.take(k) + stack.skip(k) =~= stack);
    }
}

/// The children of a page that stood lowest keep a stack narrow.
proof fn lemma_narrow_children(stack: Seq<ArchiveRoot>, root: ArchiveRoot, children: Seq<ArchiveRoot>)
    requires
        narrow(stack),
        at_least(stack, root.height),
        catalog::page_ok(root, PageView::Branch(children)),
    ensures
        narrow(stack + children.reverse()),
{
    let pushed = children.reverse();
    let all = stack + pushed;
    assert forall|i: int| 0 <= i < pushed.len() implies (#[trigger] pushed[i]).height + 1
        == root.height by {
        assert(pushed[i] == children[children.len() - 1 - i]);
    }
    assert forall|i: int, j: int| 0 <= i < j < all.len() implies (#[trigger] all[i]).height >= (
    #[trigger] all[j]).height by {
        if j >= stack.len() {
            assert(all[j] == pushed[j - stack.len()]);
        }
        if i >= stack.len() {
            assert(all[i] == pushed[i - stack.len()]);
        }
    }
    assert(pushed.len() == catalog::root_spans(children).len());
    assert forall|height: int| #[trigger] level_count(all, height) <= FANOUT by {
        lemma_count_concat(stack, pushed, height);
        lemma_count_bounds(pushed, height);
        lemma_count_bounds(stack, height);
        assert(level_count(stack, height) <= FANOUT);
    }
}

/// References of all heights from 0 to `top`.
spec fn levels_total(stack: Seq<ArchiveRoot>, top: int) -> nat
    decreases top + 1,
{
    if top < 0 {
        0
    } else {
        levels_total(stack, top - 1) + level_count(stack, top)
    }
}

proof fn lemma_levels_total(stack: Seq<ArchiveRoot>, top: int)
    requires
        stack.len() > 0,
        top >= 0,
    ensures
        levels_total(stack, top) == levels_total(stack.drop_last(), top) + if stack.last().height
            <= top {
            1nat
        } else {
            0
        },
    decreases top,
{
    if top > 0 {
        lemma_levels_total(stack, top - 1);
    } else {
        reveal_with_fuel(levels_total, 2);
    }
}

proof fn lemma_levels_cover(stack: Seq<ArchiveRoot>, top: int)
    requires
        top >= 0,
        forall|i: int| 0 <= i < stack.len() ==> (#[trigger] stack[i]).height <= top,
    ensures
        levels_total(stack, top) == stack.len(),
    decreases stack.len(),
{
    if stack.len() == 0 {
        lemma_levels_bound(stack, top, 0);
    } else {
        lemma_levels_total(stack, top);
        assert(stack[stack.len() - 1].height <= top);
        assert forall|i: int| 0 <= i < stack.drop_last().len() implies (
        #[trigger] stack.drop_last()[i]).height <= top by {
            assert(stack[i].height <= top);
        }
        lemma_levels_cover(stack.drop_last(), top);
    }
}

proof fn lemma_levels_bound(stack: Seq<ArchiveRoot>, top: int, most: nat)
    requires
        top >= -1,
        forall|height: int| #[trigger] level_count(stack, height) <= most,
    ensures
        levels_total(stack, top) <= most * (top + 1),
    decreases top + 1,
{
    if top >= 0 {
        lemma_levels_bound(stack, top - 1, most);
        assert(level_count(stack, top) <= most);
        assert(most * top + most == most * (top + 1)) by (nonlinear_arith);
    }
}

/// A walk keeps at most a fanout of pages for each level below the root that it
/// began with, however long the history is.
pub proof fn law_walk_keeps_few_pages(scan: CatalogScan, top: u32)
    requires
        narrow(scan.stack@),
        forall|i: int| 0 <= i < scan.stack@.len() ==> (#[trigger] scan.stack@[i]).height <= top,
    ensures
        scan.stack@.len() <= FANOUT * (top + 1),
{
    lemma_levels_cover(scan.stack@, top as int);
    lemma_levels_bound(scan.stack@, top as int, FANOUT as nat);
}

impl CatalogScan {
    /// What the walk still has to yield.
    pub open spec fn rest(self, pages: Pages) -> Seq<ArchivedSegment> {
        remaining(pages, self.stack@, self.start)
    }

    /// The page that comes next in the order of the walk.
    pub open spec fn upcoming(self) -> Option<ArchiveRoot> {
        last_beyond(self.stack@, self.start)
    }

    /// The next page to read, skipping pages that end at or before the start;
    /// `None` at the end of the walk. A page outside of the catalog's limits
    /// is not read at all.
    pub fn next(&mut self) -> (result: Result<Option<ArchiveRoot>, ArchiveError>)
        ensures
            final(self).start == old(self).start,
            match old(self).upcoming() {
                None => result == Ok::<Option<ArchiveRoot>, ArchiveError>(None),
                Some(node) => if catalog::root_ok(node) {
                    result == Ok::<Option<ArchiveRoot>, ArchiveError>(Some(node))
                } else {
                    catalog::corrupt(result, "invalid catalog root")
                },
            },
            forall|pages: Pages|
                #![trigger final(self).rest(pages)]
                tree::all_readable(pages, old(self).stack@) ==> {
                    &&& result is Ok
                    &&& tree::all_readable(pages, final(self).stack@)
                    &&& result->Ok_0 matches Some(node) ==> tree::readable(pages, node)
                    &&& old(self).rest(pages) == match result->Ok_0 {
                        Some(node) => beyond(tree::entries(pages, node), old(self).start)
                            + final(self).rest(pages),
                        None => final(self).rest(pages),
                    }
                },
            match old(self).upcoming() {
                Some(node) => {
                    let k = final(self).stack@.len() as int;
                    &&& k < old(self).stack@.len()
                    &&& final(self).stack@ == old(self).stack@.take(k)
                    &&& node == old(self).stack@[k]
                    &&& forall|i: int|
                        k < i < old(self).stack@.len() ==> (#[trigger] old(self).stack@[i]).end
                            <= old(self).start
                },
                None => final(self).stack@.len() == 0,
            },
            narrow(old(self).stack@) ==> narrow(final(self).stack@) && (old(
                self,
            ).upcoming() matches Some(node) ==> at_least(final(self).stack@, node.height)),
    {
        let ghost all = self.stack@;
        let ghost start = self.start;
        let popped = self.pop_next();
        let ghost found = popped;
        proof {
            if found is Some {
                lemma_last_beyond(all, start, self.stack@.len() as int);
            } else {
                lemma_none_beyond(all, start);
            }
            if narrow(all) {
                lemma_narrow_take(all, self.stack@.len() as int);
                assert(all.take(self.stack@.len() as int) =~= self.stack@);
            }
        }
        let result = match popped {
            None => Ok(None),
            Some(node) => match catalog::check_root(&node) {
                Ok(()) => Ok(Some(node)),
                Err(error) => Err(error),
            },
        };
        proof {
            assert forall|pages: Pages|
                #![trigger self.rest(pages)]
                tree::all_readable(pages, all) implies {
                &&& result is Ok
                &&& result->Ok_0 == found
                &&& tree::all_readable(pages, self.stack@)
                &&& found matches Some(node) ==> tree::readable(pages, node)
                &&& remaining(pages, all, start) == match found {
                    Some(node) => beyond(tree::entries(pages, node), start) + self.rest(pages),
                    None => self.rest(pages),
                }
            } by {
                if found is Some {
                    assert(tree::readable(pages, all[self.stack@.len() as int]));
                }
            }
        }
        result
    }

    fn pop_next(&mut self) -> (root: Option<ArchiveRoot>)
        ensures
            final(self).start == old(self).start,
            final(self).stack@.len() < old(self).stack@.len() || root is None,
            match root {
                None => {
                    &&& final(self).stack@.len() == 0
                    &&& forall|i: int|
                        0 <= i < old(self).stack@.len() ==> (#[trigger] old(self).stack@[i]).end
                            <= old(self).start
                },
                Some(node) => {
                    &&& node.end > old(self).start
                    &&& final(self).stack@ == old(self).stack@.take(
                        final(self).stack@.len() as int,
                    )
                    &&& node == old(self).stack@[final(self).stack@.len() as int]
                    &&& forall|i: int|
                        final(self).stack@.len() < i < old(self).stack@.len() ==> (#[trigger] old(
                            self,
                        ).stack@[i]).end <= old(self).start
                },
            },
            forall|pages: Pages|
                #![trigger final(self).rest(pages)]
                tree::all_readable(pages, old(self).stack@) ==> {
                    &&& tree::all_readable(pages, final(self).stack@)
                    &&& old(self).rest(pages) == match root {
                        Some(node) => beyond(tree::entries(pages, node), old(self).start)
                            + final(self).rest(pages),
                        None => final(self).rest(pages),
                    }
                },
    {
        let ghost all = self.stack@;
        let ghost start = self.start;
        proof {
            assert(all.take(all.len() as int) =~= all);
        }
        while self.stack.len() > 0
            invariant
                start == old(self).start,
                all == old(self).stack@,
                self.start == start,
                self.stack@.len() <= all.len(),
                self.stack@ == all.take(self.stack@.len() as int),
                forall|i: int|
                    self.stack@.len() <= i < all.len() ==> (#[trigger] all[i]).end <= start,
                forall|pages: Pages|
                    #![trigger remaining(pages, all, start)]
                    tree::all_readable(pages, all) ==> remaining(pages, self.stack@, start)
                        == remaining(pages, all, start),
            decreases self.stack@.len(),
        {
            let ghost now = self.stack@;
            if let Some(node) = self.stack.pop() {
                proof {
                    assert(now.last() == node);
                    assert(self.stack@ =~= now.drop_last());
                    assert(self.stack@ =~= all.take(self.stack@.len() as int));
                    assert(node == all[self.stack@.len() as int]);
                }
                if node.end > self.start {
                    proof {
                        assert forall|pages: Pages|
                            #![trigger self.rest(pages)]
                            tree::all_readable(pages, all) implies tree::all_readable(
                            pages,
                            self.stack@,
                        ) && remaining(pages, all, start) == beyond(
                            tree::entries(pages, node),
                            start,
                        ) + self.rest(pages) by {
                            assert(remaining(pages, now, start) == remaining(pages, all, start));
                            assert forall|i: int| 0 <= i < self.stack@.len() implies tree::readable(
                                pages,
                                #[trigger] self.stack@[i],
                            ) by {
                                assert(self.stack@[i] == all[i]);
                            }
                        }
                    }
                    return Some(node);
                }
                proof {
                    assert forall|pages: Pages|
                        #![trigger remaining(pages, all, start)]
                        tree::all_readable(pages, all) implies remaining(pages, self.stack@, start)
                        == remaining(pages, all, start) by {
                        assert(tree::readable(pages, all[self.stack@.len() as int]));
                        lemma_entries_end_within(pages, node);
                        lemma_nothing_beyond(tree::entries(pages, node), start);
                        assert(Seq::<ArchivedSegment>::empty() + remaining(
                            pages,
                            self.stack@,
                            start,
                        ) =~= remaining(pages, self.stack@, start));
                    }
                }
            }
        }
        proof {
            assert forall|pages: Pages|
                #![trigger self.rest(pages)]
                tree::all_readable(pages, all) implies tree::all_readable(pages, self.stack@)
                && remaining(pages, all, start) == self.rest(pages) by {
                assert(remaining(pages, self.stack@, start) == remaining(pages, all, start));
            }
        }
        None
    }

    /// Takes the page that `root` names: the segments of a leaf that reach
    /// beyond the start come out, the children of a branch are read next.
    pub fn loaded(&mut self, root: &ArchiveRoot, page: Page) -> (result: Result<
        Vec<ArchivedSegment>,
        ArchiveError,
    >)
        ensures
            final(self).start == old(self).start,
            match catalog::page_refusal(*root, page@) {
                Some(reason) => catalog::corrupt(result, reason) && final(self).stack@ == old(
                    self,
                ).stack@,
                None => {
                    &&& result is Ok
                    &&& match page@ {
                        PageView::Leaf(segments) => {
                            &&& result->Ok_0@ == beyond(segments, old(self).start)
                            &&& final(self).stack@ == old(self).stack@
                        },
                        PageView::Branch(children) => {
                            &&& result->Ok_0@ == Seq::<ArchivedSegment>::empty()
                            &&& final(self).stack@ == old(self).stack@ + children.reverse()
                        },
                    }
                },
            },
            narrow(old(self).stack@) && at_least(old(self).stack@, root.height) ==> narrow(
                final(self).stack@,
            ),
            forall|pages: Pages|
                #![trigger final(self).rest(pages)]
                result is Ok && tree::readable(pages, *root) && tree::all_readable(
                    pages,
                    old(self).stack@,
                ) && pages[root.object] == page@ ==> {
                    &&& tree::all_readable(pages, final(self).stack@)
                    &&& beyond(tree::entries(pages, *root), old(self).start) + old(self).rest(pages)
                        == result->Ok_0@ + final(self).rest(pages)
                },
    {
        let ghost before = *self;
        let ghost view = page@;
        match catalog::check_page(root, &page) {
            Ok(()) => {},
            Err(error) => {
                return Err(error);
            },
        }
        let mut found: Vec<ArchivedSegment> = Vec::new();
        match page {
            Page::Leaf(segments) => {
                let ghost all = segments@;
                for segment in iter: segments
                    invariant
                        iter.seq() == all,
                        self.start == before.start,
                        self.stack == before.stack,
                        found@ == beyond(all.take(iter.index() as int), self.start),
                {
                    proof {
                        let i = iter.index() as int;
                        assert(all.take(i + 1).drop_last() =~= all.take(i));
                        assert(all.take(i + 1).last() == segment);
                    }
                    if segment.end > self.start {
                        found.push(segment);
                    }
                }
                proof {
                    assert(all.take(all.len() as int) =~= all);
                }
            },
            Page::Branch(children) => {
                let ghost all = children@;
                let mut children = children;
                proof {
                    assert(all.skip(all.len() as int).reverse() =~= Seq::<ArchiveRoot>::empty());
                    assert(all.take(all.len() as int) =~= all);
                    assert(before.stack@ + Seq::<ArchiveRoot>::empty() =~= before.stack@);
                }
                while children.len() > 0
                    invariant
                        children@.len() <= all.len(),
                        children@ == all.take(children@.len() as int),
                        self.start == before.start,
                        self.stack@ == before.stack@ + all.skip(
                            children@.len() as int,
                        ).reverse(),
                        found@ == Seq::<ArchivedSegment>::empty(),
                    decreases children@.len(),
                {
                    let ghost k = children@.len() as int;
                    if let Some(child) = children.pop() {
                        self.stack.push(child);
                        proof {
                            assert(child == all[k - 1]);
                            assert(children@ =~= all.take(k - 1));
                            assert(all.skip(k - 1).reverse() =~= all.skip(k).reverse().push(child));
                            assert(self.stack@ =~= before.stack@ + all.skip(k - 1).reverse());
                        }
                    }
                }
                proof {
                    assert(all.skip(0) =~= all);
                    if narrow(before.stack@) && at_least(before.stack@, root.height) {
                        lemma_narrow_children(before.stack@, *root, all);
                    }
                    assert forall|pages: Pages|
                        #![trigger self.rest(pages)]
                        tree::readable(pages, *root) && tree::all_readable(pages, before.stack@)
                            && pages[root.object] == view implies tree::all_readable(
                        pages,
                        self.stack@,
                    ) && beyond(tree::entries(pages, *root), before.start) + before.rest(pages)
                        == found@ + self.rest(pages) by {
                        assert forall|i: int| 0 <= i < self.stack@.len() implies tree::readable(
                            pages,
                            #[trigger] self.stack@[i],
                        ) by {
                            if i < before.stack@.len() {
                                assert(self.stack@[i] == before.stack@[i]);
                            } else {
                                let j = all.len() - 1 - (i - before.stack@.len());
                                assert(self.stack@[i] == all[j]);
                                assert(tree::readable(pages, all[j]));
                            }
                        }
                        lemma_children_remaining(
                            pages,
                            before.stack@,
                            all,
                            root.height,
                            before.start,
                        );
                        assert(found@ + self.rest(pages) =~= self.rest(pages));
                    }
                }
            },
        }
        Ok(found)
    }
}

impl ArchiveCatalog {
    /// Starts an ordered walk over the segments of `root` that reach beyond
    /// record index `start`. Nothing is read before the first page is asked
    /// for.
    pub fn scan_from(&self, root: ArchiveRoot, start: u64) -> (scan: CatalogScan)
        ensures
            scan.start == start,
            scan.stack@ == seq![root],
            narrow(scan.stack@),
            forall|pages: Pages|
                #![trigger scan.rest(pages)]
                scan.rest(pages) == beyond(tree::entries(pages, root), start),
    {
        let mut stack: Vec<ArchiveRoot> = Vec::new();
        stack.push(root);
        let scan = CatalogScan { stack, start };
        proof {
            assert(scan.stack@ =~= seq![root]);
            assert forall|height: int| #[trigger] level_count(scan.stack@, height) <= FANOUT by {
                lemma_count_bounds(scan.stack@, height);
            }
            assert forall|pages: Pages|
                #![trigger scan.rest(pages)]
                scan.rest(pages) == beyond(tree::entries(pages, root), start) by {
                reveal_with_fuel(remaining, 2);
                assert(scan.stack@.drop_last() =~= Seq::<ArchiveRoot>::empty());
                assert(beyond(tree::entries(pages, root), start)
                    + Seq::<ArchivedSegment>::empty() =~= beyond(
                    tree::entries(pages, root),
                    start,
                ));
            }
        }
        scan
    }
}

/// A walk over a grown catalog yields what a walk over the old one yields, and
/// then the new segment if it reaches beyond the start.
pub proof fn law_scan_after_append(
    segments: Seq<ArchivedSegment>,
    entry: ArchivedSegment,
    start: u64,
)
    ensures
        beyond(segments.push(entry), start) == if entry.end > start {
            beyond(segments, start).push(entry)
        } else {
            beyond(segments, start)
        },
{
    assert(segments.push(entry).drop_last() =~= segments);
}

/// A walk from the beginning yields every nonempty segment.
pub proof fn law_scan_from_zero_yields_all(segments: Seq<ArchivedSegment>)
    requires
        forall|i: int|
            0 <= i < segments.len() ==> (#[trigger] segments[i]).start < segments[i].end,
    ensures
        beyond(segments, 0) == segments,
    decreases segments.len(),
{
    if segments.len() > 0 {
        assert(segments[segments.len() - 1].start < segments[segments.len() - 1].end);
        assert forall|i: int| 0 <= i < segments.drop_last().len() implies (
        #[trigger] segments.drop_last()[i]).start < segments.drop_last()[i].end by {
            assert(segments.drop_last()[i] == segments[i]);
        }
        law_scan_from_zero_yields_all(segments.drop_last());
        assert(segments.drop_last().push(segments.last()) =~= segments);
    } else {
        assert(segments =~= Seq::<ArchivedSegment>::empty());
    }
}

proof fn lemma_beyond_is_filter(segments: Seq<ArchivedSegment>, start: u64)
    ensures
        beyond(segments, start) == segments.filter(|segment: ArchivedSegment| segment.end > start),
    decreases segments.len(),
{
    reveal(Seq::filter);
    if segments.len() > 0 {
        lemma_beyond_is_filter(segments.drop_last(), start);
    }
}

/// A walk begins with its root, and yields of a leaf exactly the segments that
/// end beyond its start, in order; the children of a branch are read next, the
/// first of them first, before anything that waited.
pub proof fn law_walks_yield_what_ends_beyond_their_start(
    catalog: &ArchiveCatalog,
    root: ArchiveRoot,
    start: u64,
    fresh: CatalogScan,
    scan: &mut CatalogScan,
    page: Page,
    result: Result<Vec<ArchivedSegment>, ArchiveError>,
    fits: Result<(), ArchiveError>,
)
    requires
        call_ensures(ArchiveCatalog::scan_from, (catalog, root, start), fresh),
        call_ensures(CatalogScan::loaded, (scan, &root, page), result),
        call_ensures(catalog::check_page, (&root, &page), fits),
    ensures
        fresh.start == start,
        fresh.stack@ == seq![root],
        final(scan).start == old(scan).start,
        result is Ok <==> fits is Ok,
        result is Err ==> result->Err_0 is Corrupt && final(scan).stack@ == old(scan).stack@,
        result is Ok && page is Leaf ==> {
            &&& result->Ok_0@ == page->Leaf_0@.filter(
                |segment: ArchivedSegment| segment.end > old(scan).start,
            )
            &&& final(scan).stack@ == old(scan).stack@
        },
        result is Ok && page is Branch ==> {
            &&& result->Ok_0@.len() == 0
            &&& final(scan).stack@ == old(scan).stack@ + page->Branch_0@.reverse()
        },
{
    if page is Leaf {
        assert(page@ == PageView::Leaf(page->Leaf_0@));
        lemma_beyond_is_filter(page->Leaf_0@, old(scan).start);
    } else {
        assert(page@ == PageView::Branch(page->Branch_0@));
    }
}

/// The next page of a walk is the latest one that ends beyond its start: those
/// after it are skipped for good, those before it wait. A walk is over exactly if
/// no page ends beyond its start; a page outside of the limits is not read.
pub proof fn law_walks_skip_only_what_ends_before_their_start(
    scan: &mut CatalogScan,
    result: Result<Option<ArchiveRoot>, ArchiveError>,
    k: int,
)
    requires
        call_ensures(CatalogScan::next, (scan,), result),
        -1 <= k < old(scan).stack@.len(),
        forall|i: int|
            k < i < old(scan).stack@.len() ==> (#[trigger] old(scan).stack@[i]).end <= old(
                scan,
            ).start,
        k >= 0 ==> old(scan).stack@[k].end > old(scan).start,
    ensures
        final(scan).start == old(scan).start,
        k < 0 ==> result is Ok && result->Ok_0 is None && final(scan).stack@.len() == 0,
        k >= 0 ==> {
            let node = old(scan).stack@[k];
            let valid = node.format == 1 && node.height <= 16 && node.start < node.end
                && node.object.byte_len <= 65536;
            &&& result is Ok <==> valid
            &&& result is Ok ==> result->Ok_0 == Some(node)
            &&& result is Err ==> result->Err_0 is Corrupt
            &&& final(scan).stack@ == old(scan).stack@.take(k)
        },
{
    if k < 0 {
        lemma_none_beyond(old(scan).stack@, old(scan).start);
    } else {
        lemma_last_beyond(old(scan).stack@, old(scan).start, k);
    }
}

/// A walk yields of a history exactly the segments that end beyond its start.
pub proof fn law_remaining_history_ends_beyond_the_start(
    catalog: &ArchiveCatalog,
    root: ArchiveRoot,
    start: u64,
    scan: CatalogScan,
    pages: Pages,
)
    requires
        call_ensures(ArchiveCatalog::scan_from, (catalog, root, start), scan),
    ensures
        scan.rest(pages) == tree::entries(pages, root).filter(
            |segment: ArchivedSegment| segment.end > start,
        ),
{
    lemma_beyond_is_filter(tree::entries(pages, root), start);
}

} // verus!
