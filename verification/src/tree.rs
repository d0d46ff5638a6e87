//! What a catalog root stands for, and what appending makes of it.

use crate::archive::{ArchiveObjectRef, FANOUT, MAX_HEIGHT, MAX_PAGE_BYTES};
use crate::catalog;
use crate::catalog::{ArchiveRoot, ArchivedSegment, PageView};
use vstd::prelude::*;

verus! {

/// The pages that a store holds.
pub type Pages = Map<ArchiveObjectRef, PageView>;

/// Every page below `root` is there, within limits, and fits its reference.
pub open spec fn readable(pages: Pages, root: ArchiveRoot) -> bool
    decreases root.height,
{
    &&& catalog::root_ok(root)
    &&& pages.contains_key(root.object)
    &&& catalog::page_ok(root, pages[root.object])
    &&& match pages[root.object] {
        PageView::Leaf(_) => true,
        PageView::Branch(children) => forall|i: int|
            0 <= i < children.len() ==> (#[trigger] children[i]).height < root.height && readable(
                pages,
                children[i],
            ),
    }
}

/// Every root is readable.
pub open spec fn all_readable(pages: Pages, roots: Seq<ArchiveRoot>) -> bool {
    forall|i: int| 0 <= i < roots.len() ==> readable(pages, #[trigger] roots[i])
}

/// The archived segments below `root`, in order.
pub open spec fn entries(pages: Pages, root: ArchiveRoot) -> Seq<ArchivedSegment>
    decreases root.height + 1, 0nat,
{
    match pages[root.object] {
        PageView::Leaf(segments) => segments,
        PageView::Branch(children) => entries_of(pages, children, root.height),
    }
}

/// The archived segments below roots that stand lower than `height`, in order.
pub open spec fn entries_of(pages: Pages, roots: Seq<ArchiveRoot>, height: u32) -> Seq<
    ArchivedSegment,
>
    decreases height as int, roots.len(),
{
    if roots.len() == 0 || roots.last().height >= height {
        Seq::empty()
    } else {
        entries_of(pages, roots.drop_last(), height) + entries(pages, roots.last())
    }
}

/// The reference of a page at `height` if `object` names the stored pages.
pub open spec fn stored(
    object: spec_fn(PageView) -> ArchiveObjectRef,
    page: PageView,
    height: u32,
) -> ArchiveRoot {
    catalog::root_of(page, height, object(page))
}

/// What stands in the place of a page with these entries after writing it
/// back: one page, or two where the fanout is exceeded.
pub open spec fn branch_roots(
    object: spec_fn(PageView) -> ArchiveObjectRef,
    children: Seq<ArchiveRoot>,
    height: u32,
) -> Seq<ArchiveRoot> {
    if children.len() > FANOUT {
        seq![
            stored(object, PageView::Branch(children.take(FANOUT as int)), height),
            stored(object, PageView::Branch(children.skip(FANOUT as int)), height),
        ]
    } else {
        seq![stored(object, PageView::Branch(children), height)]
    }
}

/// What stands in the place of a leaf after one more segment: the leaf written
/// anew, or the full leaf as it is beside a new one.
pub open spec fn leaf_roots(
    object: spec_fn(PageView) -> ArchiveObjectRef,
    root: ArchiveRoot,
    segments: Seq<ArchivedSegment>,
    entry: ArchivedSegment,
) -> Seq<ArchiveRoot> {
    if segments.len() >= FANOUT {
        seq![root, stored(object, PageView::Leaf(seq![entry]), 0)]
    } else {
        seq![stored(object, PageView::Leaf(segments.push(entry)), root.height)]
    }
}

/// What stands in the place of `root` after appending `entry`.
pub open spec fn appended(
    pages: Pages,
    object: spec_fn(PageView) -> ArchiveObjectRef,
    root: ArchiveRoot,
    entry: ArchivedSegment,
) -> Seq<ArchiveRoot>
    decreases root.height,
{
    match pages[root.object] {
        PageView::Leaf(segments) => leaf_roots(object, root, segments, entry),
        PageView::Branch(children) => if children.len() == 0 || children.last().height
            >= root.height {
            Seq::empty()
        } else {
            branch_roots(
                object,
                children.drop_last() + appended(pages, object, children.last(), entry),
                root.height,
            )
        },
    }
}

/// The new root: what stands in the place of the old one, under a page of its
/// own where that is two.
pub open spec fn new_root(
    object: spec_fn(PageView) -> ArchiveObjectRef,
    roots: Seq<ArchiveRoot>,
    height: u32,
) -> ArchiveRoot {
    if roots.len() == 1 {
        roots[0]
    } else {
        stored(object, PageView::Branch(roots), (height + 1) as u32)
    }
}

/// The store holds the page under the name that `object` gives it, within the
/// page limit.
pub open spec fn holds(
    pages: Pages,
    object: spec_fn(PageView) -> ArchiveObjectRef,
    page: PageView,
) -> bool {
    &&& pages.contains_key(object(page))
    &&& pages[object(page)] == page
    &&& object(page).byte_len <= MAX_PAGE_BYTES
}

/// The store holds every page that writing these children back writes.
pub open spec fn holds_branch(
    pages: Pages,
    object: spec_fn(PageView) -> ArchiveObjectRef,
    children: Seq<ArchiveRoot>,
) -> bool {
    if children.len() > FANOUT {
        &&& holds(pages, object, PageView::Branch(children.take(FANOUT as int)))
        &&& holds(pages, object, PageView::Branch(children.skip(FANOUT as int)))
    } else {
        holds(pages, object, PageView::Branch(children))
    }
}

/// The store `after` holds every page that appending `entry` below `root`
/// writes.
pub open spec fn holds_append(
    pages: Pages,
    after: Pages,
    object: spec_fn(PageView) -> ArchiveObjectRef,
    root: ArchiveRoot,
    entry: ArchivedSegment,
) -> bool
    decreases root.height,
{
    match pages[root.object] {
        PageView::Leaf(segments) => if segments.len() >= FANOUT {
            holds(after, object, PageView::Leaf(seq![entry]))
        } else {
            holds(after, object, PageView::Leaf(segments.push(entry)))
        },
        PageView::Branch(children) => {
            &&& children.len() > 0 && children.last().height < root.height
            &&& holds_append(pages, after, object, children.last(), entry)
            &&& holds_branch(
                after,
                object,
                children.drop_last() + appended(pages, object, children.last(), entry),
            )
        },
    }
}

/// Pages are only ever added.
pub open spec fn extends(after: Pages, pages: Pages) -> bool {
    forall|o: ArchiveObjectRef| #[trigger]
        pages.contains_key(o) ==> after.contains_key(o) && after[o] == pages[o]
}

pub proof fn lemma_entries_concat(
    pages: Pages,
    a: Seq<ArchiveRoot>,
    b: Seq<ArchiveRoot>,
    height: u32,
)
    requires
        forall|i: int| 0 <= i < a.len() ==> (#[trigger] a[i]).height < height,
        forall|i: int| 0 <= i < b.len() ==> (#[trigger] b[i]).height < height,
    ensures
        entries_of(pages, a + b, height) == entries_of(pages, a, height) + entries_of(
            pages,
            b,
            height,
        ),
    decreases b.len(),
{
    if b.len() == 0 {
        assert(a + b =~= a);
        assert(entries_of(pages, a, height) + entries_of(pages, b, height) =~= entries_of(
            pages,
            a,
            height,
        ));
    } else {
        assert((a + b).drop_last() =~= a + b.drop_last());
        lemma_entries_concat(pages, a, b.drop_last(), height);
        assert((a + b).last() == b.last());
        let last = entries(pages, b.last());
        assert(b[b.len() - 1].height < height);
        assert((entries_of(pages, a, height) + entries_of(pages, b.drop_last(), height)) + last
            =~= entries_of(pages, a, height) + (entries_of(pages, b.drop_last(), height) + last));
    }
}

pub proof fn lemma_single(pages: Pages, root: ArchiveRoot, height: u32)
    requires
        root.height < height,
    ensures
        entries_of(pages, seq![root], height) == entries(pages, root),
{
    reveal_with_fuel(entries_of, 2);
    assert(seq![root].drop_last() =~= Seq::<ArchiveRoot>::empty());
    assert(Seq::<ArchivedSegment>::empty() + entries(pages, root) =~= entries(pages, root));
}

/// Adding pages changes nothing below a readable root: old roots keep their
/// history.
pub proof fn law_old_roots_are_preserved(pages: Pages, after: Pages, root: ArchiveRoot)
    requires
        readable(pages, root),
        extends(after, pages),
    ensures
        readable(after, root),
        entries(after, root) == entries(pages, root),
    decreases root.height,
{
    assert(pages.contains_key(root.object));
    if let PageView::Branch(children) = pages[root.object] {
        assert forall|i: int| 0 <= i < children.len() implies (#[trigger] children[i]).height
            < root.height && readable(after, children[i]) && entries(after, children[i])
            == entries(pages, children[i]) by {
            law_old_roots_are_preserved(pages, after, children[i]);
        }
        lemma_same_entries(pages, after, children, root.height);
    }
}

proof fn lemma_same_entries(pages: Pages, after: Pages, roots: Seq<ArchiveRoot>, height: u32)
    requires
        forall|i: int|
            0 <= i < roots.len() ==> (#[trigger] roots[i]).height < height && entries(
                after,
                roots[i],
            ) == entries(pages, roots[i]),
    ensures
        entries_of(after, roots, height) == entries_of(pages, roots, height),
    decreases roots.len(),
{
    if roots.len() > 0 {
        assert(roots[roots.len() - 1].height < height);
        assert forall|i: int| 0 <= i < roots.drop_last().len() implies (
        #[trigger] roots.drop_last()[i]).height < height && entries(after, roots.drop_last()[i])
            == entries(pages, roots.drop_last()[i]) by {
            assert(roots.drop_last()[i] == roots[i]);
        }
        lemma_same_entries(pages, after, roots.drop_last(), height);
    }
}

/// Readable siblings of one height that cover a range without a gap.
pub open spec fn siblings(
    pages: Pages,
    roots: Seq<ArchiveRoot>,
    height: u32,
    start: u64,
    end: u64,
) -> bool {
    &&& roots.len() > 0
    &&& all_readable(pages, roots)
    &&& forall|i: int| 0 <= i < roots.len() ==> (#[trigger] roots[i]).height == height
    &&& catalog::contiguous(catalog::root_spans(roots), start)
    &&& roots.last().end == end
}

proof fn lemma_contiguous_parts(spans: Seq<(u64, u64)>, start: u64, k: int)
    requires
        catalog::contiguous(spans, start),
        0 <= k <= spans.len(),
    ensures
        catalog::contiguous(spans.take(k), start),
        catalog::contiguous(spans.skip(k), catalog::expected_start(spans, start, k)),
{
    assert forall|i: int| 0 <= i < k implies #[trigger] catalog::placed(
        spans.take(k),
        start,
        i,
    ) by {
        assert(catalog::placed(spans, start, i));
    }
    let mid = catalog::expected_start(spans, start, k);
    assert forall|i: int| 0 <= i < spans.len() - k implies #[trigger] catalog::placed(
        spans.skip(k),
        mid,
        i,
    ) by {
        assert(catalog::placed(spans, start, i + k));
    }
}

proof fn lemma_contiguous_concat(a: Seq<(u64, u64)>, b: Seq<(u64, u64)>, start: u64)
    requires
        catalog::contiguous(a, start),
        catalog::contiguous(b, catalog::expected_start(a, start, a.len() as int)),
    ensures
        catalog::contiguous(a + b, start),
{
    let mid = catalog::expected_start(a, start, a.len() as int);
    assert forall|i: int| 0 <= i < (a + b).len() implies #[trigger] catalog::placed(
        a + b,
        start,
        i,
    ) by {
        if i < a.len() {
            assert(catalog::placed(a, start, i));
        } else {
            assert(catalog::placed(b, mid, i - a.len()));
        }
    }
}

/// Writing readable siblings back as one or two pages keeps their entries and
/// their range.
proof fn lemma_branch_roots(
    pages: Pages,
    object: spec_fn(PageView) -> ArchiveObjectRef,
    children: Seq<ArchiveRoot>,
    height: u32,
    start: u64,
    end: u64,
)
    requires
        0 < height <= MAX_HEIGHT,
        children.len() <= 2 * FANOUT,
        siblings(pages, children, (height - 1) as u32, start, end),
        holds_branch(pages, object, children),
    ensures
        siblings(pages, branch_roots(object, children, height), height, start, end),
        branch_roots(object, children, height).len() == if children.len() > FANOUT {
            2nat
        } else {
            1nat
        },
        forall|above: u32|
            height < above ==> entries_of(
                pages,
                branch_roots(object, children, height),
                above,
            ) == #[trigger] entries_of(pages, children, above),
{
    let roots = branch_roots(object, children, height);
    if children.len() > FANOUT {
        let left = children.take(FANOUT as int);
        let right = children.skip(FANOUT as int);
        let spans = catalog::root_spans(children);
        let mid = catalog::expected_start(spans, start, FANOUT as int);
        lemma_contiguous_parts(spans, start, FANOUT as int);
        assert(catalog::root_spans(left) =~= spans.take(FANOUT as int));
        assert(catalog::root_spans(right) =~= spans.skip(FANOUT as int));
        assert(left.last().end == mid);
        lemma_page(pages, object, left, height, start, mid);
        lemma_page(pages, object, right, height, mid, end);
        let rs = catalog::root_spans(roots);
        assert(catalog::placed(rs, start, 0) && catalog::placed(rs, start, 1));
        assert(catalog::contiguous(rs, start));
        assert forall|above: u32| height < above implies entries_of(pages, roots, above)
            == #[trigger] entries_of(pages, children, above) by {
            assert(roots =~= seq![roots[0]] + seq![roots[1]]);
            lemma_entries_concat(pages, seq![roots[0]], seq![roots[1]], above);
            lemma_single(pages, roots[0], above);
            lemma_single(pages, roots[1], above);
            lemma_height_free(pages, left, height, above);
            lemma_height_free(pages, right, height, above);
            lemma_entries_concat(pages, left, right, above);
            assert(left + right =~= children);
        }
    } else {
        lemma_page(pages, object, children, height, start, end);
        let rs = catalog::root_spans(roots);
        assert(catalog::placed(rs, start, 0));
        assert(catalog::contiguous(rs, start));
        assert forall|above: u32| height < above implies entries_of(pages, roots, above)
            == #[trigger] entries_of(pages, children, above) by {
            assert(roots =~= seq![roots[0]]);
            lemma_single(pages, roots[0], above);
            lemma_height_free(pages, children, height, above);
        }
    }
}

/// The bound on heights does not matter where it exceeds every height.
proof fn lemma_height_free(pages: Pages, roots: Seq<ArchiveRoot>, a: u32, b: u32)
    requires
        forall|i: int|
            0 <= i < roots.len() ==> (#[trigger] roots[i]).height < a && roots[i].height < b,
    ensures
        entries_of(pages, roots, a) == entries_of(pages, roots, b),
    decreases roots.len(),
{
    if roots.len() > 0 {
        assert(roots[roots.len() - 1].height < a);
        assert forall|i: int| 0 <= i < roots.drop_last().len() implies (
        #[trigger] roots.drop_last()[i]).height < a && roots.drop_last()[i].height < b by {
            assert(roots.drop_last()[i] == roots[i]);
        }
        lemma_height_free(pages, roots.drop_last(), a, b);
    }
}

/// A page of at most a fanout of readable siblings is itself readable.
proof fn lemma_page(
    pages: Pages,
    object: spec_fn(PageView) -> ArchiveObjectRef,
    children: Seq<ArchiveRoot>,
    height: u32,
    start: u64,
    end: u64,
)
    requires
        0 < height <= MAX_HEIGHT,
        children.len() <= FANOUT,
        siblings(pages, children, (height - 1) as u32, start, end),
        holds(pages, object, PageView::Branch(children)),
    ensures
        ({
            let root = stored(object, PageView::Branch(children), height);
            &&& readable(pages, root)
            &&& entries(pages, root) == entries_of(pages, children, height)
            &&& root.start == start && root.end == end && root.height == height && start < end
        }),
{
    let page = PageView::Branch(children);
    let root = stored(object, page, height);
    let spans = catalog::root_spans(children);
    assert(catalog::placed(spans, start, 0));
    assert(spans.last() == (children.last().start, children.last().end));
    lemma_range_grows(spans, start, spans.len() - 1);
    assert(catalog::one_below(children, height)) by {
        assert forall|i: int| 0 <= i < children.len() implies (#[trigger] children[i]).format == 1
            && children[i].height + 1 == height by {
            assert(readable(pages, children[i]));
        }
    }
    assert(catalog::page_ok(root, page));
    assert forall|i: int| 0 <= i < children.len() implies (#[trigger] children[i]).height
        < root.height && readable(pages, children[i]) by {
        assert(readable(pages, children[i]));
    }
}

proof fn lemma_range_grows(spans: Seq<(u64, u64)>, start: u64, i: int)
    requires
        catalog::contiguous(spans, start),
        0 <= i < spans.len(),
    ensures
        start <= spans[i].0,
        start < spans[i].1,
    decreases i,
{
    assert(catalog::placed(spans, start, i));
    if i > 0 {
        lemma_range_grows(spans, start, i - 1);
    }
}

/// Appending a segment that continues a readable root gives readable roots of
/// the same height, for the same history and the new segment after it.
pub proof fn lemma_appended(
    pages: Pages,
    after: Pages,
    object: spec_fn(PageView) -> ArchiveObjectRef,
    root: ArchiveRoot,
    entry: ArchivedSegment,
)
    requires
        readable(pages, root),
        entry.start == root.end,
        entry.start < entry.end,
        extends(after, pages),
        holds_append(pages, after, object, root, entry),
    ensures
        siblings(after, appended(pages, object, root, entry), root.height, root.start, entry.end),
        appended(pages, object, root, entry).len() <= 2,
        forall|above: u32|
            root.height < above ==> #[trigger] entries_of(
                after,
                appended(pages, object, root, entry),
                above,
            ) == entries(pages, root).push(entry),
    decreases root.height,
{
    let roots = appended(pages, object, root, entry);
    law_old_roots_are_preserved(pages, after, root);
    match pages[root.object] {
        PageView::Leaf(segments) => {
            let spans = catalog::leaf_spans(segments);
            let single = catalog::leaf_spans(seq![entry]);
            assert(catalog::placed(single, entry.start, 0));
            assert(catalog::contiguous(single, entry.start));
            let rs = catalog::root_spans(roots);
            if segments.len() >= FANOUT {
                let fresh = stored(object, PageView::Leaf(seq![entry]), 0);
                assert(single.last() == (entry.start, entry.end));
                assert(readable(after, fresh));
                assert(roots =~= seq![root, fresh]);
                assert(catalog::placed(rs, root.start, 0) && catalog::placed(rs, root.start, 1));
                assert(catalog::contiguous(rs, root.start));
                assert forall|above: u32| root.height < above implies #[trigger] entries_of(
                    after,
                    roots,
                    above,
                ) == entries(pages, root).push(entry) by {
                    assert(roots =~= seq![root] + seq![fresh]);
                    lemma_entries_concat(after, seq![root], seq![fresh], above);
                    lemma_single(after, root, above);
                    lemma_single(after, fresh, above);
                    assert(segments + seq![entry] =~= segments.push(entry));
                }
            } else {
                let grown = segments.push(entry);
                let fresh = stored(object, PageView::Leaf(grown), root.height);
                lemma_contiguous_concat(spans, single, root.start);
                assert(catalog::leaf_spans(grown) =~= spans + single);
                lemma_range_grows(catalog::leaf_spans(grown), root.start, segments.len() as int);
                assert(catalog::placed(catalog::leaf_spans(grown), root.start, 0));
                assert(readable(after, fresh));
                assert(roots =~= seq![fresh]);
                assert(catalog::placed(rs, root.start, 0));
                assert(catalog::contiguous(rs, root.start));
                assert forall|above: u32| root.height < above implies #[trigger] entries_of(
                    after,
                    roots,
                    above,
                ) == entries(pages, root).push(entry) by {
                    lemma_single(after, fresh, above);
                }
            }
        },
        PageView::Branch(children) => {
            let kept = children.drop_last();
            let last = children.last();
            assert(children[children.len() - 1] == last);
            assert(readable(pages, last));
            let spans = catalog::root_spans(children);
            assert(spans.last() == (last.start, last.end));
            lemma_appended(pages, after, object, last, entry);
            let replaced = appended(pages, object, last, entry);
            let below = (root.height - 1) as u32;
            assert(last.height == below);
            let grown = kept + replaced;
            lemma_contiguous_parts(spans, root.start, children.len() - 1);
            assert(catalog::root_spans(kept) =~= spans.take(children.len() - 1));
            assert(catalog::placed(spans, root.start, children.len() - 1));
            assert(last.start == catalog::expected_start(
                catalog::root_spans(kept),
                root.start,
                kept.len() as int,
            ));
            lemma_contiguous_concat(
                catalog::root_spans(kept),
                catalog::root_spans(replaced),
                root.start,
            );
            assert(catalog::root_spans(grown) =~= catalog::root_spans(kept) + catalog::root_spans(
                replaced,
            ));
            assert forall|i: int| 0 <= i < grown.len() implies readable(after, #[trigger] grown[i])
                && grown[i].height == below by {
                if i < kept.len() {
                    assert(grown[i] == children[i]);
                    assert(readable(pages, children[i]));
                    law_old_roots_are_preserved(pages, after, children[i]);
                } else {
                    assert(grown[i] == replaced[i - kept.len()]);
                    assert(readable(after, replaced[i - kept.len()]));
                }
            }
            assert(grown.last() == replaced.last());
            assert(siblings(after, grown, below, root.start, entry.end));
            lemma_branch_roots(after, object, grown, root.height, root.start, entry.end);
            assert forall|above: u32| root.height < above implies #[trigger] entries_of(
                after,
                roots,
                above,
            ) == entries(pages, root).push(entry) by {
                assert(entries_of(after, roots, above) == entries_of(after, grown, above));
                assert forall|i: int| 0 <= i < replaced.len() implies (
                #[trigger] replaced[i]).height < above by {
                    assert(replaced[i].height == below);
                }
                assert forall|i: int| 0 <= i < kept.len() implies (#[trigger] kept[i]).height
                    < above && kept[i].height < root.height && entries(after, kept[i]) == entries(
                    pages,
                    kept[i],
                ) by {
                    assert(kept[i] == children[i]);
                    law_old_roots_are_preserved(pages, after, children[i]);
                }
                lemma_entries_concat(after, kept, replaced, above);
                lemma_height_free(after, kept, above, root.height);
                lemma_same_entries(pages, after, kept, root.height);
                assert(entries_of(after, replaced, above) == entries(pages, last).push(entry));
                assert(entries(pages, root) == entries_of(pages, kept, root.height) + entries(
                    pages,
                    last,
                ));
                assert(entries_of(pages, kept, root.height) + entries(pages, last).push(entry)
                    =~= (entries_of(pages, kept, root.height) + entries(pages, last)).push(entry));
            }
        },
    }
}

/// Appending a segment that continues a readable catalog gives a readable
/// catalog with the same history and the new segment at its end, provided that
/// the written pages are stored and the catalog does not outgrow its height.
pub proof fn law_append_extends_history(
    pages: Pages,
    after: Pages,
    object: spec_fn(PageView) -> ArchiveObjectRef,
    root: ArchiveRoot,
    entry: ArchivedSegment,
)
    requires
        readable(pages, root),
        entry.start == root.end,
        entry.start < entry.end,
        extends(after, pages),
        holds_append(pages, after, object, root, entry),
        appended(pages, object, root, entry).len() > 1 ==> root.height < MAX_HEIGHT && holds(
            after,
            object,
            PageView::Branch(appended(pages, object, root, entry)),
        ),
    ensures
        ({
            let fresh = new_root(object, appended(pages, object, root, entry), root.height);
            &&& readable(after, fresh)
            &&& entries(after, fresh) == entries(pages, root).push(entry)
            &&& fresh.start == root.start
            &&& fresh.end == entry.end
        }),
{
    let roots = appended(pages, object, root, entry);
    lemma_appended(pages, after, object, root, entry);
    let fresh = new_root(object, roots, root.height);
    assert(catalog::placed(catalog::root_spans(roots), root.start, 0));
    if roots.len() == 1 {
        let above = (root.height + 1) as u32;
        assert(roots =~= seq![roots[0]]);
        lemma_single(after, roots[0], above);
        assert(entries_of(after, roots, above) == entries(pages, root).push(entry));
        assert(readable(after, roots[0]));
    } else {
        let above = (root.height + 1) as u32;
        lemma_page(after, object, roots, above, root.start, entry.end);
        assert(entries_of(after, roots, above) == entries(pages, root).push(entry));
    }
}

/// The first segment of a catalog makes a readable root of its own.
pub proof fn law_first_append_starts_history(
    after: Pages,
    object: spec_fn(PageView) -> ArchiveObjectRef,
    entry: ArchivedSegment,
)
    requires
        entry.start < entry.end,
        holds(after, object, PageView::Leaf(seq![entry])),
    ensures
        ({
            let fresh = stored(object, PageView::Leaf(seq![entry]), 0);
            &&& readable(after, fresh)
            &&& entries(after, fresh) == seq![entry]
            &&& fresh.start == entry.start
            &&& fresh.end == entry.end
        }),
{
    let spans = catalog::leaf_spans(seq![entry]);
    assert(catalog::placed(spans, entry.start, 0));
    assert(catalog::contiguous(spans, entry.start));
    assert(spans.last() == (entry.start, entry.end));
}

proof fn lemma_entries_flatten(pages: Pages, roots: Seq<ArchiveRoot>, height: u32)
    requires
        forall|i: int| 0 <= i < roots.len() ==> (#[trigger] roots[i]).height < height,
    ensures
        entries_of(pages, roots, height) == roots.map_values(
            |root: ArchiveRoot| entries(pages, root),
        ).flatten(),
    decreases roots.len(),
{
    let below = |root: ArchiveRoot| entries(pages, root);
    let parts = roots.map_values(below);
    if roots.len() == 0 {
        assert(parts.flatten() =~= Seq::<ArchivedSegment>::empty());
    } else {
        let rest = roots.drop_last();
        assert forall|i: int| 0 <= i < rest.len() implies (#[trigger] rest[i]).height < height by {
            assert(rest[i] == roots[i]);
        }
        assert(roots[roots.len() - 1].height < height);
        lemma_entries_flatten(pages, rest, height);
        assert(parts.drop_last() =~= rest.map_values(below));
        parts.lemma_flatten_and_flatten_alt_are_equivalent();
        parts.drop_last().lemma_flatten_and_flatten_alt_are_equivalent();
        assert(parts.flatten_alt() == parts.drop_last().flatten_alt() + parts.last());
    }
}

/// The history of a readable root is that of its page: the segments of a leaf
/// as they stand, and the histories of a branch's children one after the other.
pub proof fn law_history_is_that_of_the_pages(pages: Pages, root: ArchiveRoot)
    requires
        readable(pages, root),
    ensures
        pages.contains_key(root.object),
        pages[root.object] is Leaf ==> entries(pages, root) == pages[root.object]->Leaf_0,
        pages[root.object] is Branch ==> entries(pages, root) == (
        pages[root.object]->Branch_0).map_values(
            |child: ArchiveRoot| entries(pages, child),
        ).flatten() && forall|i: int|
            0 <= i < pages[root.object]->Branch_0.len() ==> readable(
                pages,
                #[trigger] pages[root.object]->Branch_0[i],
            ),
{
    if pages[root.object] is Branch {
        lemma_entries_flatten(pages, pages[root.object]->Branch_0, root.height);
    }
}

proof fn lemma_history_is_contiguous(pages: Pages, root: ArchiveRoot)
    requires
        readable(pages, root),
    ensures
        catalog::contiguous(catalog::leaf_spans(entries(pages, root)), root.start),
        entries(pages, root).len() > 0,
        entries(pages, root).last().end == root.end,
    decreases root.height, 1nat, 0nat,
{
    match pages[root.object] {
        PageView::Leaf(segments) => {},
        PageView::Branch(children) => {
            lemma_children_are_contiguous(pages, children, root.height, root.start);
            let spans = catalog::root_spans(children);
            assert(spans.last() == (children.last().start, children.last().end));
        },
    }
}

proof fn lemma_children_are_contiguous(
    pages: Pages,
    roots: Seq<ArchiveRoot>,
    height: u32,
    start: u64,
)
    requires
        roots.len() > 0,
        forall|i: int|
            0 <= i < roots.len() ==> (#[trigger] roots[i]).height < height && readable(
                pages,
                roots[i],
            ),
        catalog::contiguous(catalog::root_spans(roots), start),
    ensures
        catalog::contiguous(catalog::leaf_spans(entries_of(pages, roots, height)), start),
        entries_of(pages, roots, height).len() > 0,
        entries_of(pages, roots, height).last().end == roots.last().end,
    decreases height, 0nat, roots.len(),
{
    let last = roots[roots.len() - 1];
    let rest = roots.drop_last();
    let spans = catalog::root_spans(roots);
    assert(last.height < height);
    lemma_history_is_contiguous(pages, last);
    assert(catalog::placed(spans, start, roots.len() - 1));
    let own = entries(pages, last);
    let all = entries_of(pages, roots, height);
    if rest.len() == 0 {
        assert(entries_of(pages, rest, height) =~= Seq::<ArchivedSegment>::empty());
        assert(all =~= own);
    } else {
        assert forall|i: int| 0 <= i < rest.len() implies (#[trigger] rest[i]).height < height
            && readable(pages, rest[i]) by {
            assert(rest[i] == roots[i]);
        }
        let fewer = catalog::root_spans(rest);
        assert forall|i: int| 0 <= i < fewer.len() implies #[trigger] catalog::placed(
            fewer,
            start,
            i,
        ) by {
            assert(catalog::placed(spans, start, i));
        }
        lemma_children_are_contiguous(pages, rest, height, start);
        let before = entries_of(pages, rest, height);
        assert(all == before + own);
        let joined = catalog::leaf_spans(all);
        assert forall|i: int| 0 <= i < joined.len() implies #[trigger] catalog::placed(
            joined,
            start,
            i,
        ) by {
            if i < before.len() {
                assert(catalog::placed(catalog::leaf_spans(before), start, i));
            } else {
                let k = i - before.len();
                assert(catalog::placed(catalog::leaf_spans(own), last.start, k));
                assert(rest.last() == roots[roots.len() - 2]);
            }
        }
    }
}

/// A readable root stands for a history without a gap: nonempty segments from
/// the start of its range to the end, each beginning where the one before ends.
pub proof fn law_history_has_no_gap(pages: Pages, root: ArchiveRoot)
    requires
        readable(pages, root),
    ensures
        ({
            let history = entries(pages, root);
            &&& history.len() > 0
            &&& history[0].start == root.start
            &&& history[history.len() - 1].end == root.end
            &&& forall|i: int|
                0 <= i < history.len() ==> (#[trigger] history[i]).start < history[i].end
            &&& forall|i: int, j: int|
                0 <= i && i + 1 == j && j < history.len() ==> (#[trigger] history[i]).end == (
                #[trigger] history[j]).start
        }),
{
    let history = entries(pages, root);
    let spans = catalog::leaf_spans(history);
    lemma_history_is_contiguous(pages, root);
    assert(catalog::placed(spans, root.start, 0));
    assert forall|i: int| 0 <= i < history.len() implies (#[trigger] history[i]).start
        < history[i].end by {
        assert(catalog::placed(spans, root.start, i));
    }
    assert forall|i: int, j: int| 0 <= i && i + 1 == j && j < history.len() implies (
    #[trigger] history[i]).end == (#[trigger] history[j]).start by {
        assert(catalog::placed(spans, root.start, j));
    }
}

} // verus!
