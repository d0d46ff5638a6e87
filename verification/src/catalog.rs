//! A copy-on-write, sequence-ordered catalog of archived segments.
//!
//! The catalog is a bounded B+ tree of immutable pages. Appending loads the
//! rightmost path and writes new pages from the leaf up; nothing is ever
//! overwritten, so every earlier root stays readable.

use crate::archive::{ArchiveError, ArchiveObjectRef, FANOUT, MAX_HEIGHT, MAX_PAGE_BYTES};
use vstd::prelude::*;

verus! {

/// One archived segment.
#[derive(Debug)]
pub struct ArchivedSegment {
    /// Identity of the segment.
    pub id: String,
    /// Index of its first record.
    pub start: u64,
    /// Index after its last record.
    pub end: u64,
    /// CRC32C of its contents.
    pub crc32c: u32,
    /// Where its bytes are.
    pub object: ArchiveObjectRef,
}

/// A range- and height-qualified page reference.
#[derive(Debug)]
pub struct ArchiveRoot {
    /// Page format; 1 is the only one.
    pub format: u32,
    /// Distance from the leaves.
    pub height: u32,
    /// Index of the first record below this page.
    pub start: u64,
    /// Index after the last record below this page.
    pub end: u64,
    /// Where the page is.
    pub object: ArchiveObjectRef,
}

/// A catalog page.
#[derive(Debug)]
pub enum Page {
    /// Archived segments in order.
    Leaf(Vec<ArchivedSegment>),
    /// Lower pages in order.
    Branch(Vec<ArchiveRoot>),
}

/// A catalog page as a mathematical value.
pub enum PageView {
    /// Archived segments in order.
    Leaf(Seq<ArchivedSegment>),
    /// Lower pages in order.
    Branch(Seq<ArchiveRoot>),
}

impl Clone for ArchivedSegment {
    fn clone(&self) -> (copy: Self)
        ensures
            copy == *self,
    {
        ArchivedSegment {
            id: self.id.clone(),
            start: self.start,
            end: self.end,
            crc32c: self.crc32c,
            object: self.object.clone(),
        }
    }
}

impl Clone for ArchiveRoot {
    fn clone(&self) -> (copy: Self)
        ensures
            copy == *self,
    {
        ArchiveRoot {
            format: self.format,
            height: self.height,
            start: self.start,
            end: self.end,
            object: self.object.clone(),
        }
    }
}

impl Page {
    /// The page as a mathematical value.
    pub open spec fn view(&self) -> PageView {
        match self {
            Page::Leaf(entries) => PageView::Leaf(entries@),
            Page::Branch(children) => PageView::Branch(children@),
        }
    }
}

/// Record ranges, each from its start to before its end.
pub open spec fn leaf_spans(entries: Seq<ArchivedSegment>) -> Seq<(u64, u64)> {
    Seq::new(entries.len(), |i: int| (entries[i].start, entries[i].end))
}

/// The record ranges of page references.
pub open spec fn root_spans(roots: Seq<ArchiveRoot>) -> Seq<(u64, u64)> {
    Seq::new(roots.len(), |i: int| (roots[i].start, roots[i].end))
}

impl PageView {
    /// The record ranges of the page's entries.
    pub open spec fn spans(self) -> Seq<(u64, u64)> {
        match self {
            PageView::Leaf(entries) => leaf_spans(entries),
            PageView::Branch(children) => root_spans(children),
        }
    }
}

/// Where range `i` has to start if the first starts at `start`.
pub open spec fn expected_start(spans: Seq<(u64, u64)>, start: u64, i: int) -> u64 {
    if i == 0 {
        start
    } else {
        spans[i - 1].1
    }
}

/// Range `i` is nonempty and starts where the one before it ends.
pub open spec fn placed(spans: Seq<(u64, u64)>, start: u64, i: int) -> bool {
    spans[i].0 == expected_start(spans, start, i) && spans[i].0 < spans[i].1
}

/// Nonempty ranges that follow each other from `start` on.
pub open spec fn contiguous(spans: Seq<(u64, u64)>, start: u64) -> bool {
    forall|i: int| 0 <= i < spans.len() ==> #[trigger] placed(spans, start, i)
}

/// Every reference is of the one format and stands one level below `height`.
pub open spec fn one_below(roots: Seq<ArchiveRoot>, height: u32) -> bool {
    forall|i: int|
        0 <= i < roots.len() ==> (#[trigger] roots[i]).format == 1 && roots[i].height + 1 == height
}

/// A page reference within the catalog's limits.
pub open spec fn root_ok(root: ArchiveRoot) -> bool {
    &&& root.format == 1
    &&& root.height <= MAX_HEIGHT
    &&& root.start < root.end
    &&& root.object.byte_len <= MAX_PAGE_BYTES
}

/// A page that fits its reference: leaves at height 0 only, branches one above
/// their children, at most a fanout of entries that cover the reference's
/// range without a gap.
pub open spec fn page_ok(root: ArchiveRoot, page: PageView) -> bool {
    &&& match page {
        PageView::Leaf(_) => root.height == 0,
        PageView::Branch(children) => root.height > 0 && one_below(children, root.height),
    }
    &&& contiguous(page.spans(), root.start)
    &&& 0 < page.spans().len() <= FANOUT
    &&& page.spans().last().1 == root.end
}

/// A corruption report with this text.
pub open spec fn corrupt<T>(result: Result<T, ArchiveError>, reason: &str) -> bool {
    result matches Err(ArchiveError::Corrupt(message)) && message@ == reason@
}

/// Why a page does not fit its reference; `None` where it does.
pub open spec fn page_refusal(root: ArchiveRoot, page: PageView) -> Option<&'static str> {
    match page {
        PageView::Leaf(entries) => if root.height != 0 {
            Some("catalog height mismatch")
        } else if !contiguous(leaf_spans(entries), root.start) {
            Some("noncontiguous archive leaf")
        } else if page_ok(root, page) {
            None
        } else {
            Some("invalid catalog page bounds")
        },
        PageView::Branch(children) => if root.height == 0 {
            Some("catalog height mismatch")
        } else if !one_below(children, root.height) || !contiguous(
            root_spans(children),
            root.start,
        ) {
            Some("invalid archive branch")
        } else if page_ok(root, page) {
            None
        } else {
            Some("invalid catalog page bounds")
        },
    }
}

/// Checks a page reference before the page is read.
pub fn check_root(root: &ArchiveRoot) -> (result: Result<(), ArchiveError>)
    ensures
        if root_ok(*root) {
            result is Ok
        } else {
            corrupt(result, "invalid catalog root")
        },
{
    if root.format != 1 || root.height > MAX_HEIGHT || root.start >= root.end
        || root.object.byte_len > MAX_PAGE_BYTES {
        return Err(ArchiveError::Corrupt("invalid catalog root".to_owned()));
    }
    Ok(())
}

/// Where contiguous entries from `start` on end; `None` at a gap.
fn leaf_end(entries: &Vec<ArchivedSegment>, start: u64) -> (end: Option<u64>)
    ensures
        match end {
            Some(next) => contiguous(leaf_spans(entries@), start) && next == expected_start(
                leaf_spans(entries@),
                start,
                entries@.len() as int,
            ),
            None => !contiguous(leaf_spans(entries@), start),
        },
{
    let ghost spans = leaf_spans(entries@);
    let mut next: u64 = start;
    let mut i: usize = 0;
    while i < entries.len()
        invariant
            i <= entries@.len(),
            spans == leaf_spans(entries@),
            next == expected_start(spans, start, i as int),
            forall|j: int| 0 <= j < i ==> #[trigger] placed(spans, start, j),
        decreases entries@.len() - i,
    {
        assert(spans[i as int] == (entries@[i as int].start, entries@[i as int].end));
        if entries[i].start != next || entries[i].start >= entries[i].end {
            assert(!placed(spans, start, i as int));
            return None;
        }
        next = entries[i].end;
        i = i + 1;
    }
    Some(next)
}

/// Where contiguous children from `start` on end; `None` at a gap, at another
/// format or at another height than the one below `height`.
fn branch_end(children: &Vec<ArchiveRoot>, height: u32, start: u64) -> (end: Option<u64>)
    ensures
        match end {
            Some(next) => one_below(children@, height) && contiguous(root_spans(children@), start)
                && next == expected_start(root_spans(children@), start, children@.len() as int),
            None => !one_below(children@, height) || !contiguous(root_spans(children@), start),
        },
{
    let ghost spans = root_spans(children@);
    let mut next: u64 = start;
    let mut i: usize = 0;
    while i < children.len()
        invariant
            i <= children@.len(),
            spans == root_spans(children@),
            next == expected_start(spans, start, i as int),
            forall|j: int|
                0 <= j < i ==> (#[trigger] children@[j]).format == 1 && children@[j].height + 1
                    == height,
            forall|j: int| 0 <= j < i ==> #[trigger] placed(spans, start, j),
        decreases children@.len() - i,
    {
        let child = &children[i];
        assert(spans[i as int] == (child.start, child.end));
        assert(children@[i as int] == *child);
        if child.format != 1 || child.height >= height || child.height + 1 != height || child.start
            != next || child.start >= child.end {
            assert(child.start != next || child.start >= child.end ==> !placed(
                spans,
                start,
                i as int,
            ));
            return None;
        }
        next = child.end;
        i = i + 1;
    }
    Some(next)
}

/// Checks a page against the reference that it was read by.
pub fn check_page(root: &ArchiveRoot, page: &Page) -> (result: Result<(), ArchiveError>)
    ensures
        match page_refusal(*root, page@) {
            None => result is Ok,
            Some(reason) => corrupt(result, reason),
        },
        result is Ok <==> page_ok(*root, page@),
{
    let (count, next): (usize, u64) = match page {
        Page::Leaf(entries) => {
            if root.height != 0 {
                return Err(ArchiveError::Corrupt("catalog height mismatch".to_owned()));
            }
            match leaf_end(entries, root.start) {
                Some(end) => (entries.len(), end),
                None => {
                    return Err(ArchiveError::Corrupt("noncontiguous archive leaf".to_owned()));
                },
            }
        },
        Page::Branch(children) => {
            if root.height == 0 {
                return Err(ArchiveError::Corrupt("catalog height mismatch".to_owned()));
            }
            match branch_end(children, root.height, root.start) {
                Some(end) => (children.len(), end),
                None => {
                    return Err(ArchiveError::Corrupt("invalid archive branch".to_owned()));
                },
            }
        },
    };
    if count == 0 || count > FANOUT || next != root.end {
        return Err(ArchiveError::Corrupt("invalid catalog page bounds".to_owned()));
    }
    Ok(())
}

/// The reference of a page at `height` that was stored as `object`.
pub open spec fn root_of(page: PageView, height: u32, object: ArchiveObjectRef) -> ArchiveRoot {
    ArchiveRoot {
        format: 1,
        height,
        start: page.spans()[0].0,
        end: page.spans().last().1,
        object,
    }
}

/// Identifies the serialized bytes of a page at `height`, within the limits of
/// a catalog page.
pub fn page_object(bytes: &[u8], height: u32) -> (result: Result<ArchiveObjectRef, ArchiveError>)
    ensures
        if bytes@.len() > MAX_PAGE_BYTES || height > MAX_HEIGHT {
            result matches Err(ArchiveError::Backend(message)) && message@
                == "archive catalog page limit"@
        } else {
            result matches Ok(object) && object.matches_bytes(bytes@) && object.byte_len
                <= MAX_PAGE_BYTES && object.key@ == "catalog"@ + "/"@ + crate::text::hex(
                crate::archive::sha256_of(bytes@),
            )
        },
{
    if bytes.len() as u64 > MAX_PAGE_BYTES || height > MAX_HEIGHT {
        return Err(ArchiveError::Backend("archive catalog page limit".to_owned()));
    }
    Ok(ArchiveObjectRef::for_bytes("catalog", bytes))
}

/// A page reference is accepted exactly if it is of the one format, at most
/// sixteen levels high, of a nonempty range, and of at most 64 KiB.
pub proof fn law_references_are_within_limits(root: &ArchiveRoot, result: Result<(), ArchiveError>)
    requires
        call_ensures(check_root, (root,), result),
    ensures
        result is Ok <==> root.format == 1 && root.height <= 16 && root.start < root.end
            && root.object.byte_len <= 65536,
        result is Err ==> result->Err_0 is Corrupt,
{
}

/// A leaf is accepted exactly at height zero, with one to 32 nonempty segments
/// that cover the range of its reference: the first begins where the range does,
/// each further one where the one before it ends, and the last ends with it.
pub proof fn law_leaves_cover_their_range(
    root: &ArchiveRoot,
    entries: Vec<ArchivedSegment>,
    result: Result<(), ArchiveError>,
)
    requires
        call_ensures(check_page, (root, &Page::Leaf(entries)), result),
    ensures
        result is Ok <==> {
            &&& root.height == 0
            &&& 1 <= entries@.len() <= 32
            &&& entries@[0].start == root.start
            &&& entries@[entries@.len() - 1].end == root.end
            &&& forall|i: int|
                0 <= i < entries@.len() ==> (#[trigger] entries@[i]).start < entries@[i].end
            &&& forall|i: int, j: int|
                0 <= i && i + 1 == j && j < entries@.len() ==> (#[trigger] entries@[i]).end == (
                #[trigger] entries@[j]).start
        },
        result is Err ==> result->Err_0 is Corrupt,
{
    let spans = leaf_spans(entries@);
    assert(Page::Leaf(entries)@ == PageView::Leaf(entries@));
    if contiguous(spans, root.start) && entries@.len() > 0 {
        assert(placed(spans, root.start, 0));
        assert forall|i: int| 0 <= i < entries@.len() implies (#[trigger] entries@[i]).start
            < entries@[i].end by {
            assert(placed(spans, root.start, i));
        }
        assert forall|i: int, j: int| 0 <= i && i + 1 == j && j < entries@.len() implies (
        #[trigger] entries@[i]).end == (#[trigger] entries@[j]).start by {
            assert(placed(spans, root.start, j));
        }
    }
    if entries@.len() > 0 && entries@[0].start == root.start && (forall|i: int|
        0 <= i < entries@.len() ==> (#[trigger] entries@[i]).start < entries@[i].end) && (forall|
        i: int,
        j: int,
    |
        0 <= i && i + 1 == j && j < entries@.len() ==> (#[trigger] entries@[i]).end == (
        #[trigger] entries@[j]).start) {
        assert forall|i: int| 0 <= i < spans.len() implies #[trigger] placed(
            spans,
            root.start,
            i,
        ) by {
            assert(entries@[i].start < entries@[i].end);
            if i > 0 {
                assert(entries@[i - 1].end == entries@[i].start);
            }
        }
    }
}

/// A branch is accepted exactly above height zero, with one to 32 references of
/// the one format, each one level below it, that cover the range of its own
/// reference in the same way.
pub proof fn law_branches_cover_their_range(
    root: &ArchiveRoot,
    children: Vec<ArchiveRoot>,
    result: Result<(), ArchiveError>,
)
    requires
        call_ensures(check_page, (root, &Page::Branch(children)), result),
    ensures
        result is Ok <==> {
            &&& root.height > 0
            &&& 1 <= children@.len() <= 32
            &&& children@[0].start == root.start
            &&& children@[children@.len() - 1].end == root.end
            &&& forall|i: int|
                0 <= i < children@.len() ==> (#[trigger] children@[i]).start < children@[i].end
                    && children@[i].format == 1 && children@[i].height + 1 == root.height
            &&& forall|i: int, j: int|
                0 <= i && i + 1 == j && j < children@.len() ==> (#[trigger] children@[i]).end == (
                #[trigger] children@[j]).start
        },
        result is Err ==> result->Err_0 is Corrupt,
{
    let spans = root_spans(children@);
    assert(Page::Branch(children)@ == PageView::Branch(children@));
    if contiguous(spans, root.start) && children@.len() > 0 {
        assert(placed(spans, root.start, 0));
        assert forall|i: int| 0 <= i < children@.len() implies (#[trigger] children@[i]).start
            < children@[i].end by {
            assert(placed(spans, root.start, i));
        }
        assert forall|i: int, j: int| 0 <= i && i + 1 == j && j < children@.len() implies (
        #[trigger] children@[i]).end == (#[trigger] children@[j]).start by {
            assert(placed(spans, root.start, j));
        }
    }
    if children@.len() > 0 && children@[0].start == root.start && (forall|i: int|
        0 <= i < children@.len() ==> (#[trigger] children@[i]).start < children@[i].end
            && children@[i].format == 1 && children@[i].height + 1 == root.height) && (forall|
        i: int,
        j: int,
    |
        0 <= i && i + 1 == j && j < children@.len() ==> (#[trigger] children@[i]).end == (
        #[trigger] children@[j]).start) {
        assert forall|i: int| 0 <= i < spans.len() implies #[trigger] placed(
            spans,
            root.start,
            i,
        ) by {
            assert(children@[i].start < children@[i].end);
            if i > 0 {
                assert(children@[i - 1].end == children@[i].start);
            }
        }
    }
}

/// A serialized page is stored under its digest, if it has at most 64 KiB and is
/// at most sixteen levels high.
pub proof fn law_pages_are_stored_under_their_digest(
    bytes: &[u8],
    height: u32,
    result: Result<ArchiveObjectRef, ArchiveError>,
    verified: Result<(), ArchiveError>,
)
    requires
        call_ensures(page_object, (bytes, height), result),
        result is Ok ==> call_ensures(ArchiveObjectRef::verify, (&result->Ok_0, bytes), verified),
    ensures
        result is Ok <==> bytes@.len() <= 65536 && height <= 16,
        result is Ok ==> verified is Ok && result->Ok_0.byte_len == bytes@.len(),
        result is Ok ==> result->Ok_0.key@ == "catalog"@ + "/"@ + crate::text::hex(
            crate::archive::sha256_of(bytes@),
        ),
        result is Err ==> result->Err_0 is Backend,
{
}

} // verus!
