//! Queued maintenance commands, coalesced between seals.

use crate::seqno::WalSeqNo;
use std::collections::VecDeque;
use vstd::prelude::*;

verus! {

/// Commands that fit into the maintenance channel.
pub const MAINTENANCE_COMMAND_CAPACITY: usize = 64;

/// One sealed segment of the catalog.
#[derive(Debug)]
pub struct SegmentDescriptor {
    /// Object identity of the segment.
    pub id: String,
    /// Index of its first record.
    pub base_record_index: u64,
    /// Index of its last record.
    pub end_record_index: u64,
    /// CRC32C of its complete contents.
    pub crc32c: u32,
    /// Known copies.
    pub copies: usize,
    /// Known finalized copies.
    pub finalized_copies: usize,
    /// Whether its seal has not been enforced yet.
    pub seal_pending: bool,
}

impl Clone for SegmentDescriptor {
    fn clone(&self) -> (copy: Self)
        ensures
            copy == *self,
    {
        SegmentDescriptor {
            id: self.id.clone(),
            base_record_index: self.base_record_index,
            end_record_index: self.end_record_index,
            crc32c: self.crc32c,
            copies: self.copies,
            finalized_copies: self.finalized_copies,
            seal_pending: self.seal_pending,
        }
    }
}

/// What the maintenance task is asked to do. `G` is what a seal carries along,
/// `R` is where the result of a truncation goes.
pub enum MaintenanceCmd<G, R> {
    /// Repair only one newly sealed segment.
    RepairSegment(SegmentDescriptor),
    /// Finalize a swapped-out segment.
    SealSegment(G),
    /// Raise the committed floor and delete covered sealed segments.
    Truncate {
        /// First record still needed.
        floor: WalSeqNo,
        /// Where the result goes.
        response: R,
    },
}

/// Repair requests for one segment.
pub struct PendingRepair {
    /// The segment as requested last.
    pub segment: SegmentDescriptor,
    /// How many requests it stands for.
    pub requests: usize,
}

/// Merged truncation requests.
pub struct PendingTruncation<R> {
    /// The highest requested floor.
    pub floor: WalSeqNo,
    /// Everyone who asked, in order.
    pub responses: Vec<R>,
}

/// Work between two seals.
pub struct PendingWork<R> {
    /// Repairs in the order of base record index and id.
    pub repairs: Vec<PendingRepair>,
    /// Merged truncations.
    pub truncation: Option<PendingTruncation<R>>,
}

/// One stretch of the queue.
pub enum PendingGroup<G, R> {
    /// Coalesced work.
    Work(PendingWork<R>),
    /// A seal: a barrier that nothing overtakes.
    Seal(G),
}

/// A command that is ready to run.
pub enum ReadyCommandKind<G, R> {
    /// Repair one segment.
    RepairSegment(SegmentDescriptor),
    /// Enforce one seal.
    SealSegment(G),
    /// Truncate below the floor and answer everyone.
    Truncate {
        /// First record still needed.
        floor: WalSeqNo,
        /// Where the result goes.
        responses: Vec<R>,
    },
}

/// A ready command and the requests that it answers.
pub struct ReadyCommand<G, R> {
    /// What to do.
    pub kind: ReadyCommandKind<G, R>,
    /// How many requests it stands for.
    pub queued_requests: usize,
}

/// The queue of coalesced maintenance commands.
pub struct PendingCommands<G, R> {
    /// Stretches in the order of arrival.
    pub groups: VecDeque<PendingGroup<G, R>>,
}

/// Lexicographic order of byte strings.
pub open spec fn bytes_before(a: Seq<u8>, b: Seq<u8>) -> bool
    decreases a.len(),
{
    if b.len() == 0 {
        false
    } else if a.len() == 0 {
        true
    } else if a[0] != b[0] {
        a[0] < b[0]
    } else {
        bytes_before(a.drop_first(), b.drop_first())
    }
}

/// The UTF-8 bytes of a segment's id.
pub open spec fn id_bytes(segment: SegmentDescriptor) -> Seq<u8> {
    vstd::utf8::encode_utf8(segment.id@)
}

/// Two requests for the same segment.
pub open spec fn same_segment(a: SegmentDescriptor, b: SegmentDescriptor) -> bool {
    a.base_record_index == b.base_record_index && id_bytes(a) == id_bytes(b)
}

/// Repairs run in the order of base record index, then of id.
pub open spec fn repaired_before(a: SegmentDescriptor, b: SegmentDescriptor) -> bool {
    a.base_record_index < b.base_record_index || a.base_record_index == b.base_record_index
        && bytes_before(id_bytes(a), id_bytes(b))
}

/// Strictly ordered repairs: no segment occurs twice.
pub open spec fn ordered(repairs: Seq<PendingRepair>) -> bool {
    forall|i: int, j: int|
        0 <= i < j < repairs.len() ==> repaired_before(
            (#[trigger] repairs[i]).segment,
            (#[trigger] repairs[j]).segment,
        )
}

/// Requests that the repairs stand for.
pub open spec fn repair_requests(repairs: Seq<PendingRepair>) -> nat
    decreases repairs.len(),
{
    if repairs.len() == 0 {
        0
    } else {
        repairs[0].requests as nat + repair_requests(repairs.drop_first())
    }
}

/// The outcome of a byte-string comparison.
#[derive(Clone, Copy, Debug, PartialEq, Eq, Structural)]
enum Placement {
    Before,
    Same,
    After,
}

proof fn lemma_bytes_order(a: Seq<u8>, b: Seq<u8>)
    ensures
        a != b ==> (bytes_before(a, b) <==> !bytes_before(b, a)),
        a == b ==> !bytes_before(a, b),
    decreases a.len(),
{
    if a.len() > 0 && b.len() > 0 && a[0] == b[0] {
        lemma_bytes_order(a.drop_first(), b.drop_first());
        if a != b {
            assert(a.drop_first() != b.drop_first()) by {
                if a.drop_first() == b.drop_first() {
                    assert(a =~= seq![a[0]] + a.drop_first());
                    assert(b =~= seq![b[0]] + b.drop_first());
                }
            }
        }
    } else if a.len() == 0 && b.len() == 0 {
        assert(a =~= b);
    }
}

proof fn lemma_bytes_transitive(a: Seq<u8>, b: Seq<u8>, c: Seq<u8>)
    requires
        bytes_before(a, b),
        bytes_before(b, c),
    ensures
        bytes_before(a, c),
    decreases a.len(),
{
    if a.len() > 0 && b.len() > 0 && c.len() > 0 && a[0] == b[0] && b[0] == c[0] {
        lemma_bytes_transitive(a.drop_first(), b.drop_first(), c.drop_first());
    }
}

proof fn lemma_repair_transitive(a: SegmentDescriptor, b: SegmentDescriptor, c: SegmentDescriptor)
    requires
        repaired_before(a, b),
        repaired_before(b, c),
    ensures
        repaired_before(a, c),
{
    if a.base_record_index == b.base_record_index && b.base_record_index == c.base_record_index {
        lemma_bytes_transitive(id_bytes(a), id_bytes(b), id_bytes(c));
    }
}

/// Places byte string `a` relative to `b`.
fn place_bytes(a: &[u8], b: &[u8]) -> (placement: Placement)
    ensures
        placement == if a@ == b@ {
            Placement::Same
        } else if bytes_before(a@, b@) {
            Placement::Before
        } else {
            Placement::After
        },
{
    let mut i: usize = 0;
    proof {
        assert(a@.skip(0) =~= a@);
        assert(b@.skip(0) =~= b@);
    }
    while i < a.len() && i < b.len() && a[i] == b[i]
        invariant
            i <= a.len(),
            i <= b.len(),
            bytes_before(a@, b@) == bytes_before(a@.skip(i as int), b@.skip(i as int)),
            a@ == b@ <==> a@.skip(i as int) == b@.skip(i as int),
        decreases a.len() - i,
    {
        proof {
            let ra = a@.skip(i as int);
            let rb = b@.skip(i as int);
            assert(ra.drop_first() =~= a@.skip(i + 1));
            assert(rb.drop_first() =~= b@.skip(i + 1));
            assert(ra =~= seq![a@[i as int]] + a@.skip(i + 1));
            assert(rb =~= seq![b@[i as int]] + b@.skip(i + 1));
        }
        i = i + 1;
    }
    proof {
        let ra = a@.skip(i as int);
        let rb = b@.skip(i as int);
        if i < a.len() && i < b.len() {
            assert(ra[0] == a@[i as int]);
            assert(rb[0] == b@[i as int]);
        } else if i == a.len() && i == b.len() {
            assert(ra =~= rb);
        }
    }
    if i < a.len() && i < b.len() {
        if a[i] < b[i] {
            Placement::Before
        } else {
            Placement::After
        }
    } else if i < b.len() {
        Placement::Before
    } else if i < a.len() {
        Placement::After
    } else {
        Placement::Same
    }
}

/// Whether byte string `a` comes before `b`.
pub fn comes_before(a: &[u8], b: &[u8]) -> (before: bool)
    ensures
        before == bytes_before(a@, b@),
{
    proof {
        lemma_bytes_order(a@, b@);
    }
    match place_bytes(a, b) {
        Placement::Before => true,
        _ => false,
    }
}

/// Places segment `a` relative to `b` in the order of repair.
fn place_segment(a: &SegmentDescriptor, b: &SegmentDescriptor) -> (placement: Placement)
    ensures
        placement == if same_segment(*a, *b) {
            Placement::Same
        } else if repaired_before(*a, *b) {
            Placement::Before
        } else {
            Placement::After
        },
        placement == Placement::After ==> repaired_before(*b, *a),
{
    proof {
        lemma_bytes_order(id_bytes(*a), id_bytes(*b));
    }
    if a.base_record_index < b.base_record_index {
        Placement::Before
    } else if a.base_record_index > b.base_record_index {
        Placement::After
    } else {
        place_bytes(a.id.as_str().as_bytes(), b.id.as_str().as_bytes())
    }
}


/// The repairs after one more request for `segment`: a known segment is
/// replaced by the latest descriptor and counts one more request, a new one
/// takes its place in the order.
pub open spec fn with_repair(repairs: Seq<PendingRepair>, segment: SegmentDescriptor) -> Seq<
    PendingRepair,
>
    decreases repairs.len(),
{
    if repairs.len() == 0 {
        seq![PendingRepair { segment, requests: 1 }]
    } else if same_segment(repairs[0].segment, segment) {
        seq![PendingRepair { segment, requests: (repairs[0].requests + 1) as usize }]
            + repairs.drop_first()
    } else if repaired_before(segment, repairs[0].segment) {
        seq![PendingRepair { segment, requests: 1 }] + repairs
    } else {
        seq![repairs[0]] + with_repair(repairs.drop_first(), segment)
    }
}

proof fn lemma_with_repair(repairs: Seq<PendingRepair>, segment: SegmentDescriptor, p: int)
    requires
        0 <= p <= repairs.len(),
        forall|i: int|
            0 <= i < p ==> repaired_before((#[trigger] repairs[i]).segment, segment),
        p < repairs.len() ==> same_segment(repairs[p].segment, segment) || repaired_before(
            segment,
            repairs[p].segment,
        ),
    ensures
        with_repair(repairs, segment) == if p < repairs.len() && same_segment(
            repairs[p].segment,
            segment,
        ) {
            repairs.update(
                p,
                PendingRepair { segment, requests: (repairs[p].requests + 1) as usize },
            )
        } else {
            repairs.insert(p, PendingRepair { segment, requests: 1 })
        },
    decreases p,
{
    let known = p < repairs.len() && same_segment(repairs[p].segment, segment);
    if p == 0 {
        if repairs.len() == 0 {
            assert(repairs.insert(0, PendingRepair { segment, requests: 1 }) =~= with_repair(
                repairs,
                segment,
            ));
        } else if known {
            assert(repairs.update(
                0,
                PendingRepair { segment, requests: (repairs[0].requests + 1) as usize },
            ) =~= with_repair(repairs, segment));
        } else {
            assert(repairs.insert(0, PendingRepair { segment, requests: 1 }) =~= with_repair(
                repairs,
                segment,
            ));
        }
    } else {
        let rest = repairs.drop_first();
        assert forall|i: int| 0 <= i < p - 1 implies repaired_before(
            (#[trigger] rest[i]).segment,
            segment,
        ) by {
            assert(rest[i] == repairs[i + 1]);
        }
        if p < repairs.len() {
            assert(rest[p - 1] == repairs[p]);
        }
        lemma_with_repair(rest, segment, p - 1);
        lemma_bytes_order(id_bytes(repairs[0].segment), id_bytes(segment));
        assert(repaired_before(repairs[0].segment, segment));
        if known {
            assert(repairs.update(
                p,
                PendingRepair { segment, requests: (repairs[p].requests + 1) as usize },
            ) =~= seq![repairs[0]] + rest.update(
                p - 1,
                PendingRepair { segment, requests: (repairs[p].requests + 1) as usize },
            ));
        } else {
            assert(repairs.insert(p, PendingRepair { segment, requests: 1 }) =~= seq![repairs[0]]
                + rest.insert(p - 1, PendingRepair { segment, requests: 1 }));
        }
    }
}

/// One more request keeps the order and is counted once.
pub proof fn lemma_with_repair_keeps(repairs: Seq<PendingRepair>, segment: SegmentDescriptor)
    requires
        ordered(repairs),
        repair_requests(repairs) < usize::MAX,
    ensures
        ordered(with_repair(repairs, segment)),
        repair_requests(with_repair(repairs, segment)) == repair_requests(repairs) + 1,
        with_repair(repairs, segment).len() > 0,
        forall|r: PendingRepair|
            #![trigger with_repair(repairs, segment).contains(r)]
            with_repair(repairs, segment).contains(r) ==> same_segment(r.segment, segment)
                || repairs.contains(r),
    decreases repairs.len(),
{
    let after = with_repair(repairs, segment);
    if repairs.len() == 0 {
        assert(after.drop_first() =~= Seq::<PendingRepair>::empty());
        reveal_with_fuel(repair_requests, 2);
        assert forall|r: PendingRepair| after.contains(r) implies same_segment(
            r.segment,
            segment,
        ) by {
            let k = choose|k: int| 0 <= k < after.len() && after[k] == r;
            assert(k == 0);
        }
    } else {
        let first = repairs[0];
        let rest = repairs.drop_first();
        assert(ordered(rest)) by {
            assert forall|i: int, j: int| 0 <= i < j < rest.len() implies repaired_before(
                (#[trigger] rest[i]).segment,
                (#[trigger] rest[j]).segment,
            ) by {
                assert(rest[i] == repairs[i + 1] && rest[j] == repairs[j + 1]);
            }
        }
        lemma_bytes_order(id_bytes(first.segment), id_bytes(segment));
        if same_segment(first.segment, segment) {
            assert(after.drop_first() =~= rest);
            assert forall|i: int, j: int| 0 <= i < j < after.len() implies repaired_before(
                (#[trigger] after[i]).segment,
                (#[trigger] after[j]).segment,
            ) by {
                assert(after[j] == repairs[j]);
                assert(repaired_before(repairs[i].segment, repairs[j].segment));
                if i > 0 {
                    assert(after[i] == repairs[i]);
                }
            }
            assert forall|r: PendingRepair| after.contains(r) implies same_segment(
                r.segment,
                segment,
            ) || repairs.contains(r) by {
                let k = choose|k: int| 0 <= k < after.len() && after[k] == r;
                if k > 0 {
                    assert(repairs[k] == r);
                }
            }
        } else if repaired_before(segment, first.segment) {
            assert(after.drop_first() =~= repairs);
            assert forall|i: int, j: int| 0 <= i < j < after.len() implies repaired_before(
                (#[trigger] after[i]).segment,
                (#[trigger] after[j]).segment,
            ) by {
                assert(after[j] == repairs[j - 1]);
                if i > 0 {
                    assert(after[i] == repairs[i - 1]);
                } else if j > 1 {
                    assert(repaired_before(repairs[0].segment, repairs[j - 1].segment));
                    lemma_repair_transitive(segment, first.segment, repairs[j - 1].segment);
                }
            }
            assert forall|r: PendingRepair| after.contains(r) implies same_segment(
                r.segment,
                segment,
            ) || repairs.contains(r) by {
                let k = choose|k: int| 0 <= k < after.len() && after[k] == r;
                if k > 0 {
                    assert(repairs[k - 1] == r);
                }
            }
        } else {
            lemma_with_repair_keeps(rest, segment);
            let tail = with_repair(rest, segment);
            assert(after.drop_first() =~= tail);
            assert(repaired_before(first.segment, segment));
            assert forall|i: int, j: int| 0 <= i < j < after.len() implies repaired_before(
                (#[trigger] after[i]).segment,
                (#[trigger] after[j]).segment,
            ) by {
                assert(after[j] == tail[j - 1]);
                if i > 0 {
                    assert(after[i] == tail[i - 1]);
                } else {
                    assert(tail.contains(tail[j - 1]));
                    if !same_segment(tail[j - 1].segment, segment) {
                        let k = choose|k: int| 0 <= k < rest.len() && rest[k] == tail[j - 1];
                        assert(repairs[k + 1] == tail[j - 1]);
                        assert(repaired_before(repairs[0].segment, repairs[k + 1].segment));
                    }
                }
            }
            assert forall|r: PendingRepair| after.contains(r) implies same_segment(
                r.segment,
                segment,
            ) || repairs.contains(r) by {
                let k = choose|k: int| 0 <= k < after.len() && after[k] == r;
                if k == 0 {
                    assert(repairs[0] == r);
                } else {
                    assert(tail[k - 1] == r);
                    assert(tail.contains(r));
                    if !same_segment(r.segment, segment) {
                        let m = choose|m: int| 0 <= m < rest.len() && rest[m] == r;
                        assert(repairs[m + 1] == r);
                    }
                }
            }
        }
    }
}

/// Merged truncations as mathematical values.
pub struct TruncationView<R> {
    /// The highest requested floor.
    pub floor: WalSeqNo,
    /// Everyone who asked, in order.
    pub responses: Seq<R>,
}

/// Work between two seals as mathematical values.
pub struct WorkView<R> {
    /// Repairs in their order.
    pub repairs: Seq<PendingRepair>,
    /// Merged truncations.
    pub truncation: Option<TruncationView<R>>,
}

/// One stretch of the queue as mathematical values.
pub enum GroupView<G, R> {
    /// Coalesced work.
    Work(WorkView<R>),
    /// A seal.
    Seal(G),
}

/// A ready command as mathematical values.
pub enum ReadyView<G, R> {
    /// Repair one segment for so many requests.
    RepairSegment(SegmentDescriptor, usize),
    /// Enforce one seal.
    SealSegment(G),
    /// Truncate below the floor and answer everyone.
    Truncate(WalSeqNo, Seq<R>),
}

impl<R> PendingWork<R> {
    /// The work as mathematical values.
    pub open spec fn view(&self) -> WorkView<R> {
        WorkView {
            repairs: self.repairs@,
            truncation: match self.truncation {
                Some(truncation) => Some(
                    TruncationView { floor: truncation.floor, responses: truncation.responses@ },
                ),
                None => None,
            },
        }
    }
}

impl<G, R> PendingGroup<G, R> {
    /// The stretch as mathematical values.
    pub open spec fn view(&self) -> GroupView<G, R> {
        match self {
            PendingGroup::Work(work) => GroupView::Work(work@),
            PendingGroup::Seal(seal) => GroupView::Seal(*seal),
        }
    }
}

impl<G, R> ReadyCommand<G, R> {
    /// The command as mathematical values.
    pub open spec fn view(&self) -> ReadyView<G, R> {
        match self.kind {
            ReadyCommandKind::RepairSegment(segment) => ReadyView::RepairSegment(
                segment,
                self.queued_requests,
            ),
            ReadyCommandKind::SealSegment(seal) => ReadyView::SealSegment(seal),
            ReadyCommandKind::Truncate { floor, responses } => ReadyView::Truncate(
                floor,
                responses@,
            ),
        }
    }
}

impl<R> WorkView<R> {
    /// No work.
    pub open spec fn empty() -> Self {
        WorkView { repairs: Seq::empty(), truncation: None }
    }

    /// Requests that the work stands for.
    pub open spec fn requests(self) -> nat {
        repair_requests(self.repairs) + match self.truncation {
            Some(truncation) => truncation.responses.len(),
            None => 0,
        }
    }

    /// The work after one more repair request.
    pub open spec fn repair(self, segment: SegmentDescriptor) -> Self {
        WorkView { repairs: with_repair(self.repairs, segment), ..self }
    }

    /// The work after one more truncation request: the highest floor counts,
    /// and everyone is answered.
    pub open spec fn truncate(self, floor: WalSeqNo, response: R) -> Self {
        WorkView {
            truncation: match self.truncation {
                Some(truncation) => Some(
                    TruncationView {
                        floor: if floor.record_index > truncation.floor.record_index {
                            floor
                        } else {
                            truncation.floor
                        },
                        responses: truncation.responses.push(response),
                    },
                ),
                None => Some(TruncationView { floor, responses: seq![response] }),
            },
            ..self
        }
    }
}

impl<G, R> GroupView<G, R> {
    /// Requests that the stretch stands for.
    pub open spec fn requests(self) -> nat {
        match self {
            GroupView::Work(work) => work.requests(),
            GroupView::Seal(_) => 1,
        }
    }

    /// Repairs of the stretch are in order.
    pub open spec fn wf(self) -> bool {
        self matches GroupView::Work(work) ==> ordered(work.repairs)
    }
}

/// Requests that the queue stands for.
pub open spec fn total_requests<G, R>(groups: Seq<GroupView<G, R>>) -> nat
    decreases groups.len(),
{
    if groups.len() == 0 {
        0
    } else {
        groups[0].requests() + total_requests(groups.drop_first())
    }
}

proof fn lemma_rest_requests<G, R>(groups: Seq<GroupView<G, R>>, k: int)
    requires
        0 <= k <= groups.len(),
    ensures
        total_requests(groups.skip(k)) <= total_requests(groups),
    decreases k,
{
    if k == 0 {
        assert(groups.skip(0) =~= groups);
    } else {
        lemma_rest_requests(groups, k - 1);
        assert(groups.skip(k - 1).drop_first() =~= groups.skip(k));
    }
}

proof fn lemma_rest_repairs(repairs: Seq<PendingRepair>, k: int)
    requires
        0 <= k <= repairs.len(),
    ensures
        repair_requests(repairs.skip(k)) <= repair_requests(repairs),
    decreases k,
{
    if k == 0 {
        assert(repairs.skip(0) =~= repairs);
    } else {
        lemma_rest_repairs(repairs, k - 1);
        assert(repairs.skip(k - 1).drop_first() =~= repairs.skip(k));
    }
}

/// Adds the repair requests to `base`, if the sum can be represented.
fn add_repairs(repairs: &Vec<PendingRepair>, base: usize) -> (sum: Option<usize>)
    ensures
        sum == if base + repair_requests(repairs@) <= usize::MAX {
            Some((base + repair_requests(repairs@)) as usize)
        } else {
            None
        },
{
    let mut total: usize = base;
    let mut i: usize = repairs.len();
    proof {
        assert(repairs@.skip(i as int) =~= Seq::<PendingRepair>::empty());
    }
    while i > 0
        invariant
            i <= repairs@.len(),
            total == base + repair_requests(repairs@.skip(i as int)),
        decreases i,
    {
        proof {
            assert(repairs@.skip(i - 1).drop_first() =~= repairs@.skip(i as int));
            lemma_rest_repairs(repairs@, i - 1);
        }
        total =
        match total.checked_add(repairs[i - 1].requests) {
            Some(total) => total,
            None => {
                return None;
            },
        };
        i = i - 1;
    }
    proof {
        assert(repairs@.skip(0) =~= repairs@);
    }
    Some(total)
}

/// The work that a new request may join: the last stretch, unless a seal ends
/// the queue.
pub open spec fn open_work<G, R>(groups: Seq<GroupView<G, R>>) -> Option<WorkView<R>> {
    if groups.len() > 0 && groups.last() is Work {
        Some(groups.last()->Work_0)
    } else {
        None
    }
}

/// The queue with its open work replaced, or begun.
pub open spec fn with_open_work<G, R>(groups: Seq<GroupView<G, R>>, work: WorkView<R>) -> Seq<
    GroupView<G, R>,
> {
    match open_work(groups) {
        Some(_) => groups.drop_last().push(GroupView::Work(work)),
        None => groups.push(GroupView::Work(work)),
    }
}

/// The queue after one more command.
pub open spec fn pushed<G, R>(groups: Seq<GroupView<G, R>>, command: MaintenanceCmd<G, R>) -> Seq<
    GroupView<G, R>,
> {
    let work = match open_work(groups) {
        Some(work) => work,
        None => WorkView::empty(),
    };
    match command {
        MaintenanceCmd::SealSegment(seal) => groups.push(GroupView::Seal(seal)),
        MaintenanceCmd::RepairSegment(segment) => with_open_work(groups, work.repair(segment)),
        MaintenanceCmd::Truncate { floor, response } => with_open_work(
            groups,
            work.truncate(floor, response),
        ),
    }
}

/// The next command and the queue without it: from the first stretch that
/// still holds anything, truncation before repairs, repairs in order.
pub open spec fn popped<G, R>(groups: Seq<GroupView<G, R>>) -> Option<
    (ReadyView<G, R>, Seq<GroupView<G, R>>),
>
    decreases groups.len(),
{
    if groups.len() == 0 {
        None
    } else {
        match groups[0] {
            GroupView::Seal(seal) => Some((ReadyView::SealSegment(seal), groups.drop_first())),
            GroupView::Work(work) => match work.truncation {
                Some(truncation) => Some(
                    (
                        ReadyView::Truncate(truncation.floor, truncation.responses),
                        seq![GroupView::Work(WorkView { truncation: None, ..work })]
                            + groups.drop_first(),
                    ),
                ),
                None => if work.repairs.len() > 0 {
                    Some(
                        (
                            ReadyView::RepairSegment(
                                work.repairs[0].segment,
                                work.repairs[0].requests,
                            ),
                            seq![
                                GroupView::Work(
                                    WorkView { repairs: work.repairs.drop_first(), ..work },
                                ),
                            ] + groups.drop_first(),
                        ),
                    )
                } else {
                    popped(groups.drop_first())
                },
            },
        }
    }
}

impl<R> PendingWork<R> {
    /// No work.
    fn empty() -> (work: Self)
        ensures
            work@ == WorkView::<R>::empty(),
    {
        PendingWork { repairs: Vec::new(), truncation: None }
    }

    /// Adds a repair request.
    fn push_repair(&mut self, segment: SegmentDescriptor)
        requires
            ordered(old(self).repairs@),
            old(self)@.requests() < usize::MAX,
        ensures
            final(self)@ == old(self)@.repair(segment),
            ordered(final(self).repairs@),
    {
        let ghost before = self.repairs@;
        let mut p: usize = 0;
        let mut known = false;
        proof {
            lemma_with_repair_keeps(before, segment);
        }
        while p < self.repairs.len()
            invariant_except_break
                !known,
            invariant
                p <= self.repairs@.len(),
                self.repairs@ == before,
                self.truncation == old(self).truncation,
                forall|i: int|
                    0 <= i < p ==> repaired_before((#[trigger] before[i]).segment, segment),
                known ==> p < before.len() && same_segment(before[p as int].segment, segment),
            ensures
                !known && p < before.len() ==> repaired_before(
                    segment,
                    before[p as int].segment,
                ) && !same_segment(before[p as int].segment, segment),
            decreases self.repairs@.len() - p,
        {
            match place_segment(&self.repairs[p].segment, &segment) {
                Placement::Before => {
                    p = p + 1;
                },
                Placement::Same => {
                    known = true;
                    break;
                },
                Placement::After => {
                    break;
                },
            }
        }
        proof {
            lemma_with_repair(before, segment, p as int);
            lemma_requests_bound(before, p as int);
        }
        if known {
            let requests: usize = self.repairs[p].requests + 1;
            self.repairs.set(p, PendingRepair { segment, requests });
        } else {
            self.repairs.insert(p, PendingRepair { segment, requests: 1 });
        }
    }

    /// Adds a truncation request.
    fn merge_truncation(&mut self, floor: WalSeqNo, response: R)
        ensures
            final(self)@ == old(self)@.truncate(floor, response),
    {
        let ghost before = self@;
        let merged = match self.truncation.take() {
            Some(truncation) => {
                let mut responses = truncation.responses;
                responses.push(response);
                PendingTruncation {
                    floor: if floor.record_index > truncation.floor.record_index {
                        floor
                    } else {
                        truncation.floor
                    },
                    responses,
                }
            },
            None => {
                let mut responses: Vec<R> = Vec::new();
                responses.push(response);
                assert(responses@ =~= seq![response]);
                PendingTruncation { floor, responses }
            },
        };
        self.truncation = Some(merged);
    }
}

proof fn lemma_requests_bound(repairs: Seq<PendingRepair>, p: int)
    ensures
        0 <= p < repairs.len() ==> repairs[p].requests <= repair_requests(repairs),
    decreases repairs.len(),
{
    if 0 < p < repairs.len() {
        lemma_requests_bound(repairs.drop_first(), p - 1);
    }
}


impl<G, R> PendingCommands<G, R> {
    /// The queue as mathematical values.
    pub open spec fn view(&self) -> Seq<GroupView<G, R>> {
        Seq::new(self.groups@.len(), |i: int| self.groups@[i]@)
    }

    /// Repairs of every stretch are in order.
    pub open spec fn wf(&self) -> bool {
        forall|i: int| 0 <= i < self@.len() ==> (#[trigger] self@[i]).wf()
    }

    /// An empty queue.
    pub fn new() -> (commands: Self)
        ensures
            commands@ == Seq::<GroupView<G, R>>::empty(),
            commands.wf(),
    {
        let commands = PendingCommands { groups: VecDeque::new() };
        assert(commands@ =~= Seq::<GroupView<G, R>>::empty());
        commands
    }

    /// Takes the open work out of the queue, or begins new work.
    fn take_open_work(&mut self) -> (work: PendingWork<R>)
        requires
            old(self).wf(),
        ensures
            final(self).wf(),
            ordered(work.repairs@),
            match open_work(old(self)@) {
                Some(inner) => work@ == inner && final(self)@ == old(self)@.drop_last(),
                None => work@ == WorkView::<R>::empty() && final(self)@ == old(self)@,
            },
    {
        let ghost before = self@;
        match self.groups.pop_back() {
            Some(PendingGroup::Work(work)) => {
                assert(before.last() == GroupView::<G, R>::Work(work@));
                assert(before[before.len() - 1].wf());
                assert(self@ =~= before.drop_last());
                assert forall|i: int| 0 <= i < self@.len() implies (#[trigger] self@[i]).wf() by {
                    assert(before[i].wf());
                }
                work
            },
            Some(PendingGroup::Seal(seal)) => {
                self.groups.push_back(PendingGroup::Seal(seal));
                assert(self@ =~= before);
                PendingWork::empty()
            },
            None => {
                assert(self@ =~= before);
                PendingWork::empty()
            },
        }
    }

    /// Puts open work at the end of the queue.
    fn put_open_work(&mut self, work: PendingWork<R>)
        requires
            old(self).wf(),
            ordered(work.repairs@),
        ensures
            final(self).wf(),
            final(self)@ == old(self)@.push(GroupView::Work(work@)),
    {
        let ghost before = self@;
        self.groups.push_back(PendingGroup::Work(work));
        assert(self@ =~= before.push(GroupView::Work(work@)));
        assert forall|i: int| 0 <= i < self@.len() implies (#[trigger] self@[i]).wf() by {
            if i < before.len() {
                assert(before[i].wf());
            }
        }
    }

    /// Whether one more request can be counted.
    pub fn has_room(&self) -> (room: bool)
        ensures
            room == (total_requests(self@) < usize::MAX),
    {
        let mut total: usize = 0;
        let mut i: usize = self.groups.len();
        proof {
            assert(self@.skip(i as int) =~= Seq::<GroupView<G, R>>::empty());
        }
        while i > 0
            invariant
                i <= self.groups@.len(),
                self@.len() == self.groups@.len(),
                total == total_requests(self@.skip(i as int)),
            decreases i,
        {
            let ghost rest = self@.skip(i as int);
            let ghost next = self@.skip(i - 1);
            proof {
                assert(next.drop_first() =~= rest);
                assert(next[0] == self.groups@[i - 1]@);
                lemma_rest_requests(self@, i - 1);
            }
            let counted: Option<usize> = match &self.groups[i - 1] {
                PendingGroup::Seal(_) => total.checked_add(1),
                PendingGroup::Work(work) => match add_repairs(&work.repairs, total) {
                    Some(repairs) => match &work.truncation {
                        Some(truncation) => repairs.checked_add(truncation.responses.len()),
                        None => Some(repairs),
                    },
                    None => None,
                },
            };
            match counted {
                Some(sum) => {
                    total = sum;
                },
                None => {
                    return false;
                },
            }
            i = i - 1;
        }
        proof {
            assert(self@.skip(0) =~= self@);
        }
        total < usize::MAX
    }

    /// Queues a command. A seal keeps its place; repairs of one segment and
    /// truncations join the work since the last seal.
    pub fn push(&mut self, command: MaintenanceCmd<G, R>)
        requires
            old(self).wf(),
            total_requests(old(self)@) < usize::MAX,
        ensures
            final(self).wf(),
            final(self)@ == pushed(old(self)@, command),
    {
        let ghost before = self@;
        match command {
            MaintenanceCmd::SealSegment(seal) => {
                self.groups.push_back(PendingGroup::Seal(seal));
                assert(self@ =~= before.push(GroupView::Seal(seal)));
                assert forall|i: int| 0 <= i < self@.len() implies (#[trigger] self@[i]).wf() by {
                    if i < before.len() {
                        assert(before[i].wf());
                    }
                }
            },
            MaintenanceCmd::RepairSegment(segment) => self.push_repair(segment),
            MaintenanceCmd::Truncate { floor, response } => self.push_truncation(floor, response),
        }
    }

    /// Queues a repair.
    fn push_repair(&mut self, segment: SegmentDescriptor)
        requires
            old(self).wf(),
            total_requests(old(self)@) < usize::MAX,
        ensures
            final(self).wf(),
            final(self)@ == pushed(old(self)@, MaintenanceCmd::RepairSegment(segment)),
    {
        let ghost before = self@;
        let mut work = self.take_open_work();
        proof {
            if open_work(before) is Some {
                lemma_total_push(before.drop_last(), before.last());
                assert(before.drop_last().push(before.last()) =~= before);
            }
        }
        work.push_repair(segment);
        self.put_open_work(work);
    }

    /// Queues a truncation.
    fn push_truncation(&mut self, floor: WalSeqNo, response: R)
        requires
            old(self).wf(),
        ensures
            final(self).wf(),
            final(self)@ == pushed(old(self)@, MaintenanceCmd::Truncate { floor, response }),
    {
        let mut work = self.take_open_work();
        work.merge_truncation(floor, response);
        self.put_open_work(work);
    }

    /// Takes the next command.
    pub fn pop_front(&mut self) -> (command: Option<ReadyCommand<G, R>>)
        requires
            old(self).wf(),
        ensures
            final(self).wf(),
            match popped(old(self)@) {
                Some((ready, rest)) => {
                    &&& command matches Some(inner) && inner@ == ready && inner.queued_requests
                        == ready_requests(ready)
                    &&& final(self)@ == rest
                },
                None => command is None && final(self)@.len() == 0,
            },
    {
        loop
            invariant
                self.wf(),
                popped(self@) == popped(old(self)@),
            decreases self.groups@.len(),
        {
            let ghost before = self@;
            match self.groups.pop_front() {
                None => {
                    return None;
                },
                Some(PendingGroup::Seal(seal)) => {
                    proof {
                        assert(before[0] == GroupView::<G, R>::Seal(seal));
                        assert(self@ =~= before.drop_first());
                        assert forall|i: int| 0 <= i < self@.len() implies (
                        #[trigger] self@[i]).wf() by {
                            assert(before[i + 1].wf());
                        }
                    }
                    return Some(
                        ReadyCommand {
                            kind: ReadyCommandKind::SealSegment(seal),
                            queued_requests: 1,
                        },
                    );
                },
                Some(PendingGroup::Work(work)) => {
                    let ghost inner = work@;
                    proof {
                        assert(before[0] == GroupView::<G, R>::Work(inner));
                        assert(before[0].wf());
                        assert(self@ =~= before.drop_first());
                        assert forall|i: int| 0 <= i < self@.len() implies (
                        #[trigger] self@[i]).wf() by {
                            assert(before[i + 1].wf());
                        }
                    }
                    let mut work = work;
                    match work.truncation.take() {
                        Some(truncation) => {
                            let ghost left = WorkView { truncation: None, ..inner };
                            assert(work@ == left);
                            self.put_front_work(work);
                            assert(self@ =~= seq![GroupView::<G, R>::Work(left)]
                                + before.drop_first());
                            let queued_requests: usize = truncation.responses.len();
                            return Some(
                                ReadyCommand {
                                    kind: ReadyCommandKind::Truncate {
                                        floor: truncation.floor,
                                        responses: truncation.responses,
                                    },
                                    queued_requests,
                                },
                            );
                        },
                        None => {
                            if work.repairs.len() > 0 {
                                let repair = work.repairs.remove(0);
                                let ghost left = WorkView {
                                    repairs: inner.repairs.drop_first(),
                                    ..inner
                                };
                                proof {
                                    assert(work.repairs@ =~= inner.repairs.drop_first());
                                    assert(work@ == left);
                                    assert forall|i: int, j: int|
                                        0 <= i < j < left.repairs.len() implies repaired_before(
                                        (#[trigger] left.repairs[i]).segment,
                                        (#[trigger] left.repairs[j]).segment,
                                    ) by {
                                        assert(left.repairs[i] == inner.repairs[i + 1]);
                                        assert(left.repairs[j] == inner.repairs[j + 1]);
                                    }
                                }
                                self.put_front_work(work);
                                assert(self@ =~= seq![GroupView::<G, R>::Work(left)]
                                    + before.drop_first());
                                return Some(
                                    ReadyCommand {
                                        kind: ReadyCommandKind::RepairSegment(repair.segment),
                                        queued_requests: repair.requests,
                                    },
                                );
                            }
                        },
                    }
                },
            }
        }
    }

    /// Puts work back at the front of the queue.
    fn put_front_work(&mut self, work: PendingWork<R>)
        requires
            old(self).wf(),
            ordered(work.repairs@),
        ensures
            final(self).wf(),
            final(self)@ == seq![GroupView::<G, R>::Work(work@)] + old(self)@,
    {
        let ghost before = self@;
        self.groups.push_front(PendingGroup::Work(work));
        assert(self@ =~= seq![GroupView::<G, R>::Work(work@)] + before);
        assert forall|i: int| 0 <= i < self@.len() implies (#[trigger] self@[i]).wf() by {
            if i > 0 {
                assert(before[i - 1].wf());
            }
        }
    }
}

/// Requests that a ready command answers.
pub open spec fn ready_requests<G, R>(ready: ReadyView<G, R>) -> nat {
    match ready {
        ReadyView::RepairSegment(_, requests) => requests as nat,
        ReadyView::SealSegment(_) => 1,
        ReadyView::Truncate(_, responses) => responses.len(),
    }
}

proof fn lemma_total_push<G, R>(groups: Seq<GroupView<G, R>>, group: GroupView<G, R>)
    ensures
        total_requests(groups.push(group)) == total_requests(groups) + group.requests(),
    decreases groups.len(),
{
    if groups.len() == 0 {
        assert(groups.push(group).drop_first() =~= Seq::<GroupView<G, R>>::empty());
        reveal_with_fuel(total_requests, 2);
    } else {
        assert(groups.push(group).drop_first() =~= groups.drop_first().push(group));
        lemma_total_push(groups.drop_first(), group);
    }
}

/// Every queued command is counted exactly once, however it is merged.
pub proof fn law_push_counts_one_request<G, R>(
    groups: Seq<GroupView<G, R>>,
    command: MaintenanceCmd<G, R>,
)
    requires
        forall|i: int| 0 <= i < groups.len() ==> (#[trigger] groups[i]).wf(),
        total_requests(groups) < usize::MAX,
    ensures
        total_requests(pushed(groups, command)) == total_requests(groups) + 1,
{
    let work = match open_work(groups) {
        Some(work) => work,
        None => WorkView::empty(),
    };
    if open_work(groups) is Some {
        assert(groups.drop_last().push(groups.last()) =~= groups);
        lemma_total_push(groups.drop_last(), groups.last());
        assert(groups[groups.len() - 1].wf());
    }
    match command {
        MaintenanceCmd::SealSegment(seal) => {
            lemma_total_push(groups, GroupView::Seal(seal));
        },
        MaintenanceCmd::RepairSegment(segment) => {
            lemma_with_repair_keeps(work.repairs, segment);
            lemma_total_push(groups.drop_last(), GroupView::Work(work.repair(segment)));
            lemma_total_push(groups, GroupView::Work(work.repair(segment)));
        },
        MaintenanceCmd::Truncate { floor, response } => {
            lemma_total_push(groups.drop_last(), GroupView::Work(work.truncate(floor, response)));
            lemma_total_push(groups, GroupView::Work(work.truncate(floor, response)));
        },
    }
}

/// A ready command answers as many requests as leave the queue with it, and an
/// empty answer means that no request is left.
pub proof fn law_pop_answers_its_requests<G, R>(groups: Seq<GroupView<G, R>>)
    ensures
        match popped(groups) {
            Some((ready, rest)) => total_requests(groups) == ready_requests(ready)
                + total_requests(rest),
            None => total_requests(groups) == 0,
        },
    decreases groups.len(),
{
    if groups.len() > 0 {
        law_pop_answers_its_requests(groups.drop_first());
        if let Some((_, rest)) = popped(groups) {
            if groups[0] matches GroupView::Work(work) && (work.truncation is Some
                || work.repairs.len() > 0) {
                assert(rest.drop_first() =~= groups.drop_first());
            }
        }
    }
}

/// A seal is a strict first-in-first-out barrier: a command taken before the
/// seal at position `k` leaves it and everything behind it in place, and the
/// seal itself is taken only when nothing before it is left.
pub proof fn law_seal_is_a_barrier<G, R>(groups: Seq<GroupView<G, R>>, k: int)
    requires
        0 <= k < groups.len(),
        groups[k] is Seal,
        forall|i: int| 0 <= i < k ==> #[trigger] groups[i] is Work,
    ensures
        popped(groups) matches Some((ready, rest)) && match ready {
            ReadyView::SealSegment(seal) => {
                &&& groups[k] == GroupView::<G, R>::Seal(seal)
                &&& rest == groups.skip(k + 1)
                &&& forall|i: int|
                    0 <= i < k ==> (#[trigger] groups[i])->Work_0.truncation is None
                        && groups[i]->Work_0.repairs.len() == 0
            },
            _ => rest.len() >= groups.len() - k && rest.skip(rest.len() - (groups.len() - k))
                == groups.skip(k),
        },
    decreases groups.len(),
{
    if k == 0 {
        assert(groups.drop_first() =~= groups.skip(1));
    } else {
        assert(groups[0] is Work);
        let tail = groups.drop_first();
        assert forall|i: int| 0 <= i < k - 1 implies #[trigger] tail[i] is Work by {
            assert(tail[i] == groups[i + 1]);
        }
        law_seal_is_a_barrier(tail, k - 1);
        assert(tail.skip(k - 1) =~= groups.skip(k));
        assert(tail.skip(k) =~= groups.skip(k + 1));
        let work = groups[0]->Work_0;
        let (ready, rest) = popped(groups)->Some_0;
        if work.truncation is Some || work.repairs.len() > 0 {
            assert(rest.skip(k) =~= groups.skip(k));
        } else if ready is SealSegment {
            assert forall|i: int| 0 <= i < k implies (
            #[trigger] groups[i])->Work_0.truncation is None && groups[i]->Work_0.repairs.len()
                == 0 by {
                if i > 0 {
                    assert(tail[i - 1] == groups[i]);
                }
            }
        }
    }
}

/// Pushing never disturbs what stands before the last stretch.
pub proof fn law_push_keeps_earlier_groups<G, R>(
    groups: Seq<GroupView<G, R>>,
    command: MaintenanceCmd<G, R>,
    i: int,
)
    requires
        0 <= i < groups.len() - 1,
    ensures
        pushed(groups, command)[i] == groups[i],
{
}

/// Bytes are compared as a dictionary orders words: by the first place in which
/// they differ, and a word comes before its continuations.
pub proof fn law_bytes_are_ordered_like_words(a: &[u8], b: &[u8], before: bool, i: int)
    requires
        call_ensures(comes_before, (a, b), before),
        0 <= i <= a@.len(),
        i <= b@.len(),
        a@.take(i) == b@.take(i),
    ensures
        i < a@.len() && i < b@.len() && a@[i] < b@[i] ==> before,
        i < a@.len() && i < b@.len() && a@[i] > b@[i] ==> !before,
        i == a@.len() && i < b@.len() ==> before,
        i == b@.len() ==> !before,
{
    lemma_common_prefix(a@, b@, i);
}

proof fn lemma_common_prefix(a: Seq<u8>, b: Seq<u8>, i: int)
    requires
        0 <= i <= a.len(),
        i <= b.len(),
        a.take(i) == b.take(i),
    ensures
        bytes_before(a, b) == bytes_before(a.skip(i), b.skip(i)),
        i < a.len() ==> a.skip(i)[0] == a[i],
        i < b.len() ==> b.skip(i)[0] == b[i],
    decreases i,
{
    if i == 0 {
        assert(a.skip(0) =~= a);
        assert(b.skip(0) =~= b);
    } else {
        assert(a.take(i)[0] == a[0]);
        assert(b.take(i)[0] == b[0]);
        assert(a.drop_first().take(i - 1) =~= b.drop_first().take(i - 1)) by {
            assert forall|k: int| 0 <= k < i - 1 implies #[trigger] a.drop_first()[k]
                == b.drop_first()[k] by {
                assert(a.take(i)[k + 1] == a[k + 1]);
                assert(b.take(i)[k + 1] == b[k + 1]);
            }
        }
        lemma_common_prefix(a.drop_first(), b.drop_first(), i - 1);
        assert(a.drop_first().skip(i - 1) =~= a.skip(i));
        assert(b.drop_first().skip(i - 1) =~= b.skip(i));
    }
}

proof fn lemma_repair_place(repairs: Seq<PendingRepair>, segment: SegmentDescriptor) -> (p: int)
    ensures
        0 <= p <= repairs.len(),
        forall|i: int|
            0 <= i < p ==> repaired_before((#[trigger] repairs[i]).segment, segment),
        p < repairs.len() ==> same_segment(repairs[p].segment, segment) || repaired_before(
            segment,
            repairs[p].segment,
        ),
    decreases repairs.len(),
{
    if repairs.len() == 0 {
        0
    } else {
        lemma_bytes_order(id_bytes(repairs[0].segment), id_bytes(segment));
        if same_segment(repairs[0].segment, segment) || repaired_before(
            segment,
            repairs[0].segment,
        ) {
            0
        } else {
            let rest = repairs.drop_first();
            let p = lemma_repair_place(rest, segment);
            assert forall|i: int| 0 <= i < p + 1 implies repaired_before(
                (#[trigger] repairs[i]).segment,
                segment,
            ) by {
                if i > 0 {
                    assert(rest[i - 1] == repairs[i]);
                }
            }
            if p + 1 < repairs.len() {
                assert(rest[p] == repairs[p + 1]);
            }
            p + 1
        }
    }
}

/// A seal is queued behind everything, and nothing else changes.
pub proof fn law_seals_keep_their_place<G, R>(pending: &mut PendingCommands<G, R>, seal: G)
    requires
        call_ensures(
            PendingCommands::<G, R>::push,
            (pending, MaintenanceCmd::<G, R>::SealSegment(seal)),
            (),
        ),
    ensures
        final(pending).groups@.len() == old(pending).groups@.len() + 1,
        final(pending).groups@.last() == PendingGroup::<G, R>::Seal(seal),
        forall|i: int|
            0 <= i < old(pending).groups@.len() ==> (#[trigger] final(pending).groups@[i])@ == old(
                pending,
            ).groups@[i]@,
{
    let n = old(pending).groups@.len() as int;
    assert(final(pending)@.len() == n + 1);
    assert(final(pending)@[n] == final(pending).groups@[n]@);
    assert forall|i: int| 0 <= i < n implies (#[trigger] final(pending).groups@[i])@ == old(
        pending,
    ).groups@[i]@ by {
        assert(final(pending)@[i] == old(pending)@[i]);
    }
}

/// A truncation joins the work since the last seal: the highest floor asked for
/// counts, everyone who asked is remembered in order, and the repairs are left
/// alone. Behind a seal new work begins.
pub proof fn law_truncations_are_merged<G, R>(
    pending: &mut PendingCommands<G, R>,
    floor: WalSeqNo,
    response: R,
)
    requires
        call_ensures(
            PendingCommands::<G, R>::push,
            (pending, MaintenanceCmd::<G, R>::Truncate { floor, response }),
            (),
        ),
    ensures
        ({
            let before = old(pending).groups@;
            let after = final(pending).groups@;
            let joins = before.len() > 0 && before.last() is Work;
            let work = after.last()->Work_0;
            &&& joins ==> after.len() == before.len()
            &&& !joins ==> after.len() == before.len() + 1
            &&& forall|i: int|
                0 <= i < after.len() - 1 ==> (#[trigger] after[i])@ == before[i]@
            &&& after.last() is Work && work.truncation is Some
            &&& work.truncation->Some_0.responses@.last() == response
            &&& work.truncation->Some_0.floor.record_index >= floor.record_index
            &&& joins ==> work.repairs@ == before.last()->Work_0.repairs@
            &&& !joins ==> work.repairs@.len() == 0
            &&& joins && before.last()->Work_0.truncation is Some ==> {
                let earlier = before.last()->Work_0.truncation->Some_0;
                let merged = work.truncation->Some_0;
                &&& merged.responses@.drop_last() == earlier.responses@
                &&& merged.floor.record_index >= earlier.floor.record_index
                &&& merged.floor == floor || merged.floor == earlier.floor
            }
            &&& !joins || before.last()->Work_0.truncation is None ==> {
                &&& work.truncation->Some_0.floor == floor
                &&& work.truncation->Some_0.responses@.len() == 1
            }
        }),
{
    let before = old(pending).groups@;
    let after = final(pending).groups@;
    let last = after.len() - 1;
    assert(final(pending)@.len() == after.len());
    assert(final(pending)@[last] == after[last]@);
    if before.len() > 0 {
        assert(old(pending)@[before.len() - 1] == before.last()@);
    }
    assert forall|i: int| 0 <= i < last implies (#[trigger] after[i])@ == before[i]@ by {
        assert(final(pending)@[i] == old(pending)@[i]);
    }
}

/// A repair joins the work since the last seal, whose repairs were `earlier`. A
/// segment that already waits is replaced by its latest descriptor and counts
/// one request more; any other takes its own place in the order of base index
/// and id. All other repairs and the truncation are left alone.
pub proof fn law_repairs_are_merged<G, R>(
    pending: &mut PendingCommands<G, R>,
    segment: SegmentDescriptor,
    earlier: Seq<PendingRepair>,
    repairs: Seq<PendingRepair>,
)
    requires
        old(pending).wf(),
        total_requests(old(pending)@) < usize::MAX,
        call_ensures(
            PendingCommands::<G, R>::push,
            (pending, MaintenanceCmd::<G, R>::RepairSegment(segment)),
            (),
        ),
        repairs == final(pending).groups@.last()->Work_0.repairs@,
        earlier == if old(pending).groups@.len() > 0 && old(pending).groups@.last() is Work {
            old(pending).groups@.last()->Work_0.repairs@
        } else {
            Seq::<PendingRepair>::empty()
        },
    ensures
        ({
            let before = old(pending).groups@;
            let after = final(pending).groups@;
            let joins = before.len() > 0 && before.last() is Work;
            &&& joins ==> after.len() == before.len()
            &&& !joins ==> after.len() == before.len() + 1
            &&& after.last() is Work
            &&& joins ==> after.last()->Work_0@.truncation == before.last()->Work_0@.truncation
            &&& !joins ==> after.last()->Work_0.truncation is None
        }),
        forall|i: int|
            0 <= i < final(pending).groups@.len() - 1 ==> (#[trigger] final(pending).groups@[i])@
                == old(pending).groups@[i]@,
        exists|p: int|
            0 <= p < repairs.len() && (#[trigger] repairs[p]).segment == segment && ((p
                < earlier.len() && earlier[p].segment.base_record_index
                == segment.base_record_index && earlier[p].segment.id@ == segment.id@
                && repairs[p].requests == earlier[p].requests + 1 && repairs == earlier.update(
                p,
                repairs[p],
            )) || (repairs[p].requests == 1 && repairs == earlier.insert(p, repairs[p]) && !(
            exists|i: int|
                0 <= i < earlier.len() && (#[trigger] earlier[i]).segment.base_record_index
                    == segment.base_record_index && earlier[i].segment.id@ == segment.id@))),
        forall|i: int, j: int|
            0 <= i < j < repairs.len() ==> (#[trigger] repairs[i]).segment.base_record_index < (
            #[trigger] repairs[j]).segment.base_record_index
                || repairs[i].segment.base_record_index == repairs[j].segment.base_record_index
                && bytes_before(
                vstd::utf8::encode_utf8(repairs[i].segment.id@),
                vstd::utf8::encode_utf8(repairs[j].segment.id@),
            ),
{
    let before = old(pending).groups@;
    let after = final(pending).groups@;
    let last = after.len() - 1;
    assert(final(pending)@.len() == after.len());
    assert(final(pending)@[last] == after[last]@);
    if before.len() > 0 {
        assert(old(pending)@[before.len() - 1] == before.last()@);
        assert(old(pending)@[before.len() - 1].wf());
    }
    assert forall|i: int| 0 <= i < last implies (#[trigger] after[i])@ == before[i]@ by {
        assert(final(pending)@[i] == old(pending)@[i]);
    }
    if before.len() > 0 && before.last() is Work {
        assert(old(pending)@.drop_last().push(old(pending)@.last()) =~= old(pending)@);
        lemma_total_push(old(pending)@.drop_last(), old(pending)@.last());
    }
    assert(repairs == with_repair(earlier, segment));
    lemma_with_repair_keeps(earlier, segment);
    let p = lemma_repair_place(earlier, segment);
    lemma_with_repair(earlier, segment, p);
    lemma_requests_bound(earlier, p);
    assert(repairs[p].segment == segment);
    if p < earlier.len() && same_segment(earlier[p].segment, segment) {
        lemma_same_id(earlier[p].segment, segment);
        assert(repairs == earlier.update(p, repairs[p]));
    } else {
        assert forall|i: int| 0 <= i < earlier.len() implies (
        #[trigger] earlier[i]).segment.base_record_index != segment.base_record_index
            || earlier[i].segment.id@ != segment.id@ by {
            lemma_bytes_order(id_bytes(earlier[i].segment), id_bytes(segment));
            if i > p {
                assert(repaired_before(earlier[p].segment, earlier[i].segment));
                lemma_repair_transitive(segment, earlier[p].segment, earlier[i].segment);
                lemma_bytes_order(id_bytes(segment), id_bytes(earlier[i].segment));
            }
        }
        assert(repairs == earlier.insert(p, repairs[p]));
    }
}

/// Ids with the same bytes are the same text.
proof fn lemma_same_id(a: SegmentDescriptor, b: SegmentDescriptor)
    requires
        id_bytes(a) == id_bytes(b),
    ensures
        a.id@ == b.id@,
{
    vstd::utf8::encode_utf8_decode_utf8(a.id@);
    vstd::utf8::encode_utf8_decode_utf8(b.id@);
}

/// A stretch without any work left.
pub open spec fn spent<G, R>(group: PendingGroup<G, R>) -> bool {
    group is Work && group->Work_0.truncation is None && group->Work_0.repairs@.len() == 0
}

proof fn lemma_popped_first<G, R>(groups: Seq<GroupView<G, R>>, k: int)
    requires
        0 <= k <= groups.len(),
        forall|i: int|
            0 <= i < k ==> (#[trigger] groups[i]) is Work && groups[i]->Work_0.truncation is None
                && groups[i]->Work_0.repairs.len() == 0,
    ensures
        popped(groups) == popped(groups.skip(k)),
    decreases k,
{
    if k == 0 {
        assert(groups.skip(0) =~= groups);
    } else {
        let rest = groups.drop_first();
        assert(groups[0] is Work);
        assert forall|i: int| 0 <= i < k - 1 implies (#[trigger] rest[i]) is Work
            && rest[i]->Work_0.truncation is None && rest[i]->Work_0.repairs.len() == 0 by {
            assert(rest[i] == groups[i + 1]);
        }
        lemma_popped_first(rest, k - 1);
        assert(rest.skip(k - 1) =~= groups.skip(k));
    }
}

/// The next command comes from the first stretch that holds anything: its seal,
/// else its truncation, else the first of its repairs, with the requests that it
/// answers. What was taken is gone, and everything behind it stays; there is no
/// next command exactly if no stretch holds anything.
pub proof fn law_commands_leave_in_order<G, R>(
    pending: &mut PendingCommands<G, R>,
    command: Option<ReadyCommand<G, R>>,
    k: int,
)
    requires
        call_ensures(PendingCommands::<G, R>::pop_front, (pending,), command),
        0 <= k <= old(pending).groups@.len(),
        forall|i: int| 0 <= i < k ==> spent(#[trigger] old(pending).groups@[i]),
        k < old(pending).groups@.len() ==> !spent(old(pending).groups@[k]),
    ensures
        ({
            let groups = old(pending).groups@;
            let after = final(pending).groups@;
            let left = groups.len() - k - 1;
            &&& k == groups.len() <==> command is None
            &&& command is None ==> after.len() == 0
            &&& command is Some ==> {
                let kind = command->Some_0.kind;
                let requests = command->Some_0.queued_requests;
                &&& after.len() == left + if groups[k] is Seal {
                    0int
                } else {
                    1
                }
                &&& forall|i: int, j: int|
                    k < i < groups.len() && 0 <= j < after.len() && after.len() - j == groups.len()
                        - i ==> (#[trigger] after[j])@ == (#[trigger] groups[i])@
                &&& groups[k] is Seal ==> kind == ReadyCommandKind::<G, R>::SealSegment(
                    groups[k]->Seal_0,
                ) && requests == 1
                &&& groups[k] is Work ==> {
                    let work = groups[k]->Work_0;
                    let rest = after[0]->Work_0;
                    &&& after[0] is Work && rest.truncation is None
                    &&& work.truncation is Some ==> {
                        &&& kind is Truncate
                        &&& kind->floor == work.truncation->Some_0.floor
                        &&& kind->responses@ == work.truncation->Some_0.responses@
                        &&& requests == work.truncation->Some_0.responses@.len()
                        &&& rest.repairs@ == work.repairs@
                    }
                    &&& work.truncation is None ==> {
                        &&& kind == ReadyCommandKind::<G, R>::RepairSegment(
                            work.repairs@[0].segment,
                        )
                        &&& requests == work.repairs@[0].requests
                        &&& rest.repairs@ == work.repairs@.drop_first()
                    }
                }
            }
        }),
{
    let groups = old(pending).groups@;
    let after = final(pending).groups@;
    let views = old(pending)@;
    assert forall|i: int| 0 <= i < k implies (#[trigger] views[i]) is Work
        && views[i]->Work_0.truncation is None && views[i]->Work_0.repairs.len() == 0 by {
        assert(spent(groups[i]));
        assert(views[i] == groups[i]@);
    }
    lemma_popped_first(views, k);
    let rest = views.skip(k);
    assert(final(pending)@.len() == after.len());
    if k < groups.len() {
        assert(rest[0] == groups[k]@);
        assert forall|i: int, j: int|
            k < i < groups.len() && 0 <= j < after.len() && after.len() - j == groups.len()
                - i implies (#[trigger] after[j])@ == (#[trigger] groups[i])@ by {
            assert(final(pending)@[j] == after[j]@);
            assert(rest.drop_first()[i - k - 1] == views[i]);
        }
        if groups[k] is Work {
            assert(final(pending)@[0] == after[0]@);
        }
    } else {
        assert(rest.len() == 0);
    }
}

/// A new queue holds nothing and has room.
pub proof fn law_new_queue_is_empty_with_room<G, R>(commands: PendingCommands<G, R>, room: bool)
    requires
        call_ensures(PendingCommands::<G, R>::new, (), commands),
        call_ensures(PendingCommands::<G, R>::has_room, (&commands,), room),
    ensures
        commands.groups@.len() == 0,
        room,
{
    assert(commands@.len() == commands.groups@.len());
}

} // verus!
