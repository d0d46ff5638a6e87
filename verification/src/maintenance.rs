//! Decisions of the background maintenance task.

use crate::error::Error;
use crate::pending::SegmentDescriptor;
use std::collections::HashSet;
use vstd::prelude::*;

verus! {

broadcast use vstd::std_specs::hash::group_hash_axioms;

/// Replicas that make a strict majority of `replicas`.
pub fn majority(replicas: usize) -> (quorum: usize)
    ensures
        quorum == replicas / 2 + 1,
{
    replicas / 2 + 1
}

/// The replicas of a log, by their zones.
pub open spec fn zones(replicas: nat) -> Set<int> {
    vstd::set_lib::set_int_range(0, replicas as int)
}

/// Two strict majorities of the same replicas share a replica, so whatever one
/// majority holds, every other majority has a witness of.
pub proof fn law_majorities_intersect(replicas: nat, a: Set<int>, b: Set<int>)
    requires
        a.subset_of(zones(replicas)),
        b.subset_of(zones(replicas)),
        a.len() >= replicas / 2 + 1,
        b.len() >= replicas / 2 + 1,
    ensures
        exists|zone: int| a.contains(zone) && b.contains(zone),
{
    vstd::set_lib::lemma_int_range(0, replicas as int);
    vstd::set_lib::lemma_len_subset(a, zones(replicas));
    vstd::set_lib::lemma_len_subset(b, zones(replicas));
    if forall|zone: int| !(a.contains(zone) && b.contains(zone)) {
        assert(a.disjoint(b));
        vstd::set_lib::lemma_set_disjoint_lens(a, b);
        vstd::set_lib::lemma_len_subset(a + b, zones(replicas));
    }
}

/// With an odd number of replicas the log survives the loss of any minority:
/// those that remain are a majority.
pub proof fn law_a_minority_can_fail(replicas: nat, lost: Set<int>)
    requires
        replicas % 2 == 1,
        lost.subset_of(zones(replicas)),
        lost.len() < replicas / 2 + 1,
    ensures
        zones(replicas).difference(lost).len() >= replicas / 2 + 1,
{
    vstd::set_lib::lemma_int_range(0, replicas as int);
    vstd::set_lib::lemma_len_subset(lost, zones(replicas));
    let left = zones(replicas).difference(lost);
    assert(left.disjoint(lost));
    vstd::set_lib::lemma_len_subset(left, zones(replicas));
    vstd::set_lib::lemma_set_disjoint_lens(left, lost);
    assert(left + lost =~= zones(replicas));
}

/// A place in the maintenance queue-depth gauge that is given back unless the
/// command was sent.
pub struct QueueDepthReservation {
    /// Whether the place has to be given back.
    pub armed: bool,
}

impl QueueDepthReservation {
    /// Reserves a place; the gauge has been raised by one for it.
    pub fn new() -> (reservation: Self)
        ensures
            reservation.armed,
    {
        QueueDepthReservation { armed: true }
    }

    /// Keeps the place: the command is in the queue.
    pub fn commit(&mut self)
        ensures
            !final(self).armed,
    {
        self.armed = false;
    }

    /// What ending the reservation adds to the gauge.
    pub fn release(self) -> (delta: i64)
        ensures
            delta == if self.armed {
                -1i64
            } else {
                0
            },
    {
        if self.armed {
            -1
        } else {
            0
        }
    }
}

/// What a ready command that answers `queued_requests` requests adds to the
/// queue-depth gauge.
pub fn queue_depth_delta(queued_requests: usize) -> (delta: i64)
    ensures
        delta == if queued_requests <= i64::MAX {
            -(queued_requests as int)
        } else {
            -(i64::MAX as int)
        },
{
    if queued_requests as u64 <= i64::MAX as u64 {
        -(queued_requests as i64)
    } else {
        -i64::MAX
    }
}

/// Result of the last attempt at enforcing a committed seal.
pub enum SealRetry {
    /// Try again after the delay of this many earlier failures.
    Again(usize),
    /// The retry budget is exhausted.
    GiveUp(Error),
}

/// A bounded sequence of attempts at enforcing a committed seal.
pub struct SealAttempts {
    /// Failed attempts that were followed by another.
    pub attempt: usize,
    /// Configured retry budget.
    pub max_retries: usize,
}

impl SealAttempts {
    /// The first attempt.
    pub fn new(max_retries: usize) -> (attempts: Self)
        ensures
            attempts == (SealAttempts { attempt: 0, max_retries }),
    {
        SealAttempts { attempt: 0, max_retries }
    }

    /// Whether the attempt at hand repeats an earlier one.
    pub fn is_retry(&self) -> (retry: bool)
        ensures
            retry == (self.attempt > 0),
    {
        self.attempt > 0
    }

    /// What the attempt at hand counts: one retry, if it repeats an earlier one.
    pub fn begun(&self) -> (counters: PassCounters)
        ensures
            counters == (PassCounters {
                seal_enforcement_retries: if self.attempt > 0 {
                    1
                } else {
                    0
                },
                ..no_counts()
            }),
    {
        let mut counters = zero_counts();
        if self.is_retry() {
            counters.seal_enforcement_retries = 1;
        }
        counters
    }

    /// Decides after a failed attempt.
    pub fn failed(&mut self, error: Error) -> (decision: SealRetry)
        requires
            old(self).attempt <= old(self).max_retries,
        ensures
            final(self).attempt <= final(self).max_retries,
            final(self).max_retries == old(self).max_retries,
            if old(self).attempt < old(self).max_retries {
                &&& decision == SealRetry::Again(old(self).attempt)
                &&& final(self).attempt == old(self).attempt + 1
            } else {
                &&& decision == SealRetry::GiveUp(error)
                &&& final(self).attempt == old(self).attempt
            },
    {
        if self.attempt < self.max_retries {
            let attempt: usize = self.attempt;
            self.attempt = attempt + 1;
            SealRetry::Again(attempt)
        } else {
            SealRetry::GiveUp(error)
        }
    }
}

/// What the maintenance task knows of the sealed catalog.
pub struct MaintenanceState {
    /// Sealed segments: engine snapshots, minus what maintenance has deleted.
    pub catalog: Vec<SegmentDescriptor>,
    /// Base record indices of deleted segments.
    pub deleted: HashSet<u64>,
    /// Base record indices of segments that maintenance has finalized.
    pub sealed: HashSet<u64>,
    /// Whether the sweep of dead incarnations still has work.
    pub sweep_pending: bool,
}

/// What a dead-segment sweep reported.
#[derive(Clone, Copy, Debug, PartialEq, Eq, Structural)]
pub struct SweepReport {
    /// Objects deleted.
    pub deleted_objects: usize,
    /// Operations that have to be tried again.
    pub deferred_operations: usize,
    /// Whether a terminal failure occurred.
    pub failed: bool,
}

/// Increments of the task's counters.
#[derive(Clone, Copy, Debug, PartialEq, Eq, Structural)]
pub struct PassCounters {
    /// Orphaned objects deleted.
    pub orphan_objects_deleted: usize,
    /// Sweeps that left work behind.
    pub orphan_sweeps_deferred: usize,
    /// Objects repaired.
    pub repair_objects_repaired: usize,
    /// Repairs skipped because a zone was unavailable.
    pub repair_transient_skips: usize,
    /// Repair passes that failed.
    pub repair_failures: usize,
    /// Repair passes that ran to an end.
    pub repair_passes: usize,
    /// Completed truncations.
    pub truncation_cycles: usize,
    /// Failed operations.
    pub operation_failures: usize,
    /// Segments whose seal was enforced.
    pub segments_sealed: usize,
    /// Repeated attempts at enforcing a committed seal.
    pub seal_enforcement_retries: usize,
}

/// What became of a repair pass.
#[derive(Clone, Copy, Debug, PartialEq, Eq, Structural)]
pub enum RepairOutcome {
    /// The manifest could not be opened.
    ManifestUnavailable,
    /// The manifest could not be read again.
    RefreshFailed,
    /// The pass ran.
    Report {
        /// Objects repaired.
        objects_repaired: usize,
        /// Objects skipped because a zone was unavailable.
        transient_failures: usize,
    },
    /// The pass failed.
    Failed,
}

/// What became of a deletion pass.
#[derive(Clone, Copy, Debug, PartialEq, Eq, Structural)]
pub enum DeletionOutcome {
    /// The manifest could not be opened.
    ManifestUnavailable,
    /// The pass ran.
    Completed,
    /// The pass failed.
    Failed,
}

/// How a seal ended.
pub enum SealOutcome {
    /// A finalized quorum exists.
    Enforced {
        /// The sealed segment.
        segment: SegmentDescriptor,
        /// Whether every replica was finalized.
        all_replicas_finalized: bool,
    },
    /// The retry budget was exhausted.
    Exhausted(Error),
}

/// How a seal ended: through the segment's live writer, or, where that failed,
/// from storage. A seal from storage says nothing of the replicas beyond the
/// quorum.
pub fn seal_outcome(
    live: Result<(SegmentDescriptor, bool), Result<SegmentDescriptor, Error>>,
) -> (outcome: SealOutcome)
    ensures
        outcome == match live {
            Ok((segment, all_replicas_finalized)) => SealOutcome::Enforced {
                segment,
                all_replicas_finalized,
            },
            Err(Ok(segment)) => SealOutcome::Enforced { segment, all_replicas_finalized: false },
            Err(Err(error)) => SealOutcome::Exhausted(error),
        },
{
    match live {
        Ok((segment, all_replicas_finalized)) => SealOutcome::Enforced {
            segment,
            all_replicas_finalized,
        },
        Err(Ok(segment)) => SealOutcome::Enforced { segment, all_replicas_finalized: false },
        Err(Err(error)) => SealOutcome::Exhausted(error),
    }
}

/// What to do after a seal.
pub enum SealFollowup {
    /// Release the engine.
    Release,
    /// Release the engine, then repair this segment.
    ReleaseAndRepair(SegmentDescriptor),
    /// Leave the engine waiting: rotation stays disabled until restart.
    Abandon(Error),
}

/// The descriptor as merged: a seal that maintenance has enforced is not pending.
pub open spec fn merged(segment: SegmentDescriptor, sealed: Set<u64>) -> SegmentDescriptor {
    SegmentDescriptor {
        seal_pending: segment.seal_pending && !sealed.contains(segment.base_record_index),
        ..segment
    }
}

/// A snapshot of the engine's catalog as maintenance sees it: without what it
/// has deleted, and with its own seals enforced.
pub open spec fn adopted(
    snapshot: Seq<SegmentDescriptor>,
    deleted: Set<u64>,
    sealed: Set<u64>,
) -> Seq<SegmentDescriptor>
    decreases snapshot.len(),
{
    if snapshot.len() == 0 {
        Seq::empty()
    } else {
        let rest = adopted(snapshot.drop_last(), deleted, sealed);
        if deleted.contains(snapshot.last().base_record_index) {
            rest
        } else {
            rest.push(merged(snapshot.last(), sealed))
        }
    }
}

/// Whether the catalog holds a segment with this base record index.
pub open spec fn holds_base(catalog: Seq<SegmentDescriptor>, base: u64) -> bool {
    exists|i: int| 0 <= i < catalog.len() && (#[trigger] catalog[i]).base_record_index == base
}

/// No change of any counter.
pub open spec fn no_counts() -> PassCounters {
    PassCounters {
        orphan_objects_deleted: 0,
        orphan_sweeps_deferred: 0,
        repair_objects_repaired: 0,
        repair_transient_skips: 0,
        repair_failures: 0,
        repair_passes: 0,
        truncation_cycles: 0,
        operation_failures: 0,
        segments_sealed: 0,
        seal_enforcement_retries: 0,
    }
}

fn zero_counts() -> (counters: PassCounters)
    ensures
        counters == no_counts(),
{
    PassCounters {
        orphan_objects_deleted: 0,
        orphan_sweeps_deferred: 0,
        repair_objects_repaired: 0,
        repair_transient_skips: 0,
        repair_failures: 0,
        repair_passes: 0,
        truncation_cycles: 0,
        operation_failures: 0,
        segments_sealed: 0,
        seal_enforcement_retries: 0,
    }
}

impl MaintenanceState {
    /// A task that starts from the engine's first snapshot.
    pub fn new(catalog: Vec<SegmentDescriptor>) -> (state: Self)
        ensures
            state.catalog == catalog,
            state.deleted@ == Set::<u64>::empty(),
            state.sealed@ == Set::<u64>::empty(),
            state.sweep_pending,
    {
        MaintenanceState {
            catalog,
            deleted: HashSet::new(),
            sealed: HashSet::new(),
            sweep_pending: true,
        }
    }

    /// Merges the engine's latest sealed-catalog snapshot, keeping maintenance's
    /// deletions and seals.
    pub fn adopt_catalog(&mut self, snapshot: Vec<SegmentDescriptor>)
        ensures
            final(self).catalog@ == adopted(snapshot@, old(self).deleted@, old(self).sealed@),
            final(self).deleted == old(self).deleted,
            final(self).sealed == old(self).sealed,
            final(self).sweep_pending == old(self).sweep_pending,
    {
        let ghost all = snapshot@;
        let mut merged_catalog: Vec<SegmentDescriptor> = Vec::new();
        for segment in iter: snapshot
            invariant
                iter.seq() == all,
                *self == *old(self),
                merged_catalog@ == adopted(
                    all.take(iter.index() as int),
                    self.deleted@,
                    self.sealed@,
                ),
        {
            proof {
                let i = iter.index() as int;
                assert(all.take(i + 1).drop_last() =~= all.take(i));
                assert(all.take(i + 1).last() == segment);
            }
            if !self.deleted.contains(&segment.base_record_index) {
                let mut segment = segment;
                if segment.seal_pending && self.sealed.contains(&segment.base_record_index) {
                    segment.seal_pending = false;
                }
                merged_catalog.push(segment);
            }
        }
        proof {
            assert(all.take(all.len() as int) =~= all);
        }
        self.catalog = merged_catalog;
    }

    /// The base record indices of the catalog, in order.
    pub fn catalog_bases(&self) -> (bases: Vec<u64>)
        ensures
            bases@.len() == self.catalog@.len(),
            forall|i: int|
                0 <= i < bases@.len() ==> #[trigger] bases@[i]
                    == self.catalog@[i].base_record_index,
    {
        let mut bases: Vec<u64> = Vec::new();
        let mut i: usize = 0;
        while i < self.catalog.len()
            invariant
                i <= self.catalog@.len(),
                bases@.len() == i,
                forall|j: int|
                    0 <= j < i ==> #[trigger] bases@[j] == self.catalog@[j].base_record_index,
            decreases self.catalog@.len() - i,
        {
            bases.push(self.catalog[i].base_record_index);
            i = i + 1;
        }
        bases
    }

    /// Whether the catalog holds a segment with this base record index.
    fn holds(&self, base: u64) -> (held: bool)
        ensures
            held == holds_base(self.catalog@, base),
    {
        let mut i: usize = 0;
        while i < self.catalog.len()
            invariant
                i <= self.catalog@.len(),
                forall|j: int|
                    0 <= j < i ==> (#[trigger] self.catalog@[j]).base_record_index != base,
            decreases self.catalog@.len() - i,
        {
            if self.catalog[i].base_record_index == base {
                return true;
            }
            i = i + 1;
        }
        false
    }

    /// Remembers the segments that a deletion pass took out of the catalog, so
    /// that later snapshots cannot bring them back.
    pub fn remember_catalog_deletions(&mut self, before: &Vec<u64>)
        ensures
            final(self).deleted@ == old(self).deleted@.union(
                Set::new(
                    |base: u64| before@.contains(base) && !holds_base(old(self).catalog@, base),
                ),
            ),
            final(self).catalog == old(self).catalog,
            final(self).sealed == old(self).sealed,
            final(self).sweep_pending == old(self).sweep_pending,
    {
        let ghost known = self.deleted@;
        let mut i: usize = 0;
        while i < before.len()
            invariant
                i <= before@.len(),
                self.catalog == old(self).catalog,
                self.sealed == old(self).sealed,
                self.sweep_pending == old(self).sweep_pending,
                self.deleted@ == known.union(
                    Set::new(
                        |base: u64|
                            before@.take(i as int).contains(base) && !holds_base(
                                self.catalog@,
                                base,
                            ),
                    ),
                ),
            decreases before@.len() - i,
        {
            let gone: u64 = before[i];
            let ghost seen = before@.take(i as int);
            let ghost next = before@.take(i + 1);
            let ghost so_far = self.deleted@;
            proof {
                assert(next =~= seen.push(gone));
                assert(next.contains(gone)) by {
                    assert(next[i as int] == gone);
                }
                assert forall|base: u64| next.contains(base) <==> seen.contains(base) || base
                    == gone by {
                    if next.contains(base) && base != gone {
                        let k = choose|k: int| 0 <= k < next.len() && next[k] == base;
                        assert(seen[k] == base);
                    }
                    if seen.contains(base) {
                        let k = choose|k: int| 0 <= k < seen.len() && seen[k] == base;
                        assert(next[k] == base);
                    }
                }
            }
            if !self.holds(gone) {
                self.deleted.insert(gone);
            }
            proof {
                assert(self.deleted@ =~= known.union(
                    Set::new(
                        |base: u64| next.contains(base) && !holds_base(self.catalog@, base),
                    ),
                ));
            }
            i = i + 1;
        }
        proof {
            assert(before@.take(before@.len() as int) =~= before@);
        }
    }

    /// Adopts the end of a seal: an enforced seal clears the segment's pending
    /// flag from now on, counts a sealed segment and releases the engine; a copy
    /// that was not finalized is repaired right after. An exhausted seal counts a
    /// failed operation and changes nothing.
    pub fn seal_finished(&mut self, base: u64, outcome: SealOutcome) -> (result: (
        SealFollowup,
        PassCounters,
    ))
        ensures
            final(self).catalog == old(self).catalog,
            final(self).deleted == old(self).deleted,
            final(self).sweep_pending == old(self).sweep_pending,
            match outcome {
                SealOutcome::Enforced { segment, all_replicas_finalized } => {
                    &&& final(self).sealed@ == old(self).sealed@.insert(base)
                    &&& result.0 == if all_replicas_finalized {
                        SealFollowup::Release
                    } else {
                        SealFollowup::ReleaseAndRepair(segment)
                    }
                    &&& result.1 == (PassCounters { segments_sealed: 1, ..no_counts() })
                },
                SealOutcome::Exhausted(error) => {
                    &&& final(self).sealed == old(self).sealed
                    &&& result.0 == SealFollowup::Abandon(error)
                    &&& result.1 == (PassCounters { operation_failures: 1, ..no_counts() })
                },
            },
    {
        let mut counters = zero_counts();
        match outcome {
            SealOutcome::Enforced { segment, all_replicas_finalized } => {
                self.sealed.insert(base);
                counters.segments_sealed = 1;
                if all_replicas_finalized {
                    (SealFollowup::Release, counters)
                } else {
                    (SealFollowup::ReleaseAndRepair(segment), counters)
                }
            },
            SealOutcome::Exhausted(error) => {
                counters.operation_failures = 1;
                (SealFollowup::Abandon(error), counters)
            },
        }
    }

    /// Adopts a dead-segment sweep. The sweep is over once nothing was
    /// deferred.
    pub fn swept(&mut self, report: SweepReport) -> (counters: PassCounters)
        ensures
            final(self).catalog == old(self).catalog,
            final(self).deleted == old(self).deleted,
            final(self).sealed == old(self).sealed,
            final(self).sweep_pending == (old(self).sweep_pending && report.deferred_operations
                > 0),
            counters == (PassCounters {
                orphan_objects_deleted: report.deleted_objects,
                orphan_sweeps_deferred: if report.deferred_operations > 0 {
                    1
                } else {
                    0
                },
                operation_failures: if report.deferred_operations > 0 && report.failed {
                    1
                } else {
                    0
                },
                ..no_counts()
            }),
    {
        let mut counters = zero_counts();
        counters.orphan_objects_deleted = report.deleted_objects;
        if report.deferred_operations == 0 {
            self.sweep_pending = false;
        } else {
            counters.orphan_sweeps_deferred = 1;
            if report.failed {
                counters.operation_failures = 1;
            }
        }
        counters
    }
}

/// The descriptor of a segment whose live seal succeeded on a quorum.
pub fn sealed_descriptor(
    id: String,
    base_record_index: u64,
    end_record_index: u64,
    crc32c: u32,
    replicas: usize,
) -> (segment: SegmentDescriptor)
    ensures
        segment == (SegmentDescriptor {
            id,
            base_record_index,
            end_record_index,
            crc32c,
            copies: (replicas / 2 + 1) as usize,
            finalized_copies: (replicas / 2 + 1) as usize,
            seal_pending: false,
        }),
{
    let quorum: usize = majority(replicas);
    SegmentDescriptor {
        id,
        base_record_index,
        end_record_index,
        crc32c,
        copies: quorum,
        finalized_copies: quorum,
        seal_pending: false,
    }
}

/// What a repair pass counts, and whether the manifest handle must be opened
/// anew. Every pass counts, however it ends.
pub fn repair_finished(outcome: RepairOutcome) -> (result: (PassCounters, bool))
    ensures
        result.0 == match outcome {
            RepairOutcome::ManifestUnavailable | RepairOutcome::RefreshFailed => PassCounters {
                repair_failures: 1,
                repair_passes: 1,
                ..no_counts()
            },
            RepairOutcome::Report { objects_repaired, transient_failures } => PassCounters {
                repair_objects_repaired: objects_repaired,
                repair_transient_skips: transient_failures,
                repair_passes: 1,
                ..no_counts()
            },
            RepairOutcome::Failed => PassCounters {
                repair_failures: 1,
                repair_passes: 1,
                operation_failures: 1,
                ..no_counts()
            },
        },
        result.1 == (outcome == RepairOutcome::RefreshFailed),
{
    let mut counters = zero_counts();
    counters.repair_passes = 1;
    let mut reopen = false;
    match outcome {
        RepairOutcome::ManifestUnavailable => {
            counters.repair_failures = 1;
        },
        RepairOutcome::RefreshFailed => {
            counters.repair_failures = 1;
            reopen = true;
        },
        RepairOutcome::Report { objects_repaired, transient_failures } => {
            counters.repair_objects_repaired = objects_repaired;
            counters.repair_transient_skips = transient_failures;
        },
        RepairOutcome::Failed => {
            counters.repair_failures = 1;
            counters.operation_failures = 1;
        },
    }
    (counters, reopen)
}

/// What a tombstone cleanup counts, and whether the manifest handle must be
/// opened anew.
pub fn cleanup_finished(outcome: DeletionOutcome) -> (result: (PassCounters, bool))
    ensures
        result.0 == if outcome == DeletionOutcome::Completed {
            no_counts()
        } else {
            PassCounters { operation_failures: 1, ..no_counts() }
        },
        result.1 == (outcome == DeletionOutcome::Failed),
{
    let mut counters = zero_counts();
    match outcome {
        DeletionOutcome::Completed => (counters, false),
        DeletionOutcome::ManifestUnavailable => {
            counters.operation_failures = 1;
            (counters, false)
        },
        DeletionOutcome::Failed => {
            counters.operation_failures = 1;
            (counters, true)
        },
    }
}

/// What a truncation counts, and whether the manifest handle must be opened
/// anew.
pub fn truncation_finished(succeeded: bool) -> (result: (PassCounters, bool))
    ensures
        result.0 == if succeeded {
            PassCounters { truncation_cycles: 1, ..no_counts() }
        } else {
            PassCounters { operation_failures: 1, ..no_counts() }
        },
        result.1 == !succeeded,
{
    let mut counters = zero_counts();
    if succeeded {
        counters.truncation_cycles = 1;
    } else {
        counters.operation_failures = 1;
    }
    (counters, !succeeded)
}

proof fn lemma_adopted(
    snapshot: Seq<SegmentDescriptor>,
    deleted: Set<u64>,
    sealed: Set<u64>,
    k: int,
)
    requires
        0 <= k < adopted(snapshot, deleted, sealed).len(),
    ensures
        !deleted.contains(adopted(snapshot, deleted, sealed)[k].base_record_index),
        adopted(snapshot, deleted, sealed)[k].seal_pending ==> !sealed.contains(
            adopted(snapshot, deleted, sealed)[k].base_record_index,
        ),
    decreases snapshot.len(),
{
    if snapshot.len() > 0 {
        let rest = adopted(snapshot.drop_last(), deleted, sealed);
        if k < rest.len() {
            lemma_adopted(snapshot.drop_last(), deleted, sealed, k);
        }
    }
}

/// However stale a snapshot is, adopting it brings back neither a segment that
/// maintenance has deleted nor a pending seal that it has enforced.
pub proof fn law_adoption_keeps_deletions_and_seals(
    snapshot: Seq<SegmentDescriptor>,
    deleted: Set<u64>,
    sealed: Set<u64>,
)
    ensures
        forall|base: u64|
            deleted.contains(base) ==> !holds_base(
                adopted(snapshot, deleted, sealed),
                base,
            ),
        forall|k: int|
            0 <= k < adopted(snapshot, deleted, sealed).len() && (#[trigger] adopted(
                snapshot,
                deleted,
                sealed,
            )[k]).seal_pending ==> !sealed.contains(
                adopted(snapshot, deleted, sealed)[k].base_record_index,
            ),
{
    let catalog = adopted(snapshot, deleted, sealed);
    assert forall|k: int| 0 <= k < catalog.len() implies !deleted.contains(
        (#[trigger] catalog[k]).base_record_index,
    ) && (catalog[k].seal_pending ==> !sealed.contains(catalog[k].base_record_index)) by {
        lemma_adopted(snapshot, deleted, sealed, k);
    }
}

/// Enforcing a committed seal takes at most one attempt more than the retry
/// budget: the budget left shrinks with every retry.
pub proof fn law_seal_attempts_are_bounded(before: SealAttempts, after: SealAttempts)
    requires
        before.attempt < before.max_retries,
        after.attempt == before.attempt + 1,
        after.max_retries == before.max_retries,
    ensures
        after.attempt <= after.max_retries,
        after.max_retries - after.attempt < before.max_retries - before.attempt,
{
}

/// The segments of a snapshot that maintenance has not deleted.
pub open spec fn undeleted(
    snapshot: Seq<SegmentDescriptor>,
    deleted: Set<u64>,
) -> Seq<SegmentDescriptor> {
    snapshot.filter(|segment: SegmentDescriptor| !deleted.contains(segment.base_record_index))
}

proof fn lemma_adopted_is_kept(
    snapshot: Seq<SegmentDescriptor>,
    deleted: Set<u64>,
    sealed: Set<u64>,
)
    ensures
        adopted(snapshot, deleted, sealed) == undeleted(snapshot, deleted).map_values(
            |segment: SegmentDescriptor| merged(segment, sealed),
        ),
    decreases snapshot.len(),
{
    let merging = |segment: SegmentDescriptor| merged(segment, sealed);
    reveal(Seq::filter);
    if snapshot.len() == 0 {
        assert(adopted(snapshot, deleted, sealed) =~= undeleted(snapshot, deleted).map_values(
            merging,
        ));
    } else {
        lemma_adopted_is_kept(snapshot.drop_last(), deleted, sealed);
        let kept = undeleted(snapshot.drop_last(), deleted);
        if !deleted.contains(snapshot.last().base_record_index) {
            assert(undeleted(snapshot, deleted) =~= kept.push(snapshot.last()));
            assert(kept.push(snapshot.last()).map_values(merging) =~= kept.map_values(
                merging,
            ).push(merged(snapshot.last(), sealed)));
        } else {
            assert(undeleted(snapshot, deleted) =~= kept);
        }
    }
}

/// Adopting a snapshot keeps, in order, every segment that maintenance has not
/// deleted, with all that it says of it. A pending seal is cleared only if
/// maintenance has enforced it: a segment whose seal is still owed stays pending,
/// so that repair keeps away from it.
pub proof fn law_adoption_keeps_the_snapshot(
    state: &mut MaintenanceState,
    snapshot: Vec<SegmentDescriptor>,
)
    requires
        call_ensures(MaintenanceState::adopt_catalog, (state, snapshot), ()),
    ensures
        ({
            let kept = snapshot@.filter(
                |segment: SegmentDescriptor|
                    !old(state).deleted@.contains(segment.base_record_index),
            );
            let catalog = final(state).catalog@;
            &&& catalog.len() == kept.len()
            &&& forall|k: int|
                0 <= k < kept.len() ==> {
                    &&& (#[trigger] catalog[k]).id == kept[k].id
                    &&& catalog[k].base_record_index == kept[k].base_record_index
                    &&& catalog[k].end_record_index == kept[k].end_record_index
                    &&& catalog[k].crc32c == kept[k].crc32c
                    &&& catalog[k].copies == kept[k].copies
                    &&& catalog[k].finalized_copies == kept[k].finalized_copies
                    &&& (catalog[k].seal_pending <==> kept[k].seal_pending && !old(
                        state,
                    ).sealed@.contains(kept[k].base_record_index))
                }
        }),
        final(state).deleted@ == old(state).deleted@,
        final(state).sealed@ == old(state).sealed@,
        final(state).sweep_pending == old(state).sweep_pending,
{
    lemma_adopted_is_kept(snapshot@, old(state).deleted@, old(state).sealed@);
    let kept = undeleted(snapshot@, old(state).deleted@);
    let catalog = final(state).catalog@;
    assert forall|k: int| 0 <= k < kept.len() implies #[trigger] catalog[k] == merged(
        kept[k],
        old(state).sealed@,
    ) by {}
}

/// Whatever stood in a snapshot and was not deleted is in the adopted catalog.
pub proof fn law_adoption_drops_only_deletions(
    state: &mut MaintenanceState,
    snapshot: Vec<SegmentDescriptor>,
    i: int,
)
    requires
        call_ensures(MaintenanceState::adopt_catalog, (state, snapshot), ()),
        0 <= i < snapshot@.len(),
    ensures
        holds_base(final(state).catalog@, snapshot@[i].base_record_index) <==> !old(
            state,
        ).deleted@.contains(snapshot@[i].base_record_index),
{
    let kept = undeleted(snapshot@, old(state).deleted@);
    let catalog = final(state).catalog@;
    law_adoption_keeps_the_snapshot(state, snapshot);
    law_adoption_keeps_deletions_and_seals(snapshot@, old(state).deleted@, old(state).sealed@);
    let keep = |segment: SegmentDescriptor|
        !old(state).deleted@.contains(segment.base_record_index);
    if keep(snapshot@[i]) {
        snapshot@.lemma_filter_contains(keep, i);
        let k = choose|k: int| 0 <= k < kept.len() && kept[k] == snapshot@[i];
        assert(catalog[k].base_record_index == snapshot@[i].base_record_index);
    }
}

/// A deletion pass is remembered: exactly the segments that it took out of the
/// catalog are added to the deletions, and none is forgotten. Together with an
/// adoption this keeps them out for good.
pub proof fn law_deletions_are_remembered(
    state: &mut MaintenanceState,
    before: &Vec<u64>,
    base: u64,
)
    requires
        call_ensures(MaintenanceState::remember_catalog_deletions, (state, before), ()),
    ensures
        final(state).deleted@.contains(base) <==> old(state).deleted@.contains(base) || (
        before@.contains(base) && forall|i: int|
            0 <= i < old(state).catalog@.len() ==> (#[trigger] old(
                state,
            ).catalog@[i]).base_record_index != base),
        final(state).catalog == old(state).catalog,
        final(state).sealed@ == old(state).sealed@,
        final(state).sweep_pending == old(state).sweep_pending,
{
}

/// The bases of a catalog are those of its segments, in order.
pub proof fn law_bases_are_those_of_the_catalog(state: &MaintenanceState, bases: Vec<u64>)
    requires
        call_ensures(MaintenanceState::catalog_bases, (state,), bases),
    ensures
        bases@ == state.catalog@.map_values(
            |segment: SegmentDescriptor| segment.base_record_index,
        ),
{
    assert(bases@ =~= state.catalog@.map_values(
        |segment: SegmentDescriptor| segment.base_record_index,
    ));
}

/// A finished seal and the next snapshot: once a seal is enforced, no snapshot
/// shows its segment as pending any more, while an exhausted seal leaves a
/// pending segment pending. The engine is released exactly if the seal was
/// enforced, and a segment with a copy that was not finalized is repaired.
pub proof fn law_enforced_seals_stay_enforced(
    state: &mut MaintenanceState,
    base: u64,
    outcome: SealOutcome,
    result: (SealFollowup, PassCounters),
    later: &mut MaintenanceState,
    snapshot: Vec<SegmentDescriptor>,
)
    requires
        call_ensures(MaintenanceState::seal_finished, (state, base, outcome), result),
        *old(later) == *final(state),
        call_ensures(MaintenanceState::adopt_catalog, (later, snapshot), ()),
    ensures
        outcome is Enforced ==> {
            &&& final(state).sealed@.contains(base)
            &&& forall|k: int|
                0 <= k < final(later).catalog@.len() && (#[trigger] final(later).catalog@[k]).base_record_index == base ==> !final(later).catalog@[k].seal_pending
            &&& outcome->all_replicas_finalized ==> result.0 is Release
            &&& !outcome->all_replicas_finalized ==> result.0 == SealFollowup::ReleaseAndRepair(
                outcome->segment,
            )
            &&& result.1.segments_sealed == 1 && result.1.operation_failures == 0
        },
        outcome is Exhausted ==> {
            &&& final(state).sealed@ == old(state).sealed@
            &&& result.0 == SealFollowup::Abandon(outcome->Exhausted_0)
            &&& result.1.segments_sealed == 0 && result.1.operation_failures == 1
        },
        forall|other: u64|
            other != base ==> (#[trigger] final(state).sealed@.contains(other) <==> old(
                state,
            ).sealed@.contains(other)),
        final(state).catalog == old(state).catalog,
        final(state).deleted@ == old(state).deleted@,
        final(state).sweep_pending == old(state).sweep_pending,
{
    law_adoption_keeps_deletions_and_seals(snapshot@, old(later).deleted@, old(later).sealed@);
    assert(final(later).catalog@ == adopted(snapshot@, old(later).deleted@, old(later).sealed@));
}

/// Two quorums of any number of replicas overlap, and a quorum is never more than
/// there are.
pub proof fn law_quorum_is_a_strict_majority(replicas: usize, quorum: usize)
    requires
        call_ensures(majority, (replicas,), quorum),
    ensures
        2 * quorum > replicas,
        2 * (quorum - 1) <= replicas,
        replicas > 0 ==> quorum <= replicas,
{
}

/// A sealed descriptor claims a finalized majority, and no pending seal.
pub proof fn law_sealed_descriptor_claims_a_majority(
    id: String,
    base_record_index: u64,
    end_record_index: u64,
    crc32c: u32,
    replicas: usize,
    segment: SegmentDescriptor,
)
    requires
        call_ensures(
            sealed_descriptor,
            (id, base_record_index, end_record_index, crc32c, replicas),
            segment,
        ),
    ensures
        segment.id == id,
        segment.base_record_index == base_record_index,
        segment.end_record_index == end_record_index,
        segment.crc32c == crc32c,
        2 * segment.copies > replicas,
        2 * (segment.copies - 1) <= replicas,
        segment.finalized_copies == segment.copies,
        !segment.seal_pending,
{
}

/// A place in the gauge is given back exactly if its command was never sent, so
/// the gauge counts the commands that are queued; a command that leaves takes
/// back as many places as it answers requests.
pub proof fn law_gauge_counts_queued_commands(
    unsent: QueueDepthReservation,
    sent: &mut QueueDepthReservation,
    unsent_delta: i64,
    sent_delta: i64,
    requests: usize,
    answered: i64,
)
    requires
        call_ensures(QueueDepthReservation::new, (), unsent),
        call_ensures(QueueDepthReservation::release, (unsent,), unsent_delta),
        call_ensures(QueueDepthReservation::commit, (sent,), ()),
        call_ensures(QueueDepthReservation::release, (*final(sent),), sent_delta),
        call_ensures(queue_depth_delta, (requests,), answered),
    ensures
        1 + unsent_delta == 0,
        sent_delta == 0,
        requests <= i64::MAX ==> requests + answered == 0,
        requests > i64::MAX ==> answered == -i64::MAX,
{
}

/// A sweep is over once it left nothing to do again, and only then; what it
/// deleted is counted, and a failure only if something was left.
pub proof fn law_sweep_goes_on_until_nothing_is_left(
    state: &mut MaintenanceState,
    report: SweepReport,
    counters: PassCounters,
)
    requires
        call_ensures(MaintenanceState::swept, (state, report), counters),
    ensures
        report.deferred_operations == 0 ==> !final(state).sweep_pending,
        report.deferred_operations > 0 ==> final(state).sweep_pending == old(state).sweep_pending,
        final(state).catalog == old(state).catalog,
        final(state).deleted@ == old(state).deleted@,
        final(state).sealed@ == old(state).sealed@,
        counters.orphan_objects_deleted == report.deleted_objects,
        counters.orphan_sweeps_deferred > 0 <==> report.deferred_operations > 0,
        counters.operation_failures > 0 <==> report.deferred_operations > 0 && report.failed,
        counters.orphan_sweeps_deferred <= 1,
        counters.operation_failures <= 1,
        counters.repair_passes == 0,
        counters.segments_sealed == 0,
        counters.truncation_cycles == 0,
{
}

/// Every repair pass counts once, what it did or skipped is counted only if it
/// ran, and the manifest is opened anew exactly if it could not be read again.
pub proof fn law_repair_passes_are_counted(outcome: RepairOutcome, result: (PassCounters, bool))
    requires
        call_ensures(repair_finished, (outcome,), result),
    ensures
        result.0.repair_passes == 1,
        outcome is Report <==> result.0.repair_failures == 0,
        result.0.repair_failures <= 1,
        outcome is Failed <==> result.0.operation_failures == 1,
        result.0.operation_failures <= 1,
        outcome is Report ==> result.0.repair_objects_repaired == outcome->objects_repaired
            && result.0.repair_transient_skips == outcome->transient_failures,
        !(outcome is Report) ==> result.0.repair_objects_repaired == 0
            && result.0.repair_transient_skips == 0,
        result.0.segments_sealed == 0,
        result.0.truncation_cycles == 0,
        result.0.orphan_objects_deleted == 0,
        result.1 <==> outcome is RefreshFailed,
{
}

/// A cleanup counts a failure exactly if it did not complete, and a truncation a
/// cycle exactly if it succeeded, else a failure. The manifest is opened anew
/// after one that failed on it.
pub proof fn law_deletion_passes_are_counted(
    outcome: DeletionOutcome,
    cleanup: (PassCounters, bool),
    succeeded: bool,
    truncation: (PassCounters, bool),
)
    requires
        call_ensures(cleanup_finished, (outcome,), cleanup),
        call_ensures(truncation_finished, (succeeded,), truncation),
    ensures
        outcome is Completed <==> cleanup.0.operation_failures == 0,
        cleanup.0.operation_failures <= 1,
        cleanup.0.truncation_cycles == 0,
        cleanup.1 <==> outcome is Failed,
        succeeded <==> truncation.0.truncation_cycles == 1,
        succeeded <==> truncation.0.operation_failures == 0,
        truncation.0.truncation_cycles + truncation.0.operation_failures == 1,
        truncation.1 <==> !succeeded,
        cleanup.0.repair_passes == 0 && truncation.0.repair_passes == 0,
{
}

/// Failed seals are retried until the budget is used up: the attempts so far are
/// reported for the delay, and the last failure is what the task gives up with.
pub proof fn law_seal_retries_use_the_budget(
    max_retries: usize,
    first: SealAttempts,
    attempts: &mut SealAttempts,
    error: Error,
    decision: SealRetry,
    retry: bool,
    counters: PassCounters,
)
    requires
        call_ensures(SealAttempts::new, (max_retries,), first),
        old(attempts).attempt <= old(attempts).max_retries,
        call_ensures(SealAttempts::failed, (attempts, error), decision),
        call_ensures(SealAttempts::is_retry, (&*final(attempts),), retry),
        call_ensures(SealAttempts::begun, (&*final(attempts),), counters),
    ensures
        first.attempt == 0 && first.max_retries == max_retries,
        decision is GiveUp <==> old(attempts).attempt == old(attempts).max_retries,
        decision is GiveUp ==> decision->GiveUp_0 == error && *final(attempts) == *old(attempts),
        decision is Again ==> {
            &&& decision->Again_0 == old(attempts).attempt
            &&& final(attempts).attempt == old(attempts).attempt + 1
            &&& final(attempts).max_retries == old(attempts).max_retries
            &&& retry && counters.seal_enforcement_retries == 1
        },
        retry <==> final(attempts).attempt > 0,
        counters.seal_enforcement_retries > 0 <==> retry,
        counters.segments_sealed == 0 && counters.operation_failures == 0,
{
}

/// A seal through the live writer ends the matter, with what it says of the
/// replicas; one from storage ends it too, but says nothing of them; only where
/// both failed is it exhausted.
pub proof fn law_storage_is_the_second_way_to_seal(
    live: Result<(SegmentDescriptor, bool), Result<SegmentDescriptor, Error>>,
    outcome: SealOutcome,
)
    requires
        call_ensures(seal_outcome, (live,), outcome),
    ensures
        live is Ok ==> outcome is Enforced && outcome->segment == live->Ok_0.0
            && outcome->all_replicas_finalized == live->Ok_0.1,
        live is Err && live->Err_0 is Ok ==> outcome is Enforced && outcome->segment
            == live->Err_0->Ok_0 && !outcome->all_replicas_finalized,
        live is Err && live->Err_0 is Err ==> outcome == SealOutcome::Exhausted(
            live->Err_0->Err_0,
        ),
{
}

/// Maintenance starts with the engine's snapshot, with nothing deleted or
/// sealed, and with a sweep to make.
pub proof fn law_maintenance_starts_with_a_sweep(
    catalog: Vec<SegmentDescriptor>,
    state: MaintenanceState,
    base: u64,
)
    requires
        call_ensures(MaintenanceState::new, (catalog,), state),
    ensures
        state.catalog@ == catalog@,
        !state.deleted@.contains(base) && !state.sealed@.contains(base),
        state.sweep_pending,
{
}

} // verus!
