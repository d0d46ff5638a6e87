//! The decisions of a running engine, one for each event that reaches it.

use crate::capacity::ActiveSegmentCapacity;
use crate::error::Error;
use crate::queue;
use crate::queue::{Command, CompletionPass, DispatchReport};
use crate::rotation::Rotation;
use crate::state::EngineState;
use vstd::prelude::*;

verus! {

/// Background work that the engine may request next.
#[derive(Clone, Copy, Debug, PartialEq, Eq, Structural)]
pub enum ProvisionPlan {
    /// Nothing to do.
    Nothing,
    /// Fold the swapped-out segment into the manifest and register its refill.
    Fold,
    /// Provision a refill that the pending fold will register.
    Unregistered,
    /// Provision a spare and register it as pending.
    Registered,
}

/// What became of a swap.
#[derive(Clone, Copy, Debug, PartialEq, Eq, Structural)]
pub enum SwapResult {
    /// The spare took over; the old segment ends at this record index.
    Swapped {
        /// Last record index of the old segment.
        end_record_index: u64,
    },
    /// There was nothing to swap.
    NotNeeded,
}

/// What became of the segment that a fold left to seal.
#[derive(Clone, Copy, Debug, PartialEq, Eq, Structural)]
pub enum SealHandoff {
    /// Maintenance took the segment and will enforce its seal.
    Queued,
    /// Maintenance had stopped before it could take the segment.
    Refused,
    /// The fold left no segment to seal.
    NoSegment,
}

/// How the engine goes on after failed background work.
pub enum ProvisionFailure {
    /// The fold is parked until truncation frees directory entries.
    Parked,
    /// The writer lost its log: the engine stops and answers its queue with
    /// this error.
    Stop(Error),
    /// The work will be requested again. A fold waits for a delay first,
    /// derived from the number of earlier failures.
    Retry(Option<usize>),
}

/// A running engine.
pub struct Engine<T, S> {
    /// Queue and dispatched records.
    pub state: EngineState<T, S>,
    /// Rotation control.
    pub rotation: Rotation,
    /// Whether rotation rechecks can still arrive.
    pub rotation_rechecks_open: bool,
    /// Whether background work is outstanding.
    pub spare_requested: bool,
    /// What admission is told of the active segment.
    pub capacity: ActiveSegmentCapacity,
    /// Maximum dispatched and unresolved records.
    pub window: usize,
}

impl<T, S> Engine<T, S> {
    /// The records are consistent, at most a window of them is dispatched, and
    /// the active segment began no later than the last dispatched record.
    pub open spec fn wf(self) -> bool {
        &&& self.state.wf()
        &&& self.state.pending_records <= self.window
        &&& self.capacity.admission_start_bytes <= self.state.last_dispatched_admission_bytes
    }

    /// An engine around a writer whose next record is `next_record_index`.
    /// `recovered_fold` is the last record index of a segment that recovery
    /// left to be folded.
    pub fn new(
        next_record_index: u64,
        recovered_fold: Option<u64>,
        active_segment_bytes: usize,
        seal_room: bool,
        window: usize,
    ) -> (engine: Self)
        ensures
            engine.wf(),
            engine.state.queue@.len() == 0,
            engine.state.completion_batches@.len() == 0,
            engine.state.next_completion == next_record_index,
            engine.state.next_admission == next_record_index,
            engine.state.last_dispatched_admission_bytes == 0,
            !engine.state.input_closed,
            engine.rotation == match recovered_fold {
                Some(end_record_index) => Rotation::draining(end_record_index),
                None => Rotation::Idle,
            },
            engine.rotation_rechecks_open,
            !engine.spare_requested,
            engine.capacity == (ActiveSegmentCapacity {
                admission_start_bytes: 0,
                existing_bytes: active_segment_bytes,
                seal_room,
            }),
            engine.window == window,
    {
        let rotation = match recovered_fold {
            Some(end_record_index) => Rotation::Draining {
                end_record_index,
                fold_attempts: 0,
                retry: false,
                fold_capacity_blocked: false,
                successor_due: false,
            },
            None => Rotation::Idle,
        };
        Engine {
            state: EngineState::new(next_record_index),
            rotation,
            rotation_rechecks_open: true,
            spare_requested: false,
            capacity: ActiveSegmentCapacity {
                admission_start_bytes: 0,
                existing_bytes: active_segment_bytes,
                seal_room,
            },
            window,
        }
    }

    /// Takes a command from the handle; `None` says that no more will come.
    pub fn receive(&mut self, command: Option<Command<T, S>>)
        requires
            old(self).wf(),
            command matches Some(inner) ==> old(self).state.admissible(inner),
        ensures
            final(self).wf(),
            match command {
                Some(inner) => {
                    &&& final(self).state.queue@ == old(self).state.queue@.push(inner)
                    &&& final(self).state.input_closed == old(self).state.input_closed
                },
                None => {
                    &&& final(self).state.queue == old(self).state.queue
                    &&& final(self).state.input_closed
                },
            },
            final(self).state.completion_batches == old(self).state.completion_batches,
            final(self).state.pending_records == old(self).state.pending_records,
            final(self).state.next_completion == old(self).state.next_completion,
            final(self).state.last_dispatched_admission_bytes
                == old(self).state.last_dispatched_admission_bytes,
            final(self).rotation == old(self).rotation,
            final(self).rotation_rechecks_open == old(self).rotation_rechecks_open,
            final(self).spare_requested == old(self).spare_requested,
            final(self).capacity == old(self).capacity,
            final(self).window == old(self).window,
    {
        match command {
            Some(inner) => self.state.admit_command(inner),
            None => {
                self.state.input_closed = true;
            },
        }
    }

    /// Looks at the oldest dispatched batch: records below `committed_end`
    /// complete in order. Each completion samples whether the active segment
    /// has crossed its budget.
    pub fn complete_front(
        &mut self,
        committed_end: u64,
        failure: Option<Error>,
        rotation_due: bool,
    ) -> (pass: CompletionPass<T>)
        requires
            old(self).wf(),
            old(self).state.completion_batches@.len() > 0,
        ensures
            final(self).wf(),
            ({
                let batch = old(self).state.completion_batches@[0].appends@;
                let n = queue::committed_count(
                    old(self).state.next_completion as int,
                    batch.len(),
                    committed_end,
                );
                &&& pass.completed@ == Seq::new(n, |i: int| queue::completed_of(batch[i]))
                &&& batch == old(self).state.unresolved().take(batch.len() as int)
                &&& final(self).state.unresolved() == old(self).state.unresolved().skip(n as int)
                &&& final(self).state.pending() == old(self).state.pending().skip(n as int)
                &&& final(self).state.next_completion == old(self).state.next_completion + n
                &&& pass.next == if n == batch.len() {
                    queue::CompletionNext::NextBatch
                } else {
                    match failure {
                        Some(error) => queue::CompletionNext::Failed(error),
                        None => queue::CompletionNext::Wait,
                    }
                }
                &&& final(self).rotation == old(self).rotation.marked(n > 0 && rotation_due)
            }),
            final(self).state.queue == old(self).state.queue,
            final(self).state.next_admission == old(self).state.next_admission,
            final(self).state.last_dispatched_admission_bytes
                == old(self).state.last_dispatched_admission_bytes,
            final(self).state.input_closed == old(self).state.input_closed,
            final(self).rotation_rechecks_open == old(self).rotation_rechecks_open,
            final(self).spare_requested == old(self).spare_requested,
            final(self).capacity == old(self).capacity,
            final(self).window == old(self).window,
    {
        let pass = self.state.complete_front(committed_end, failure);
        if pass.completed.len() > 0 {
            self.rotation.mark_due(rotation_due);
        }
        pass
    }

    /// The background work to request, if none is outstanding: the fold of a
    /// fully completed old segment whose refill is ready, else a wanted spare,
    /// which stays unregistered while a fold is pending.
    pub fn provision_plan(&self, unregistered_spare_ready: bool, spare_wanted: bool) -> (plan:
        ProvisionPlan)
        ensures
            plan == if self.spare_requested {
                ProvisionPlan::Nothing
            } else if self.rotation.may_fold(self.state.next_completion as int)
                && unregistered_spare_ready {
                ProvisionPlan::Fold
            } else if !spare_wanted {
                ProvisionPlan::Nothing
            } else if self.rotation is Draining {
                ProvisionPlan::Unregistered
            } else {
                ProvisionPlan::Registered
            },
    {
        if self.spare_requested {
            ProvisionPlan::Nothing
        } else if self.rotation.fold_ready(self.state.next_completion) && unregistered_spare_ready {
            ProvisionPlan::Fold
        } else if spare_wanted {
            if self.rotation.has_pending_fold() {
                ProvisionPlan::Unregistered
            } else {
                ProvisionPlan::Registered
            }
        } else {
            ProvisionPlan::Nothing
        }
    }

    /// Notes that requested background work was accepted by its worker.
    pub fn provision_requested(&mut self)
        ensures
            final(self).spare_requested,
            final(self).state == old(self).state,
            final(self).rotation == old(self).rotation,
            final(self).rotation_rechecks_open == old(self).rotation_rechecks_open,
            final(self).capacity == old(self).capacity,
            final(self).window == old(self).window,
    {
        self.spare_requested = true;
    }

    /// Whether the active segment must now be swapped for its spare: rotation
    /// is due, the spare is confirmed, and every record admitted to the old
    /// segment has committed.
    pub fn swap_due(&self, spare_ready: bool, swap_boundary_ready: bool) -> (due: bool)
        ensures
            due == (self.rotation == Rotation::Due && spare_ready && swap_boundary_ready),
    {
        self.rotation.swap_ready() && spare_ready && swap_boundary_ready
    }

    /// Adopts the result of a swap. After a swap every record not yet
    /// dispatched is charged to the successor.
    pub fn swapped(&mut self, result: SwapResult, active_segment_bytes: usize, seal_room: bool)
        requires
            old(self).wf(),
        ensures
            final(self).wf(),
            match result {
                SwapResult::Swapped { end_record_index } => {
                    &&& final(self).rotation == Rotation::draining(end_record_index)
                    &&& final(self).capacity == (ActiveSegmentCapacity {
                        admission_start_bytes: old(self).state.last_dispatched_admission_bytes,
                        existing_bytes: active_segment_bytes,
                        seal_room,
                    })
                },
                SwapResult::NotNeeded => {
                    &&& final(self).rotation == Rotation::Idle
                    &&& final(self).capacity == old(self).capacity
                },
            },
            final(self).state == old(self).state,
            final(self).rotation_rechecks_open == old(self).rotation_rechecks_open,
            final(self).spare_requested == old(self).spare_requested,
            final(self).window == old(self).window,
    {
        match result {
            SwapResult::Swapped { end_record_index } => {
                self.rotation =
                Rotation::Draining {
                    end_record_index,
                    fold_attempts: 0,
                    retry: false,
                    fold_capacity_blocked: false,
                    successor_due: false,
                };
                self.capacity =
                ActiveSegmentCapacity {
                    admission_start_bytes: self.state.last_dispatched_admission_bytes,
                    existing_bytes: active_segment_bytes,
                    seal_room,
                };
            },
            SwapResult::NotNeeded => {
                self.rotation = Rotation::Idle;
            },
        }
    }

    /// How many records to dispatch now; none while rotation pauses dispatch.
    pub fn next_batch(&self) -> (count: usize)
        ensures
            count == if self.rotation.paused() {
                0
            } else {
                self.state.batch_size(self.window)
            },
            count <= self.state.queue@.len(),
    {
        if self.rotation.dispatch_paused() {
            0
        } else {
            self.state.next_batch(self.window)
        }
    }

    /// Moves a batch that the writer took into the pipeline.
    pub fn dispatched(&mut self, count: usize, first: u64, end: u64, rotation_due: bool) -> (result:
        Result<DispatchReport, Error>)
        requires
            old(self).wf(),
            0 < count <= old(self).state.batch_size(old(self).window),
        ensures
            ({
                let before = old(self).state;
                let after = final(self).state;
                let expected_first = before.queued()[0].seqno.record_index;
                &&& expected_first == before.next_completion + before.pending_records
                &&& match result {
                    Ok(report) => {
                        &&& first == expected_first && end == expected_first + count
                        &&& final(self).wf()
                        &&& after.unresolved() == before.unresolved()
                        &&& after.pending() == before.pending() + before.queued().take(count as int)
                        &&& after.queue@ == before.queue@.skip(count as int)
                        &&& after.last_dispatched_admission_bytes == before.queued()[count
                            - 1].admission_end_bytes
                        &&& after.admitted_bytes() == before.admitted_bytes()
                        &&& after.pending_records == before.pending_records + count
                        &&& after.next_completion == before.next_completion
                        &&& after.next_admission == before.next_admission
                        &&& after.input_closed == before.input_closed
                        &&& report.refill == (before.pending_records > 0)
                        &&& report.record_bytes == after.last_dispatched_admission_bytes
                            - before.last_dispatched_admission_bytes
                        &&& report.pending_records == after.pending_records
                        &&& final(self).rotation == old(self).rotation.marked(rotation_due)
                    },
                    Err(error) => {
                        &&& !(first == expected_first && end == expected_first + count)
                        &&& after == before
                        &&& final(self).rotation == old(self).rotation
                        &&& error matches Error::Internal(message) && message@
                            == crate::state::range_mismatch_text(
                            first as nat,
                            end as nat,
                            expected_first as nat,
                            (expected_first + count) as nat,
                        )
                    },
                }
            }),
            final(self).rotation_rechecks_open == old(self).rotation_rechecks_open,
            final(self).spare_requested == old(self).spare_requested,
            final(self).capacity == old(self).capacity,
            final(self).window == old(self).window,
    {
        let ghost before = self.state;
        proof {
            queue::lemma_leading_end(before.queue@);
            queue::lemma_leading(before.queue@, count as int);
            queue::lemma_chain_grows(
                before.queued(),
                before.last_dispatched_admission_bytes as int,
                count - 1,
            );
        }
        let result = self.state.confirm_dispatch(count, first, end);
        if result.is_ok() {
            self.rotation.mark_due(rotation_due);
        }
        result
    }

    /// Adopts the outcome of seal enforcement. Success samples the budget
    /// again; failure disables rotation. The result says whether the engine
    /// counts a failed operation.
    pub fn sealed(&mut self, enforced: bool, rotation_due: bool) -> (failed: bool)
        ensures
            final(self).rotation == if enforced {
                Rotation::Idle.marked(rotation_due)
            } else {
                Rotation::Disabled { due: rotation_due }
            },
            failed == !enforced,
            final(self).state == old(self).state,
            final(self).rotation_rechecks_open == old(self).rotation_rechecks_open,
            final(self).spare_requested == old(self).spare_requested,
            final(self).capacity == old(self).capacity,
            final(self).window == old(self).window,
    {
        if enforced {
            self.rotation = Rotation::Idle;
            self.rotation.mark_due(rotation_due);
            false
        } else {
            self.rotation = Rotation::Disabled { due: rotation_due };
            true
        }
    }

    /// Ends a running fold retry delay.
    pub fn retry_elapsed(&mut self)
        ensures
            final(self).rotation == match old(self).rotation {
                Rotation::Draining { fold_attempts, .. } => old(self).rotation.with_retry(
                    false,
                    fold_attempts,
                ),
                other => other,
            },
            final(self).state == old(self).state,
            final(self).rotation_rechecks_open == old(self).rotation_rechecks_open,
            final(self).spare_requested == old(self).spare_requested,
            final(self).capacity == old(self).capacity,
            final(self).window == old(self).window,
    {
        self.rotation.retry_elapsed();
    }

    /// Adopts refreshed directory capacity after a truncation: a parked fold
    /// may try again, the budget is sampled, and admission learns whether the
    /// active segment can be sealed.
    pub fn rechecked(&mut self, rotation_due: bool, seal_room: bool)
        requires
            old(self).wf(),
        ensures
            final(self).wf(),
            final(self).rotation == old(self).rotation.with_capacity_block(false).marked(
                rotation_due,
            ),
            final(self).capacity == (ActiveSegmentCapacity { seal_room, ..old(self).capacity }),
            final(self).state == old(self).state,
            final(self).rotation_rechecks_open == old(self).rotation_rechecks_open,
            final(self).spare_requested == old(self).spare_requested,
            final(self).window == old(self).window,
    {
        self.rotation.release_fold_capacity_block();
        self.rotation.mark_due(rotation_due);
        self.capacity.seal_room = seal_room;
    }

    /// Notes that no rotation recheck can arrive any more.
    pub fn rechecks_closed(&mut self)
        ensures
            !final(self).rotation_rechecks_open,
            final(self).state == old(self).state,
            final(self).rotation == old(self).rotation,
            final(self).spare_requested == old(self).spare_requested,
            final(self).capacity == old(self).capacity,
            final(self).window == old(self).window,
    {
        self.rotation_rechecks_open = false;
    }

    /// Notes that background work returned a spare, which the writer adopts.
    pub fn spare_provisioned(&mut self)
        ensures
            !final(self).spare_requested,
            final(self).state == old(self).state,
            final(self).rotation == old(self).rotation,
            final(self).rotation_rechecks_open == old(self).rotation_rechecks_open,
            final(self).capacity == old(self).capacity,
            final(self).window == old(self).window,
    {
        self.spare_requested = false;
    }

    /// Takes the rotation that a completed fold belongs to. The result is
    /// false, and the engine has to stop, where no fold was pending.
    pub fn fold_completed(&mut self) -> (expected: bool)
        ensures
            expected == (old(self).rotation is Draining),
            !final(self).spare_requested,
            final(self).rotation == Rotation::Idle,
            final(self).state == old(self).state,
            final(self).rotation_rechecks_open == old(self).rotation_rechecks_open,
            final(self).capacity == old(self).capacity,
            final(self).window == old(self).window,
    {
        self.spare_requested = false;
        let expected: bool = self.rotation.has_pending_fold();
        self.rotation = Rotation::Idle;
        expected
    }

    /// Tells admission whether the active segment can be sealed, after the
    /// writer has confirmed a fold.
    pub fn fold_confirmed(&mut self, seal_room: bool)
        requires
            old(self).wf(),
        ensures
            final(self).wf(),
            final(self).capacity == (ActiveSegmentCapacity { seal_room, ..old(self).capacity }),
            final(self).state == old(self).state,
            final(self).rotation == old(self).rotation,
            final(self).rotation_rechecks_open == old(self).rotation_rechecks_open,
            final(self).spare_requested == old(self).spare_requested,
            final(self).window == old(self).window,
    {
        self.capacity.seal_room = seal_room;
    }

    /// Goes on after the folded segment was handed to maintenance: rotation
    /// holds until its seal is enforced, is disabled where maintenance refused
    /// it, and is free again where there was nothing to seal. The result says
    /// whether the engine counts a failed operation.
    pub fn seal_handed_off(&mut self, handoff: SealHandoff, rotation_due: bool) -> (failed: bool)
        ensures
            final(self).rotation == match handoff {
                SealHandoff::Queued => Rotation::Sealing,
                SealHandoff::Refused => Rotation::Disabled { due: rotation_due },
                SealHandoff::NoSegment => Rotation::Idle.marked(rotation_due),
            },
            failed == (handoff == SealHandoff::Refused),
            final(self).state == old(self).state,
            final(self).rotation_rechecks_open == old(self).rotation_rechecks_open,
            final(self).spare_requested == old(self).spare_requested,
            final(self).capacity == old(self).capacity,
            final(self).window == old(self).window,
    {
        match handoff {
            SealHandoff::Queued => {
                self.rotation = Rotation::Sealing;
                false
            },
            SealHandoff::Refused => {
                self.rotation = Rotation::Disabled { due: rotation_due };
                true
            },
            SealHandoff::NoSegment => {
                self.rotation = Rotation::Idle;
                self.rotation.mark_due(rotation_due);
                false
            },
        }
    }

    /// Decides what failed background work means.
    ///
    /// A full directory parks the pending fold, since retrying cannot create
    /// capacity. Poison and fencing stop the engine. Anything else is tried
    /// again, a fold after a delay.
    pub fn provision_failed(&mut self, error: Error, unregistered_spare_ready: bool) -> (outcome:
        ProvisionFailure)
        ensures
            !final(self).spare_requested,
            final(self).state == old(self).state,
            final(self).rotation_rechecks_open == old(self).rotation_rechecks_open,
            final(self).capacity == old(self).capacity,
            final(self).window == old(self).window,
            if error is SegmentDirectoryFull && old(self).rotation is Draining {
                &&& outcome is Parked
                &&& final(self).rotation == old(self).rotation.with_capacity_block(true)
            } else if error is Poisoned || error is Fenced {
                &&& outcome == ProvisionFailure::Stop(error)
                &&& final(self).rotation == old(self).rotation
            } else if old(self).rotation is Draining && unregistered_spare_ready {
                let attempts = old(self).rotation->fold_attempts;
                &&& outcome == ProvisionFailure::Retry(Some(attempts))
                &&& final(self).rotation == old(self).rotation.with_retry(
                    true,
                    if attempts < usize::MAX {
                        (attempts + 1) as usize
                    } else {
                        usize::MAX
                    },
                )
            } else {
                &&& outcome == ProvisionFailure::Retry(None)
                &&& final(self).rotation == old(self).rotation
            },
    {
        self.spare_requested = false;
        let full: bool = match &error {
            Error::SegmentDirectoryFull => true,
            _ => false,
        };
        let fenced: bool = match &error {
            Error::Poisoned => true,
            Error::Fenced(_) => true,
            _ => false,
        };
        if full && self.rotation.has_pending_fold() {
            self.rotation.block_fold_on_capacity();
            ProvisionFailure::Parked
        } else if fenced {
            ProvisionFailure::Stop(error)
        } else if self.rotation.has_pending_fold() && unregistered_spare_ready {
            ProvisionFailure::Retry(self.rotation.arm_fold_retry())
        } else {
            ProvisionFailure::Retry(None)
        }
    }
}

/// Whatever an engine learns of its segments leaves its records alone.
pub open spec fn same_records<T, S>(before: Engine<T, S>, after: Engine<T, S>) -> bool {
    &&& after.state.queue == before.state.queue
    &&& after.state.completion_batches == before.state.completion_batches
    &&& after.state.pending_records == before.state.pending_records
    &&& after.state.next_completion == before.state.next_completion
    &&& after.state.next_admission == before.state.next_admission
    &&& after.state.last_dispatched_admission_bytes == before.state.last_dispatched_admission_bytes
    &&& after.state.input_closed == before.state.input_closed
    &&& after.window == before.window
}

/// A received command is queued last, and the end of the input is remembered;
/// neither touches dispatched records or the rotation.
pub proof fn law_received_commands_are_queued<T, S>(
    engine: &mut Engine<T, S>,
    command: Option<Command<T, S>>,
)
    requires
        call_ensures(Engine::<T, S>::receive, (engine, command), ()),
    ensures
        command is None ==> final(engine).state.input_closed && final(engine).state.queue == old(
            engine,
        ).state.queue,
        command is Some ==> {
            &&& final(engine).state.input_closed == old(engine).state.input_closed
            &&& final(engine).state.queue@.len() == old(engine).state.queue@.len() + 1
            &&& final(engine).state.queue@.last() == command->Some_0
            &&& final(engine).state.queue@.drop_last() == old(engine).state.queue@
        },
        final(engine).state.completion_batches == old(engine).state.completion_batches,
        final(engine).state.pending_records == old(engine).state.pending_records,
        final(engine).state.next_completion == old(engine).state.next_completion,
        final(engine).rotation == old(engine).rotation,
        final(engine).spare_requested == old(engine).spare_requested,
        final(engine).capacity == old(engine).capacity,
{
}

/// What a look at the oldest batch does to the engine: exactly the records
/// below the commit watermark complete, and the budget is sampled exactly if one
/// did.
pub proof fn law_completions_sample_the_budget<T, S>(
    engine: &mut Engine<T, S>,
    committed_end: u64,
    failure: Option<Error>,
    rotation_due: bool,
    pass: CompletionPass<T>,
    sampled: &mut Rotation,
)
    requires
        old(engine).wf(),
        old(engine).state.completion_batches@.len() > 0,
        call_ensures(
            Engine::<T, S>::complete_front,
            (engine, committed_end, failure, rotation_due),
            pass,
        ),
        *old(sampled) == old(engine).rotation,
        call_ensures(Rotation::mark_due, (sampled, rotation_due), ()),
    ensures
        ({
            let batch = old(engine).state.completion_batches@[0].appends@;
            let done = pass.completed@.len();
            &&& done <= batch.len()
            &&& forall|i: int|
                0 <= i < batch.len() ==> (i < done <==> (
                #[trigger] batch[i]).seqno.record_index < committed_end)
            &&& forall|i: int|
                0 <= i < done ==> (#[trigger] pass.completed@[i]).receipt.seqno == batch[i].seqno
                    && pass.completed@[i].ticket == batch[i].ticket
            &&& done > 0 ==> final(engine).rotation == *final(sampled)
            &&& done == 0 ==> final(engine).rotation == old(engine).rotation
            &&& final(engine).state.next_completion == old(engine).state.next_completion + done
            &&& pass.next is NextBatch <==> done == batch.len()
            &&& pass.next is Failed <==> done < batch.len() && failure is Some
            &&& pass.next is Failed ==> pass.next->Failed_0 == failure->Some_0
        }),
        final(engine).state.queue == old(engine).state.queue,
        final(engine).state.input_closed == old(engine).state.input_closed,
        final(engine).capacity == old(engine).capacity,
        final(engine).spare_requested == old(engine).spare_requested,
        final(engine).window == old(engine).window,
{
    let state = old(engine).state;
    let batch = state.completion_batches@[0].appends@;
    assert(state.pending() == batch + queue::flatten(state.completion_batches@.drop_first()));
    assert forall|i: int| 0 <= i < batch.len() implies (#[trigger] batch[i]).seqno.record_index
        == state.next_completion + i by {
        assert(state.unresolved()[i] == batch[i]);
    }
}

/// At most one piece of background work is outstanding. A fold goes first, but
/// only when every record of the old segment has completed, its refill is ready
/// and nothing holds it back; a wanted spare is registered at once, unless a
/// fold that will register it is pending.
pub proof fn law_background_work_is_wanted<T, S>(
    engine: &Engine<T, S>,
    unregistered_spare_ready: bool,
    spare_wanted: bool,
    plan: ProvisionPlan,
)
    requires
        call_ensures(
            Engine::<T, S>::provision_plan,
            (engine, unregistered_spare_ready, spare_wanted),
            plan,
        ),
    ensures
        ({
            let draining = engine.rotation is Draining;
            let foldable = draining && unregistered_spare_ready && !engine.rotation->retry
                && !engine.rotation->fold_capacity_blocked && engine.rotation->end_record_index
                < engine.state.next_completion;
            &&& engine.spare_requested ==> plan is Nothing
            &&& plan is Fold <==> !engine.spare_requested && foldable
            &&& plan is Unregistered <==> !engine.spare_requested && !foldable && spare_wanted
                && draining
            &&& plan is Registered <==> !engine.spare_requested && spare_wanted && !draining
        }),
{
}

/// Requested work is outstanding until its result arrives, and then no more;
/// meanwhile nothing else of the engine changes. The result of a fold ends the
/// draining that it belongs to, and is expected only then.
pub proof fn law_work_is_outstanding_until_it_returns<T, S>(
    requested: &mut Engine<T, S>,
    provisioned: &mut Engine<T, S>,
    folded: &mut Engine<T, S>,
    expected: bool,
)
    requires
        call_ensures(Engine::<T, S>::provision_requested, (requested,), ()),
        call_ensures(Engine::<T, S>::spare_provisioned, (provisioned,), ()),
        call_ensures(Engine::<T, S>::fold_completed, (folded,), expected),
    ensures
        final(requested).spare_requested,
        !final(provisioned).spare_requested,
        !final(folded).spare_requested,
        expected <==> old(folded).rotation is Draining,
        final(folded).rotation is Idle,
        final(requested).rotation == old(requested).rotation,
        final(provisioned).rotation == old(provisioned).rotation,
        final(requested).capacity == old(requested).capacity,
        final(provisioned).capacity == old(provisioned).capacity,
        final(folded).capacity == old(folded).capacity,
        same_records(*old(requested), *final(requested)),
        same_records(*old(provisioned), *final(provisioned)),
        same_records(*old(folded), *final(folded)),
{
}

/// Segments are swapped only when the budget is crossed, a confirmed spare is
/// there and every record of the active segment has committed. After a swap the
/// old segment drains, nothing pauses dispatch, and every record that was not
/// dispatched is charged to the successor.
pub proof fn law_swap_charges_the_successor<T, S>(
    engine: &mut Engine<T, S>,
    spare_ready: bool,
    swap_boundary_ready: bool,
    due: bool,
    result: SwapResult,
    active_segment_bytes: usize,
    seal_room: bool,
    paused: bool,
)
    requires
        call_ensures(
            Engine::<T, S>::swap_due,
            (&*old(engine), spare_ready, swap_boundary_ready),
            due,
        ),
        call_ensures(Engine::<T, S>::swapped, (engine, result, active_segment_bytes, seal_room), ()),
        call_ensures(Rotation::dispatch_paused, (&final(engine).rotation,), paused),
    ensures
        due <==> old(engine).rotation is Due && spare_ready && swap_boundary_ready,
        !paused,
        result is Swapped ==> {
            &&& final(engine).rotation is Draining
            &&& final(engine).rotation->end_record_index == result->end_record_index
            &&& final(engine).rotation->fold_attempts == 0
            &&& !final(engine).rotation->retry
            &&& !final(engine).rotation->fold_capacity_blocked
            &&& !final(engine).rotation->successor_due
            &&& final(engine).capacity.admission_start_bytes == old(
                engine,
            ).state.last_dispatched_admission_bytes
            &&& final(engine).capacity.existing_bytes == active_segment_bytes
            &&& final(engine).capacity.seal_room == seal_room
        },
        result is NotNeeded ==> final(engine).rotation is Idle && final(engine).capacity == old(
            engine,
        ).capacity,
        same_records(*old(engine), *final(engine)),
{
}

/// Records flow unless a crossed budget pauses them: an idle engine and one
/// whose old segment is being sealed dispatch as much as the window allows, and
/// so does a draining or disabled one within its budget.
pub proof fn law_records_flow_within_the_budget<T, S>(
    engine: &Engine<T, S>,
    count: usize,
    unpaused: usize,
)
    requires
        call_ensures(Engine::<T, S>::next_batch, (engine,), count),
        call_ensures(EngineState::<T, S>::next_batch, (&engine.state, engine.window), unpaused),
    ensures
        engine.rotation is Idle || engine.rotation is Sealing ==> count == unpaused,
        engine.rotation is Draining && !engine.rotation->successor_due ==> count == unpaused,
        engine.rotation is Disabled && !engine.rotation->due ==> count == unpaused,
        engine.rotation is Due ==> count == 0,
        engine.rotation is Draining && engine.rotation->successor_due ==> count == 0,
        engine.rotation is Disabled && engine.rotation->due ==> count == 0,
        count > 0 ==> engine.state.pending_records + count <= engine.window,
        forall|i: int| 0 <= i < count ==> #[trigger] engine.state.queue@[i] is Append,
{
    queue::lemma_leading_end(engine.state.queue@);
    queue::lemma_leading(engine.state.queue@, count as int);
}

/// A confirmed dispatch moves the records out of the queue into the pipeline and
/// samples the budget; a refused one, whose range is not the one that callers
/// numbered, changes nothing.
pub proof fn law_dispatch_samples_the_budget<T, S>(
    engine: &mut Engine<T, S>,
    count: usize,
    first: u64,
    end: u64,
    rotation_due: bool,
    result: Result<DispatchReport, Error>,
    sampled: &mut Rotation,
)
    requires
        old(engine).wf(),
        0 < count <= old(engine).state.batch_size(old(engine).window),
        call_ensures(Engine::<T, S>::dispatched, (engine, count, first, end, rotation_due), result),
        *old(sampled) == old(engine).rotation,
        call_ensures(Rotation::mark_due, (sampled, rotation_due), ()),
    ensures
        ({
            let queue = old(engine).state.queue@;
            &&& queue[0] is Append
            &&& result is Ok <==> first == queue[0]->Append_0.seqno.record_index && end == first
                + count
            &&& result is Err ==> same_records(*old(engine), *final(engine)) && final(engine).rotation == old(engine).rotation && result->Err_0 is Internal
            &&& result is Ok ==> {
                &&& final(engine).rotation == *final(sampled)
                &&& final(engine).state.queue@ == queue.skip(count as int)
                &&& final(engine).state.pending_records == old(engine).state.pending_records + count
                &&& final(engine).state.pending_records <= final(engine).window
                &&& final(engine).state.last_dispatched_admission_bytes == queue[count
                    - 1]->Append_0.admission_end_bytes
                &&& final(engine).state.unresolved() == old(engine).state.unresolved()
                &&& final(engine).state.next_completion == old(engine).state.next_completion
                &&& result->Ok_0.refill == (old(engine).state.pending_records > 0)
                &&& result->Ok_0.pending_records == final(engine).state.pending_records
            }
        }),
        final(engine).capacity == old(engine).capacity,
        final(engine).spare_requested == old(engine).spare_requested,
        final(engine).window == old(engine).window,
{
    queue::lemma_leading(old(engine).state.queue@, count as int);
    let queued = old(engine).state.queued();
    assert(old(engine).state.queue@[0] == Command::<T, S>::Append(queued[0]));
    assert(old(engine).state.queue@[count - 1] == Command::<T, S>::Append(queued[count - 1]));
}

/// An enforced seal frees the rotation, and a failed one disables it for good
/// and counts as a failure. Either way the budget is sampled: dispatch is paused
/// afterwards exactly if it is crossed.
pub proof fn law_enforced_seal_frees_rotation<T, S>(
    engine: &mut Engine<T, S>,
    enforced: bool,
    rotation_due: bool,
    failed: bool,
    paused: bool,
)
    requires
        call_ensures(Engine::<T, S>::sealed, (engine, enforced, rotation_due), failed),
        call_ensures(Rotation::dispatch_paused, (&final(engine).rotation,), paused),
    ensures
        failed <==> !enforced,
        paused <==> rotation_due,
        enforced && !rotation_due ==> final(engine).rotation is Idle,
        enforced && rotation_due ==> final(engine).rotation is Due,
        !enforced ==> final(engine).rotation is Disabled,
        final(engine).capacity == old(engine).capacity,
        final(engine).spare_requested == old(engine).spare_requested,
        same_records(*old(engine), *final(engine)),
{
}

/// A folded segment that maintenance took is sealed in the background: rotation
/// waits for it while records keep flowing, whatever the budget. One that
/// maintenance refused disables rotation and counts as a failure; where there
/// was nothing to seal, rotation is free again.
pub proof fn law_handed_off_seal_does_not_pause<T, S>(
    engine: &mut Engine<T, S>,
    handoff: SealHandoff,
    rotation_due: bool,
    failed: bool,
    paused: bool,
    count: usize,
    unpaused: usize,
)
    requires
        call_ensures(Engine::<T, S>::seal_handed_off, (engine, handoff, rotation_due), failed),
        call_ensures(Rotation::dispatch_paused, (&final(engine).rotation,), paused),
        call_ensures(Engine::<T, S>::next_batch, (&*final(engine),), count),
        call_ensures(
            EngineState::<T, S>::next_batch,
            (&old(engine).state, old(engine).window),
            unpaused,
        ),
    ensures
        failed <==> handoff is Refused,
        handoff is Queued ==> final(engine).rotation is Sealing && !paused && count == unpaused,
        handoff is Refused ==> final(engine).rotation is Disabled && paused == rotation_due,
        handoff is NoSegment && rotation_due ==> final(engine).rotation is Due,
        handoff is NoSegment && !rotation_due ==> final(engine).rotation is Idle && count
            == unpaused,
        final(engine).capacity == old(engine).capacity,
        same_records(*old(engine), *final(engine)),
{
}

/// A recheck after a truncation releases a parked fold, samples the budget and
/// tells admission whether the active segment can be sealed; its bytes are not
/// touched. A confirmed fold tells admission the same and changes nothing else.
pub proof fn law_rechecks_release_parked_folds<T, S>(
    rechecked: &mut Engine<T, S>,
    rotation_due: bool,
    seal_room: bool,
    confirmed: &mut Engine<T, S>,
)
    requires
        call_ensures(Engine::<T, S>::rechecked, (rechecked, rotation_due, seal_room), ()),
        call_ensures(Engine::<T, S>::fold_confirmed, (confirmed, seal_room), ()),
    ensures
        final(rechecked).capacity.seal_room == seal_room,
        final(rechecked).capacity.existing_bytes == old(rechecked).capacity.existing_bytes,
        final(rechecked).capacity.admission_start_bytes == old(
            rechecked,
        ).capacity.admission_start_bytes,
        old(rechecked).rotation is Draining ==> {
            let before = old(rechecked).rotation;
            let after = final(rechecked).rotation;
            &&& after is Draining && !after->fold_capacity_blocked
            &&& after->end_record_index == before->end_record_index
            &&& after->fold_attempts == before->fold_attempts && after->retry == before->retry
            &&& (after->successor_due <==> before->successor_due || rotation_due)
        },
        old(rechecked).rotation is Idle && rotation_due ==> final(rechecked).rotation is Due,
        !(old(rechecked).rotation is Draining) && !rotation_due ==> final(rechecked).rotation
            == old(rechecked).rotation,
        old(rechecked).rotation is Sealing ==> final(rechecked).rotation is Sealing,
        old(rechecked).rotation is Disabled ==> final(rechecked).rotation is Disabled,
        same_records(*old(rechecked), *final(rechecked)),
        final(confirmed).capacity.seal_room == seal_room,
        final(confirmed).capacity.existing_bytes == old(confirmed).capacity.existing_bytes,
        final(confirmed).capacity.admission_start_bytes == old(
            confirmed,
        ).capacity.admission_start_bytes,
        final(confirmed).rotation == old(confirmed).rotation,
        same_records(*old(confirmed), *final(confirmed)),
{
}

/// Failed background work is no longer outstanding. A full directory parks a
/// pending fold, a poisoned or fenced writer stops the engine with its own
/// error, and everything else is tried again; a fold whose refill is ready waits
/// first and counts the failure. The records are left alone.
pub proof fn law_failed_work_is_retried_or_final<T, S>(
    engine: &mut Engine<T, S>,
    error: Error,
    unregistered_spare_ready: bool,
    outcome: ProvisionFailure,
)
    requires
        call_ensures(
            Engine::<T, S>::provision_failed,
            (engine, error, unregistered_spare_ready),
            outcome,
        ),
    ensures
        ({
            let before = old(engine).rotation;
            let after = final(engine).rotation;
            let parked = error is SegmentDirectoryFull && before is Draining;
            let fatal = error is Poisoned || error is Fenced;
            let delayed = !parked && !fatal && before is Draining && unregistered_spare_ready;
            &&& !final(engine).spare_requested
            &&& outcome is Parked <==> parked
            &&& outcome is Stop <==> fatal
            &&& outcome is Stop ==> outcome->Stop_0 == error
            &&& outcome is Retry ==> outcome->Retry_0 == if delayed {
                Some(before->fold_attempts)
            } else {
                None::<usize>
            }
            &&& !parked && !delayed ==> after == before
            &&& before is Draining ==> {
                &&& after is Draining
                &&& after->end_record_index == before->end_record_index
                &&& after->successor_due == before->successor_due
                &&& after->fold_capacity_blocked == (before->fold_capacity_blocked || parked)
                &&& after->retry == (before->retry || delayed)
                &&& after->fold_attempts == if delayed && before->fold_attempts < usize::MAX {
                    before->fold_attempts + 1
                } else {
                    before->fold_attempts as int
                }
            }
        }),
        final(engine).capacity == old(engine).capacity,
        same_records(*old(engine), *final(engine)),
{
}

/// The end of a retry delay only lets the fold go on, and the end of rechecks is
/// remembered.
pub proof fn law_delays_end_quietly<T, S>(elapsed: &mut Engine<T, S>, closed: &mut Engine<T, S>)
    requires
        call_ensures(Engine::<T, S>::retry_elapsed, (elapsed,), ()),
        call_ensures(Engine::<T, S>::rechecks_closed, (closed,), ()),
    ensures
        old(elapsed).rotation is Draining ==> {
            let before = old(elapsed).rotation;
            let after = final(elapsed).rotation;
            &&& after is Draining && !after->retry
            &&& after->end_record_index == before->end_record_index
            &&& after->fold_attempts == before->fold_attempts
            &&& after->fold_capacity_blocked == before->fold_capacity_blocked
            &&& after->successor_due == before->successor_due
        },
        !(old(elapsed).rotation is Draining) ==> final(elapsed).rotation == old(elapsed).rotation,
        same_records(*old(elapsed), *final(elapsed)),
        !final(closed).rotation_rechecks_open,
        final(closed).rotation == old(closed).rotation,
        same_records(*old(closed), *final(closed)),
{
}

/// A new engine has nothing queued or dispatched, charges what the active
/// segment already holds, and takes up the fold that recovery left.
pub proof fn law_new_engine_owes_nothing<T, S>(
    next_record_index: u64,
    recovered_fold: Option<u64>,
    active_segment_bytes: usize,
    seal_room: bool,
    window: usize,
    engine: Engine<T, S>,
)
    requires
        call_ensures(
            Engine::<T, S>::new,
            (next_record_index, recovered_fold, active_segment_bytes, seal_room, window),
            engine,
        ),
    ensures
        engine.state.queue@.len() == 0 && engine.state.completion_batches@.len() == 0,
        engine.state.pending_records == 0,
        engine.state.next_completion == next_record_index,
        engine.state.next_admission == next_record_index,
        engine.state.last_dispatched_admission_bytes == 0,
        engine.capacity.admission_start_bytes == 0,
        engine.capacity.existing_bytes == active_segment_bytes,
        engine.capacity.seal_room == seal_room,
        engine.window == window,
        !engine.state.input_closed && engine.rotation_rechecks_open && !engine.spare_requested,
        recovered_fold is None ==> engine.rotation is Idle,
        recovered_fold is Some ==> engine.rotation is Draining && engine.rotation->end_record_index
            == recovered_fold->0 && engine.rotation->fold_attempts == 0 && !engine.rotation->retry
            && !engine.rotation->fold_capacity_blocked && !engine.rotation->successor_due,
{
    assert(engine.state.unresolved().len() == 0);
}

} // verus!
