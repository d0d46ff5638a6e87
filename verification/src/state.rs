//! Queue, dispatched batches and completion boundary of a running engine.

use crate::error::Error;
use crate::queue;
use crate::queue::{
    AdmittedAppend, Command, CompletedAppend, CompletionBatch, CompletionNext, CompletionPass,
    DispatchReport, FailedAppend, Failures,
};
use crate::seqno::AppendReceipt;
use crate::text::push_decimal;
use std::collections::VecDeque;
use vstd::prelude::*;

verus! {

/// The records that a running engine owns.
pub struct EngineState<T, S> {
    /// Commands not yet dispatched, oldest first.
    pub queue: VecDeque<Command<T, S>>,
    /// Dispatched batches not yet resolved, oldest first.
    pub completion_batches: VecDeque<CompletionBatch<T>>,
    /// Dispatched and unresolved records.
    pub pending_records: usize,
    /// Index of the next record to complete.
    pub next_completion: u64,
    /// Index of the next record to enter the queue.
    pub next_admission: u64,
    /// Cumulative encoded bytes of all dispatched records.
    pub last_dispatched_admission_bytes: u128,
    /// Whether no further command can arrive.
    pub input_closed: bool,
}

impl<T, S> EngineState<T, S> {
    /// Dispatched and unresolved records, oldest first.
    pub open spec fn pending(self) -> Seq<AdmittedAppend<T>> {
        queue::flatten(self.completion_batches@)
    }

    /// Records waiting for dispatch, oldest first.
    pub open spec fn queued(self) -> Seq<AdmittedAppend<T>> {
        queue::appends_of(self.queue@)
    }

    /// Every record the engine owes an outcome, oldest first.
    pub open spec fn unresolved(self) -> Seq<AdmittedAppend<T>> {
        self.pending() + self.queued()
    }

    /// Cumulative encoded bytes after the last queued record.
    pub open spec fn admitted_bytes(self) -> int {
        queue::bytes_before(
            self.queued(),
            self.last_dispatched_admission_bytes as int,
            self.queued().len() as int,
        )
    }

    /// The bookkeeping agrees: no batch is empty, the pending count is exact,
    /// and the unresolved records are numbered and placed without a gap, from
    /// the next completion to the next admission.
    pub open spec fn wf(self) -> bool {
        &&& self.pending_records == self.pending().len()
        &&& queue::numbered(self.unresolved(), self.next_completion as int)
        &&& self.next_admission == self.next_completion + self.unresolved().len()
        &&& queue::chained(self.queued(), self.last_dispatched_admission_bytes as int)
        &&& forall|i: int|
            0 <= i < self.completion_batches@.len() ==> (
            #[trigger] self.completion_batches@[i]).appends@.len() > 0
    }

    /// A command that may enter the queue next: an append continues the
    /// numbering and the byte boundary, and leaves a number for its successor.
    pub open spec fn admissible(self, command: Command<T, S>) -> bool {
        command matches Command::Append(append) ==> {
            &&& append.seqno.record_index == self.next_admission
            &&& append.seqno.record_index < u64::MAX
            &&& append.admission_end_bytes == self.admitted_bytes() + append.encoded_bytes
        }
    }

    /// An engine around a writer whose next record is `next_record_index`.
    pub fn new(next_record_index: u64) -> (state: Self)
        ensures
            state.wf(),
            state.queue@.len() == 0,
            state.completion_batches@.len() == 0,
            state.pending_records == 0,
            state.next_completion == next_record_index,
            state.next_admission == next_record_index,
            state.last_dispatched_admission_bytes == 0,
            !state.input_closed,
    {
        EngineState {
            queue: VecDeque::new(),
            completion_batches: VecDeque::new(),
            pending_records: 0,
            next_completion: next_record_index,
            next_admission: next_record_index,
            last_dispatched_admission_bytes: 0,
            input_closed: false,
        }
    }

    /// Whether a command continues the numbering and the byte boundary.
    pub fn admits(&self, command: &Command<T, S>) -> (admits: bool)
        ensures
            admits == self.admissible(*command),
    {
        match command {
            Command::Shutdown { .. } => true,
            Command::Append(append) => {
                let boundary: u128 = self.admission_boundary();
                append.seqno.record_index == self.next_admission && append.seqno.record_index
                    < u64::MAX && append.admission_end_bytes >= boundary
                    && append.admission_end_bytes - boundary == append.encoded_bytes as u128
            },
        }
    }

    /// Cumulative encoded bytes after the last queued record.
    pub fn admission_boundary(&self) -> (bytes: u128)
        ensures
            bytes == self.admitted_bytes(),
    {
        let mut end: usize = self.queue.len();
        proof {
            assert(self.queue@.take(end as int) =~= self.queue@);
        }
        while end > 0
            invariant
                end <= self.queue@.len(),
                queue::appends_of(self.queue@.take(end as int)) == self.queued(),
            decreases end,
        {
            proof {
                let before = self.queue@.take(end - 1);
                assert(self.queue@.take(end as int) =~= before.push(self.queue@[end - 1]));
                queue::lemma_appends_push(before, self.queue@[end - 1]);
            }
            if let Command::Append(append) = &self.queue[end - 1] {
                return append.admission_end_bytes;
            }
            end = end - 1;
        }
        proof {
            assert(self.queue@.take(0) =~= Seq::<Command<T, S>>::empty());
        }
        self.last_dispatched_admission_bytes
    }

    /// Takes one command into the queue.
    pub fn admit_command(&mut self, command: Command<T, S>)
        requires
            old(self).wf(),
            old(self).admissible(command),
        ensures
            final(self).wf(),
            final(self).queue@ == old(self).queue@.push(command),
            final(self).next_admission == match command {
                Command::Append(_) => old(self).next_admission + 1,
                Command::Shutdown { .. } => old(self).next_admission as int,
            },
            final(self).completion_batches == old(self).completion_batches,
            final(self).pending_records == old(self).pending_records,
            final(self).next_completion == old(self).next_completion,
            final(self).last_dispatched_admission_bytes
                == old(self).last_dispatched_admission_bytes,
            final(self).input_closed == old(self).input_closed,
    {
        proof {
            queue::lemma_appends_push(self.queue@, command);
        }
        let is_append: bool = match &command {
            Command::Append(_) => true,
            Command::Shutdown { .. } => false,
        };
        self.queue.push_back(command);
        if is_append {
            self.next_admission = self.next_admission + 1;
            proof {
                let append = command->Append_0;
                let before = old(self).queued();
                assert(self.queued() == before.push(append));
                assert(self.unresolved() =~= old(self).unresolved().push(append));
                assert forall|i: int| 0 <= i < self.unresolved().len() implies (
                #[trigger] self.unresolved()[i]).seqno.record_index == self.next_completion + i by {
                    if i < old(self).unresolved().len() {
                        assert(self.unresolved()[i] == old(self).unresolved()[i]);
                    }
                }
                let start = self.last_dispatched_admission_bytes as int;
                assert forall|i: int| 0 <= i < self.queued().len() implies (
                #[trigger] self.queued()[i]).admission_end_bytes == queue::bytes_before(
                    self.queued(),
                    start,
                    i,
                ) + self.queued()[i].encoded_bytes by {
                    if i < before.len() {
                        assert(self.queued()[i] == before[i]);
                        if i > 0 {
                            assert(self.queued()[i - 1] == before[i - 1]);
                        }
                    } else if i > 0 {
                        assert(self.queued()[i - 1] == before[i - 1]);
                    }
                }
            }
        }
    }

    /// Completes the records of the oldest batch that lie below the batch's
    /// commit watermark.
    ///
    /// Commits arrive in record order, so the completed records are the first
    /// of all unresolved ones. A failure of the batch counts only if a record
    /// is left for it: that record's caller will be told the failure.
    pub fn complete_front(&mut self, committed_end: u64, failure: Option<Error>) -> (pass:
        CompletionPass<T>)
        requires
            old(self).wf(),
            old(self).completion_batches@.len() > 0,
        ensures
            final(self).wf(),
            ({
                let batch = old(self).completion_batches@[0].appends@;
                let n = queue::committed_count(
                    old(self).next_completion as int,
                    batch.len(),
                    committed_end,
                );
                &&& pass.completed@ == Seq::new(n, |i: int| queue::completed_of(batch[i]))
                &&& batch == old(self).unresolved().take(batch.len() as int)
                &&& final(self).unresolved() == old(self).unresolved().skip(n as int)
                &&& final(self).pending() == old(self).pending().skip(n as int)
                &&& final(self).next_completion == old(self).next_completion + n
                &&& final(self).completion_batches@.len() == old(self).completion_batches@.len()
                    - if n == batch.len() {
                    1int
                } else {
                    0
                }
                &&& n == batch.len() ==> final(self).completion_batches@ == old(
                    self,
                ).completion_batches@.drop_first()
                &&& n < batch.len() ==> final(self).completion_batches@[0].appends@ == batch.skip(
                    n as int,
                ) && final(self).completion_batches@.drop_first() == old(
                    self,
                ).completion_batches@.drop_first()
                &&& pass.next == if n == batch.len() {
                    CompletionNext::NextBatch
                } else {
                    match failure {
                        Some(error) => CompletionNext::Failed(error),
                        None => CompletionNext::Wait,
                    }
                }
            }),
            final(self).queue == old(self).queue,
            final(self).next_admission == old(self).next_admission,
            final(self).last_dispatched_admission_bytes
                == old(self).last_dispatched_admission_bytes,
            final(self).input_closed == old(self).input_closed,
    {
        let ghost before = *self;
        let ghost full = self.completion_batches@[0].appends@;
        let ghost rest = self.completion_batches@.drop_first();
        let ghost first = self.next_completion as int;
        let mut completed: Vec<CompletedAppend<T>> = Vec::new();
        let mut batch = match self.completion_batches.pop_front() {
            Some(batch) => batch,
            None => CompletionBatch { appends: VecDeque::new() },
        };
        proof {
            assert(before.pending() == full + queue::flatten(rest));
            assert(before.unresolved() =~= full + queue::flatten(rest) + before.queued());
            assert forall|i: int| 0 <= i < full.len() implies (
            #[trigger] full[i]).seqno.record_index == first + i by {
                assert(before.unresolved()[i] == full[i]);
            }
            assert(self.completion_batches@ =~= rest);
        }
        while batch.appends.len() > 0 && batch.appends[0].seqno.record_index < committed_end
            invariant
                completed@.len() <= full.len(),
                batch.appends@ == full.skip(completed@.len() as int),
                forall|i: int|
                    0 <= i < full.len() ==> (#[trigger] full[i]).seqno.record_index == first + i,
                first + full.len() <= u64::MAX,
                self.next_completion == first + completed@.len(),
                self.pending_records == full.len() + queue::flatten(rest).len() - completed@.len(),
                completed@.len() <= queue::committed_count(first, full.len(), committed_end),
                completed@ == Seq::new(completed@.len(), |i: int| queue::completed_of(full[i])),
                self.completion_batches@ == rest,
                self.queue == before.queue,
                self.next_admission == before.next_admission,
                self.last_dispatched_admission_bytes == before.last_dispatched_admission_bytes,
                self.input_closed == before.input_closed,
            decreases batch.appends@.len(),
        {
            let ghost k = completed@.len() as int;
            assert(batch.appends@[0] == full[k]);
            if let Some(append) = batch.appends.pop_front() {
                assert(append == full[k]);
                assert(batch.appends@ =~= full.skip(k + 1));
                let watermark: u64 = append.seqno.record_index + 1;
                completed.push(
                    CompletedAppend {
                        receipt: AppendReceipt { seqno: append.seqno },
                        payload_bytes: append.payload_bytes,
                        watermark,
                        ticket: append.ticket,
                    },
                );
                self.pending_records = self.pending_records - 1;
                self.next_completion = self.next_completion + 1;
                assert(completed@ =~= Seq::new(
                    completed@.len(),
                    |i: int| queue::completed_of(full[i]),
                ));
            }
        }
        let ghost n = completed@.len() as int;
        proof {
            if n < full.len() {
                assert(batch.appends@[0] == full[n]);
            }
            assert(n == queue::committed_count(first, full.len(), committed_end));
            assert(full == before.unresolved().take(full.len() as int));
            assert(before.unresolved().skip(n) =~= full.skip(n) + queue::flatten(rest)
                + before.queued());
            assert(before.pending().skip(n) =~= full.skip(n) + queue::flatten(rest));
        }
        let next = if batch.appends.len() == 0 {
            proof {
                assert(full.skip(n) =~= Seq::<AdmittedAppend<T>>::empty());
                assert(self.pending() =~= before.pending().skip(n));
            }
            CompletionNext::NextBatch
        } else {
            let ghost front = batch;
            self.completion_batches.push_front(batch);
            proof {
                assert(self.completion_batches@ =~= seq![front] + rest);
                assert(self.completion_batches@.drop_first() =~= rest);
                assert(self.pending() =~= before.pending().skip(n));
            }
            match failure {
                Some(error) => CompletionNext::Failed(error),
                None => CompletionNext::Wait,
            }
        };
        proof {
            assert(self.unresolved() =~= before.unresolved().skip(n));
            assert forall|i: int| 0 <= i < self.unresolved().len() implies (
            #[trigger] self.unresolved()[i]).seqno.record_index == self.next_completion + i by {
                assert(self.unresolved()[i] == before.unresolved()[i + n]);
            }
            assert forall|i: int| 0 <= i < self.completion_batches@.len() implies (
            #[trigger] self.completion_batches@[i]).appends@.len() > 0 by {
                if next is NextBatch {
                    assert(self.completion_batches@[i] == before.completion_batches@[i + 1]);
                } else if i > 0 {
                    assert(self.completion_batches@[i] == before.completion_batches@[i]);
                }
            }
        }
        CompletionPass { completed, next }
    }

    /// How many records the next batch takes: as many as stand at the front of
    /// the queue and still fit into a window of `window` unresolved records.
    pub open spec fn batch_size(self, window: usize) -> nat {
        let run = queue::leading_appends(self.queue@);
        if self.pending_records >= window {
            0
        } else if run <= window - self.pending_records {
            run
        } else {
            (window - self.pending_records) as nat
        }
    }

    /// Counts the records of the next batch.
    pub fn next_batch(&self, window: usize) -> (count: usize)
        ensures
            count == self.batch_size(window),
            count <= self.queue@.len(),
    {
        if self.pending_records >= window {
            proof {
                queue::lemma_leading_end(self.queue@);
            }
            return 0;
        }
        let room: usize = window - self.pending_records;
        let mut count: usize = 0;
        proof {
            assert(self.queue@.skip(0) =~= self.queue@);
        }
        while count < room && count < self.queue.len() && is_append(&self.queue[count])
            invariant
                count <= room,
                count <= self.queue@.len(),
                queue::leading_appends(self.queue@) == count + queue::leading_appends(
                    self.queue@.skip(count as int),
                ),
            decreases room - count,
        {
            proof {
                let rest = self.queue@.skip(count as int);
                assert(rest.drop_first() =~= self.queue@.skip(count + 1));
            }
            count = count + 1;
        }
        proof {
            queue::lemma_leading_end(self.queue@);
        }
        count
    }

    /// Moves the first `count` queued records into a batch of their own, after
    /// the writer has assigned them the record range `first..end`.
    ///
    /// A range that is not the one the callers numbered is an internal failure,
    /// and leaves the queue as it is.
    pub fn confirm_dispatch(&mut self, count: usize, first: u64, end: u64) -> (result: Result<
        DispatchReport,
        Error,
    >)
        requires
            old(self).wf(),
            0 < count <= queue::leading_appends(old(self).queue@),
            old(self).pending_records + count <= usize::MAX,
        ensures
            ({
                let expected_first = old(self).queued()[0].seqno.record_index;
                &&& expected_first == old(self).next_completion + old(self).pending_records
                &&& match result {
                    Ok(report) => {
                        &&& first == expected_first && end == expected_first + count
                        &&& final(self).wf()
                        &&& final(self).unresolved() == old(self).unresolved()
                        &&& final(self).pending() == old(self).pending() + old(self).queued().take(
                            count as int,
                        )
                        &&& final(self).queue@ == old(self).queue@.skip(count as int)
                        &&& final(self).queued() == old(self).queued().skip(count as int)
                        &&& final(self).completion_batches@.len()
                            == old(self).completion_batches@.len() + 1
                        &&& final(self).completion_batches@.drop_last() == old(
                            self,
                        ).completion_batches@
                        &&& final(self).completion_batches@.last().appends@ == old(
                            self,
                        ).queued().take(count as int)
                        &&& final(self).last_dispatched_admission_bytes == old(self).queued()[count
                            - 1].admission_end_bytes
                        &&& final(self).admitted_bytes() == old(self).admitted_bytes()
                        &&& final(self).pending_records == old(self).pending_records + count
                        &&& final(self).next_completion == old(self).next_completion
                        &&& final(self).next_admission == old(self).next_admission
                        &&& final(self).input_closed == old(self).input_closed
                        &&& report.refill == (old(self).pending_records > 0)
                        &&& report.record_bytes == final(self).last_dispatched_admission_bytes
                            - old(self).last_dispatched_admission_bytes
                        &&& report.pending_records == final(self).pending_records
                    },
                    Err(error) => {
                        &&& !(first == expected_first && end == expected_first + count)
                        &&& *final(self) == *old(self)
                        &&& error matches Error::Internal(message) && message@
                            == range_mismatch_text(
                            first as nat,
                            end as nat,
                            expected_first as nat,
                            (expected_first + count) as nat,
                        )
                    },
                }
            }),
    {
        let ghost before = *self;
        proof {
            queue::lemma_leading(self.queue@, count as int);
            assert(before.unresolved()[before.pending().len() as int] == before.queued()[0]);
            assert(before.queue@[0] == Command::<T, S>::Append(before.queued()[0]));
        }
        let expected_first: u64 = match &self.queue[0] {
            Command::Append(append) => append.seqno.record_index,
            Command::Shutdown { .. } => 0,
        };
        proof {
            let last = before.pending().len() + count - 1;
            assert(before.unresolved()[last] == before.queued()[count - 1]);
        }
        let expected_end: u64 = expected_first + count as u64;
        if first != expected_first || end != expected_end {
            return Err(range_mismatch(first, end, expected_first, expected_end));
        }
        let ghost all = before.queued();
        let outstanding: usize = self.pending_records;
        let mut batch: VecDeque<AdmittedAppend<T>> = VecDeque::new();
        let mut boundary: u128 = self.last_dispatched_admission_bytes;
        let mut moved: usize = 0;
        while moved < count
            invariant
                moved <= count,
                count <= queue::leading_appends(before.queue@),
                all == queue::appends_of(before.queue@),
                all.len() >= count,
                before.queue@.len() >= count,
                forall|i: int|
                    0 <= i < count ==> before.queue@[i] == Command::<T, S>::Append(
                        #[trigger] all[i],
                    ),
                self.queue@ == before.queue@.skip(moved as int),
                batch@ == all.take(moved as int),
                boundary == queue::bytes_before(
                    all,
                    before.last_dispatched_admission_bytes as int,
                    moved as int,
                ),
                self.completion_batches == before.completion_batches,
                self.pending_records == before.pending_records,
                self.next_completion == before.next_completion,
                self.next_admission == before.next_admission,
                self.last_dispatched_admission_bytes == before.last_dispatched_admission_bytes,
                self.input_closed == before.input_closed,
            decreases count - moved,
        {
            proof {
                assert(self.queue@[0] == before.queue@[moved as int]);
                assert(before.queue@[moved as int] == Command::<T, S>::Append(all[moved as int]));
            }
            match self.queue.pop_front() {
                Some(Command::Append(append)) => {
                    boundary = append.admission_end_bytes;
                    batch.push_back(append);
                },
                _ => {},
            }
            proof {
                assert(self.queue@ =~= before.queue@.skip(moved + 1));
                assert(batch@ =~= all.take(moved + 1));
            }
            moved = moved + 1;
        }
        let ghost moved_batch = CompletionBatch { appends: batch };
        self.completion_batches.push_back(CompletionBatch { appends: batch });
        proof {
            queue::lemma_chain_grows(
                all,
                before.last_dispatched_admission_bytes as int,
                count - 1,
            );
        }
        let record_bytes: u128 = boundary - self.last_dispatched_admission_bytes;
        self.last_dispatched_admission_bytes = boundary;
        self.pending_records = outstanding + count;
        proof {
            queue::lemma_flatten_push(before.completion_batches@, moved_batch);
            assert(self.pending() == before.pending() + all.take(count as int));
            assert(self.queued() == all.skip(count as int));
            assert(self.unresolved() =~= before.unresolved()) by {
                assert(all =~= all.take(count as int) + all.skip(count as int));
            }
            let start = boundary as int;
            assert forall|i: int| 0 <= i < self.queued().len() implies (
            #[trigger] self.queued()[i]).admission_end_bytes == queue::bytes_before(
                self.queued(),
                start,
                i,
            ) + self.queued()[i].encoded_bytes by {
                assert(self.queued()[i] == all[i + count]);
                if i > 0 {
                    assert(self.queued()[i - 1] == all[i - 1 + count]);
                }
            }
            let n = self.queued().len() as int;
            if n > 0 {
                assert(self.queued()[n - 1] == all[all.len() - 1]);
            }
            assert forall|i: int| 0 <= i < self.completion_batches@.len() implies (
            #[trigger] self.completion_batches@[i]).appends@.len() > 0 by {
                if i < before.completion_batches@.len() {
                    assert(self.completion_batches@[i] == before.completion_batches@[i]);
                }
            }
        }
        Ok(DispatchReport { refill: outstanding > 0, record_bytes, pending_records: self.pending_records })
    }

    /// Answers every queued command, and every command of `rest` that was still
    /// on its way, with `error`. Dispatched records are left alone: their
    /// callers learn that the engine is gone when it is dropped.
    pub fn fail_queued(&mut self, rest: Vec<Command<T, S>>, error: Error) -> (failures: Failures<
        T,
        S,
    >)
        ensures
            final(self).queue@.len() == 0,
            final(self).completion_batches == old(self).completion_batches,
            final(self).pending_records == old(self).pending_records,
            final(self).next_completion == old(self).next_completion,
            final(self).next_admission == old(self).next_admission,
            final(self).last_dispatched_admission_bytes
                == old(self).last_dispatched_admission_bytes,
            final(self).input_closed == old(self).input_closed,
            failures.appends@ == queue::failed_with(
                old(self).queued() + queue::appends_of(rest@),
                error,
            ),
            failures.responses@ == queue::responses_of(old(self).queue@) + queue::responses_of(
                rest@,
            ),
    {
        let ghost before = *self;
        let mut commands: VecDeque<Command<T, S>> = VecDeque::new();
        let mut failures = Failures { appends: Vec::new(), responses: Vec::new() };
        self.stop_admission(rest);
        std::mem::swap(&mut commands, &mut self.queue);
        fail_all(commands, error, &mut failures);
        proof {
            queue::lemma_appends_concat(before.queue@, rest@);
            assert(failures.appends@ =~= queue::failed_with(
                before.queued() + queue::appends_of(rest@),
                error,
            ));
            assert(failures.responses@ =~= queue::responses_of(before.queue@)
                + queue::responses_of(rest@));
        }
        failures
    }

    /// Gives up after an indeterminate append: the oldest unresolved record is
    /// told `error`, if there is one, and everything after it is told that the
    /// log is poisoned, commands of `rest` that were still on their way
    /// included.
    pub fn poison(&mut self, error: Option<Error>, rest: Vec<Command<T, S>>) -> (failures: Failures<
        T,
        S,
    >)
        ensures
            final(self).queue@.len() == 0,
            final(self).completion_batches@.len() == 0,
            final(self).pending_records == 0,
            final(self).next_completion == old(self).next_completion,
            final(self).next_admission == old(self).next_admission,
            final(self).last_dispatched_admission_bytes
                == old(self).last_dispatched_admission_bytes,
            final(self).input_closed == old(self).input_closed,
            ({
                let all = old(self).unresolved() + queue::appends_of(rest@);
                &&& failures.appends@.len() == all.len()
                &&& forall|i: int|
                    0 <= i < all.len() ==> #[trigger] failures.appends@[i] == (FailedAppend {
                        append: all[i],
                        error: if i == 0 && old(self).pending().len() > 0 && error is Some {
                            error->Some_0
                        } else {
                            Error::Poisoned
                        },
                    })
            }),
            failures.responses@ == queue::responses_of(old(self).queue@) + queue::responses_of(
                rest@,
            ),
    {
        let ghost before = *self;
        let ghost reported = error;
        let ghost all = before.completion_batches@;
        let ghost told = |i: int|
            if i == 0 && reported is Some {
                reported->Some_0
            } else {
                Error::Poisoned
            };
        let mut batches: VecDeque<CompletionBatch<T>> = VecDeque::new();
        std::mem::swap(&mut batches, &mut self.completion_batches);
        self.pending_records = 0;
        let mut failures = Failures { appends: Vec::new(), responses: Vec::new() };
        let mut error = error;
        let ghost mut done: int = 0;
        proof {
            assert(all.take(0) =~= Seq::<CompletionBatch<T>>::empty());
            assert(all.skip(0) =~= all);
        }
        while batches.len() > 0
            invariant
                0 <= done <= all.len(),
                batches@ == all.skip(done),
                failures.appends@.len() == queue::flatten(all.take(done)).len(),
                forall|i: int|
                    0 <= i < failures.appends@.len() ==> #[trigger] failures.appends@[i] == (
                    FailedAppend {
                        append: queue::flatten(all.take(done))[i],
                        error: told(i),
                    }),
                failures.responses@ == Seq::<S>::empty(),
                error == if failures.appends@.len() == 0 {
                    reported
                } else {
                    None
                },
                told == |i: int|
                    if i == 0 && reported is Some {
                        reported->Some_0
                    } else {
                        Error::Poisoned
                    },
            decreases batches@.len(),
        {
            let ghost batch = all[done].appends@;
            let ghost earlier = queue::flatten(all.take(done));
            proof {
                assert(batches@[0] == all[done]);
                assert(all.take(done + 1) =~= all.take(done).push(all[done]));
                queue::lemma_flatten_push(all.take(done), all[done]);
            }
            if let Some(front) = batches.pop_front() {
                let mut appends = front.appends;
                while appends.len() > 0
                    invariant
                        earlier.len() <= failures.appends@.len() <= earlier.len() + batch.len(),
                        appends@ == batch.skip(failures.appends@.len() - earlier.len()),
                        forall|i: int|
                            0 <= i < failures.appends@.len() ==> #[trigger] failures.appends@[i]
                                == (FailedAppend { append: (earlier + batch)[i], error: told(i) }),
                        failures.responses@ == Seq::<S>::empty(),
                        error == if failures.appends@.len() == 0 {
                            reported
                        } else {
                            None
                        },
                        told == |i: int|
                            if i == 0 && reported is Some {
                                reported->Some_0
                            } else {
                                Error::Poisoned
                            },
                    decreases appends@.len(),
                {
                    let ghost at = failures.appends@.len() - earlier.len();
                    if let Some(append) = appends.pop_front() {
                        assert(append == batch[at]);
                        assert(appends@ =~= batch.skip(at + 1));
                        let reason = match error {
                            Some(first) => first,
                            None => Error::Poisoned,
                        };
                        error = None;
                        failures.appends.push(FailedAppend { append, error: reason });
                    }
                }
            }
            proof {
                assert(batches@ =~= all.skip(done + 1));
                done = done + 1;
            }
        }
        let mut commands: VecDeque<Command<T, S>> = VecDeque::new();
        self.stop_admission(rest);
        std::mem::swap(&mut commands, &mut self.queue);
        fail_all(commands, Error::Poisoned, &mut failures);
        proof {
            assert(all.take(all.len() as int) =~= all);
            queue::lemma_appends_concat(before.queue@, rest@);
            assert(before.unresolved() + queue::appends_of(rest@) =~= before.pending() + (
            before.queued() + queue::appends_of(rest@)));
            assert(failures.responses@ =~= queue::responses_of(before.queue@)
                + queue::responses_of(rest@));
        }
        failures
    }

    /// Takes a shutdown request once everything before it has resolved, and
    /// answers whatever was queued behind it as closed.
    pub fn take_shutdown(&mut self) -> (stop: Option<(S, Failures<T, S>)>)
        requires
            old(self).wf(),
        ensures
            match stop {
                Some((response, failures)) => {
                    &&& old(self).pending().len() == 0
                    &&& old(self).queue@.len() > 0
                    &&& old(self).queue@[0] == (Command::<T, S>::Shutdown { response })
                    &&& final(self).queue@.len() == 0
                    &&& failures.appends@ == queue::failed_with(old(self).unresolved(), Error::Closed)
                    &&& failures.responses@ == queue::responses_of(old(self).queue@).skip(1)
                },
                None => {
                    &&& *final(self) == *old(self)
                    &&& old(self).pending().len() > 0 || old(self).queue@.len() == 0 || old(
                        self,
                    ).queue@[0] is Append
                },
            },
    {
        if self.pending_records != 0 || self.queue.len() == 0 || is_append(&self.queue[0]) {
            return None;
        }
        let ghost before = *self;
        match self.queue.pop_front() {
            Some(Command::Shutdown { response }) => {
                let ghost behind = self.queue@;
                let mut commands: VecDeque<Command<T, S>> = VecDeque::new();
                let mut failures = Failures { appends: Vec::new(), responses: Vec::new() };
                std::mem::swap(&mut commands, &mut self.queue);
                fail_all(commands, Error::Closed, &mut failures);
                proof {
                    assert(before.queue@.drop_first() =~= behind);
                    assert(before.unresolved() =~= queue::appends_of(behind));
                    assert(failures.appends@ =~= queue::failed_with(
                        before.unresolved(),
                        Error::Closed,
                    ));
                    assert(failures.responses@ =~= queue::responses_of(before.queue@).skip(1));
                }
                Some((response, failures))
            },
            _ => None,
        }
    }

    /// Whether nothing is left to do and nothing more can arrive.
    pub fn drained(&self) -> (drained: bool)
        ensures
            drained == (self.input_closed && self.queue@.len() == 0 && self.pending_records == 0),
    {
        self.input_closed && self.queue.len() == 0 && self.pending_records == 0
    }

    /// Moves the commands that were still on their way into the queue, without
    /// admitting them.
    fn stop_admission(&mut self, rest: Vec<Command<T, S>>)
        ensures
            final(self).queue@ == old(self).queue@ + rest@,
            final(self).completion_batches == old(self).completion_batches,
            final(self).pending_records == old(self).pending_records,
            final(self).next_completion == old(self).next_completion,
            final(self).next_admission == old(self).next_admission,
            final(self).last_dispatched_admission_bytes
                == old(self).last_dispatched_admission_bytes,
            final(self).input_closed == old(self).input_closed,
    {
        let ghost before = *self;
        for command in iter: rest
            invariant
                iter.seq() == rest@,
                self.queue@ == before.queue@ + rest@.take(iter.index() as int),
                self.completion_batches == before.completion_batches,
                self.pending_records == before.pending_records,
                self.next_completion == before.next_completion,
                self.next_admission == before.next_admission,
                self.last_dispatched_admission_bytes == before.last_dispatched_admission_bytes,
                self.input_closed == before.input_closed,
        {
            self.queue.push_back(command);
            proof {
                let i = iter.index() as int;
                assert(self.queue@ =~= before.queue@ + rest@.take(i + 1));
            }
        }
        proof {
            assert(rest@.take(rest@.len() as int) =~= rest@);
        }
    }
}

/// Whether a command is an append.
fn is_append<T, S>(command: &Command<T, S>) -> (append: bool)
    ensures
        append == (*command is Append),
{
    match command {
        Command::Append(_) => true,
        Command::Shutdown { .. } => false,
    }
}

/// What the internal failure says when the writer's range differs from the
/// callers' numbering.
pub open spec fn range_mismatch_text(
    first: nat,
    end: nat,
    expected_first: nat,
    expected_end: nat,
) -> Seq<char> {
    "WAL assigned records "@ + crate::text::decimal(first) + ".."@ + crate::text::decimal(end) + ", caller admitted "@
        + crate::text::decimal(expected_first) + ".."@ + crate::text::decimal(expected_end)
}

fn range_mismatch(first: u64, end: u64, expected_first: u64, expected_end: u64) -> (error: Error)
    ensures
        error matches Error::Internal(message) && message@ == range_mismatch_text(
            first as nat,
            end as nat,
            expected_first as nat,
            expected_end as nat,
        ),
{
    let mut message = String::from_str("WAL assigned records ");
    push_decimal(&mut message, first);
    message.append("..");
    push_decimal(&mut message, end);
    message.append(", caller admitted ");
    push_decimal(&mut message, expected_first);
    message.append("..");
    push_decimal(&mut message, expected_end);
    Error::Internal(message)
}

/// Answers every command: appends with `error`, shutdown requests with their
/// acknowledgment.
fn fail_all<T, S>(
    commands: VecDeque<Command<T, S>>,
    error: Error,
    failures: &mut Failures<T, S>,
)
    ensures
        final(failures).appends@ == old(failures).appends@ + queue::failed_with(
            queue::appends_of(commands@),
            error,
        ),
        final(failures).responses@ == old(failures).responses@ + queue::responses_of(commands@),
{
    let ghost all = commands@;
    let ghost before = *failures;
    let mut commands = commands;
    let ghost mut done: int = 0;
    proof {
        assert(all.take(0) =~= Seq::<Command<T, S>>::empty());
        assert(all.skip(0) =~= all);
        assert(failures.appends@ =~= before.appends@ + queue::failed_with(
            queue::appends_of(all.take(0)),
            error,
        ));
        assert(failures.responses@ =~= before.responses@ + queue::responses_of(all.take(0)));
    }
    while commands.len() > 0
        invariant
            0 <= done <= all.len(),
            commands@ == all.skip(done),
            failures.appends@ == before.appends@ + queue::failed_with(
                queue::appends_of(all.take(done)),
                error,
            ),
            failures.responses@ == before.responses@ + queue::responses_of(all.take(done)),
        decreases commands@.len(),
    {
        let ghost command = all[done];
        proof {
            assert(all.take(done + 1) =~= all.take(done).push(command));
            queue::lemma_appends_push(all.take(done), command);
        }
        match commands.pop_front() {
            Some(Command::Append(append)) => {
                failures.appends.push(FailedAppend { append, error: error.clone() });
            },
            Some(Command::Shutdown { response }) => {
                failures.responses.push(response);
            },
            None => {},
        }
        proof {
            assert(commands@ =~= all.skip(done + 1));
            assert(failures.appends@ =~= before.appends@ + queue::failed_with(
                queue::appends_of(all.take(done + 1)),
                error,
            ));
            assert(failures.responses@ =~= before.responses@ + queue::responses_of(
                all.take(done + 1),
            ));
            done = done + 1;
        }
    }
    proof {
        assert(all.take(all.len() as int) =~= all);
    }
}

/// The records of the oldest batch are numbered from the next completion on.
proof fn lemma_front_numbered<T, S>(state: EngineState<T, S>)
    requires
        state.wf(),
        state.completion_batches@.len() > 0,
    ensures
        ({
            let batch = state.completion_batches@[0].appends@;
            &&& batch.len() > 0
            &&& batch.len() <= state.unresolved().len()
            &&& forall|i: int|
                0 <= i < batch.len() ==> (#[trigger] batch[i]).seqno.record_index
                    == state.next_completion + i && batch[i] == state.unresolved()[i]
        }),
{
    let batch = state.completion_batches@[0].appends@;
    assert(state.pending() == batch + queue::flatten(state.completion_batches@.drop_first()));
    assert forall|i: int| 0 <= i < batch.len() implies (#[trigger] batch[i]).seqno.record_index
        == state.next_completion + i && batch[i] == state.unresolved()[i] by {
        assert(state.unresolved()[i] == batch[i]);
    }
}

/// A look at the oldest batch completes exactly those of its records that lie
/// below the commit watermark, in order, each with its own receipt. A committed
/// record is never left behind: what remains of the batch begins at the
/// watermark or later, and only then does the batch wait or fail.
pub proof fn law_every_committed_record_completes<T, S>(
    state: &mut EngineState<T, S>,
    committed_end: u64,
    failure: Option<Error>,
    pass: CompletionPass<T>,
)
    requires
        old(state).wf(),
        old(state).completion_batches@.len() > 0,
        call_ensures(EngineState::<T, S>::complete_front, (state, committed_end, failure), pass),
    ensures
        ({
            let batch = old(state).completion_batches@[0].appends@;
            let others = old(state).completion_batches@.drop_first();
            let left = final(state).completion_batches@;
            let done = pass.completed@.len();
            &&& done <= batch.len()
            &&& forall|i: int|
                0 <= i < batch.len() ==> (i < done <==> (
                #[trigger] batch[i]).seqno.record_index < committed_end)
            &&& forall|i: int|
                0 <= i < done ==> (#[trigger] pass.completed@[i]).receipt.seqno == batch[i].seqno
                    && pass.completed@[i].payload_bytes == batch[i].payload_bytes
                    && pass.completed@[i].watermark == batch[i].seqno.record_index + 1
                    && pass.completed@[i].ticket == batch[i].ticket
            &&& final(state).next_completion == old(state).next_completion + done
            &&& final(state).pending_records == old(state).pending_records - done
            &&& done == batch.len() ==> pass.next is NextBatch && left == others
            &&& done < batch.len() ==> {
                &&& left.len() > 0
                &&& left[0].appends@ == batch.skip(done as int)
                &&& left[0].appends@[0].seqno.record_index >= committed_end
                &&& left.drop_first() == others
                &&& failure is None ==> pass.next is Wait
                &&& failure is Some ==> pass.next == CompletionNext::Failed(failure->Some_0)
            }
            &&& final(state).queue == old(state).queue
            &&& final(state).next_admission == old(state).next_admission
            &&& final(state).input_closed == old(state).input_closed
        }),
{
    lemma_front_numbered(*old(state));
}

/// A failed quorum is told to the oldest record that did not commit, and every
/// record after it learns that the log is poisoned. No committed record of the
/// failed batch is among them, and none is left without an answer.
pub proof fn law_failure_spares_committed_records<T, S>(
    state: &mut EngineState<T, S>,
    committed_end: u64,
    error: Error,
    pass: CompletionPass<T>,
    stopped: &mut EngineState<T, S>,
    rest: Vec<Command<T, S>>,
    failures: Failures<T, S>,
)
    requires
        old(state).wf(),
        final(state).wf(),
        old(state).completion_batches@.len() > 0,
        call_ensures(EngineState::<T, S>::complete_front, (state, committed_end, Some(error)), pass),
        pass.next is Failed,
        *old(stopped) == *final(state),
        call_ensures(EngineState::<T, S>::poison, (stopped, Some(pass.next->Failed_0), rest), failures),
    ensures
        failures.appends@.len() >= old(state).unresolved().len() - pass.completed@.len(),
        failures.appends@.len() > 0,
        failures.appends@[0].error == error,
        forall|i: int|
            0 < i < failures.appends@.len() ==> (#[trigger] failures.appends@[i]).error
                == Error::Poisoned,
        forall|i: int|
            0 <= i < old(state).unresolved().len() - pass.completed@.len() ==> (
            #[trigger] failures.appends@[i]).append == old(state).unresolved()[i
                + pass.completed@.len()] && failures.appends@[i].append.seqno.record_index
                >= committed_end,
        final(stopped).queue@.len() == 0,
        final(stopped).completion_batches@.len() == 0,
{
    lemma_front_numbered(*old(state));
    lemma_front_numbered(*final(state));
    let all = final(state).unresolved() + queue::appends_of(rest@);
    let done = pass.completed@.len() as int;
    assert(final(state).unresolved() == old(state).unresolved().skip(done));
    assert forall|i: int| 0 <= i < old(state).unresolved().len() - done implies (
    #[trigger] failures.appends@[i]).append == old(state).unresolved()[i + done]
        && failures.appends@[i].append.seqno.record_index >= committed_end by {
        assert(all[i] == final(state).unresolved()[i]);
        assert(final(state).unresolved()[i].seqno.record_index == final(state).next_completion + i);
        assert(final(state).unresolved()[0].seqno.record_index == final(state).next_completion);
    }
    assert(all[0] == final(state).unresolved()[0]);
}

/// A batch takes the records at the front of the queue, up to the first shutdown
/// request, and as many of them as the window still has room for: it never
/// exceeds the window, and stops short of it only where no record follows.
pub proof fn law_batches_fill_the_window<T, S>(
    state: &EngineState<T, S>,
    window: usize,
    count: usize,
)
    requires
        call_ensures(EngineState::<T, S>::next_batch, (state, window), count),
    ensures
        count <= state.queue@.len(),
        state.pending_records >= window ==> count == 0,
        state.pending_records < window ==> count <= window - state.pending_records,
        forall|i: int| 0 <= i < count ==> #[trigger] state.queue@[i] is Append,
        state.pending_records + count < window && count < state.queue@.len() ==> state.queue@[
            count as int
        ] is Shutdown,
{
    queue::lemma_leading_end(state.queue@);
    queue::lemma_leading(state.queue@, count as int);
}

/// A dispatch succeeds exactly if the writer gave the records the numbers that
/// their callers did. It moves the first commands of the queue, which are all
/// appends, into a batch of their own behind the earlier ones, and nothing else.
/// Where the numbers differ, nothing moves.
pub proof fn law_dispatch_moves_the_oldest_records<T, S>(
    state: &mut EngineState<T, S>,
    count: usize,
    first: u64,
    end: u64,
    result: Result<DispatchReport, Error>,
)
    requires
        old(state).wf(),
        0 < count <= queue::leading_appends(old(state).queue@),
        call_ensures(EngineState::<T, S>::confirm_dispatch, (state, count, first, end), result),
    ensures
        ({
            let queue = old(state).queue@;
            let batches = final(state).completion_batches@;
            &&& queue[0] is Append
            &&& result is Ok <==> first == queue[0]->Append_0.seqno.record_index && end == first
                + count
            &&& result is Err ==> *final(state) == *old(state) && result->Err_0 is Internal
            &&& result is Ok ==> {
                &&& final(state).queue@ == queue.skip(count as int)
                &&& batches.len() == old(state).completion_batches@.len() + 1
                &&& batches.drop_last() == old(state).completion_batches@
                &&& batches.last().appends@.len() == count
                &&& forall|i: int|
                    0 <= i < count ==> queue[i] == Command::<T, S>::Append(
                        #[trigger] batches.last().appends@[i],
                    )
                &&& final(state).pending_records == old(state).pending_records + count
                &&& final(state).next_completion == old(state).next_completion
                &&& final(state).next_admission == old(state).next_admission
                &&& final(state).input_closed == old(state).input_closed
                &&& final(state).last_dispatched_admission_bytes == batches.last().appends@[count
                    - 1].admission_end_bytes
                &&& result->Ok_0.refill == (old(state).pending_records > 0)
                &&& result->Ok_0.pending_records == final(state).pending_records
                &&& old(state).last_dispatched_admission_bytes + result->Ok_0.record_bytes
                    == final(state).last_dispatched_admission_bytes
            }
        }),
{
    queue::lemma_leading(old(state).queue@, count as int);
    let queued = old(state).queued();
    if result is Ok {
        assert forall|i: int| 0 <= i < count implies old(state).queue@[i] == Command::<
            T,
            S,
        >::Append(#[trigger] final(state).completion_batches@.last().appends@[i]) by {
            assert(final(state).completion_batches@.last().appends@[i] == queued[i]);
        }
        assert(final(state).completion_batches@.last().appends@[count - 1] == queued[count - 1]);
    }
    assert(old(state).queue@[0] == Command::<T, S>::Append(queued[0]));
}

/// Taking a command adds it at the end of the queue; an append advances the next
/// admission by one, a shutdown request does not.
pub proof fn law_admission_appends_to_the_queue<T, S>(
    state: &mut EngineState<T, S>,
    command: Command<T, S>,
    admits: bool,
)
    requires
        call_ensures(EngineState::<T, S>::admits, (&*old(state), &command), admits),
        call_ensures(EngineState::<T, S>::admit_command, (state, command), ()),
    ensures
        command is Shutdown ==> admits,
        admits && command is Append ==> command->Append_0.seqno.record_index == old(
            state,
        ).next_admission,
        final(state).queue@.len() == old(state).queue@.len() + 1,
        final(state).queue@.last() == command,
        final(state).queue@.drop_last() == old(state).queue@,
        command is Append ==> final(state).next_admission == old(state).next_admission + 1,
        command is Shutdown ==> final(state).next_admission == old(state).next_admission,
        final(state).completion_batches == old(state).completion_batches,
        final(state).pending_records == old(state).pending_records,
        final(state).next_completion == old(state).next_completion,
        final(state).input_closed == old(state).input_closed,
{
}

/// An engine that gives up answers every record that it still owes and every
/// command that was on its way, once and in order, and acknowledges every
/// shutdown request. Only the oldest dispatched record learns the cause.
pub proof fn law_poison_answers_everything<T, S>(
    state: &mut EngineState<T, S>,
    error: Option<Error>,
    rest: Vec<Command<T, S>>,
    failures: Failures<T, S>,
)
    requires
        call_ensures(EngineState::<T, S>::poison, (state, error, rest), failures),
    ensures
        final(state).queue@.len() == 0,
        final(state).completion_batches@.len() == 0,
        final(state).pending_records == 0,
        failures.appends@.map_values(|failure: FailedAppend<T>| failure.append) == old(
            state,
        ).pending() + queue::appends_of(old(state).queue@ + rest@),
        failures.responses@ == queue::responses_of(old(state).queue@ + rest@),
        forall|i: int|
            0 <= i < failures.appends@.len() && (i > 0 || error is None || old(
                state,
            ).pending().len() == 0) ==> (#[trigger] failures.appends@[i]).error == Error::Poisoned,
        old(state).pending().len() > 0 && error is Some ==> failures.appends@[0].error
            == error->Some_0,
{
    queue::lemma_appends_concat(old(state).queue@, rest@);
    let all = old(state).unresolved() + queue::appends_of(rest@);
    assert(all =~= old(state).pending() + queue::appends_of(old(state).queue@ + rest@));
    assert(failures.appends@.map_values(|failure: FailedAppend<T>| failure.append) =~= all) by {
        assert forall|i: int| 0 <= i < all.len() implies (
        #[trigger] failures.appends@[i]).append == all[i] by {}
    }
}

/// Stopping with an error leaves no command behind: every queued record and
/// every record on its way is told the error, in order, and every shutdown
/// request is acknowledged. Dispatched records keep their turn.
pub proof fn law_stopping_answers_the_queue<T, S>(
    state: &mut EngineState<T, S>,
    rest: Vec<Command<T, S>>,
    error: Error,
    failures: Failures<T, S>,
)
    requires
        call_ensures(EngineState::<T, S>::fail_queued, (state, rest, error), failures),
    ensures
        final(state).queue@.len() == 0,
        final(state).completion_batches == old(state).completion_batches,
        final(state).pending_records == old(state).pending_records,
        failures.appends@.map_values(|failure: FailedAppend<T>| failure.append)
            == queue::appends_of(old(state).queue@ + rest@),
        failures.responses@ == queue::responses_of(old(state).queue@ + rest@),
        forall|i: int|
            0 <= i < failures.appends@.len() ==> (#[trigger] failures.appends@[i]).error == error,
{
    queue::lemma_appends_concat(old(state).queue@, rest@);
    assert(failures.appends@.map_values(|failure: FailedAppend<T>| failure.append)
        =~= queue::appends_of(old(state).queue@ + rest@));
}

/// A shutdown request is taken exactly if it stands at the front of the queue
/// and no dispatched record is unresolved. What stood behind it is told that the
/// log is closed, and every later request is acknowledged too.
pub proof fn law_shutdown_is_taken_last<T, S>(
    state: &mut EngineState<T, S>,
    stop: Option<(S, Failures<T, S>)>,
)
    requires
        old(state).wf(),
        call_ensures(EngineState::<T, S>::take_shutdown, (state,), stop),
    ensures
        stop is Some <==> old(state).completion_batches@.len() == 0 && old(state).queue@.len() > 0
            && old(state).queue@[0] is Shutdown,
        stop is None ==> *final(state) == *old(state),
        stop is Some ==> {
            let behind = old(state).queue@.drop_first();
            let (response, failures) = stop->Some_0;
            &&& response == old(state).queue@[0]->response
            &&& final(state).queue@.len() == 0
            &&& failures.appends@.map_values(|failure: FailedAppend<T>| failure.append)
                == queue::appends_of(behind)
            &&& failures.responses@ == queue::responses_of(behind)
            &&& forall|i: int|
                0 <= i < failures.appends@.len() ==> (#[trigger] failures.appends@[i]).error
                    == Error::Closed
        },
{
    let batches = old(state).completion_batches@;
    if batches.len() > 0 {
        lemma_front_numbered(*old(state));
        assert(old(state).pending() == batches[0].appends@ + queue::flatten(batches.drop_first()));
        assert(old(state).pending().len() > 0);
    } else {
        assert(old(state).pending().len() == 0);
    }
    if stop is Some {
        let behind = old(state).queue@.drop_first();
        let (response, failures) = stop->Some_0;
        assert(old(state).unresolved() =~= queue::appends_of(behind));
        assert(failures.appends@.map_values(|failure: FailedAppend<T>| failure.append)
            =~= queue::appends_of(behind));
        assert(queue::responses_of(old(state).queue@).skip(1) =~= queue::responses_of(behind));
    }
}

/// An engine has drained exactly if no input can come, no command is queued and
/// no dispatched record is unresolved.
pub proof fn law_drained_means_nothing_is_left<T, S>(state: &EngineState<T, S>, drained: bool)
    requires
        call_ensures(EngineState::<T, S>::drained, (state,), drained),
        state.wf(),
    ensures
        drained ==> state.input_closed && state.queue@.len() == 0
            && state.completion_batches@.len() == 0 && state.unresolved().len() == 0,
        state.input_closed && state.queue@.len() == 0 && state.completion_batches@.len() == 0
            ==> drained,
{
    if state.completion_batches@.len() > 0 {
        lemma_front_numbered(*state);
        assert(state.pending() == state.completion_batches@[0].appends@ + queue::flatten(
            state.completion_batches@.drop_first(),
        ));
    }
}

/// A new state owes nothing and numbers its records from the given one on.
pub proof fn law_new_state_owes_nothing<T, S>(next_record_index: u64, state: EngineState<T, S>)
    requires
        call_ensures(EngineState::<T, S>::new, (next_record_index,), state),
    ensures
        state.queue@.len() == 0 && state.completion_batches@.len() == 0,
        state.pending_records == 0,
        state.next_completion == next_record_index,
        state.next_admission == next_record_index,
        state.last_dispatched_admission_bytes == 0,
        !state.input_closed,
{
}

proof fn lemma_last_append<T, S>(commands: Seq<Command<T, S>>)
    requires
        commands.len() > 0,
        commands.last() is Append,
    ensures
        queue::appends_of(commands).len() > 0,
        queue::appends_of(commands).last() == commands.last()->Append_0,
    decreases commands.len(),
{
    let rest = commands.drop_first();
    if commands.len() > 1 {
        assert(rest.last() == commands.last());
        lemma_last_append(rest);
    } else {
        assert(queue::appends_of(rest).len() == 0);
    }
}

/// The boundary that admission continues from lies behind the last queued
/// record, or behind the last dispatched one where nothing is queued.
pub proof fn law_boundary_is_behind_the_last_record<T, S>(state: &EngineState<T, S>, bytes: u128)
    requires
        call_ensures(EngineState::<T, S>::admission_boundary, (state,), bytes),
    ensures
        state.queue@.len() == 0 ==> bytes == state.last_dispatched_admission_bytes,
        state.queue@.len() > 0 && state.queue@.last() is Append ==> bytes
            == state.queue@.last()->Append_0.admission_end_bytes,
{
    if state.queue@.len() > 0 && state.queue@.last() is Append {
        lemma_last_append(state.queue@);
    }
}

} // verus!
