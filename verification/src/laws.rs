//! What holds of admission, dispatch and completion taken together.

use crate::capacity::ActiveSegmentCapacity;
use crate::engine::Engine;
use crate::handle::WalHandle;
use crate::queue;
use crate::queue::{AdmittedAppend, Command, FailedAppend};
use crate::seqno::WalSeqNo;
use crate::state::EngineState;
use vstd::prelude::*;

verus! {

/// The append command of an admitted record.
pub open spec fn append_command<T, S>(
    handle: WalHandle,
    seqno: WalSeqNo,
    payload_bytes: usize,
    ticket: T,
) -> Command<T, S> {
    let admission = handle.admission(seqno, payload_bytes);
    Command::Append(
        AdmittedAppend {
            seqno: admission.seqno,
            payload_bytes: admission.payload_bytes,
            encoded_bytes: admission.encoded_bytes,
            admission_end_bytes: admission.admission_end_bytes,
            ticket,
        },
    )
}

/// A record that the handle admits is one that an engine in step with it can
/// take, and taking it keeps the two in step.
pub proof fn law_admission_keeps_step<T, S>(
    handle: WalHandle,
    engine: Engine<T, S>,
    closed: bool,
    capacity: ActiveSegmentCapacity,
    seqno: WalSeqNo,
    payload_bytes: usize,
    ticket: T,
    handle_after: WalHandle,
    engine_after: Engine<T, S>,
)
    requires
        engine.wf(),
        handle.in_step(engine),
        handle.admits(closed, capacity, seqno, payload_bytes),
        handle_after.next_seqno == handle.next_seqno + 1,
        handle_after.total_admitted_bytes == handle.admission(
            seqno,
            payload_bytes,
        ).admission_end_bytes,
        engine_after.wf(),
        engine_after.state.queue@ == engine.state.queue@.push(
            append_command(handle, seqno, payload_bytes, ticket),
        ),
        engine_after.state.completion_batches == engine.state.completion_batches,
        engine_after.state.next_completion == engine.state.next_completion,
        engine_after.state.last_dispatched_admission_bytes
            == engine.state.last_dispatched_admission_bytes,
    ensures
        engine.state.admissible(append_command(handle, seqno, payload_bytes, ticket)),
        handle_after.in_step(engine_after),
{
    let command = append_command::<T, S>(handle, seqno, payload_bytes, ticket);
    queue::lemma_appends_push(engine.state.queue@, command);
    let queued = engine_after.state.queued();
    assert(queued == engine.state.queued().push(command->Append_0));
    assert(queued.last() == command->Append_0);
    assert(engine_after.state.unresolved() =~= engine.state.unresolved().push(command->Append_0));
}

/// Dispatching, completing and swapping do not touch what admission compares:
/// an engine stays in step with its handle.
pub proof fn law_progress_keeps_step<T, S>(
    handle: WalHandle,
    engine: Engine<T, S>,
    engine_after: Engine<T, S>,
)
    requires
        handle.in_step(engine),
        engine_after.state.next_admission == engine.state.next_admission,
        engine_after.state.admitted_bytes() == engine.state.admitted_bytes(),
    ensures
        handle.in_step(engine_after),
{
}

/// In step with its handle, an engine never publishes a segment boundary that
/// lies beyond the admitted bytes, so admission never meets that failure.
pub proof fn law_boundary_never_exceeds_admitted<T, S>(handle: WalHandle, engine: Engine<T, S>)
    requires
        engine.wf(),
        handle.in_step(engine),
    ensures
        engine.capacity.admission_start_bytes <= handle.total_admitted_bytes,
{
    let queued = engine.state.queued();
    let start = engine.state.last_dispatched_admission_bytes as int;
    if queued.len() > 0 {
        queue::lemma_chain_grows(queued, start, queued.len() - 1);
    }
}

/// An active segment within its hard ceiling stays within it when a record is
/// admitted, and its empty successor starts within it: the records still
/// queued at a swap were all charged before.
pub proof fn law_active_segment_stays_below_ceiling<T, S>(
    handle: WalHandle,
    engine: Engine<T, S>,
    closed: bool,
    seqno: WalSeqNo,
    payload_bytes: usize,
    handle_after: WalHandle,
    successor: ActiveSegmentCapacity,
)
    requires
        engine.wf(),
        handle.in_step(engine),
        handle.charged(engine.capacity) <= handle.max_active_segment_bytes,
        handle_after.total_admitted_bytes == handle.admission(
            seqno,
            payload_bytes,
        ).admission_end_bytes,
        successor.admission_start_bytes == engine.state.last_dispatched_admission_bytes,
        successor.existing_bytes == 0,
    ensures
        handle.admits(closed, engine.capacity, seqno, payload_bytes) ==> handle_after.charged(
            engine.capacity,
        ) <= handle.max_active_segment_bytes,
        handle.charged(successor) <= handle.max_active_segment_bytes,
{
}

/// Completed records are the oldest unresolved ones, numbered without a gap,
/// and every one of them lies below the commit watermark.
pub proof fn law_completions_are_the_committed_prefix<T, S>(
    state: EngineState<T, S>,
    committed_end: u64,
    i: int,
)
    requires
        state.wf(),
        state.completion_batches@.len() > 0,
        0 <= i < queue::committed_count(
            state.next_completion as int,
            state.completion_batches@[0].appends@.len(),
            committed_end,
        ),
    ensures
        ({
            let completed = queue::completed_of(state.completion_batches@[0].appends@[i]);
            &&& completed.receipt.seqno.record_index == state.next_completion + i
            &&& completed.receipt.seqno.record_index < committed_end
            &&& completed.watermark == state.next_completion + i + 1
            &&& completed.ticket == state.unresolved()[i].ticket
        }),
{
    let batch = state.completion_batches@[0].appends@;
    assert(state.pending() == batch + queue::flatten(state.completion_batches@.drop_first()));
    assert(state.unresolved()[i] == batch[i]);
    let end = state.unresolved().len() as int;
    assert(state.unresolved()[end - 1].seqno.record_index == state.next_completion + end - 1);
}

/// The records admitted so far are those resolved so far, followed by those
/// that are owed an outcome.
pub open spec fn accounted<T, S>(
    admitted: Seq<AdmittedAppend<T>>,
    resolved: Seq<AdmittedAppend<T>>,
    state: EngineState<T, S>,
) -> bool {
    admitted == resolved + state.unresolved()
}

/// The failures answer exactly these records, in order.
pub open spec fn answers<T>(
    failed: Seq<FailedAppend<T>>,
    records: Seq<AdmittedAppend<T>>,
) -> bool {
    &&& failed.len() == records.len()
    &&& forall|i: int| 0 <= i < records.len() ==> (#[trigger] failed[i]).append == records[i]
}

/// No record is lost, repeated or reordered: admitting one, dispatching some
/// and resolving the oldest all keep the account, and an engine that gives up,
/// answering what was left and the records `rest` that were still on their
/// way, has answered every admitted record once.
pub proof fn law_every_record_resolves_once<T, S>(
    admitted: Seq<AdmittedAppend<T>>,
    resolved: Seq<AdmittedAppend<T>>,
    state: EngineState<T, S>,
    after: EngineState<T, S>,
    append: AdmittedAppend<T>,
    n: int,
    rest: Seq<AdmittedAppend<T>>,
    failed: Seq<FailedAppend<T>>,
)
    requires
        accounted(admitted, resolved, state),
        0 <= n <= state.unresolved().len(),
    ensures
        after.unresolved() == state.unresolved().push(append) ==> accounted(
            admitted.push(append),
            resolved,
            after,
        ),
        after.unresolved() == state.unresolved() ==> accounted(admitted, resolved, after),
        after.unresolved() == state.unresolved().skip(n) ==> accounted(
            admitted,
            resolved + state.unresolved().take(n),
            after,
        ),
        answers(failed, state.unresolved() + rest) ==> admitted + rest == resolved
            + failed.map_values(|failure: FailedAppend<T>| failure.append),
{
    assert(admitted.push(append) =~= resolved + state.unresolved().push(append));
    assert(admitted =~= (resolved + state.unresolved().take(n)) + state.unresolved().skip(n));
    let answered = failed.map_values(|failure: FailedAppend<T>| failure.append);
    if answers(failed, state.unresolved() + rest) {
        assert(answered =~= state.unresolved() + rest);
        assert(admitted + rest =~= resolved + answered);
    }
}

} // verus!
