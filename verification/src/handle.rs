//! Admission of caller-numbered records, and the control handle's results.

use crate::capacity::ActiveSegmentCapacity;
use crate::config::WalEngineConfig;
use crate::engine::Engine;
use crate::error::Error;
use crate::queue::AdmittedAppend;
use crate::record;
use crate::record::{FRAME_PREFIX_BYTES, MAX_PAYLOAD_BYTES};
use crate::seqno::WalSeqNo;
use crate::time::Span;
use vstd::prelude::*;

verus! {

/// Starts the background append pipeline.
pub struct WalEngine;

/// Control plane for a running engine.
///
/// It has one owner, so the database has one linear admission point for its
/// caller-assigned sequence numbers.
pub struct WalHandle {
    /// The only sequence number that can be admitted next.
    pub next_seqno: u64,
    /// Configured per-record payload limit.
    pub max_record_bytes: usize,
    /// Configured budget of admitted, unresolved encoded bytes.
    pub max_inflight_bytes: usize,
    /// Configured hard ceiling of one active segment.
    pub max_active_segment_bytes: usize,
    /// Encoded bytes admitted over the engine's lifetime.
    pub total_admitted_bytes: u128,
    /// Configured graceful-shutdown deadline.
    pub shutdown_timeout: Span,
}

/// A record that passed every check and now waits for capacity.
#[derive(Clone, Copy, Debug, PartialEq, Eq, Structural)]
pub struct Admission {
    /// The record's sequence number.
    pub seqno: WalSeqNo,
    /// Bytes of application payload.
    pub payload_bytes: usize,
    /// Bytes of the encoded record.
    pub encoded_bytes: usize,
    /// Cumulative encoded admission boundary after this record.
    pub admission_end_bytes: u128,
    /// In-flight byte permits to acquire before the record is sent.
    pub permits: u32,
}

/// What a graceful shutdown came to.
#[derive(Clone, Copy, Debug, PartialEq, Eq, Structural)]
pub enum ShutdownOutcome {
    /// Every task was awaited within the deadline.
    Finished {
        /// The engine acknowledged its drain.
        acknowledged: bool,
        /// The engine task ended without a panic.
        engine_joined: bool,
        /// The provisioner task ended without a panic.
        provisioner_joined: bool,
        /// The maintenance task ended without a panic.
        maintenance_joined: bool,
    },
    /// The deadline passed first.
    DeadlineExceeded,
}

impl WalEngine {
    /// Starts an engine around an already recovered writer.
    ///
    /// `committed_record_end` is the writer's next record index,
    /// `active_segment_bytes` what its active segment already holds, and
    /// `seal_room` whether the manifest can still take that segment. A segment
    /// with committed bytes that could never be sealed is refused.
    pub fn start<T, S>(
        config: &WalEngineConfig,
        committed_record_end: u64,
        active_segment_bytes: usize,
        seal_room: bool,
        recovered_fold: Option<u64>,
    ) -> (started: Result<(Engine<T, S>, WalHandle), Error>)
        ensures
            match config.first_violation() {
                Some(reason) => started is Err && started->Err_0 == Error::InvalidConfig(reason),
                None => if active_segment_bytes != 0 && !seal_room {
                    started is Err && started->Err_0 == Error::SegmentDirectoryFull
                } else {
                    started matches Ok((engine, handle)) && engine.wf() && handle.in_step(engine)
                        && engine.state.queue@.len() == 0
                        && engine.state.completion_batches@.len() == 0
                        && engine.state.next_completion == committed_record_end
                        && engine.state.last_dispatched_admission_bytes == 0
                        && !engine.state.input_closed && engine.rotation == (match recovered_fold {
                        Some(end) => crate::rotation::Rotation::draining(end),
                        None => crate::rotation::Rotation::Idle,
                    }) && engine.rotation_rechecks_open && !engine.spare_requested
                        && engine.window == config.pipeline_window_records && engine.capacity
                        == (ActiveSegmentCapacity {
                        admission_start_bytes: 0,
                        existing_bytes: active_segment_bytes,
                        seal_room,
                    }) && handle == (WalHandle {
                        next_seqno: committed_record_end,
                        max_record_bytes: config.max_record_bytes,
                        max_inflight_bytes: config.max_inflight_bytes,
                        max_active_segment_bytes: config.max_active_segment_bytes,
                        total_admitted_bytes: 0,
                        shutdown_timeout: config.shutdown_timeout,
                    })
                },
            },
    {
        match config.validate() {
            Ok(()) => {},
            Err(error) => {
                return Err(error);
            },
        }
        if active_segment_bytes != 0 && !seal_room {
            return Err(Error::SegmentDirectoryFull);
        }
        let engine = Engine::new(
            committed_record_end,
            recovered_fold,
            active_segment_bytes,
            seal_room,
            config.pipeline_window_records,
        );
        let handle = WalHandle {
            next_seqno: committed_record_end,
            max_record_bytes: config.max_record_bytes,
            max_inflight_bytes: config.max_inflight_bytes,
            max_active_segment_bytes: config.max_active_segment_bytes,
            total_admitted_bytes: 0,
            shutdown_timeout: config.shutdown_timeout,
        };
        Ok((engine, handle))
    }
}

impl Admission {
    /// The record as the engine's queue takes it.
    pub fn into_append<T>(self, ticket: T) -> (append: AdmittedAppend<T>)
        ensures
            append == (AdmittedAppend {
                seqno: self.seqno,
                payload_bytes: self.payload_bytes,
                encoded_bytes: self.encoded_bytes,
                admission_end_bytes: self.admission_end_bytes,
                ticket,
            }),
    {
        AdmittedAppend {
            seqno: self.seqno,
            payload_bytes: self.payload_bytes,
            encoded_bytes: self.encoded_bytes,
            admission_end_bytes: self.admission_end_bytes,
            ticket,
        }
    }
}

impl WalHandle {
    /// The handle and an engine that has received every sent command agree on
    /// the next sequence number and on the admitted bytes.
    pub open spec fn in_step<T, S>(self, engine: Engine<T, S>) -> bool {
        &&& self.next_seqno == engine.state.next_admission
        &&& self.total_admitted_bytes == engine.state.admitted_bytes()
    }

    /// Encoded bytes charged to the active segment.
    pub open spec fn charged(self, capacity: ActiveSegmentCapacity) -> int {
        capacity.existing_bytes + (self.total_admitted_bytes - capacity.admission_start_bytes)
    }

    /// The conditions that refuse a record, in the order of checking, each
    /// with the error that it gives; `None` where the record is admitted.
    pub open spec fn refusal(
        self,
        closed: bool,
        capacity: ActiveSegmentCapacity,
        seqno: WalSeqNo,
        payload_bytes: usize,
        error: Error,
    ) -> bool {
        let encoded = payload_bytes + FRAME_PREFIX_BYTES;
        if closed {
            error == Error::Closed
        } else if seqno.record_index != self.next_seqno {
            error == (Error::OutOfOrder {
                expected: WalSeqNo { record_index: self.next_seqno },
                actual: seqno,
            })
        } else if seqno.record_index == u64::MAX {
            error == Error::SequenceExhausted
        } else if payload_bytes > self.max_record_bytes {
            error == (Error::RecordTooLarge { max: self.max_record_bytes, actual: payload_bytes })
        } else if payload_bytes > MAX_PAYLOAD_BYTES {
            error == (Error::RecordTooLarge { max: MAX_PAYLOAD_BYTES, actual: payload_bytes })
        } else if !capacity.seal_room {
            error == Error::SegmentDirectoryFull
        } else if self.total_admitted_bytes < capacity.admission_start_bytes {
            error matches Error::Internal(message) && message@
                == "active-segment admission boundary exceeds total admitted bytes"@
        } else if self.charged(capacity) + encoded > u128::MAX {
            error matches Error::Internal(message) && message@
                == "active-segment byte accounting overflowed"@
        } else if self.charged(capacity) + encoded > self.max_active_segment_bytes {
            error == (Error::ActiveSegmentFull {
                max: self.max_active_segment_bytes,
                current: if self.charged(capacity) <= usize::MAX {
                    self.charged(capacity) as usize
                } else {
                    usize::MAX
                },
                requested: encoded as usize,
            })
        } else if self.total_admitted_bytes + encoded > u128::MAX {
            error matches Error::Internal(message) && message@
                == "cumulative admission bytes overflowed"@
        } else {
            false
        }
    }

    /// Whether a record passes every check.
    pub open spec fn admits(
        self,
        closed: bool,
        capacity: ActiveSegmentCapacity,
        seqno: WalSeqNo,
        payload_bytes: usize,
    ) -> bool {
        let encoded = payload_bytes + FRAME_PREFIX_BYTES;
        &&& !closed
        &&& seqno.record_index == self.next_seqno
        &&& seqno.record_index < u64::MAX
        &&& payload_bytes <= self.max_record_bytes
        &&& payload_bytes <= MAX_PAYLOAD_BYTES
        &&& capacity.seal_room
        &&& capacity.admission_start_bytes <= self.total_admitted_bytes
        &&& self.charged(capacity) + encoded <= self.max_active_segment_bytes
        &&& self.total_admitted_bytes + encoded <= u128::MAX
    }

    /// The admission of a record that passes every check.
    pub open spec fn admission(self, seqno: WalSeqNo, payload_bytes: usize) -> Admission {
        Admission {
            seqno,
            payload_bytes,
            encoded_bytes: (payload_bytes + FRAME_PREFIX_BYTES) as usize,
            admission_end_bytes: (self.total_admitted_bytes + payload_bytes
                + FRAME_PREFIX_BYTES) as u128,
            permits: (payload_bytes + FRAME_PREFIX_BYTES) as u32,
        }
    }

    /// Decides whether one caller-numbered opaque record is admitted.
    ///
    /// The sequence number must be exactly the next one and the record must fit
    /// the configured limits. A manifest without a slot for the active segment
    /// and an active segment at its hard ceiling refuse the record without
    /// consuming its number: the same append can be retried. An admitted record
    /// still waits for byte permits and a queue slot; nothing is counted before
    /// [`WalHandle::finish_append`].
    pub fn enqueue_append(
        &self,
        closed: bool,
        capacity: ActiveSegmentCapacity,
        seqno: WalSeqNo,
        payload_bytes: usize,
    ) -> (result: Result<Admission, Error>)
        ensures
            match result {
                Ok(admission) => self.admits(closed, capacity, seqno, payload_bytes) && admission
                    == self.admission(seqno, payload_bytes),
                Err(error) => !self.admits(closed, capacity, seqno, payload_bytes)
                    && self.refusal(closed, capacity, seqno, payload_bytes, error),
            },
    {
        if closed {
            return Err(Error::Closed);
        }
        if seqno.record_index != self.next_seqno {
            return Err(
                Error::OutOfOrder { expected: WalSeqNo::record(self.next_seqno), actual: seqno },
            );
        }
        if seqno.record_index == u64::MAX {
            return Err(Error::SequenceExhausted);
        }
        if payload_bytes > self.max_record_bytes {
            return Err(Error::RecordTooLarge { max: self.max_record_bytes, actual: payload_bytes });
        }
        let encoded_bytes: usize = match record::encoded_len(payload_bytes) {
            Some(encoded) => encoded,
            None => {
                let max: usize = if self.max_record_bytes < MAX_PAYLOAD_BYTES {
                    self.max_record_bytes
                } else {
                    MAX_PAYLOAD_BYTES
                };
                return Err(Error::RecordTooLarge { max, actual: payload_bytes });
            },
        };
        if !capacity.seal_room {
            return Err(Error::SegmentDirectoryFull);
        }
        let admitted_here: u128 = match self.total_admitted_bytes.checked_sub(
            capacity.admission_start_bytes,
        ) {
            Some(bytes) => bytes,
            None => {
                return Err(
                    Error::Internal(
                        "active-segment admission boundary exceeds total admitted bytes".to_owned(),
                    ),
                );
            },
        };
        let current_active: u128 = match (capacity.existing_bytes as u128).checked_add(
            admitted_here,
        ) {
            Some(bytes) => bytes,
            None => {
                return Err(
                    Error::Internal("active-segment byte accounting overflowed".to_owned()),
                );
            },
        };
        let projected: u128 = match current_active.checked_add(encoded_bytes as u128) {
            Some(bytes) => bytes,
            None => {
                return Err(
                    Error::Internal("active-segment byte accounting overflowed".to_owned()),
                );
            },
        };
        if projected > self.max_active_segment_bytes as u128 {
            return Err(
                Error::ActiveSegmentFull {
                    max: self.max_active_segment_bytes,
                    current: if current_active <= usize::MAX as u128 {
                        current_active as usize
                    } else {
                        usize::MAX
                    },
                    requested: encoded_bytes,
                },
            );
        }
        let admission_end_bytes: u128 = match self.total_admitted_bytes.checked_add(
            encoded_bytes as u128,
        ) {
            Some(bytes) => bytes,
            None => {
                return Err(Error::Internal("cumulative admission bytes overflowed".to_owned()));
            },
        };
        Ok(
            Admission {
                seqno,
                payload_bytes,
                encoded_bytes,
                admission_end_bytes,
                permits: encoded_bytes as u32,
            },
        )
    }

    /// Counts an admitted record once the engine owns it, or reports that the
    /// engine closed while the record waited. A record that was not sent
    /// consumes nothing.
    pub fn finish_append(&mut self, admission: Admission, sent: bool) -> (result: Result<(), Error>)
        requires
            admission.seqno.record_index == old(self).next_seqno,
            admission.seqno.record_index < u64::MAX,
        ensures
            sent ==> result is Ok && *final(self) == (WalHandle {
                next_seqno: (old(self).next_seqno + 1) as u64,
                total_admitted_bytes: admission.admission_end_bytes,
                ..*old(self)
            }),
            !sent ==> result == Err::<(), Error>(Error::Closed) && *final(self) == *old(self),
    {
        if !sent {
            return Err(Error::Closed);
        }
        self.total_admitted_bytes = admission.admission_end_bytes;
        self.next_seqno = self.next_seqno + 1;
        Ok(())
    }

    /// Encoded bytes in flight while `available_permits` of the budget are
    /// free.
    pub fn inflight_bytes(&self, available_permits: usize) -> (bytes: usize)
        ensures
            bytes == if available_permits <= self.max_inflight_bytes {
                self.max_inflight_bytes - available_permits
            } else {
                0
            },
    {
        self.max_inflight_bytes.saturating_sub(available_permits)
    }

    /// The result of a graceful shutdown: success only if the engine drained
    /// and every owned task ended in time.
    pub fn shutdown(self, outcome: ShutdownOutcome) -> (result: Result<(), Error>)
        ensures
            match outcome {
                ShutdownOutcome::Finished {
                    acknowledged,
                    engine_joined,
                    provisioner_joined,
                    maintenance_joined,
                } => if acknowledged && engine_joined && provisioner_joined && maintenance_joined {
                    result is Ok
                } else {
                    result == Err::<(), Error>(Error::Closed)
                },
                ShutdownOutcome::DeadlineExceeded => result == Err::<(), Error>(
                    Error::ShutdownTimeout { timeout: self.shutdown_timeout },
                ),
            },
    {
        match outcome {
            ShutdownOutcome::Finished {
                acknowledged,
                engine_joined,
                provisioner_joined,
                maintenance_joined,
            } => if acknowledged && engine_joined && provisioner_joined && maintenance_joined {
                Ok(())
            } else {
                Err(Error::Closed)
            },
            ShutdownOutcome::DeadlineExceeded => Err(
                Error::ShutdownTimeout { timeout: self.shutdown_timeout },
            ),
        }
    }
}

/// A record is admitted only if the log is open, the record is the next one and
/// its payload is within the configured limit, and only if the bytes that the
/// active segment already held, those admitted to it since, and the record with
/// its four bytes of frame fit the hard ceiling together.
pub proof fn law_admitted_records_fit(
    handle: &WalHandle,
    closed: bool,
    capacity: ActiveSegmentCapacity,
    seqno: WalSeqNo,
    payload_bytes: usize,
    result: Result<Admission, Error>,
)
    requires
        call_ensures(
            WalHandle::enqueue_append,
            (handle, closed, capacity, seqno, payload_bytes),
            result,
        ),
    ensures
        result is Ok ==> {
            &&& !closed
            &&& seqno.record_index == handle.next_seqno
            &&& seqno.record_index != u64::MAX
            &&& payload_bytes <= handle.max_record_bytes
            &&& capacity.seal_room
            &&& capacity.admission_start_bytes <= handle.total_admitted_bytes
            &&& capacity.existing_bytes + (handle.total_admitted_bytes
                - capacity.admission_start_bytes) + payload_bytes + 4
                <= handle.max_active_segment_bytes
            &&& result->Ok_0.seqno == seqno
            &&& result->Ok_0.payload_bytes == payload_bytes
            &&& result->Ok_0.encoded_bytes == payload_bytes + 4
            &&& result->Ok_0.permits == payload_bytes + 4
            &&& result->Ok_0.admission_end_bytes == handle.total_admitted_bytes + payload_bytes + 4
        },
{
}

/// Nothing else refuses a record: one that is next in an open log, within the
/// payload limits and within what the active segment can still hold is admitted,
/// as long as its bytes can be counted.
pub proof fn law_fitting_records_are_admitted(
    handle: &WalHandle,
    closed: bool,
    capacity: ActiveSegmentCapacity,
    seqno: WalSeqNo,
    payload_bytes: usize,
    result: Result<Admission, Error>,
)
    requires
        call_ensures(
            WalHandle::enqueue_append,
            (handle, closed, capacity, seqno, payload_bytes),
            result,
        ),
        !closed,
        seqno.record_index == handle.next_seqno,
        seqno.record_index != u64::MAX,
        payload_bytes <= handle.max_record_bytes,
        payload_bytes + 4 <= u32::MAX,
        capacity.seal_room,
        capacity.admission_start_bytes <= handle.total_admitted_bytes,
        capacity.existing_bytes + (handle.total_admitted_bytes - capacity.admission_start_bytes)
            + payload_bytes + 4 <= handle.max_active_segment_bytes,
        handle.total_admitted_bytes + payload_bytes + 4 <= u128::MAX,
    ensures
        result is Ok,
{
}

/// A refusal names the first thing that is wrong with the record, with the
/// figures that its caller needs: a closed log before a wrong number, a wrong
/// number before a record that is too large, and that before a full directory
/// or a full segment.
pub proof fn law_refusals_say_what_is_wrong(
    handle: &WalHandle,
    closed: bool,
    capacity: ActiveSegmentCapacity,
    seqno: WalSeqNo,
    payload_bytes: usize,
    result: Result<Admission, Error>,
)
    requires
        call_ensures(
            WalHandle::enqueue_append,
            (handle, closed, capacity, seqno, payload_bytes),
            result,
        ),
        result is Err,
    ensures
        ({
            let error = result->Err_0;
            let held = capacity.existing_bytes + (handle.total_admitted_bytes
                - capacity.admission_start_bytes);
            let next = !closed && seqno.record_index == handle.next_seqno;
            let sized = payload_bytes <= handle.max_record_bytes && payload_bytes + 4 <= u32::MAX;
            &&& closed <==> error == Error::Closed
            &&& error is OutOfOrder <==> !closed && seqno.record_index != handle.next_seqno
            &&& error is OutOfOrder ==> error->OutOfOrder_expected.record_index == handle.next_seqno
                && error->OutOfOrder_actual == seqno
            &&& error is SequenceExhausted <==> next && handle.next_seqno == u64::MAX
            &&& error is RecordTooLarge <==> next && handle.next_seqno != u64::MAX && !sized
            &&& error is RecordTooLarge ==> error->RecordTooLarge_actual == payload_bytes
            &&& error is RecordTooLarge && payload_bytes > handle.max_record_bytes
                ==> error->RecordTooLarge_max == handle.max_record_bytes
            &&& error is SegmentDirectoryFull <==> next && handle.next_seqno != u64::MAX && sized
                && !capacity.seal_room
            &&& error is ActiveSegmentFull ==> {
                &&& next && sized && capacity.seal_room
                &&& held + payload_bytes + 4 > handle.max_active_segment_bytes
                &&& error->ActiveSegmentFull_max == handle.max_active_segment_bytes
                &&& held <= usize::MAX ==> error->ActiveSegmentFull_current == held
                &&& held > usize::MAX ==> error->ActiveSegmentFull_current == usize::MAX
                &&& error->ActiveSegmentFull_requested == payload_bytes + 4
            }
            &&& error is Internal ==> next && sized && capacity.seal_room && (
            handle.total_admitted_bytes < capacity.admission_start_bytes || held + payload_bytes + 4
                > u128::MAX || handle.total_admitted_bytes + payload_bytes + 4 > u128::MAX)
            &&& error is Closed || error is OutOfOrder || error is SequenceExhausted
                || error is RecordTooLarge || error is SegmentDirectoryFull
                || error is ActiveSegmentFull || error is Internal
        }),
{
}

/// A record counts once the engine owns it, with the number and the bytes that
/// its admission said, and not before: one that was not sent can be tried again
/// under the same number.
pub proof fn law_only_sent_records_count(
    admitting: &WalHandle,
    closed: bool,
    capacity: ActiveSegmentCapacity,
    seqno: WalSeqNo,
    payload_bytes: usize,
    admission: Admission,
    handle: &mut WalHandle,
    sent: bool,
    result: Result<(), Error>,
)
    requires
        call_ensures(
            WalHandle::enqueue_append,
            (admitting, closed, capacity, seqno, payload_bytes),
            Ok(admission),
        ),
        *old(handle) == *admitting,
        call_ensures(WalHandle::finish_append, (handle, admission, sent), result),
    ensures
        sent <==> result is Ok,
        !sent ==> result->Err_0 is Closed && *final(handle) == *old(handle),
        sent ==> {
            &&& final(handle).next_seqno == seqno.record_index + 1
            &&& final(handle).total_admitted_bytes == old(handle).total_admitted_bytes
                + payload_bytes + 4
        },
        final(handle).max_record_bytes == old(handle).max_record_bytes,
        final(handle).max_inflight_bytes == old(handle).max_inflight_bytes,
        final(handle).max_active_segment_bytes == old(handle).max_active_segment_bytes,
        final(handle).shutdown_timeout == old(handle).shutdown_timeout,
{
}

/// What is sent to the engine is the admitted record itself.
pub proof fn law_sent_records_are_the_admitted_ones<T>(
    admission: Admission,
    ticket: T,
    append: AdmittedAppend<T>,
)
    requires
        call_ensures(Admission::into_append::<T>, (admission, ticket), append),
    ensures
        append.seqno == admission.seqno,
        append.payload_bytes == admission.payload_bytes,
        append.encoded_bytes == admission.encoded_bytes,
        append.admission_end_bytes == admission.admission_end_bytes,
        append.ticket == ticket,
{
}

/// A log starts exactly if its configuration is valid and its active segment is
/// empty or can be sealed. It starts with nothing queued or dispatched, numbers
/// its records from the writer's next one on, and charges what the active
/// segment already holds; a fold that recovery left is taken up.
pub proof fn law_engine_starts_where_the_writer_stands<T, S>(
    config: &WalEngineConfig,
    committed_record_end: u64,
    active_segment_bytes: usize,
    seal_room: bool,
    recovered_fold: Option<u64>,
    started: Result<(Engine<T, S>, WalHandle), Error>,
    valid: Result<(), Error>,
)
    requires
        call_ensures(
            WalEngine::start::<T, S>,
            (config, committed_record_end, active_segment_bytes, seal_room, recovered_fold),
            started,
        ),
        call_ensures(WalEngineConfig::validate, (config,), valid),
    ensures
        started is Ok <==> valid is Ok && (active_segment_bytes == 0 || seal_room),
        valid is Err ==> started is Err && started->Err_0 == valid->Err_0,
        valid is Ok && active_segment_bytes != 0 && !seal_room ==> started is Err
            && started->Err_0 is SegmentDirectoryFull,
        started is Ok ==> {
            let (engine, handle) = started->Ok_0;
            &&& engine.state.queue@.len() == 0 && engine.state.completion_batches@.len() == 0
            &&& engine.state.pending_records == 0
            &&& engine.state.next_completion == committed_record_end
            &&& engine.state.next_admission == committed_record_end
            &&& handle.next_seqno == committed_record_end
            &&& handle.total_admitted_bytes == 0
            &&& engine.capacity.admission_start_bytes == 0
            &&& engine.capacity.existing_bytes == active_segment_bytes
            &&& engine.capacity.seal_room == seal_room
            &&& !engine.state.input_closed && engine.rotation_rechecks_open
                && !engine.spare_requested
            &&& engine.window == config.pipeline_window_records
            &&& handle.max_record_bytes == config.max_record_bytes
            &&& handle.max_inflight_bytes == config.max_inflight_bytes
            &&& handle.max_active_segment_bytes == config.max_active_segment_bytes
            &&& handle.shutdown_timeout == config.shutdown_timeout
            &&& recovered_fold is None ==> engine.rotation is Idle
            &&& recovered_fold is Some ==> {
                &&& engine.rotation is Draining
                &&& engine.rotation->end_record_index == recovered_fold->Some_0
                &&& engine.rotation->fold_attempts == 0
                &&& !engine.rotation->retry && !engine.rotation->fold_capacity_blocked
                    && !engine.rotation->successor_due
            }
        },
{
}

/// Bytes in flight and free permits make up the budget.
pub proof fn law_bytes_in_flight_and_free_make_the_budget(
    handle: &WalHandle,
    available_permits: usize,
    bytes: usize,
)
    requires
        call_ensures(WalHandle::inflight_bytes, (handle, available_permits), bytes),
    ensures
        available_permits <= handle.max_inflight_bytes ==> bytes + available_permits
            == handle.max_inflight_bytes,
        available_permits > handle.max_inflight_bytes ==> bytes == 0,
{
}

/// A shutdown succeeds exactly if the engine acknowledged its drain and every
/// task ended in time; a missed deadline says so, anything else says closed.
pub proof fn law_shutdown_succeeds_only_if_all_ended(
    handle: WalHandle,
    outcome: ShutdownOutcome,
    result: Result<(), Error>,
)
    requires
        call_ensures(WalHandle::shutdown, (handle, outcome), result),
    ensures
        result is Ok <==> outcome is Finished && outcome->acknowledged && outcome->engine_joined
            && outcome->provisioner_joined && outcome->maintenance_joined,
        outcome is DeadlineExceeded ==> result is Err && result->Err_0
            == (Error::ShutdownTimeout { timeout: handle.shutdown_timeout }),
        outcome is Finished && result is Err ==> result->Err_0 is Closed,
{
}

} // verus!
