//! Capacity controls of the append pipeline.

use crate::error::Error;
use crate::record::{FRAME_PREFIX_BYTES, MAX_PAYLOAD_BYTES};
use crate::time::Span;
use vstd::prelude::*;

verus! {

/// Dispatched records allowed in flight by default.
pub const DEFAULT_PIPELINE_WINDOW_RECORDS: usize = 32;

/// Records allowed to wait for dispatch by default.
pub const DEFAULT_QUEUE_CAPACITY: usize = DEFAULT_PIPELINE_WINDOW_RECORDS * 8;

/// Capacity controls for the in-process transactional log pipeline.
#[derive(Clone, Debug)]
pub struct WalEngineConfig {
    /// Maximum records waiting to enter the dispatched pipeline: one combined
    /// bound across the handle-to-engine channel and the engine's own queue.
    pub queue_capacity: usize,
    /// Maximum application payload bytes accepted in one record.
    pub max_record_bytes: usize,
    /// Maximum dispatched but not yet logically committed records.
    pub pipeline_window_records: usize,
    /// Maximum encoded bytes admitted but not yet resolved.
    pub max_inflight_bytes: usize,
    /// Maximum unacknowledged encoded bytes retained for one replica lane.
    pub max_replica_lag_bytes: usize,
    /// Maximum interval in which a lane with retained writes may make no
    /// durable progress before it is shed.
    pub lane_stall_timeout: Span,
    /// Target encoded size for automatic segment rotation. It is checked
    /// between records, so a segment may exceed it by one encoded record.
    pub max_segment_bytes: usize,
    /// Hard encoded-byte ceiling for one active segment object.
    pub max_active_segment_bytes: usize,
    /// Interval between background maintenance passes; `None` disables them.
    pub repair_interval: Option<Span>,
    /// Maximum time graceful shutdown may take before tasks are aborted.
    pub shutdown_timeout: Span,
}

impl Default for WalEngineConfig {
    /// 256 queued and 32 dispatched records, 1 MiB records, 64 MiB in flight
    /// and of lag, 256 MiB segments under a ceiling of 4 GiB (or of the whole
    /// address space where that is less), five seconds of lane stall, and five
    /// minutes between repairs and for shutdown.
    fn default() -> (config: Self)
        ensures
            config.queue_capacity == 256,
            config.max_record_bytes == 1048576,
            config.pipeline_window_records == 32,
            config.max_inflight_bytes == 67108864,
            config.max_replica_lag_bytes == 67108864,
            config.lane_stall_timeout.nanos == 5_000_000_000,
            config.max_segment_bytes == 268435456,
            config.max_active_segment_bytes == if 4294967296 <= usize::MAX {
                4294967296int
            } else {
                usize::MAX as int
            },
            config.repair_interval == Some((Span { nanos: 300_000_000_000 })),
            config.shutdown_timeout.nanos == 300_000_000_000,
            config.first_violation() is None,
    {
        let ceiling: u64 = 4294967296;
        WalEngineConfig {
            queue_capacity: DEFAULT_QUEUE_CAPACITY,
            max_record_bytes: 1048576,
            pipeline_window_records: DEFAULT_PIPELINE_WINDOW_RECORDS,
            max_inflight_bytes: 67108864,
            max_replica_lag_bytes: 67108864,
            lane_stall_timeout: Span::from_secs(5),
            max_segment_bytes: 268435456,
            max_active_segment_bytes: if ceiling <= usize::MAX as u64 {
                ceiling as usize
            } else {
                usize::MAX
            },
            repair_interval: Some(Span::from_secs(300)),
            shutdown_timeout: Span::from_secs(300),
        }
    }
}

/// `tokio::sync::Semaphore::MAX_PERMITS`: the largest permit count that a
/// semaphore may be created with, which is an eighth of the address space.
#[verifier::external_body]
fn semaphore_max_permits() -> (permits: usize)
    ensures
        permits == usize::MAX / 8,
{
    tokio::sync::Semaphore::MAX_PERMITS
}

impl WalEngineConfig {
    /// The first limit, in the order of checking, that is invalid or does not
    /// fit the others; `None` for a usable configuration.
    pub open spec fn first_violation(self) -> Option<&'static str> {
        let encoded = self.max_record_bytes + FRAME_PREFIX_BYTES;
        if self.queue_capacity == 0 {
            Some("queue_capacity must be nonzero")
        } else if self.max_record_bytes == 0 {
            Some("max_record_bytes must be nonzero")
        } else if self.max_record_bytes > MAX_PAYLOAD_BYTES {
            Some("max_record_bytes exceeds the record format limit")
        } else if self.pipeline_window_records == 0 {
            Some("pipeline_window_records must be nonzero")
        } else if self.max_inflight_bytes == 0 {
            Some("max_inflight_bytes must be nonzero")
        } else if self.max_replica_lag_bytes == 0 {
            Some("max_replica_lag_bytes must be nonzero")
        } else if encoded > usize::MAX {
            Some("max_record_bytes is too large")
        } else if encoded > self.max_inflight_bytes {
            Some("max_inflight_bytes must fit one maximum-size encoded record")
        } else if self.max_replica_lag_bytes < self.max_inflight_bytes {
            Some("max_replica_lag_bytes must be at least max_inflight_bytes")
        } else if self.lane_stall_timeout.nanos == 0 {
            Some("lane_stall_timeout must be nonzero")
        } else if self.max_inflight_bytes > usize::MAX / 8 {
            Some("max_inflight_bytes exceeds the semaphore limit")
        } else if self.max_segment_bytes == 0 {
            Some("max_segment_bytes must be nonzero")
        } else if self.max_active_segment_bytes == 0 {
            Some("max_active_segment_bytes must be nonzero")
        } else if self.max_active_segment_bytes < encoded {
            Some("max_active_segment_bytes must fit one maximum-size encoded record")
        } else if self.max_active_segment_bytes < self.max_segment_bytes {
            Some("max_active_segment_bytes must be at least max_segment_bytes")
        } else if self.repair_interval matches Some(interval) && interval.nanos == 0 {
            Some("repair_interval must be nonzero")
        } else if self.shutdown_timeout.nanos == 0 {
            Some("shutdown_timeout must be nonzero")
        } else {
            None
        }
    }

    /// Checks that every limit is nonzero and that the limits are consistent:
    /// byte budgets fit a maximum encoded record, replica lag covers the
    /// in-flight budget, and the hard ceiling covers the rotation target.
    pub fn validate(&self) -> (result: Result<(), Error>)
        ensures
            match self.first_violation() {
                Some(reason) => result == Err::<(), Error>(Error::InvalidConfig(reason)),
                None => result is Ok,
            },
    {
        if self.queue_capacity == 0 {
            return Err(Error::InvalidConfig("queue_capacity must be nonzero"));
        }
        if self.max_record_bytes == 0 {
            return Err(Error::InvalidConfig("max_record_bytes must be nonzero"));
        }
        if self.max_record_bytes > MAX_PAYLOAD_BYTES {
            return Err(Error::InvalidConfig("max_record_bytes exceeds the record format limit"));
        }
        if self.pipeline_window_records == 0 {
            return Err(Error::InvalidConfig("pipeline_window_records must be nonzero"));
        }
        if self.max_inflight_bytes == 0 {
            return Err(Error::InvalidConfig("max_inflight_bytes must be nonzero"));
        }
        if self.max_replica_lag_bytes == 0 {
            return Err(Error::InvalidConfig("max_replica_lag_bytes must be nonzero"));
        }
        let max_encoded_record: usize = match self.max_record_bytes.checked_add(
            FRAME_PREFIX_BYTES,
        ) {
            Some(encoded) => encoded,
            None => return Err(Error::InvalidConfig("max_record_bytes is too large")),
        };
        if max_encoded_record > self.max_inflight_bytes {
            return Err(
                Error::InvalidConfig("max_inflight_bytes must fit one maximum-size encoded record"),
            );
        }
        if self.max_replica_lag_bytes < self.max_inflight_bytes {
            return Err(
                Error::InvalidConfig("max_replica_lag_bytes must be at least max_inflight_bytes"),
            );
        }
        if self.lane_stall_timeout.is_zero() {
            return Err(Error::InvalidConfig("lane_stall_timeout must be nonzero"));
        }
        if self.max_inflight_bytes > semaphore_max_permits() {
            return Err(Error::InvalidConfig("max_inflight_bytes exceeds the semaphore limit"));
        }
        if self.max_segment_bytes == 0 {
            return Err(Error::InvalidConfig("max_segment_bytes must be nonzero"));
        }
        if self.max_active_segment_bytes == 0 {
            return Err(Error::InvalidConfig("max_active_segment_bytes must be nonzero"));
        }
        if self.max_active_segment_bytes < max_encoded_record {
            return Err(
                Error::InvalidConfig(
                    "max_active_segment_bytes must fit one maximum-size encoded record",
                ),
            );
        }
        if self.max_active_segment_bytes < self.max_segment_bytes {
            return Err(
                Error::InvalidConfig("max_active_segment_bytes must be at least max_segment_bytes"),
            );
        }
        if let Some(interval) = self.repair_interval {
            if interval.is_zero() {
                return Err(Error::InvalidConfig("repair_interval must be nonzero"));
            }
        }
        if self.shutdown_timeout.is_zero() {
            return Err(Error::InvalidConfig("shutdown_timeout must be nonzero"));
        }
        Ok(())
    }
}

/// A configuration is valid exactly if every limit is nonzero and the limits fit
/// each other: a record of the largest size, with its four bytes of frame, fits
/// the format, the budget in flight and the hard ceiling; the lag covers the
/// budget in flight; and the ceiling covers the rotation target.
pub proof fn law_valid_limits_fit_each_other(config: &WalEngineConfig, result: Result<(), Error>)
    requires
        call_ensures(WalEngineConfig::validate, (config,), result),
    ensures
        result is Ok <==> {
            &&& config.queue_capacity > 0
            &&& config.pipeline_window_records > 0
            &&& config.max_record_bytes > 0
            &&& config.max_segment_bytes > 0
            &&& config.lane_stall_timeout.nanos > 0
            &&& config.shutdown_timeout.nanos > 0
            &&& config.repair_interval is None || config.repair_interval->Some_0.nanos > 0
            &&& config.max_record_bytes + 4 <= u32::MAX
            &&& config.max_record_bytes + 4 <= config.max_inflight_bytes
            &&& config.max_inflight_bytes <= config.max_replica_lag_bytes
            &&& config.max_inflight_bytes <= usize::MAX / 8
            &&& config.max_record_bytes + 4 <= config.max_active_segment_bytes
            &&& config.max_segment_bytes <= config.max_active_segment_bytes
        },
        result is Err ==> result->Err_0 is InvalidConfig,
{
}

/// The reason that a configuration is refused for is true of it.
pub proof fn law_refused_limit_is_wrong(config: &WalEngineConfig, result: Result<(), Error>)
    requires
        call_ensures(WalEngineConfig::validate, (config,), result),
        result is Err,
    ensures
        ({
            let reason = result->Err_0->InvalidConfig_0;
            let encoded = config.max_record_bytes + 4;
            ||| reason == "queue_capacity must be nonzero" && config.queue_capacity == 0
            ||| reason == "max_record_bytes must be nonzero" && config.max_record_bytes == 0
            ||| reason == "max_record_bytes exceeds the record format limit" && encoded > u32::MAX
            ||| reason == "pipeline_window_records must be nonzero"
                && config.pipeline_window_records == 0
            ||| reason == "max_inflight_bytes must be nonzero" && config.max_inflight_bytes == 0
            ||| reason == "max_replica_lag_bytes must be nonzero" && config.max_replica_lag_bytes
                == 0
            ||| reason == "max_record_bytes is too large" && encoded > usize::MAX
            ||| reason == "max_inflight_bytes must fit one maximum-size encoded record" && encoded
                > config.max_inflight_bytes
            ||| reason == "max_replica_lag_bytes must be at least max_inflight_bytes"
                && config.max_replica_lag_bytes < config.max_inflight_bytes
            ||| reason == "lane_stall_timeout must be nonzero" && config.lane_stall_timeout.nanos
                == 0
            ||| reason == "max_inflight_bytes exceeds the semaphore limit"
                && config.max_inflight_bytes > usize::MAX / 8
            ||| reason == "max_segment_bytes must be nonzero" && config.max_segment_bytes == 0
            ||| reason == "max_active_segment_bytes must be nonzero"
                && config.max_active_segment_bytes == 0
            ||| reason == "max_active_segment_bytes must fit one maximum-size encoded record"
                && config.max_active_segment_bytes < encoded
            ||| reason == "max_active_segment_bytes must be at least max_segment_bytes"
                && config.max_active_segment_bytes < config.max_segment_bytes
            ||| reason == "repair_interval must be nonzero" && config.repair_interval is Some
                && config.repair_interval->Some_0.nanos == 0
            ||| reason == "shutdown_timeout must be nonzero" && config.shutdown_timeout.nanos == 0
        }),
{
}

} // verus!
