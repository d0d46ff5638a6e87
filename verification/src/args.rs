//! Arguments of the programs: what is accepted, and what follows from them.

use crate::bench;
use crate::config::WalEngineConfig;
use crate::text;
use crate::time::Span;
use vstd::prelude::*;

verus! {

/// Why zones are not accepted.
#[derive(Clone, Copy, Debug, PartialEq, Eq, Structural)]
pub enum ZonesError {
    /// Endpoints and buckets do not list the same number of zones.
    Unequal,
    /// There are not one, three or five zones.
    Count,
}

/// Checks that endpoints and buckets name the same zones, one, three or five.
pub fn check_zones(endpoints: usize, buckets: usize) -> (result: Result<(), ZonesError>)
    ensures
        result == if endpoints != buckets {
            Err::<(), ZonesError>(ZonesError::Unequal)
        } else if endpoints != 1 && endpoints != 3 && endpoints != 5 {
            Err::<(), ZonesError>(ZonesError::Count)
        } else {
            Ok::<(), ZonesError>(())
        },
{
    if endpoints != buckets {
        return Err(ZonesError::Unequal);
    }
    if endpoints != 1 && endpoints != 3 && endpoints != 5 {
        return Err(ZonesError::Count);
    }
    Ok(())
}

/// Arguments of the quorum benchmark.
#[derive(Clone, Copy, Debug, PartialEq, Eq, Structural)]
pub struct QuorumBenchArgs {
    /// Length of the run.
    pub duration_seconds: u64,
    /// Appends outstanding in a closed loop.
    pub outstanding_appends: usize,
    /// Bytes of one record.
    pub payload_bytes: usize,
    /// Most bytes of a record.
    pub max_record_bytes: usize,
    /// Records in flight.
    pub pipeline_window: usize,
    /// Bytes in flight.
    pub max_inflight_bytes: usize,
    /// Bytes that a replica may lag behind.
    pub max_replica_lag_bytes: usize,
    /// Time without progress after which a lane is shed.
    pub lane_stall_timeout_ms: u64,
    /// Records waiting for dispatch.
    pub queue_capacity: usize,
    /// Target size of a segment.
    pub segment_bytes: usize,
    /// Threads of the runtime.
    pub worker_threads: usize,
}

impl QuorumBenchArgs {
    /// Whether nothing is zero.
    pub open spec fn positive(self) -> bool {
        self.duration_seconds > 0 && self.outstanding_appends > 0 && self.payload_bytes > 0
            && self.max_record_bytes > 0 && self.pipeline_window > 0 && self.max_inflight_bytes > 0
            && self.max_replica_lag_bytes > 0 && self.lane_stall_timeout_ms > 0
            && self.queue_capacity > 0 && self.segment_bytes > 0 && self.worker_threads > 0
    }

    /// Accepts positive arguments.
    pub fn validate(&self) -> (result: Result<(), &'static str>)
        ensures
            if self.positive() {
                result is Ok
            } else {
                result matches Err(reason) && reason@
                    == "duration and all size/concurrency counts must be positive"@
            },
    {
        if self.outstanding_appends == 0 || self.payload_bytes == 0 || self.duration_seconds == 0
            || self.max_record_bytes == 0 || self.pipeline_window == 0 || self.max_inflight_bytes
            == 0 || self.max_replica_lag_bytes == 0 || self.lane_stall_timeout_ms == 0
            || self.queue_capacity == 0 || self.segment_bytes == 0 || self.worker_threads == 0 {
            return Err("duration and all size/concurrency counts must be positive");
        }
        Ok(())
    }

    /// The configuration of the benchmark's engine.
    pub fn engine_config(&self) -> (config: WalEngineConfig)
        ensures
            config.queue_capacity == self.queue_capacity,
            config.max_record_bytes == self.max_record_bytes,
            config.pipeline_window_records == self.pipeline_window,
            config.max_inflight_bytes == self.max_inflight_bytes,
            config.max_replica_lag_bytes == self.max_replica_lag_bytes,
            config.lane_stall_timeout.nanos == self.lane_stall_timeout_ms * 1_000_000,
            config.max_segment_bytes == self.segment_bytes,
            config.max_active_segment_bytes == (if 4294967296 <= usize::MAX {
                4294967296
            } else {
                usize::MAX as int
            }),
            config.repair_interval matches Some(interval) && interval.nanos == 300_000_000_000,
            config.shutdown_timeout.nanos == 300_000_000_000,
    {
        let mut config = WalEngineConfig::default();
        config.queue_capacity = self.queue_capacity;
        config.max_record_bytes = self.max_record_bytes;
        config.pipeline_window_records = self.pipeline_window;
        config.max_inflight_bytes = self.max_inflight_bytes;
        config.max_replica_lag_bytes = self.max_replica_lag_bytes;
        config.lane_stall_timeout = Span::from_millis(self.lane_stall_timeout_ms);
        config.max_segment_bytes = self.segment_bytes;
        config.repair_interval = Some(Span::from_secs(300));
        config
    }
}

/// Where a program takes its credentials from.
#[derive(Clone, Copy, Debug, PartialEq, Eq, Structural)]
pub enum AuthChoice {
    /// Nowhere: the requests carry none.
    Anonymous,
    /// The token that was given.
    Token,
    /// The application's default credentials.
    Default,
}

/// Decides where the credentials come from. Anonymity wins over a token.
pub fn auth_choice(anonymous: bool, token: bool) -> (choice: AuthChoice)
    ensures
        choice == if anonymous {
            AuthChoice::Anonymous
        } else if token {
            AuthChoice::Token
        } else {
            AuthChoice::Default
        },
{
    if anonymous {
        AuthChoice::Anonymous
    } else if token {
        AuthChoice::Token
    } else {
        AuthChoice::Default
    }
}

/// Arguments of the disk benchmark.
#[derive(Clone, Copy, Debug, PartialEq, Eq, Structural)]
pub struct DiskBenchArgs {
    /// Length of the run.
    pub duration_seconds: u64,
    /// Durable appends outstanding.
    pub pipeline_window: usize,
    /// Bytes of one record.
    pub payload_bytes: usize,
    /// Most bytes of a record.
    pub max_record_bytes: usize,
    /// Threads of the runtime.
    pub worker_threads: usize,
}

impl DiskBenchArgs {
    /// Whether nothing is zero.
    pub open spec fn positive(self) -> bool {
        self.payload_bytes > 0 && self.duration_seconds > 0 && self.max_record_bytes > 0
            && self.pipeline_window > 0 && self.worker_threads > 0
    }

    /// Accepts positive arguments whose payload fits a record.
    pub fn validate(&self) -> (result: Result<(), String>)
        ensures
            if !self.positive() {
                result matches Err(reason) && reason@
                    == "duration and all size/concurrency counts must be positive"@
            } else if self.payload_bytes > self.max_record_bytes {
                result matches Err(reason) && reason@ == "--payload-bytes ("@ + text::decimal(
                    self.payload_bytes as nat,
                ) + ") exceeds --max-record-bytes ("@ + text::decimal(
                    self.max_record_bytes as nat,
                ) + ")"@
            } else {
                result is Ok
            },
    {
        if self.payload_bytes == 0 || self.duration_seconds == 0 || self.max_record_bytes == 0
            || self.pipeline_window == 0 || self.worker_threads == 0 {
            return Err("duration and all size/concurrency counts must be positive".to_owned());
        }
        if self.payload_bytes > self.max_record_bytes {
            let mut reason = "--payload-bytes (".to_owned();
            text::push_decimal(&mut reason, self.payload_bytes as u64);
            reason.append(") exceeds --max-record-bytes (");
            text::push_decimal(&mut reason, self.max_record_bytes as u64);
            reason.append(")");
            return Err(reason);
        }
        Ok(())
    }
}

/// Arguments of the read-only benchmark.
#[derive(Clone, Copy, Debug, PartialEq, Eq, Structural)]
pub struct ReadOnlyArgs {
    /// Number of records to append and deliver through the active segment.
    pub records: usize,
    /// Bytes of one record.
    pub payload_bytes: usize,
    /// Records in flight.
    pub pipeline_window: usize,
    /// Delay between polls of the active tail.
    pub poll_interval_ms: u64,
    /// Longest wait for the writer and for the follower.
    pub timeout_seconds: u64,
    /// Threads of the runtime.
    pub worker_threads: usize,
}

impl ReadOnlyArgs {
    /// Whether nothing is zero.
    pub open spec fn positive(self) -> bool {
        self.records > 0 && self.payload_bytes > 0 && self.pipeline_window > 0
            && self.poll_interval_ms > 0 && self.timeout_seconds > 0 && self.worker_threads > 0
    }

    /// Twice the encoded size of all records, which keeps them in one segment.
    pub open spec fn segment_size(self) -> int {
        (self.payload_bytes + bench::RECORD_FRAME_BYTES) * self.records * 2
    }

    /// Threads of the runtime.
    pub fn worker_threads(&self) -> (threads: usize)
        ensures
            threads == self.worker_threads,
    {
        self.worker_threads
    }

    /// The size of the active segment, if it fits.
    pub fn active_segment_bytes(&self) -> (bytes: Option<usize>)
        ensures
            match bytes {
                Some(size) => size == self.segment_size(),
                None => self.segment_size() > usize::MAX || self.payload_bytes
                    + bench::RECORD_FRAME_BYTES > usize::MAX,
            },
    {
        match self.payload_bytes.checked_add(bench::RECORD_FRAME_BYTES) {
            None => None,
            Some(encoded) => match encoded.checked_mul(self.records) {
                None => None,
                Some(total) => total.checked_mul(2),
            },
        }
    }

    /// Accepts positive arguments whose segment size fits.
    pub fn validate(&self) -> (result: Result<(), &'static str>)
        ensures
            if !self.positive() {
                result matches Err(reason) && reason@
                    == "all readonly benchmark counts and intervals must be positive"@
            } else if self.segment_size() > usize::MAX {
                result matches Err(reason) && reason@
                    == "readonly benchmark active segment size overflowed usize"@
            } else {
                result is Ok
            },
    {
        if self.records == 0 || self.payload_bytes == 0 || self.pipeline_window == 0
            || self.poll_interval_ms == 0 || self.timeout_seconds == 0 || self.worker_threads == 0 {
            return Err("all readonly benchmark counts and intervals must be positive");
        }
        proof {
            let encoded = self.payload_bytes + bench::RECORD_FRAME_BYTES;
            assert(encoded * self.records * 2 >= encoded) by (nonlinear_arith)
                requires
                    encoded > 0,
                    self.records > 0,
            ;
        }
        match self.active_segment_bytes() {
            None => Err("readonly benchmark active segment size overflowed usize"),
            Some(_) => Ok(()),
        }
    }

    /// The configuration of the writer: one segment takes all records.
    pub fn engine_config(&self, active_segment_bytes: usize) -> (config: WalEngineConfig)
        ensures
            config.queue_capacity == bench::saturated(self.pipeline_window * 8),
            config.max_record_bytes == if self.payload_bytes >= 1048576 {
                self.payload_bytes
            } else {
                1048576
            },
            config.pipeline_window_records == self.pipeline_window,
            config.max_inflight_bytes == 67108864,
            config.max_replica_lag_bytes == 67108864,
            config.lane_stall_timeout.nanos == 5_000_000_000,
            config.max_segment_bytes == active_segment_bytes,
            config.max_active_segment_bytes == active_segment_bytes,
            config.repair_interval is None,
            config.shutdown_timeout.nanos == 300_000_000_000,
    {
        let mut config = WalEngineConfig::default();
        config.queue_capacity = bench::saturating_product(self.pipeline_window, 8);
        config.max_record_bytes = bench::larger(self.payload_bytes, config.max_record_bytes);
        config.pipeline_window_records = self.pipeline_window;
        config.max_segment_bytes = active_segment_bytes;
        config.max_active_segment_bytes = active_segment_bytes;
        config.repair_interval = None;
        config
    }
}

/// Arguments of the recovery benchmark.
#[derive(Clone, Copy, Debug, PartialEq, Eq, Structural)]
pub struct RecoveryArgs {
    /// Records written into each iteration's log before recovery.
    pub populate_records: u64,
    /// Approximate number of sealed segments; zero disables rotation.
    pub target_sealed_segments: u64,
    /// Records to replay; without a number the whole log.
    pub replay_records: Option<u64>,
    /// Independent recovery passes.
    pub iterations: u64,
    /// Bytes of one record.
    pub payload_bytes: usize,
    /// Records in flight while the log is written.
    pub populate_window: usize,
    /// Threads of the runtime.
    pub worker_threads: usize,
}

impl RecoveryArgs {
    /// Whether nothing that counts is zero.
    pub open spec fn positive(self) -> bool {
        self.populate_records > 0 && self.iterations > 0 && self.payload_bytes > 0
            && self.populate_window > 0 && self.worker_threads > 0
    }

    /// Threads of the runtime.
    pub fn worker_threads(&self) -> (threads: usize)
        ensures
            threads == self.worker_threads,
    {
        self.worker_threads
    }

    /// Accepts positive arguments.
    pub fn validate(&self) -> (result: Result<(), &'static str>)
        ensures
            if self.positive() {
                result is Ok
            } else {
                result matches Err(reason) && reason@
                    == "--populate-records, --iterations, --payload-bytes, --populate-window, and --worker-threads must be positive"@
            },
    {
        if self.populate_records == 0 || self.iterations == 0 || self.payload_bytes == 0
            || self.populate_window == 0 || self.worker_threads == 0 {
            return Err(
                "--populate-records, --iterations, --payload-bytes, --populate-window, and --worker-threads must be positive",
            );
        }
        Ok(())
    }

    /// Records of one segment while the log is written.
    pub open spec fn per_segment(self) -> int {
        let share = self.populate_records as int / (self.target_sealed_segments + 1);
        if share < 1 {
            1
        } else {
            share
        }
    }

    /// The target size of a segment: so that about the wanted number is
    /// sealed, or so that none is.
    pub open spec fn segment_size(self) -> int {
        let encoded = self.payload_bytes + bench::RECORD_FRAME_BYTES;
        if self.target_sealed_segments == 0 {
            let wanted = bench::saturated(bench::saturated(self.populate_records * encoded) * 2);
            if wanted >= 268435456 {
                wanted
            } else {
                268435456
            }
        } else {
            bench::saturated(self.per_segment() * encoded)
        }
    }

    /// The target size of a segment.
    pub fn max_segment_bytes(&self) -> (bytes: usize)
        requires
            self.populate_records <= usize::MAX,
            self.target_sealed_segments < u64::MAX,
            self.payload_bytes + bench::RECORD_FRAME_BYTES <= usize::MAX,
        ensures
            bytes == self.segment_size(),
    {
        let encoded: usize = self.payload_bytes + bench::RECORD_FRAME_BYTES;
        if self.target_sealed_segments == 0 {
            let total: usize = bench::saturating_product(self.populate_records as usize, encoded);
            let wanted: usize = bench::saturating_product(total, 2);
            let default_size: usize = WalEngineConfig::default().max_segment_bytes;
            bench::larger(wanted, default_size)
        } else {
            let share: u64 = self.populate_records / (self.target_sealed_segments + 1);
            let records: u64 = if share < 1 {
                1
            } else {
                share
            };
            let bytes: usize = bench::saturating_product(records as usize, encoded);
            proof {
                assert(records * encoded >= encoded) by (nonlinear_arith)
                    requires
                        records >= 1,
                        encoded >= 0,
                ;
            }
            bench::larger(bytes, encoded)
        }
    }

    /// Records that are replayed.
    pub fn replayed(&self) -> (records: u64)
        ensures
            records == match self.replay_records {
                Some(wanted) => wanted,
                None => self.populate_records,
            },
    {
        match self.replay_records {
            Some(wanted) => wanted,
            None => self.populate_records,
        }
    }

    /// The checkpoint that recovery starts from.
    pub fn checkpoint(&self) -> (checkpoint: u64)
        ensures
            checkpoint == match self.replay_records {
                Some(wanted) => if wanted >= self.populate_records {
                    0
                } else {
                    self.populate_records - wanted
                },
                None => 0,
            },
    {
        let wanted: u64 = self.replayed();
        if wanted >= self.populate_records {
            0
        } else {
            self.populate_records - wanted
        }
    }
}

/// The configuration of a recovery benchmark's writer. The hard ceiling stays
/// above the rotation target, so that rotation is driven by the target.
pub fn engine_config(max_segment_bytes: usize) -> (config: WalEngineConfig)
    ensures
        config.queue_capacity == 256,
        config.max_record_bytes == 1048576,
        config.pipeline_window_records == 32,
        config.max_inflight_bytes == 67108864,
        config.max_replica_lag_bytes == 67108864,
        config.lane_stall_timeout.nanos == 5_000_000_000,
        config.max_segment_bytes == max_segment_bytes,
        ({
            let default_ceiling = if 4294967296 <= usize::MAX {
                4294967296int
            } else {
                usize::MAX as int
            };
            let wanted = bench::saturated(max_segment_bytes * 8);
            config.max_active_segment_bytes == if wanted >= default_ceiling {
                wanted
            } else {
                default_ceiling
            }
        }),
        config.repair_interval is None,
        config.shutdown_timeout.nanos == 300_000_000_000,
{
    let mut config = WalEngineConfig::default();
    config.max_segment_bytes = max_segment_bytes;
    let wanted: usize = bench::saturating_product(max_segment_bytes, 8);
    config.max_active_segment_bytes = bench::larger(wanted, config.max_active_segment_bytes);
    config.repair_interval = None;
    config
}

/// What an append takes its payload from.
#[derive(Clone, Copy, Debug, PartialEq, Eq, Structural)]
pub enum PayloadSource {
    /// The argument itself.
    Data,
    /// The file that it names.
    File,
}

/// Decides what an append takes its payload from.
pub fn payload_source(data: bool, file: bool) -> (result: Result<PayloadSource, &'static str>)
    requires
        !(data && file),
    ensures
        if data {
            result matches Ok(PayloadSource::Data)
        } else if file {
            result matches Ok(PayloadSource::File)
        } else {
            result matches Err(reason) && reason@ == "append requires --data or --file"@
        },
{
    if data {
        Ok(PayloadSource::Data)
    } else if file {
        Ok(PayloadSource::File)
    } else {
        Err("append requires --data or --file")
    }
}

/// Zones are accepted exactly if endpoints and buckets name as many, and that is
/// one, three or five.
pub proof fn law_zones_are_one_three_or_five(
    endpoints: usize,
    buckets: usize,
    result: Result<(), ZonesError>,
)
    requires
        call_ensures(check_zones, (endpoints, buckets), result),
    ensures
        result is Ok <==> endpoints == buckets && (endpoints == 1 || endpoints == 3 || endpoints
            == 5),
        result is Err && endpoints != buckets ==> result->Err_0 is Unequal,
        result is Err && endpoints == buckets ==> result->Err_0 is Count,
{
}

/// Anonymity wins over a token, and a token over the default credentials; a
/// payload comes from the argument or from the file that was given.
pub proof fn law_choices_follow_the_arguments(
    anonymous: bool,
    token: bool,
    choice: AuthChoice,
    data: bool,
    file: bool,
    source: Result<PayloadSource, &'static str>,
)
    requires
        call_ensures(auth_choice, (anonymous, token), choice),
        !(data && file),
        call_ensures(payload_source, (data, file), source),
    ensures
        choice is Anonymous <==> anonymous,
        choice is Token <==> !anonymous && token,
        source is Ok <==> data || file,
        source is Ok ==> (source->Ok_0 is Data <==> data),
{
}

/// The quorum benchmark accepts exactly arguments of which none is zero, and its
/// engine is configured by them.
pub proof fn law_quorum_arguments_configure_the_engine(
    args: &QuorumBenchArgs,
    result: Result<(), &'static str>,
    config: WalEngineConfig,
)
    requires
        call_ensures(QuorumBenchArgs::validate, (args,), result),
        call_ensures(QuorumBenchArgs::engine_config, (args,), config),
    ensures
        result is Err <==> args.duration_seconds == 0 || args.outstanding_appends == 0
            || args.payload_bytes == 0 || args.max_record_bytes == 0 || args.pipeline_window == 0
            || args.max_inflight_bytes == 0 || args.max_replica_lag_bytes == 0
            || args.lane_stall_timeout_ms == 0 || args.queue_capacity == 0 || args.segment_bytes
            == 0 || args.worker_threads == 0,
        config.queue_capacity == args.queue_capacity,
        config.max_record_bytes == args.max_record_bytes,
        config.pipeline_window_records == args.pipeline_window,
        config.max_inflight_bytes == args.max_inflight_bytes,
        config.max_replica_lag_bytes == args.max_replica_lag_bytes,
        config.lane_stall_timeout.nanos == args.lane_stall_timeout_ms * 1_000_000,
        config.max_segment_bytes == args.segment_bytes,
        config.repair_interval is Some,
{
}

/// The disk benchmark accepts exactly arguments of which none is zero and whose
/// payload fits a record.
pub proof fn law_disk_arguments_fit(args: &DiskBenchArgs, result: Result<(), String>)
    requires
        call_ensures(DiskBenchArgs::validate, (args,), result),
    ensures
        result is Ok <==> args.duration_seconds > 0 && args.pipeline_window > 0
            && args.worker_threads > 0 && 0 < args.payload_bytes <= args.max_record_bytes,
{
}

/// The read-only benchmark accepts exactly arguments of which none is zero and
/// whose records, framed, fit twice into one segment; its writer keeps them all
/// in that segment.
pub proof fn law_readonly_records_fit_one_segment(
    args: &ReadOnlyArgs,
    result: Result<(), &'static str>,
    bytes: Option<usize>,
    active: usize,
    config: WalEngineConfig,
    threads: usize,
)
    requires
        call_ensures(ReadOnlyArgs::validate, (args,), result),
        call_ensures(ReadOnlyArgs::active_segment_bytes, (args,), bytes),
        call_ensures(ReadOnlyArgs::engine_config, (args, active), config),
        call_ensures(ReadOnlyArgs::worker_threads, (args,), threads),
    ensures
        ({
            let wanted = (args.payload_bytes + 4) * args.records * 2;
            &&& result is Ok <==> args.records > 0 && args.payload_bytes > 0
                && args.pipeline_window > 0 && args.poll_interval_ms > 0 && args.timeout_seconds > 0
                && args.worker_threads > 0 && wanted <= usize::MAX
            &&& bytes is Some ==> bytes->Some_0 == wanted
            &&& bytes is None ==> wanted > usize::MAX || args.payload_bytes + 4 > usize::MAX
        }),
        config.max_segment_bytes == active,
        config.max_active_segment_bytes == active,
        config.pipeline_window_records == args.pipeline_window,
        config.max_record_bytes >= args.payload_bytes && config.max_record_bytes >= 1048576,
        config.max_record_bytes == args.payload_bytes || config.max_record_bytes == 1048576,
        args.pipeline_window * 8 <= usize::MAX ==> config.queue_capacity == args.pipeline_window
            * 8,
        config.repair_interval is None,
        threads == args.worker_threads,
{
}

/// The recovery benchmark accepts exactly arguments of which none that counts is
/// zero. It replays the wanted records, or all, and starts recovery where they
/// begin.
pub proof fn law_recovery_replays_the_wanted_records(
    args: &RecoveryArgs,
    result: Result<(), &'static str>,
    replayed: u64,
    checkpoint: u64,
    threads: usize,
)
    requires
        call_ensures(RecoveryArgs::validate, (args,), result),
        call_ensures(RecoveryArgs::replayed, (args,), replayed),
        call_ensures(RecoveryArgs::checkpoint, (args,), checkpoint),
        call_ensures(RecoveryArgs::worker_threads, (args,), threads),
    ensures
        result is Ok <==> args.populate_records > 0 && args.iterations > 0 && args.payload_bytes > 0
            && args.populate_window > 0 && args.worker_threads > 0,
        args.replay_records is Some ==> replayed == args.replay_records->Some_0,
        args.replay_records is None ==> replayed == args.populate_records,
        replayed <= args.populate_records ==> checkpoint + replayed == args.populate_records,
        replayed > args.populate_records ==> checkpoint == 0,
        threads == args.worker_threads,
{
}

/// Segments of a recovery benchmark take an equal share of the framed records,
/// at least one; without a wanted number they take all of them twice, so that
/// none is sealed.
pub proof fn law_recovery_segments_share_the_records(args: &RecoveryArgs, bytes: usize)
    requires
        args.populate_records <= usize::MAX,
        args.target_sealed_segments < u64::MAX,
        args.payload_bytes + 4 <= usize::MAX,
        call_ensures(RecoveryArgs::max_segment_bytes, (args,), bytes),
    ensures
        ({
            let encoded = args.payload_bytes + 4;
            let share = args.populate_records as int / (args.target_sealed_segments + 1);
            let wanted = args.populate_records * encoded * 2;
            &&& args.target_sealed_segments > 0 && share >= 1 && share * encoded <= usize::MAX
                ==> bytes == share * encoded
            &&& args.target_sealed_segments > 0 && share < 1 ==> bytes == encoded
            &&& args.target_sealed_segments == 0 && 268435456 <= wanted <= usize::MAX ==> bytes
                == wanted
            &&& args.target_sealed_segments == 0 && wanted < 268435456 ==> bytes == 268435456
        }),
{
    let encoded = args.payload_bytes + 4;
    let total = args.populate_records * encoded;
    assert(total >= 0) by (nonlinear_arith)
        requires
            total == args.populate_records * encoded,
            args.populate_records >= 0,
            encoded >= 0,
    ;
}

/// The writer of a recovery benchmark rotates at the wanted size, and its ceiling
/// stays above it.
pub proof fn law_recovery_rotates_below_the_ceiling(
    max_segment_bytes: usize,
    config: WalEngineConfig,
)
    requires
        call_ensures(engine_config, (max_segment_bytes,), config),
    ensures
        config.max_segment_bytes == max_segment_bytes,
        config.max_active_segment_bytes >= config.max_segment_bytes,
        max_segment_bytes * 8 <= usize::MAX ==> config.max_active_segment_bytes
            >= max_segment_bytes * 8,
        max_segment_bytes * 8 <= 4294967296 <= usize::MAX ==> config.max_active_segment_bytes
            == 4294967296,
        config.repair_interval is None,
        config.queue_capacity == 256,
        config.pipeline_window_records == 32,
{
}

} // verus!
