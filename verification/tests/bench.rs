use chorus::args::{
    auth_choice, check_zones, engine_config, payload_source, AuthChoice, DiskBenchArgs,
    PayloadSource, QuorumBenchArgs, ReadOnlyArgs, RecoveryArgs, ZonesError,
};
use chorus::bench::{sample_us, BenchMetrics};
use chorus::live::{changes, check_rows, key, model, valid_scratch, LogRow, LogRows};
use chorus::seqno::WalSeqNo;
use chorus::transaction::encode_transaction;
use chorus::time::Span;
use chorus::workload::{
    delivered, outstanding_cap, starts_empty, stayed_active, AppendWindow, ClosedLoop, OpenLoop,
    OpenLoopStep, WorkloadStats,
};

#[test]
fn benchmark_metrics_count_seals() {
    let mut metrics = BenchMetrics::new();
    let seals = "chorus.wal.seal.duration_seconds".to_string();
    metrics.register_histogram(&seals);

    assert_eq!(metrics.seal_count(), 0);
    metrics.record(&seals);
    metrics.record(&seals);

    assert_eq!(metrics.seal_count(), 2);
}

#[test]
fn metrics_are_kept_by_name() {
    let mut metrics = BenchMetrics::new();
    let a = "a".to_string();
    let b = "b".to_string();
    assert_eq!(metrics.counter(&a), 0);
    metrics.register_counter(&a);
    metrics.increment(&a, 5);
    metrics.register_counter(&a);
    metrics.increment(&b, 1);
    metrics.increment(&a, u64::MAX);
    assert_eq!((metrics.counter(&a), metrics.counter(&b)), (4, 1));
    assert_eq!(metrics.gauge(&a), None);
    metrics.register_gauge(&a);
    assert_eq!(metrics.gauge(&a), Some(0));
    metrics.set_gauge(&a, -3);
    metrics.register_gauge(&a);
    assert_eq!(metrics.gauge(&a), Some(-3));
    assert_eq!(metrics.histogram_samples(&a), 0);
}

#[test]
fn samples_stay_within_the_histogram() {
    assert_eq!(sample_us(0), 1);
    assert_eq!(sample_us(42), 42);
    assert_eq!(sample_us(600_000_000), 599_000_000);
    assert_eq!(sample_us(1u128 << 64), 0);
}

fn read_only() -> ReadOnlyArgs {
    ReadOnlyArgs {
        records: 4096,
        payload_bytes: 4096,
        pipeline_window: 64,
        poll_interval_ms: 100,
        timeout_seconds: 180,
        worker_threads: 4,
    }
}

#[test]
fn read_only_arguments_are_validated() {
    let args = read_only();
    assert!(args.validate().is_ok());
    assert_eq!(args.worker_threads(), 4);
    assert_eq!(args.active_segment_bytes(), Some(33_587_200));
    let zero = ReadOnlyArgs { records: 0, ..args };
    assert_eq!(
        zero.validate(),
        Err("all readonly benchmark counts and intervals must be positive")
    );
    let huge = ReadOnlyArgs { payload_bytes: usize::MAX, ..args };
    assert_eq!(
        huge.validate(),
        Err("readonly benchmark active segment size overflowed usize")
    );
    let config = args.engine_config(33_587_200);
    assert_eq!((config.queue_capacity, config.max_record_bytes), (512, 1_048_576));
    assert_eq!(config.max_active_segment_bytes, 33_587_200);
    assert!(config.repair_interval.is_none());
}

#[test]
fn recovery_arguments_size_the_segments() {
    let args = RecoveryArgs {
        populate_records: 50_000,
        target_sealed_segments: 8,
        replay_records: None,
        iterations: 5,
        payload_bytes: 4096,
        populate_window: 256,
        worker_threads: 4,
    };
    assert!(args.validate().is_ok());
    assert_eq!(args.worker_threads(), 4);
    assert_eq!(args.max_segment_bytes(), 5555 * 4100);
    assert_eq!((args.replayed(), args.checkpoint()), (50_000, 0));
    let partial = RecoveryArgs { replay_records: Some(100), ..args };
    assert_eq!((partial.replayed(), partial.checkpoint()), (100, 49_900));
    let more = RecoveryArgs { replay_records: Some(60_000), ..args };
    assert_eq!(more.checkpoint(), 0);
    let one = RecoveryArgs { target_sealed_segments: 0, ..args };
    assert_eq!(one.max_segment_bytes(), 410_000_000);
    let few = RecoveryArgs { target_sealed_segments: 90_000, ..args };
    assert_eq!(few.max_segment_bytes(), 4100);
    let none = RecoveryArgs { iterations: 0, ..args };
    assert_eq!(
        none.validate(),
        Err("--populate-records, --iterations, --payload-bytes, --populate-window, and --worker-threads must be positive")
    );
    let config = engine_config(4100);
    assert_eq!((config.max_segment_bytes, config.max_active_segment_bytes), (4100, 4_294_967_296));
    assert_eq!(engine_config(usize::MAX).max_active_segment_bytes, usize::MAX);
}

#[test]
fn program_arguments_are_validated() {
    assert_eq!(check_zones(3, 3), Ok(()));
    assert_eq!(check_zones(3, 1), Err(ZonesError::Unequal));
    assert_eq!(check_zones(2, 2), Err(ZonesError::Count));
    assert_eq!(payload_source(true, false), Ok(PayloadSource::Data));
    assert_eq!(payload_source(false, true), Ok(PayloadSource::File));
    assert_eq!(payload_source(false, false), Err("append requires --data or --file"));
    let quorum = QuorumBenchArgs {
        duration_seconds: 60,
        outstanding_appends: 128,
        payload_bytes: 4096,
        max_record_bytes: 1_048_576,
        pipeline_window: 32,
        max_inflight_bytes: 67_108_864,
        max_replica_lag_bytes: 67_108_864,
        lane_stall_timeout_ms: 5_000,
        queue_capacity: 256,
        segment_bytes: 268_435_456,
        worker_threads: 4,
    };
    assert!(quorum.validate().is_ok());
    let zero = QuorumBenchArgs { queue_capacity: 0, ..quorum };
    assert_eq!(
        zero.validate(),
        Err("duration and all size/concurrency counts must be positive")
    );
    let disk = DiskBenchArgs {
        duration_seconds: 60,
        pipeline_window: 32,
        payload_bytes: 4096,
        max_record_bytes: 1024,
        worker_threads: 4,
    };
    assert_eq!(
        disk.validate(),
        Err("--payload-bytes (4096) exceeds --max-record-bytes (1024)".to_string())
    );
    assert!(DiskBenchArgs { max_record_bytes: 4096, ..disk }.validate().is_ok());
    assert!(DiskBenchArgs { payload_bytes: 0, ..disk }.validate().is_err());
}

#[test]
fn open_loops_wait_at_their_cap_and_account_for_every_append() {
    assert_eq!(outstanding_cap(256, 32), 288);
    assert_eq!(outstanding_cap(usize::MAX, 1), usize::MAX);
    let mut run = OpenLoop::new(2);
    assert_eq!(run.stats, WorkloadStats::new());
    assert_eq!(run.next_seqno(7), Some(7));
    assert_eq!(run.due(), OpenLoopStep::Send);
    run.sent();
    run.sent();
    assert_eq!(run.next_seqno(7), Some(9));
    assert_eq!(run.next_seqno(u64::MAX), None);
    assert_eq!(run.due(), OpenLoopStep::AwaitCompletion);
    assert_eq!(run.stats.outstanding_cap_waits, 1);
    assert_eq!(run.after_completion(), OpenLoopStep::AwaitCompletion);
    run.completed();
    assert_eq!(run.after_completion(), OpenLoopStep::Send);
    run.timed_out();
    assert_eq!((run.stats.drain_timed_out, run.stats.undrained_appends), (true, 1));
    assert_eq!((run.stats.scheduled_appends, run.stats.completed_appends), (2, 1));
    let closed = WorkloadStats::closed(9);
    assert_eq!((closed.scheduled_appends, closed.completed_appends), (9, 9));
}

#[test]
fn windows_send_every_number_once() {
    let mut run = AppendWindow::new(10, 5, 2);
    let mut sent = Vec::new();
    while !run.finished() {
        while let Some(number) = run.send() {
            sent.push(number);
        }
        assert!(run.inflight <= 2);
        run.completed();
    }
    assert_eq!(sent, [10, 11, 12, 13, 14]);
    assert_eq!(delivered(4, 4), Ok(5));
    assert_eq!(starts_empty(WalSeqNo::zero()), Ok(()));
    assert_eq!(
        starts_empty(WalSeqNo::record(1)),
        Err("readonly benchmark requires an unused prefix")
    );
    assert_eq!(delivered(4, 6), Err("readonly follower returned 6, expected 4".to_string()));
    assert_eq!(stayed_active(0), Ok(()));
    assert_eq!(
        stayed_active(2),
        Err("readonly active-tail benchmark unexpectedly rotated 2 segments".to_string())
    );
}

#[test]
fn transactions_are_length_prefixed() {
    let operations: Vec<Vec<u8>> =
        vec![b"put customer/7 alice".to_vec(), b"update customer-index/7".to_vec()];
    let encoded = encode_transaction(&operations);
    assert_eq!(&encoded[..8], &[0, 0, 0, 2, 0, 0, 0, 20]);
    assert_eq!(&encoded[8..28], b"put customer/7 alice");
    assert_eq!(&encoded[28..32], &[0, 0, 0, 23]);
    assert_eq!(encoded.len(), 55);
    assert_eq!(encode_transaction(&Vec::new()), [0, 0, 0, 0]);
}

fn rows(n: u64, seq: u64) -> LogRows {
    LogRows {
        last_consumed_file: n,
        rows: changes(n)
            .into_iter()
            .map(|change| LogRow { seq, key: change.key, value: change.value })
            .collect(),
    }
}

#[test]
fn log_rows_must_be_the_whole_batch() {
    assert_eq!(key(7), b"key/007");
    assert_eq!(key(62), b"key/062");
    assert_eq!(key(1234), b"key/1234");
    assert_eq!(check_rows(rows(5, 9), 5, 8), Ok(9));
    let mut reordered = rows(5, 9);
    reordered.rows.reverse();
    assert_eq!(check_rows(reordered, 5, 8), Ok(9));
    assert_eq!(check_rows(rows(6, 9), 5, 8), Err("WAL gap: expected 5, got 6".to_string()));
    let mut partial = rows(5, 9);
    partial.rows.pop();
    assert_eq!(check_rows(partial, 5, 8), Err("partial atomic batch 5".to_string()));
    assert_eq!(check_rows(rows(5, 9), 5, 9), Err("invalid batch sequence 5".to_string()));
    let mut mixed = rows(5, 9);
    mixed.rows[2].seq = 10;
    assert_eq!(check_rows(mixed, 5, 8), Err("invalid batch sequence 5".to_string()));
    let mut other = rows(5, 9);
    other.rows[1].value = Some(vec![1]);
    assert_eq!(check_rows(other, 5, 8), Err("WAL contents differ in batch 5".to_string()));
}

#[test]
fn the_model_follows_the_batches() {
    let contained = model(100);
    assert_eq!(
        contained.get(b"last-batch").unwrap().as_ref().unwrap(),
        &100u64.to_be_bytes().to_vec()
    );
    let written = contained.get(&key(37)).unwrap().as_ref().unwrap();
    assert_eq!(written.len(), 16_384);
    assert_eq!(&written[..8], &100u64.to_be_bytes());
    assert!(written[8..].iter().all(|byte| *byte == 100));
    assert!(contained.get(&key(54)).is_none());
    assert!(model(100).same(&contained));
    assert!(!model(99).same(&contained));
    assert!(model(0).rows.is_empty());
    assert!(valid_scratch("chorus-experiments/slatedb-readers-20260904-a/"));
    for root in [
        "chorus-experiments/slatedb-readers-20260904-a",
        "chorus-experiments/slatedb-readers-20260904-../",
        "elsewhere/",
    ] {
        assert!(!valid_scratch(root));
    }
}

#[test]
fn closed_loops_keep_their_appends_outstanding() {
    let mut run = ClosedLoop::new(2);
    while run.fills() {
        run.sent();
    }
    assert_eq!(run.inflight, 2);
    assert!(run.completes(true));
    run.sent();
    assert!(!run.completes(false));
    assert!(!run.completes(false));
    assert_eq!(run.inflight, 0);
    assert_eq!(run.stats(), WorkloadStats::closed(3));
}

#[test]
fn the_quorum_benchmark_configures_its_engine() {
    let args = QuorumBenchArgs {
        duration_seconds: 60,
        outstanding_appends: 128,
        payload_bytes: 4096,
        max_record_bytes: 1_048_576,
        pipeline_window: 64,
        max_inflight_bytes: 67_108_864,
        max_replica_lag_bytes: 67_108_864,
        lane_stall_timeout_ms: 2_500,
        queue_capacity: 512,
        segment_bytes: 1 << 20,
        worker_threads: 4,
    };
    let config = args.engine_config();
    assert!(config.validate().is_ok());
    assert_eq!(config.queue_capacity, 512);
    assert_eq!(config.pipeline_window_records, 64);
    assert_eq!(config.max_segment_bytes, 1 << 20);
    assert_eq!(config.lane_stall_timeout, Span { nanos: 2_500_000_000 });
    assert_eq!(config.repair_interval, Some(Span::from_secs(300)));
    assert_eq!(auth_choice(true, true), AuthChoice::Anonymous);
    assert_eq!(auth_choice(false, true), AuthChoice::Token);
    assert_eq!(auth_choice(false, false), AuthChoice::Default);
}
