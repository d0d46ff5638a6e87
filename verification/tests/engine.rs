use chorus::capacity::ActiveSegmentCapacity;
use chorus::config::WalEngineConfig;
use chorus::engine::{Engine, ProvisionFailure, ProvisionPlan, SealHandoff, SwapResult};
use chorus::error::Error;
use chorus::handle::{ShutdownOutcome, WalEngine, WalHandle};
use chorus::permits::Permits;
use chorus::queue::{Command, CompletionNext};
use chorus::record::encoded_len;
use chorus::rotation::Rotation;
use chorus::seqno::WalSeqNo;
use chorus::tasks::completion_result;
use chorus::time::Span;
use chorus::turn::{stage_after_front, stage_after_swap, Action, Stage, WriterFacts};

type TestEngine = Engine<u32, &'static str>;

fn start(config: &WalEngineConfig) -> Result<(TestEngine, WalHandle), Error> {
    WalEngine::start(config, 0, 0, true, None)
}

fn append(engine: &mut TestEngine, handle: &mut WalHandle, ticket: u32, bytes: usize) {
    let seqno = WalSeqNo::record(handle.next_seqno);
    let admission = handle.enqueue_append(false, engine.capacity, seqno, bytes).unwrap();
    engine.receive(Some(Command::Append(admission.into_append(ticket))));
    handle.finish_append(admission, true).unwrap();
}

fn idle() -> WriterFacts {
    WriterFacts {
        unregistered_spare_ready: false,
        spare_wanted: false,
        spare_ready: false,
        swap_boundary_ready: false,
    }
}

fn rejected(config: WalEngineConfig) -> &'static str {
    match start(&config) {
        Err(Error::InvalidConfig(reason)) => reason,
        _ => panic!("the configuration was accepted"),
    }
}

#[test]
fn engine_configuration_is_validated_without_panicking() {
    let default = WalEngineConfig::default();
    assert_eq!(
        rejected(WalEngineConfig { max_segment_bytes: 0, ..default.clone() }),
        "max_segment_bytes must be nonzero"
    );
    assert_eq!(
        rejected(WalEngineConfig { max_active_segment_bytes: 0, ..default.clone() }),
        "max_active_segment_bytes must be nonzero"
    );
    assert_eq!(
        rejected(WalEngineConfig {
            max_record_bytes: 1,
            max_inflight_bytes: 5,
            max_replica_lag_bytes: 5,
            max_segment_bytes: 6,
            max_active_segment_bytes: 5,
            ..default.clone()
        }),
        "max_active_segment_bytes must be at least max_segment_bytes"
    );
    assert_eq!(
        rejected(WalEngineConfig { repair_interval: Some(Span::from_secs(0)), ..default.clone() }),
        "repair_interval must be nonzero"
    );
    assert_eq!(
        rejected(WalEngineConfig { lane_stall_timeout: Span::from_secs(0), ..default.clone() }),
        "lane_stall_timeout must be nonzero"
    );
    assert_eq!(
        rejected(WalEngineConfig { shutdown_timeout: Span::from_secs(0), ..default.clone() }),
        "shutdown_timeout must be nonzero"
    );
    assert_eq!(
        rejected(WalEngineConfig {
            max_record_bytes: 1024,
            max_inflight_bytes: 1027,
            ..default.clone()
        }),
        "max_inflight_bytes must fit one maximum-size encoded record"
    );
    assert_eq!(
        rejected(WalEngineConfig {
            max_record_bytes: 1024,
            max_inflight_bytes: 2048,
            max_replica_lag_bytes: 1024,
            ..default.clone()
        }),
        "max_replica_lag_bytes must be at least max_inflight_bytes"
    );
    assert_eq!(
        rejected(WalEngineConfig {
            max_inflight_bytes: tokio::sync::Semaphore::MAX_PERMITS + 1,
            max_replica_lag_bytes: usize::MAX,
            ..default.clone()
        }),
        "max_inflight_bytes exceeds the semaphore limit"
    );
    assert!(default.validate().is_ok());
}

#[test]
fn appends_admit_in_order_and_refill_the_pipeline() {
    let config = WalEngineConfig {
        max_record_bytes: 64 * 1024,
        pipeline_window_records: 8,
        ..WalEngineConfig::default()
    };
    let (mut engine, mut handle) = start(&config).unwrap();
    assert!(matches!(
        handle.enqueue_append(false, engine.capacity, WalSeqNo::record(1), 12),
        Err(Error::OutOfOrder {
            expected: WalSeqNo { record_index: 0 },
            actual: WalSeqNo { record_index: 1 },
        })
    ));
    assert!(matches!(
        handle.enqueue_append(false, engine.capacity, WalSeqNo::zero(), 64 * 1024 + 1),
        Err(Error::RecordTooLarge { max: 65536, actual: 65537 })
    ));
    append(&mut engine, &mut handle, 0, 21);
    assert!(matches!(
        handle.enqueue_append(false, engine.capacity, WalSeqNo::zero(), 9),
        Err(Error::OutOfOrder { .. })
    ));
    for ticket in 1..64 {
        append(&mut engine, &mut handle, ticket, 13);
    }

    let mut next = 0u64;
    while next < 64 {
        let (action, _) = engine.next_action(Stage::Dispatch, idle());
        assert_eq!(action, Action::Dispatch(8));
        let report = engine.dispatched(8, next, next + 8, false).unwrap();
        assert_eq!(report.pending_records, 8);
        assert!(!report.refill);
        let (action, _) = engine.next_action(Stage::Dispatch, idle());
        assert_eq!(action, Action::Wait);
        assert!(engine.wakes().commits);
        let pass = engine.complete_front(next + 8, None, false);
        assert!(matches!(pass.next, CompletionNext::NextBatch));
        for done in pass.completed {
            assert_eq!(done.receipt.seqno, WalSeqNo::record(next));
            assert_eq!(done.receipt.next_seqno(), WalSeqNo::record(next + 1));
            assert_eq!(done.watermark, next + 1);
            assert_eq!(done.ticket as u64, next);
            next += 1;
        }
    }
    assert_eq!(engine.state.next_completion, 64);
}

#[test]
fn records_complete_in_order_up_to_the_committed_end() {
    let (mut engine, mut handle) = start(&WalEngineConfig::default()).unwrap();
    for ticket in 0..3 {
        append(&mut engine, &mut handle, ticket, 10);
    }
    engine.dispatched(3, 0, 3, false).unwrap();
    let pass = engine.complete_front(2, None, true);
    assert_eq!(pass.completed.len(), 2);
    assert!(matches!(pass.next, CompletionNext::Wait));
    assert_eq!(stage_after_front(&pass.next), Some(Stage::Provision));
    assert_eq!(engine.rotation, Rotation::Due);
    let pass = engine.complete_front(2, Some(Error::NoQuorum), false);
    assert!(pass.completed.is_empty());
    assert!(matches!(pass.next, CompletionNext::Failed(Error::NoQuorum)));
    assert_eq!(stage_after_front(&pass.next), None);
    let failures = engine.state.poison(Some(Error::NoQuorum), Vec::new());
    assert_eq!(failures.appends.len(), 1);
    assert_eq!(failures.appends[0].append.ticket, 2);
    assert!(matches!(failures.appends[0].error, Error::NoQuorum));
}

#[test]
fn poison_fails_everything_behind_the_failed_record() {
    let (mut engine, mut handle) = start(&WalEngineConfig {
        pipeline_window_records: 2,
        ..WalEngineConfig::default()
    })
    .unwrap();
    for ticket in 0..4 {
        append(&mut engine, &mut handle, ticket, 1);
    }
    engine.dispatched(2, 0, 2, false).unwrap();
    let failures = engine.state.poison(
        Some(Error::NoQuorum),
        vec![Command::Shutdown { response: "stop" }],
    );
    let errors: Vec<(u32, bool)> = failures
        .appends
        .iter()
        .map(|failed| (failed.append.ticket, matches!(failed.error, Error::Poisoned)))
        .collect();
    assert_eq!(errors, vec![(0, false), (1, true), (2, true), (3, true)]);
    assert_eq!(failures.responses, vec!["stop"]);
}

#[test]
fn a_writer_that_numbers_differently_is_an_internal_failure() {
    let (mut engine, mut handle) = start(&WalEngineConfig::default()).unwrap();
    append(&mut engine, &mut handle, 0, 1);
    append(&mut engine, &mut handle, 1, 1);
    assert!(matches!(
        engine.dispatched(2, 1, 3, false),
        Err(Error::Internal(message))
            if message == "WAL assigned records 1..3, caller admitted 0..2"
    ));
    let failures = engine.state.fail_queued(Vec::new(), Error::Closed);
    assert_eq!(failures.appends.len(), 2);
}

#[test]
fn the_active_segment_ceiling_refuses_without_consuming_a_number() {
    let config = WalEngineConfig {
        max_record_bytes: 1,
        max_inflight_bytes: 5,
        max_replica_lag_bytes: 5,
        max_segment_bytes: 1,
        max_active_segment_bytes: 5,
        repair_interval: None,
        ..WalEngineConfig::default()
    };
    let (mut engine, mut handle) = start(&config).unwrap();
    append(&mut engine, &mut handle, 0, 1);
    assert!(matches!(
        handle.enqueue_append(false, engine.capacity, WalSeqNo::record(1), 1),
        Err(Error::ActiveSegmentFull { max: 5, current: 5, requested: 5 })
    ));
    assert_eq!(handle.next_seqno, 1);
    engine.dispatched(1, 0, 1, true).unwrap();
    engine.complete_front(1, None, true);
    assert_eq!(engine.rotation, Rotation::Due);
    assert_eq!(engine.next_batch(), 0);
    let facts = WriterFacts { spare_ready: true, swap_boundary_ready: true, ..idle() };
    assert_eq!(engine.next_action(Stage::Complete, facts), (Action::BeginSwap, Stage::Stop));
    let swap = SwapResult::Swapped { end_record_index: 0 };
    engine.swapped(swap, 0, true);
    assert_eq!(stage_after_swap(swap), Stage::Complete);
    assert_eq!(stage_after_swap(SwapResult::NotNeeded), Stage::Stop);
    append(&mut engine, &mut handle, 1, 1);
    assert_eq!(engine.capacity.admission_start_bytes, 5);
    assert!(engine.next_batch() == 1);
}

#[test]
fn admission_needs_room_to_seal_the_active_segment() {
    let started: Result<(TestEngine, WalHandle), Error> =
        WalEngine::start(&WalEngineConfig::default(), 3, 10, false, None);
    assert!(matches!(started, Err(Error::SegmentDirectoryFull)));
    let (mut engine, handle): (TestEngine, WalHandle) =
        WalEngine::start(&WalEngineConfig::default(), 3, 0, false, None).unwrap();
    let refused = handle.enqueue_append(false, engine.capacity, WalSeqNo::record(3), 6);
    assert!(matches!(refused, Err(Error::SegmentDirectoryFull)));
    engine.rechecked(false, true);
    assert!(handle.enqueue_append(false, engine.capacity, WalSeqNo::record(3), 4).is_ok());
    assert!(matches!(
        handle.enqueue_append(true, engine.capacity, WalSeqNo::record(3), 4),
        Err(Error::Closed)
    ));
    assert_eq!(handle.inflight_bytes(67108860), 4);
    assert_eq!(handle.inflight_bytes(usize::MAX), 0);
}

#[test]
fn admission_errors_cover_exhaustion_and_accounting() {
    let (engine, handle): (TestEngine, WalHandle) =
        WalEngine::start(&WalEngineConfig::default(), u64::MAX, 0, true, None).unwrap();
    assert!(matches!(
        handle.enqueue_append(false, engine.capacity, WalSeqNo::record(u64::MAX), 1),
        Err(Error::SequenceExhausted)
    ));
    let (_, mut behind): (TestEngine, WalHandle) =
        WalEngine::start(&WalEngineConfig::default(), 0, 0, true, None).unwrap();
    let ahead = ActiveSegmentCapacity {
        admission_start_bytes: 7,
        existing_bytes: 0,
        seal_room: true,
    };
    assert!(matches!(
        behind.enqueue_append(false, ahead, WalSeqNo::zero(), 1),
        Err(Error::Internal(message))
            if message == "active-segment admission boundary exceeds total admitted bytes"
    ));
    let admission = behind
        .enqueue_append(false, ActiveSegmentCapacity { admission_start_bytes: 0, ..ahead },
            WalSeqNo::zero(), 1)
        .unwrap();
    assert_eq!((admission.encoded_bytes, admission.permits), (5, 5));
    assert!(matches!(behind.finish_append(admission, false), Err(Error::Closed)));
    assert_eq!(behind.next_seqno, 0);
    assert_eq!(encoded_len(0), Some(4));
    assert_eq!(encoded_len(4294967292), None);
}

#[test]
fn rotation_folds_then_seals_and_resumes() {
    let (mut engine, _handle): (TestEngine, WalHandle) =
        WalEngine::start(&WalEngineConfig::default(), 8, 0, true, Some(7)).unwrap();
    assert!(engine.rotation.has_pending_fold());
    assert_eq!(engine.rotation.metric_value(), 2);
    let wanted = WriterFacts { spare_wanted: true, ..idle() };
    assert_eq!(
        engine.next_action(Stage::Complete, wanted).0,
        Action::Request(ProvisionPlan::Unregistered)
    );
    engine.provision_requested();
    assert_eq!(engine.next_action(Stage::Complete, wanted).0, Action::Wait);
    engine.spare_provisioned();
    let refilled = WriterFacts { unregistered_spare_ready: true, ..idle() };
    assert_eq!(
        engine.next_action(Stage::Complete, refilled).0,
        Action::Request(ProvisionPlan::Fold)
    );
    assert!(matches!(
        engine.provision_failed(Error::NoQuorum, true),
        ProvisionFailure::Retry(Some(0))
    ));
    assert!(engine.rotation.retry_pending());
    assert!(engine.wakes().rotation);
    assert_eq!(engine.provision_plan(true, false), ProvisionPlan::Nothing);
    engine.retry_elapsed();
    assert!(matches!(
        engine.provision_failed(Error::SegmentDirectoryFull, true),
        ProvisionFailure::Parked
    ));
    assert_eq!(engine.provision_plan(true, false), ProvisionPlan::Nothing);
    engine.rechecked(false, true);
    assert_eq!(engine.provision_plan(true, false), ProvisionPlan::Fold);
    assert!(matches!(
        engine.provision_failed(Error::Fenced("new owner".into()), true),
        ProvisionFailure::Stop(Error::Fenced(_))
    ));
    assert!(engine.fold_completed());
    engine.fold_confirmed(false);
    assert!(!engine.capacity.seal_room);
    assert!(!engine.seal_handed_off(SealHandoff::Queued, true));
    assert_eq!(engine.rotation, Rotation::Sealing);
    assert!(!engine.sealed(true, true));
    assert_eq!(engine.rotation, Rotation::Due);
    assert!(engine.sealed(false, false));
    assert_eq!(engine.rotation, Rotation::Disabled { due: false });
    assert!(!engine.fold_completed());
    assert!(engine.seal_handed_off(SealHandoff::Refused, true));
    assert!(!engine.seal_handed_off(SealHandoff::NoSegment, false));
    assert_eq!(engine.rotation, Rotation::Idle);
    assert!(matches!(
        engine.provision_failed(Error::NoQuorum, true),
        ProvisionFailure::Retry(None)
    ));
    engine.rechecks_closed();
    assert!(!engine.wakes().rechecks);
}

#[test]
fn graceful_shutdown_waits_for_dispatched_records() {
    let (mut engine, mut handle) = start(&WalEngineConfig::default()).unwrap();
    append(&mut engine, &mut handle, 0, 8);
    engine.receive(Some(Command::Shutdown { response: "done" }));
    assert_eq!(engine.next_action(Stage::Stop, idle()).0, Action::Dispatch(1));
    engine.dispatched(1, 0, 1, false).unwrap();
    assert_eq!(engine.next_action(Stage::Stop, idle()).0, Action::Wait);
    engine.complete_front(1, None, false);
    assert_eq!(engine.next_action(Stage::Stop, idle()).0, Action::Shutdown);
    let (response, failures) = engine.state.take_shutdown().unwrap();
    assert_eq!(response, "done");
    assert!(failures.appends.is_empty());
    engine.receive(None);
    assert_eq!(engine.next_action(Stage::Complete, idle()).0, Action::Finish);
    let timeout = handle.shutdown_timeout;
    assert!(matches!(
        handle.shutdown(ShutdownOutcome::DeadlineExceeded),
        Err(Error::ShutdownTimeout { timeout: reported, .. }) if reported == timeout
    ));
    let (_, other) = start(&WalEngineConfig::default()).unwrap();
    let joined = ShutdownOutcome::Finished {
        acknowledged: true,
        engine_joined: true,
        provisioner_joined: true,
        maintenance_joined: true,
    };
    assert!(other.shutdown(joined).is_ok());
    let (_, third) = start(&WalEngineConfig::default()).unwrap();
    let lost = ShutdownOutcome::Finished {
        acknowledged: false,
        engine_joined: true,
        provisioner_joined: true,
        maintenance_joined: true,
    };
    assert!(matches!(third.shutdown(lost), Err(Error::Closed)));
    assert!(matches!(completion_result(None), Err(Error::Closed)));
}

#[test]
fn rotation_pauses_dispatch_until_a_spare_takes_over() {
    let mut rotation = Rotation::Idle;
    assert_eq!(rotation.metric_value(), 0);
    rotation.mark_due(false);
    assert_eq!(rotation, Rotation::Idle);
    rotation.mark_due(true);
    assert!(rotation.swap_ready() && rotation.dispatch_paused());
    assert_eq!(rotation.metric_value(), 1);
    let mut draining = Rotation::Draining {
        end_record_index: 4,
        fold_attempts: 0,
        retry: false,
        fold_capacity_blocked: false,
        successor_due: false,
    };
    assert!(!draining.dispatch_paused());
    assert!(!draining.fold_ready(4));
    assert!(draining.fold_ready(5));
    draining.mark_due(true);
    assert!(draining.dispatch_paused());
    assert_eq!(draining.arm_fold_retry(), Some(0));
    assert!(!draining.fold_ready(5));
    draining.retry_elapsed();
    assert_eq!(draining.arm_fold_retry(), Some(1));
    draining.retry_elapsed();
    draining.block_fold_on_capacity();
    assert!(!draining.fold_ready(5));
    draining.release_fold_capacity_block();
    assert!(draining.fold_ready(5));
    assert_eq!(Rotation::Sealing.metric_value(), 3);
    assert_eq!(Rotation::Disabled { due: true }.metric_value(), 4);
    assert_eq!(Rotation::Idle.arm_fold_retry(), None);
}

#[test]
fn no_swap_begins_while_a_seal_is_owed() {
    let (mut engine, _handle) = start(&WalEngineConfig::default()).unwrap();
    let ready = WriterFacts {
        unregistered_spare_ready: true,
        spare_wanted: false,
        spare_ready: true,
        swap_boundary_ready: true,
    };
    engine.rotation = Rotation::Due;
    assert_eq!(engine.next_action(Stage::Swap, ready).0, Action::BeginSwap);
    for rotation in [Rotation::Sealing, Rotation::Disabled { due: false }] {
        engine.rotation = rotation;
        engine.rotation.mark_due(true);
        for stage in [Stage::Complete, Stage::Provision, Stage::Swap, Stage::Stop] {
            assert_ne!(engine.next_action(stage, ready).0, Action::BeginSwap);
        }
    }
    assert_eq!(engine.rotation, Rotation::Disabled { due: true });
}

#[test]
fn permits_bound_what_is_admitted() {
    let mut slots = Permits::new(2);
    assert!(slots.take(1));
    assert!(slots.take(1));
    assert!(!slots.take(1));
    assert_eq!(slots.available(), 0);
    slots.give_back(1);
    assert!(slots.take(1));
    let mut bytes = Permits::new(100);
    assert!(bytes.take(60));
    assert!(!bytes.take(41));
    assert!(bytes.take(40));
    bytes.give_back(60);
    assert_eq!((bytes.taken, bytes.available()), (40, 60));
}
