use chorus::error::Error;
use chorus::maintenance::{
    cleanup_finished, majority, queue_depth_delta, repair_finished, seal_outcome, sealed_descriptor,
    truncation_finished, DeletionOutcome, MaintenanceState, QueueDepthReservation, RepairOutcome,
    SealAttempts, SealFollowup, SealOutcome, SealRetry, SweepReport,
};
use chorus::pending::{
    MaintenanceCmd, PendingCommands, ReadyCommandKind, SegmentDescriptor,
    MAINTENANCE_COMMAND_CAPACITY,
};
use chorus::seqno::WalSeqNo;
use chorus::tasks::{
    cancel_plan, next_step, queue_depth, shutdown_requested, CancelPlan, CommandState, Duty,
    MaintenanceLoop, PassStep, RecheckSignal,
};

fn segment(base: u64) -> SegmentDescriptor {
    SegmentDescriptor {
        id: format!("segment-{base}"),
        base_record_index: base,
        end_record_index: base,
        crc32c: base as u32,
        copies: 3,
        finalized_copies: 2,
        seal_pending: false,
    }
}

#[test]
fn maintenance_command_flood_is_bounded_and_coalesced() {
    let (tx, mut rx) = tokio::sync::mpsc::channel(MAINTENANCE_COMMAND_CAPACITY);
    let mut truncations = Vec::new();
    for index in 0..MAINTENANCE_COMMAND_CAPACITY {
        let command: MaintenanceCmd<(), usize> = if index % 2 == 0 {
            MaintenanceCmd::RepairSegment(segment((index % 8) as u64))
        } else {
            truncations.push(index);
            MaintenanceCmd::Truncate { floor: WalSeqNo::record(index as u64), response: index }
        };
        assert!(tx.try_send(command).is_ok(), "fixed-capacity flood fits");
    }
    assert!(matches!(
        tx.try_send(MaintenanceCmd::RepairSegment(segment(99))),
        Err(tokio::sync::mpsc::error::TrySendError::Full(_))
    ));

    let mut pending = PendingCommands::new();
    while let Ok(command) = rx.try_recv() {
        pending.push(command);
    }
    let first = pending.pop_front().unwrap();
    let queued_requests = first.queued_requests;
    match first.kind {
        ReadyCommandKind::Truncate { floor, responses } => {
            assert_eq!(floor, WalSeqNo::record((MAINTENANCE_COMMAND_CAPACITY - 1) as u64));
            assert_eq!(responses, truncations);
            assert_eq!(queued_requests, truncations.len());
        }
        _ => panic!("coalesced truncation must run before deduplicated repairs"),
    }

    let mut repaired = Vec::new();
    let mut repaired_requests = 0;
    while let Some(command) = pending.pop_front() {
        repaired_requests += command.queued_requests;
        match command.kind {
            ReadyCommandKind::RepairSegment(segment) => repaired.push(segment.base_record_index),
            _ => panic!("flood coalescer emitted an unexpected command"),
        }
    }
    assert_eq!(repaired, (0..8).step_by(2).collect::<Vec<_>>());
    assert_eq!(repaired_requests + queued_requests, MAINTENANCE_COMMAND_CAPACITY);
}

#[test]
fn a_seal_is_a_barrier() {
    let mut pending: PendingCommands<&str, u32> = PendingCommands::new();
    pending.push(MaintenanceCmd::RepairSegment(segment(4)));
    pending.push(MaintenanceCmd::SealSegment("seal"));
    pending.push(MaintenanceCmd::RepairSegment(segment(4)));
    pending.push(MaintenanceCmd::Truncate { floor: WalSeqNo::record(9), response: 1 });
    pending.push(MaintenanceCmd::Truncate { floor: WalSeqNo::record(7), response: 2 });
    assert!(matches!(
        pending.pop_front().unwrap().kind,
        ReadyCommandKind::RepairSegment(found) if found.base_record_index == 4
    ));
    let seal = pending.pop_front().unwrap();
    assert_eq!(seal.queued_requests, 1);
    assert!(matches!(seal.kind, ReadyCommandKind::SealSegment("seal")));
    assert!(matches!(
        pending.pop_front().unwrap().kind,
        ReadyCommandKind::Truncate { floor, responses }
            if floor == WalSeqNo::record(9) && responses == vec![1, 2]
    ));
    assert!(matches!(
        pending.pop_front().unwrap().kind,
        ReadyCommandKind::RepairSegment(_)
    ));
    assert!(pending.pop_front().is_none());
}

#[test]
fn stale_snapshots_bring_nothing_back() {
    let mut pending = segment(2);
    pending.seal_pending = true;
    let mut state = MaintenanceState::new(vec![segment(0), segment(1)]);
    let before = state.catalog_bases();
    assert_eq!(before, vec![0, 1]);
    state.catalog.remove(0);
    state.remember_catalog_deletions(&before);
    let outcome = SealOutcome::Enforced { segment: segment(2), all_replicas_finalized: false };
    let (followup, counters) = state.seal_finished(2, outcome);
    assert!(matches!(
        followup,
        SealFollowup::ReleaseAndRepair(found) if found.base_record_index == 2
    ));
    assert_eq!((counters.segments_sealed, counters.operation_failures), (1, 0));
    state.adopt_catalog(vec![segment(0), segment(1), pending]);
    assert_eq!(state.catalog_bases(), vec![1, 2]);
    assert!(!state.catalog[1].seal_pending);
    let done = SealOutcome::Enforced { segment: segment(3), all_replicas_finalized: true };
    let (followup, counters) = state.seal_finished(3, done);
    assert!(matches!(followup, SealFollowup::Release));
    assert_eq!(counters.segments_sealed, 1);
    let exhausted = seal_outcome(Err(Err(Error::NoQuorum)));
    let (followup, counters) = state.seal_finished(4, exhausted);
    assert!(matches!(followup, SealFollowup::Abandon(Error::NoQuorum)));
    assert_eq!((counters.segments_sealed, counters.operation_failures), (0, 1));
    assert!(matches!(
        seal_outcome(Err(Ok(segment(5)))),
        SealOutcome::Enforced { all_replicas_finalized: false, .. }
    ));
    assert!(matches!(
        seal_outcome(Ok((segment(5), true))),
        SealOutcome::Enforced { all_replicas_finalized: true, .. }
    ));
    assert!(!state.sealed.contains(&4));
}

#[test]
fn seal_enforcement_has_a_budget() {
    let mut attempts = SealAttempts::new(2);
    assert!(!attempts.is_retry());
    assert_eq!(attempts.begun().seal_enforcement_retries, 0);
    assert!(matches!(attempts.failed(Error::NoQuorum), SealRetry::Again(0)));
    assert!(attempts.is_retry());
    assert_eq!(attempts.begun().seal_enforcement_retries, 1);
    assert!(matches!(attempts.failed(Error::NoQuorum), SealRetry::Again(1)));
    assert!(matches!(attempts.failed(Error::NoQuorum), SealRetry::GiveUp(Error::NoQuorum)));
}

#[test]
fn passes_count_what_they_did() {
    let mut state = MaintenanceState::new(Vec::new());
    let deferred = SweepReport { deleted_objects: 2, deferred_operations: 1, failed: true };
    let counters = state.swept(deferred);
    assert_eq!(
        (counters.orphan_objects_deleted, counters.orphan_sweeps_deferred,
            counters.operation_failures),
        (2, 1, 1)
    );
    assert!(state.sweep_pending);
    state.swept(SweepReport { deleted_objects: 0, deferred_operations: 0, failed: false });
    assert!(!state.sweep_pending);
    let (counters, reopen) =
        repair_finished(RepairOutcome::Report { objects_repaired: 3, transient_failures: 1 });
    assert_eq!(
        (counters.repair_objects_repaired, counters.repair_transient_skips,
            counters.repair_passes),
        (3, 1, 1)
    );
    assert!(!reopen);
    assert!(repair_finished(RepairOutcome::RefreshFailed).1);
    assert_eq!(repair_finished(RepairOutcome::Failed).0.operation_failures, 1);
    assert_eq!(repair_finished(RepairOutcome::ManifestUnavailable).0.repair_failures, 1);
    assert!(cleanup_finished(DeletionOutcome::Failed).1);
    assert_eq!(cleanup_finished(DeletionOutcome::Completed).0.operation_failures, 0);
    assert_eq!(truncation_finished(true).0.truncation_cycles, 1);
    assert!(truncation_finished(false).1);
    let sealed = sealed_descriptor("id".into(), 4, 9, 7, 5);
    assert_eq!((sealed.copies, sealed.finalized_copies), (3, 3));
    assert_eq!((majority(1), majority(3), majority(5)), (1, 2, 3));
    assert_eq!(queue_depth_delta(5), -5);
    let mut kept = QueueDepthReservation::new();
    kept.commit();
    assert_eq!(kept.release(), 0);
    assert_eq!(QueueDepthReservation::new().release(), -1);
}

#[test]
fn passes_run_before_commands_and_shutdown_before_both() {
    let mut task = MaintenanceLoop::new();
    assert_eq!(task.next(false, true, CommandState::Ready), Duty::Pass);
    assert_eq!(task.next(false, false, CommandState::Ready), Duty::Execute);
    assert_eq!(task.next(false, false, CommandState::Empty), Duty::Wait);
    assert_eq!(task.next(true, true, CommandState::Ready), Duty::BeginDrain);
    assert_eq!(task.next(true, true, CommandState::Ready), Duty::Execute);
    assert_eq!(task.next(false, true, CommandState::Closed), Duty::Stop);
    let mut cut = MaintenanceLoop::new();
    cut.pass_ended(false);
    assert_eq!(cut.next(false, false, CommandState::Closed), Duty::Stop);
    cut.pass_ended(true);
    assert!(cut.draining);
    let mut signal = RecheckSignal { pending: false };
    assert!(!signal.take());
    signal.truncated();
    signal.truncated();
    assert!(signal.take());
    assert!(!signal.take());
    assert_eq!(cancel_plan(0), CancelPlan::Await);
    assert_eq!(cancel_plan(3), CancelPlan::ShutDownReplicas);
    assert!(shutdown_requested(true, false) && !shutdown_requested(false, false));
    assert_eq!((queue_depth(256, 250), queue_depth(2, 5)), (6, 0));
}

#[test]
fn a_pass_sweeps_then_deletes_then_repairs() {
    let mut steps = Vec::new();
    let mut step = next_step(None);
    while step != PassStep::Done {
        steps.push(step);
        step = next_step(Some(step));
    }
    assert_eq!(steps, vec![PassStep::Sweep, PassStep::Cleanup, PassStep::Repair]);
    assert_eq!(next_step(Some(PassStep::Done)), PassStep::Done);
}

#[test]
fn a_queue_of_commands_has_room_for_more() {
    let mut pending: PendingCommands<&str, u32> = PendingCommands::new();
    assert!(pending.has_room());
    pending.push(MaintenanceCmd::RepairSegment(segment(4)));
    pending.push(MaintenanceCmd::RepairSegment(segment(4)));
    pending.push(MaintenanceCmd::SealSegment("seal"));
    pending.push(MaintenanceCmd::Truncate { floor: WalSeqNo::record(9), response: 1 });
    assert!(pending.has_room());
    while pending.pop_front().is_some() {}
    assert!(pending.has_room());
}
