use loopal_agent_hub::callbacks::StopDecision;
use loopal_agent_hub::error::WorkflowCoordinatorError;
use loopal_agent_hub::mode::WorkflowCoordinatorMode;
use loopal_agent_hub::scheduler::preparation_finished;
use loopal_agent_hub::callbacks::{ActivationDecision, PreparedDecision, WorkflowActivationFailure};
use loopal_agent_hub::failure::{StopDisposition, WorkflowCleanupStatus, WorkflowFailureClass};
use loopal_agent_hub::fixtures::{
    active, cancelling_dispatch_run, dispatching_run, owner, pending, prepared_worker,
    spawn_failure,
};
use loopal_agent_hub::identity::{AgentExecutionRef, AttemptKey, QualifiedAddress, WorkflowOwner};
use loopal_agent_hub::scheduler::{AbortSettlement, ActiveAttemptPhase, WorkflowScheduler};

type Scheduler = WorkflowScheduler<(), ()>;

fn other_owner() -> WorkflowOwner {
    WorkflowOwner::new("other", QualifiedAddress::local("root"))
}

fn abort_case(suffix: &str) -> (Scheduler, WorkflowOwner, AttemptKey) {
    let owner = owner();
    let (_run, key) =
        cancelling_dispatch_run(&format!("wrun_abort_{suffix}"), &format!("watt_abort_{suffix}"));
    let mut scheduler = Scheduler::new();
    let mut attempt = pending(&owner, &key);
    attempt.abort_requested = true;
    attempt.stop = Some(StopDisposition::Cancelled("coverage abort".to_owned()));
    scheduler.insert_pending(key.attempt_id.clone(), attempt);
    (scheduler, owner, key)
}

fn slot<'a>(scheduler: &'a Scheduler, id: &str) -> Option<&'a loopal_agent_hub::scheduler::PendingAttempt<()>> {
    scheduler.pending.iter().find(|(k, _)| k == id).map(|(_, p)| p)
}

#[test]
fn abort_is_requested_once() {
    let owner = owner();
    let (_run, key) = dispatching_run("wrun_once", "watt_once");
    let mut scheduler = Scheduler::new();
    scheduler.insert_pending(key.attempt_id.clone(), pending(&owner, &key));
    let first = scheduler.request_attempt_abort(&owner, &key).expect("first abort starts");
    assert_eq!(first.key, key);
    assert_eq!(first.causation, key);
    assert!(slot(&scheduler, "watt_once").unwrap().abort_requested);
    assert!(scheduler.request_attempt_abort(&owner, &key).is_none());
}

#[test]
fn abort_request_of_another_owner_or_key_is_ignored() {
    let owner = owner();
    let (_run, key) = dispatching_run("wrun_other", "watt_other");
    let mut scheduler = Scheduler::new();
    scheduler.insert_pending(key.attempt_id.clone(), pending(&owner, &key));
    assert!(scheduler.request_attempt_abort(&other_owner(), &key).is_none());
    let mut wrong = key.clone();
    wrong.node_id = "other".to_owned();
    assert!(scheduler.request_attempt_abort(&owner, &wrong).is_none());
    assert!(!slot(&scheduler, "watt_other").unwrap().abort_requested);
}

#[test]
fn preparation_timeout_closes_delivery_and_requests_abort_once() {
    let owner = owner();
    let (_run, key) = dispatching_run("wrun_timeout", "watt_timeout");
    let mut scheduler = Scheduler::new();
    scheduler.insert_pending(key.attempt_id.clone(), pending(&owner, &key));
    let failure = spawn_failure(WorkflowFailureClass::TransientBeforeExecution, "slow");
    assert!(scheduler.preparation_timed_out(&owner, &key, failure.clone()).is_some());
    let record = slot(&scheduler, "watt_timeout").unwrap();
    assert!(record.delivery_finished);
    assert!(record.abort_requested);
    assert_eq!(record.stop, Some(StopDisposition::Failed(failure.clone())));
    assert!(scheduler.preparation_timed_out(&owner, &key, failure).is_none());
    assert!(scheduler.request_attempt_abort(&owner, &key).is_none());
}

#[test]
fn preparation_timeout_keeps_a_decided_stop() {
    let (mut scheduler, owner, key) = abort_case("timeout_kept");
    let failure = spawn_failure(WorkflowFailureClass::Permanent, "slow");
    assert!(scheduler.preparation_timed_out(&owner, &key, failure).is_none());
    let record = slot(&scheduler, "watt_abort_timeout_kept").unwrap();
    assert_eq!(record.stop, Some(StopDisposition::Cancelled("coverage abort".to_owned())));
}

#[test]
fn preparation_aborted_covers_guard_and_finished_delivery_paths() {
    let (mut scheduler, owner, key) = abort_case("guards");
    // Another owner's tombstone.
    scheduler.pending[0].1.owner = other_owner();
    assert!(scheduler.take_preparation_task(&owner, &key).is_none());
    assert!(!scheduler.acknowledge_abort(&owner, &key, WorkflowCleanupStatus::Confirmed, false, true));
    assert!(scheduler.pending[0].1.abort_status.is_none());

    // A tombstone of another key.
    let mut wrong_key = key.clone();
    wrong_key.node_id = "other".to_owned();
    let mut attempt = pending(&owner, &key);
    attempt.abort_requested = true;
    attempt.key = wrong_key;
    scheduler.put_pending(key.attempt_id.clone(), attempt);
    assert!(scheduler.take_preparation_task(&owner, &key).is_none());
    assert!(!scheduler.acknowledge_abort(&owner, &key, WorkflowCleanupStatus::Confirmed, false, true));

    // No abort requested.
    let mut attempt = pending(&owner, &key);
    attempt.abort_requested = false;
    scheduler.put_pending(key.attempt_id.clone(), attempt);
    assert!(scheduler.take_preparation_task(&owner, &key).is_none());

    // The preparation task already finished: its delivery is still awaited.
    let mut attempt = pending(&owner, &key);
    attempt.abort_requested = true;
    attempt.prepare_abort = Some(());
    scheduler.put_pending(key.attempt_id.clone(), attempt);
    assert_eq!(scheduler.take_preparation_task(&owner, &key), Some(Some(())));
    assert!(!scheduler.acknowledge_abort(&owner, &key, WorkflowCleanupStatus::Confirmed, false, true));
    let record = slot(&scheduler, "watt_abort_guards").unwrap();
    assert!(!record.delivery_finished);
    assert_eq!(record.abort_status, Some(WorkflowCleanupStatus::Confirmed));
    assert!(record.prepare_abort.is_none());
}

#[test]
fn unfinished_preparation_is_joined_and_ready_to_settle() {
    let (mut scheduler, owner, key) = abort_case("joined");
    assert_eq!(scheduler.take_preparation_task(&owner, &key), Some(None));
    assert!(scheduler.acknowledge_abort(&owner, &key, WorkflowCleanupStatus::TimedOut, false, false));
    match scheduler.settle_abort(&owner, &key, false) {
        AbortSettlement::Terminalize(tombstone, status) => {
            assert_eq!(status, WorkflowCleanupStatus::TimedOut);
            assert_eq!(tombstone.key, key);
        }
        _ => panic!("the acknowledged tombstone settles"),
    }
    assert!(scheduler.pending.is_empty());
    assert!(matches!(scheduler.settle_abort(&owner, &key, false), AbortSettlement::Ignored));
}

#[test]
fn acknowledgement_of_a_poisoned_owner_releases_the_tombstone() {
    let (mut scheduler, owner, key) = abort_case("poisoned_ack");
    assert!(!scheduler.acknowledge_abort(&owner, &key, WorkflowCleanupStatus::Confirmed, true, true));
    assert!(scheduler.pending.is_empty());
}

#[test]
fn abort_settlement_covers_every_stable_tombstone_guard() {
    let (mut scheduler, owner, key) = abort_case("settlement");
    scheduler.remove_pending(&key.attempt_id);
    assert!(matches!(scheduler.settle_abort(&owner, &key, false), AbortSettlement::Ignored));

    for guard in 0..6 {
        let mut attempt = pending(&owner, &key);
        attempt.abort_requested = true;
        attempt.delivery_finished = true;
        attempt.abort_status = Some(WorkflowCleanupStatus::Confirmed);
        match guard {
            0 => attempt.owner = other_owner(),
            1 => attempt.key.node_id = "other".to_owned(),
            2 => attempt.abort_requested = false,
            3 => attempt.late_execution = Some(AgentExecutionRef::local("late", 1)),
            4 => attempt.delivery_finished = false,
            5 => attempt.abort_status = None,
            _ => unreachable!(),
        }
        scheduler.put_pending(key.attempt_id.clone(), attempt);
        assert!(matches!(scheduler.settle_abort(&owner, &key, false), AbortSettlement::Ignored));
        assert_eq!(scheduler.pending.len(), 1);
    }

    let mut attempt = pending(&owner, &key);
    attempt.abort_requested = true;
    attempt.delivery_finished = true;
    attempt.abort_status = Some(WorkflowCleanupStatus::Confirmed);
    scheduler.put_pending(key.attempt_id.clone(), attempt);
    assert!(matches!(scheduler.settle_abort(&owner, &key, true), AbortSettlement::Released));
    assert!(slot(&scheduler, "watt_abort_settlement").is_none());
}

#[test]
fn late_shutdown_covers_stale_identity_and_closed_callback_paths() {
    let (mut scheduler, owner, key) = abort_case("late");
    let execution = AgentExecutionRef::local("late", 7);
    assert!(scheduler.take_late_custody(&owner, &key, &execution).is_none());

    let mut attempt = pending(&owner, &key);
    attempt.late_execution = Some(execution.clone());
    attempt.late_shutdown_waiter = Some(());
    scheduler.put_pending(key.attempt_id.clone(), attempt);
    let mut wrong = key.clone();
    wrong.node_id = "other".to_owned();
    for (callback_owner, callback_key, callback_execution) in [
        (other_owner(), key.clone(), execution.clone()),
        (owner.clone(), wrong, execution.clone()),
        (owner.clone(), key.clone(), AgentExecutionRef::local("other", 8)),
    ] {
        assert!(scheduler
            .take_late_custody(&callback_owner, &callback_key, &callback_execution)
            .is_none());
        assert_eq!(scheduler.pending.len(), 1);
    }
    let released = scheduler.take_late_custody(&owner, &key, &execution).unwrap();
    assert!(released.late_shutdown_waiter.is_none());
    assert_eq!(released.late_execution, Some(execution.clone()));
    assert!(scheduler.pending.is_empty());
    assert!(scheduler.take_late_custody(&owner, &key, &execution).is_none());
}

#[test]
fn delivery_finished_reports_whether_the_abort_can_finalize() {
    let (mut scheduler, owner, key) = abort_case("delivery");
    assert!(!scheduler.preparation_delivery_finished(&owner, &key));
    assert!(slot(&scheduler, "watt_abort_delivery").unwrap().delivery_finished);
    scheduler.pending[0].1.abort_status = Some(WorkflowCleanupStatus::Confirmed);
    assert!(scheduler.preparation_delivery_finished(&owner, &key));
    assert!(!scheduler.preparation_delivery_finished(&other_owner(), &key));
}

#[test]
fn prepared_worker_after_abort_is_contained_late() {
    let (mut scheduler, owner, key) = abort_case("contain");
    let (run, _) = cancelling_dispatch_run("wrun_abort_contain", "watt_abort_contain");
    let worker = prepared_worker(AgentExecutionRef::local("late", 3), ());
    match scheduler.prepared(&owner, &key, Ok(worker), false, Some(&run)) {
        PreparedDecision::ContainLate { execution, .. } => {
            assert_eq!(execution, AgentExecutionRef::local("late", 3));
        }
        _ => panic!("a late worker is contained"),
    }
    let record = slot(&scheduler, "watt_abort_contain").unwrap();
    assert_eq!(record.late_execution, Some(AgentExecutionRef::local("late", 3)));
    assert!(record.delivery_finished);
}

#[test]
fn prepared_result_for_a_poisoned_owner_is_dropped() {
    let owner = owner();
    let (run, key) = dispatching_run("wrun_poison", "watt_poison");
    let mut scheduler = Scheduler::new();
    scheduler.insert_pending(key.attempt_id.clone(), pending(&owner, &key));
    let worker = prepared_worker(AgentExecutionRef::local("worker", 1), ());
    assert!(matches!(
        scheduler.prepared(&owner, &key, Ok(worker), true, Some(&run)),
        PreparedDecision::Dropped(Ok(_))
    ));
    assert_eq!(scheduler.pending.len(), 1);
}

#[test]
fn prepared_worker_of_an_expected_attempt_is_bound() {
    let owner = owner();
    let (run, key) = dispatching_run("wrun_bind", "watt_bind");
    let mut scheduler = Scheduler::new();
    scheduler.insert_pending(key.attempt_id.clone(), pending(&owner, &key));
    let worker = prepared_worker(AgentExecutionRef::local("worker", 1), ());
    match scheduler.prepared(&owner, &key, Ok(worker), false, Some(&run)) {
        PreparedDecision::Activate(loopal_agent_hub::callbacks::BindDecision::Bind {
            deadline_unix_ms,
            ..
        }) => assert_eq!(deadline_unix_ms, 100),
        _ => panic!("a fresh lease is bound"),
    }
    assert!(scheduler.pending.is_empty());
}

#[test]
fn prepared_worker_with_a_held_lease_is_refused() {
    let owner = owner();
    let (run, key) = dispatching_run("wrun_dup", "watt_dup");
    let mut scheduler = Scheduler::new();
    scheduler.insert_pending(key.attempt_id.clone(), pending(&owner, &key));
    let (_other_run, other_key) = dispatching_run("wrun_dup", "watt_held");
    scheduler.insert_active(
        other_key.attempt_id.clone(),
        active(&owner, &other_key, AgentExecutionRef::local("worker", 1), ActiveAttemptPhase::Running),
    );
    let worker = prepared_worker(AgentExecutionRef::local("worker", 1), ());
    assert!(matches!(
        scheduler.prepared(&owner, &key, Ok(worker), false, Some(&run)),
        PreparedDecision::Activate(loopal_agent_hub::callbacks::BindDecision::DuplicateLease { error: loopal_agent_hub::error::WorkflowCoordinatorError::InvalidExecutionLease, .. })
    ));
}

#[test]
fn failed_preparation_is_committed() {
    let owner = owner();
    let (run, key) = dispatching_run("wrun_fail", "watt_fail");
    let mut scheduler = Scheduler::new();
    scheduler.insert_pending(key.attempt_id.clone(), pending(&owner, &key));
    let failure = spawn_failure(WorkflowFailureClass::Permanent, "no worker");
    match scheduler.prepared(&owner, &key, Err(failure.clone()), false, Some(&run)) {
        PreparedDecision::CommitFailure(f) => assert_eq!(f, failure),
        _ => panic!("the failure is committed"),
    }
}

#[test]
fn activation_reports_are_decided_for_the_exact_activating_worker() {
    let owner = owner();
    let (_run, key) = dispatching_run("wrun_act", "watt_act");
    let execution = AgentExecutionRef::local("worker", 1);
    let mut scheduler = Scheduler::new();
    scheduler.insert_active(
        key.attempt_id.clone(),
        active(&owner, &key, execution.clone(), ActiveAttemptPhase::Activating),
    );
    assert!(matches!(scheduler.activated(&owner, &key, &execution, Ok(())), ActivationDecision::MarkRunning));
    assert!(matches!(
        scheduler.activated(&owner, &key, &AgentExecutionRef::local("worker", 2), Ok(())),
        ActivationDecision::Ignored
    ));
    let stopped = spawn_failure(WorkflowFailureClass::TransientBeforeExecution, "stopped");
    match scheduler.activated(&owner, &key, &execution, Err(WorkflowActivationFailure::Stopped(stopped.clone()))) {
        ActivationDecision::CommitFailure(f) => assert_eq!(f, stopped),
        _ => panic!("a stopped activation is committed"),
    }
    let uncertain = spawn_failure(WorkflowFailureClass::Permanent, "lost reply").failure;
    match scheduler.activated(&owner, &key, &execution, Err(WorkflowActivationFailure::Uncertain(uncertain))) {
        ActivationDecision::FailureStop(f, reason) => {
            assert_eq!(f.completion.status, "activation_uncertain");
            assert_eq!(f.failure.class, WorkflowFailureClass::AmbiguousExecution);
            assert_eq!(f.failure.reason, "lost reply");
            assert_eq!(reason, "workflow worker activation was uncertain");
        }
        _ => panic!("an uncertain activation stops the worker"),
    }
}

#[test]
fn outcome_loss_stops_only_the_running_worker() {
    let owner = owner();
    let (_run, key) = dispatching_run("wrun_lost", "watt_lost");
    let execution = AgentExecutionRef::local("worker", 1);
    let mut scheduler = Scheduler::new();
    scheduler.insert_active(
        key.attempt_id.clone(),
        active(&owner, &key, execution.clone(), ActiveAttemptPhase::Running),
    );
    assert!(scheduler.outcome_counts(&owner, &key, &execution));
    let (failure, reason) = scheduler.outcome_lost(&owner, &key, &execution).unwrap();
    assert_eq!(failure.completion.status, "worker_outcome_lost");
    assert_eq!(failure.failure.class, WorkflowFailureClass::AmbiguousExecution);
    assert_eq!(reason, "workflow worker outcome channel closed");
    assert!(scheduler.outcome_lost(&other_owner(), &key, &execution).is_none());
}

#[test]
fn escalation_at_one_instant_is_idempotent() {
    let owner = owner();
    let (_run, key) = dispatching_run("wrun_esc", "watt_esc");
    let mut scheduler = Scheduler::new();
    let mut record = active(&owner, &key, AgentExecutionRef::local("worker", 1), ActiveAttemptPhase::Interrupting);
    record.shutdown_after_unix_ms = Some(50);
    scheduler.insert_active(key.attempt_id.clone(), record);
    assert!(scheduler.escalate(49).is_empty());
    assert_eq!(scheduler.active[0].1.phase, ActiveAttemptPhase::Interrupting);
    let shutdowns = scheduler.escalate(50);
    assert_eq!(shutdowns.len(), 1);
    assert_eq!(shutdowns[0].key, key);
    assert_eq!(scheduler.active[0].1.phase, ActiveAttemptPhase::ShuttingDown);
    assert!(scheduler.escalate(50).is_empty());
}

#[test]
fn quarantine_releases_every_worker_of_the_owner_once() {
    let owner = owner();
    let mut scheduler = Scheduler::new();
    let (_run, mine) = dispatching_run("wrun_q", "watt_mine");
    let (_run, theirs) = dispatching_run("wrun_q", "watt_theirs");
    let (_run, prep) = dispatching_run("wrun_q", "watt_prep");
    scheduler.insert_active(
        mine.attempt_id.clone(),
        active(&owner, &mine, AgentExecutionRef::local("a", 1), ActiveAttemptPhase::Running),
    );
    scheduler.insert_active(
        theirs.attempt_id.clone(),
        active(&other_owner(), &theirs, AgentExecutionRef::local("b", 1), ActiveAttemptPhase::Running),
    );
    scheduler.insert_pending(prep.attempt_id.clone(), pending(&owner, &prep));
    let (aborts, contained) = scheduler.quarantine_owner(&owner);
    assert_eq!(aborts.len(), 1);
    assert_eq!(aborts[0].key, prep);
    assert_eq!(contained.len(), 1);
    assert_eq!(contained[0].0, AgentExecutionRef::local("a", 1));
    assert_eq!(scheduler.active.len(), 1);
    assert_eq!(scheduler.active[0].0, "watt_theirs");
    let (aborts, contained) = scheduler.quarantine_owner(&owner);
    assert!(aborts.is_empty());
    assert!(contained.is_empty());
}

#[test]
fn failure_stop_interrupts_only_the_exact_execution() {
    let owner = owner();
    let (_run, key) = dispatching_run("wrun_fs", "watt_fs");
    let execution = AgentExecutionRef::local("worker", 1);
    let mut scheduler = Scheduler::new();
    let failure = spawn_failure(WorkflowFailureClass::AmbiguousExecution, "stop");
    assert_eq!(
        scheduler
            .apply_failure_stop(&owner, &key, &execution, failure.clone(), 10, 5)
            .err(),
        Some(loopal_agent_hub::error::WorkflowCoordinatorError::StaleExecutionLease)
    );
    scheduler.insert_active(
        key.attempt_id.clone(),
        active(&owner, &key, execution.clone(), ActiveAttemptPhase::Running),
    );
    assert!(matches!(
        scheduler.apply_failure_stop(&owner, &key, &AgentExecutionRef::local("worker", 2), failure.clone(), 10, 5),
        Ok(None)
    ));
    let start = scheduler
        .apply_failure_stop(&owner, &key, &execution, failure.clone(), 10, 5)
        .unwrap()
        .unwrap();
    assert_eq!(start.execution, execution);
    let record = &scheduler.active[0].1;
    assert_eq!(record.phase, ActiveAttemptPhase::Interrupting);
    assert_eq!(record.shutdown_after_unix_ms, Some(15));
    assert_eq!(record.stop, Some(StopDisposition::Failed(failure)));
}

/// A clock that starts at a given instant and advances by one millisecond
/// at each reading.
struct TestClock(std::sync::atomic::AtomicU64);

impl TestClock {
    fn new(now: u64) -> Self {
        Self(std::sync::atomic::AtomicU64::new(now))
    }
}

impl loopal_agent_hub::clock::WorkflowClock for TestClock {
    fn now_unix_ms(&self) -> u64 {
        self.0.fetch_add(1, std::sync::atomic::Ordering::SeqCst)
    }
}

#[test]
fn cancellation_marks_aborts_and_interrupts_the_run_once() {
    let owner = owner();
    let (_run, prep) = dispatching_run("wrun_cancel", "watt_prep");
    let (_run, bound) = dispatching_run("wrun_cancel", "watt_bound");
    let (_run, other) = dispatching_run("wrun_other", "watt_other_run");
    let mut scheduler = Scheduler::new();
    scheduler.insert_pending(prep.attempt_id.clone(), pending(&owner, &prep));
    scheduler.insert_pending(other.attempt_id.clone(), pending(&owner, &other));
    scheduler.insert_active(
        bound.attempt_id.clone(),
        active(&owner, &bound, AgentExecutionRef::local("worker", 1), ActiveAttemptPhase::Running),
    );
    let clock = TestClock::new(1_000);
    let reason = "user cancelled".to_owned();
    let (aborts, interrupts) =
        scheduler.begin_cancel_effects(&owner, &"wrun_cancel".to_owned(), &reason, &clock, 250);
    assert_eq!(aborts.len(), 1);
    assert_eq!(aborts[0].key, prep);
    assert_eq!(interrupts.len(), 1);
    assert_eq!(interrupts[0].execution, AgentExecutionRef::local("worker", 1));
    let cancelled = slot(&scheduler, "watt_prep").unwrap();
    assert!(cancelled.abort_requested);
    assert_eq!(cancelled.stop, Some(StopDisposition::Cancelled(reason.clone())));
    let untouched = slot(&scheduler, "watt_other_run").unwrap();
    assert!(!untouched.abort_requested);
    assert!(untouched.stop.is_none());
    let worker = &scheduler.active[0].1;
    assert_eq!(worker.phase, ActiveAttemptPhase::Interrupting);
    assert_eq!(worker.shutdown_after_unix_ms, Some(1_250));
    assert_eq!(worker.stop, Some(StopDisposition::Cancelled(reason.clone())));

    let (aborts, _) =
        scheduler.begin_cancel_effects(&owner, &"wrun_cancel".to_owned(), &reason, &clock, 250);
    assert!(aborts.is_empty());
}

#[test]
fn recovery_reads_the_clock_only_with_a_grace_period() {
    let clock = TestClock::new(77);
    assert_eq!(loopal_agent_hub::recovery::recovery_now(0, &clock), u64::MAX);
    assert_eq!(loopal_agent_hub::recovery::recovery_now(10, &clock), 77);
}

#[test]
fn a_missing_preparation_task_counts_as_unfinished() {
    assert!(!preparation_finished(None));
    assert!(!preparation_finished(Some(false)));
    assert!(preparation_finished(Some(true)));

    // Without a task, delivery is closed and the abort can finalize.
    let (mut scheduler, owner, key) = abort_case("no_task");
    let task = scheduler.take_preparation_task(&owner, &key).unwrap();
    let finished = preparation_finished(task.map(|_| true));
    assert!(scheduler.acknowledge_abort(&owner, &key, WorkflowCleanupStatus::Confirmed, false, finished));
    assert!(slot(&scheduler, "watt_abort_no_task").unwrap().delivery_finished);
}

#[test]
fn a_poisoned_acknowledgement_releases_only_the_exact_requested_tombstone() {
    let (mut scheduler, owner, key) = abort_case("poisoned_guard");
    assert!(!scheduler.acknowledge_abort(&other_owner(), &key, WorkflowCleanupStatus::Confirmed, true, true));
    assert_eq!(scheduler.pending.len(), 1);
    scheduler.pending[0].1.abort_requested = false;
    assert!(!scheduler.acknowledge_abort(&owner, &key, WorkflowCleanupStatus::Confirmed, true, true));
    assert_eq!(scheduler.pending.len(), 1);
    scheduler.pending[0].1.abort_requested = true;
    scheduler.pending[0].1.late_execution = Some(AgentExecutionRef::local("late", 1));
    assert!(!scheduler.acknowledge_abort(&owner, &key, WorkflowCleanupStatus::Confirmed, true, true));
    assert_eq!(scheduler.pending.len(), 1);
    scheduler.pending[0].1.late_execution = None;
    assert!(!scheduler.acknowledge_abort(&owner, &key, WorkflowCleanupStatus::Confirmed, true, true));
    assert!(scheduler.pending.is_empty());
}

#[test]
fn a_duplicate_lease_fails_poisons_and_quarantines_the_owner() {
    let owner = owner();
    let (_run, key) = cancelling_dispatch_run("wrun_pending_duplicate", "watt_pending_duplicate");
    let (_run, existing_key) = dispatching_run("wrun_pending_duplicate", "watt_existing");
    let mut scheduler = Scheduler::new();
    scheduler.insert_active(
        existing_key.attempt_id.clone(),
        active(&owner, &existing_key, AgentExecutionRef::local("duplicate-worker", 11), ActiveAttemptPhase::Running),
    );
    let worker = prepared_worker(AgentExecutionRef::local("duplicate-worker", 11), ());
    let decision = scheduler.finish_preparation_stop(Ok(worker), &pending(&owner, &key));
    let worker = match decision {
        StopDecision::DuplicateLease { worker, error } => {
            assert_eq!(error, WorkflowCoordinatorError::InvalidExecutionLease);
            worker
        }
        _ => panic!("a held lease is refused"),
    };
    let violation = scheduler.reject_lease(WorkflowCoordinatorMode::ExecutionHarness, &owner, worker.execution);
    assert_eq!(violation.error, WorkflowCoordinatorError::InvalidExecutionLease);
    assert!(violation.poison_owner);
    assert_eq!(violation.offending, AgentExecutionRef::local("duplicate-worker", 11));
    assert_eq!(violation.quarantined.len(), 1);
    assert!(scheduler.active.is_empty());
}

#[test]
fn a_rejected_lease_outside_execution_keeps_custody() {
    let owner = owner();
    let (_run, key) = dispatching_run("wrun_preview", "watt_preview");
    let mut scheduler = Scheduler::new();
    scheduler.insert_active(
        key.attempt_id.clone(),
        active(&owner, &key, AgentExecutionRef::local("worker", 1), ActiveAttemptPhase::Running),
    );
    let violation = scheduler.reject_lease(WorkflowCoordinatorMode::Preview, &owner, AgentExecutionRef::local("x", 2));
    assert!(violation.aborts.is_empty());
    assert!(violation.quarantined.is_empty());
    assert_eq!(scheduler.active.len(), 1);
}
