use loopal_agent_hub::dispatch::expired_scheduling;
use loopal_agent_hub::admission::cancel_plan;
use loopal_agent_hub::resume::resume_targets;
use loopal_agent_hub::dispatch::{schedules_started_run, spawn_request};
use loopal_agent_hub::fixtures::scenario_capability;
use loopal_agent_hub::admission::{
    admission_guard, cancel_guard, cancel_needs_event, cancel_reason, recover_guard,
    snapshot_guard, undelivered_intents, RecoverStep,
};
use loopal_agent_hub::authority::{owner_for_managed_root, AgentOrigin, AgentRuntimeFacts};
use loopal_agent_hub::clock::{unix_ms_from_millis, SystemWorkflowClock, WorkflowClock};
use loopal_agent_hub::config::{
    saturating_secs_to_ms, WorkflowLimitSettings, WorkflowSettings, WorkflowTimingSettings,
    WorkflowTrustedCeilings,
};
use loopal_agent_hub::dispatch::{
    check_reservation, dispatch_phase, dispatch_slots, ready_nodes, reserve_pending,
    validate_dispatch, DispatchPhase,
};
use loopal_agent_hub::drain::{drain_payload, drain_result, DrainKind};
use loopal_agent_hub::error::{decimal_text, WorkflowCoordinatorError, WorkflowJournalError};
use loopal_agent_hub::failure::{
    bound_reason, cleanup_timeout_failure, deadline_failure, deadline_spawn_failure,
    lost_outcome_failure, lost_worker, no_retry_failure, preparation_timeout, timeout_failure,
    StopDisposition, WorkflowCleanupStatus, WorkflowFailureClass, MAX_REASON_BYTES,
};
use loopal_agent_hub::fixtures::{
    active, dispatching_run, owner, pending, planned_run, running_attempt_run, running_ready_run,
    spawn_failure, terminal_run, validated_run,
};
use loopal_agent_hub::identity::{
    valid_name, AgentExecutionRef, AttemptKey, QualifiedAddress, WorkflowOwner,
};
use loopal_agent_hub::mode::WorkflowCoordinatorMode;
use loopal_agent_hub::order::{sort_ids, text_less};
use loopal_agent_hub::payload::{terminal_payload, WorkflowEventPayload};
use loopal_agent_hub::resume::{resumable, resume_error_poisons, validate_resume};
use loopal_agent_hub::run::{run_expired, WorkflowLimits, WorkflowRunState};
use loopal_agent_hub::scheduler::{valid_lease, ActiveAttemptPhase, WorkflowScheduler};

type Scheduler = WorkflowScheduler<(), ()>;

const EXECUTE: WorkflowCoordinatorMode = WorkflowCoordinatorMode::ExecutionHarness;

#[test]
fn modes_that_execute() {
    assert!(!WorkflowCoordinatorMode::Disabled.executes());
    assert!(!WorkflowCoordinatorMode::Preview.executes());
    assert!(WorkflowCoordinatorMode::Execution.executes());
    assert!(WorkflowCoordinatorMode::ExecutionHarness.executes());
}

#[test]
fn names_and_owners_are_validated() {
    assert!(valid_name(&"node".to_owned()));
    assert!(!valid_name(&String::new()));
    assert!(!valid_name(&"bad/id".to_owned()));
    assert!(!valid_name(&"x".repeat(129)));
    assert!(valid_name(&"x".repeat(128)));
    assert!(owner().is_valid());
    assert!(!WorkflowOwner::new("", QualifiedAddress::local("root")).is_valid());
    let remote = QualifiedAddress { hub: Some("hub".to_owned()), agent: "root".to_owned() };
    assert!(!WorkflowOwner::new("s", remote).is_valid());
}

#[test]
fn leases_need_a_live_local_connection() {
    assert!(valid_lease(&AgentExecutionRef::local("worker", 1)));
    assert!(!valid_lease(&AgentExecutionRef::local("worker", 0)));
    assert!(!valid_lease(&AgentExecutionRef::local("bad/name", 1)));
}

#[test]
fn dispatch_checks_come_in_order() {
    let owner = owner();
    let run_id = "wrun".to_owned();
    assert_eq!(
        validate_dispatch(WorkflowCoordinatorMode::Preview, &owner, &run_id, true, false),
        Err(WorkflowCoordinatorError::Disabled)
    );
    let invalid = WorkflowOwner::new("", QualifiedAddress::local("root"));
    assert_eq!(
        validate_dispatch(EXECUTE, &invalid, &run_id, true, false),
        Err(WorkflowCoordinatorError::InvalidOwner)
    );
    assert_eq!(
        validate_dispatch(EXECUTE, &owner, &"bad/id".to_owned(), true, false),
        Err(WorkflowCoordinatorError::InvalidRunId)
    );
    assert_eq!(
        validate_dispatch(EXECUTE, &owner, &run_id, true, false),
        Err(WorkflowCoordinatorError::OwnerPoisoned)
    );
    assert_eq!(
        validate_dispatch(EXECUTE, &owner, &run_id, false, false),
        Err(WorkflowCoordinatorError::RecoveryRequired)
    );
    assert_eq!(validate_dispatch(EXECUTE, &owner, &run_id, false, true), Ok(()));
}

#[test]
fn dispatch_phase_follows_the_run_state_and_deadline() {
    assert_eq!(dispatch_phase(&validated_run("wrun_v"), 10), DispatchPhase::StartRun);
    assert_eq!(dispatch_phase(&planned_run("wrun_p"), 10), DispatchPhase::Idle);
    let run = running_ready_run("wrun_r");
    assert_eq!(dispatch_phase(&run, 1_009), DispatchPhase::Dispatch);
    assert_eq!(dispatch_phase(&run, 1_010), DispatchPhase::Expired);
    assert!(!run_expired(&run, 1_009));
    assert!(run_expired(&run, 1_010));
    assert!(run_expired(&run, u64::MAX));
}

#[test]
fn run_expiry_saturates_at_the_end_of_time() {
    let mut run = running_ready_run("wrun_sat");
    run.spec.limits.run_deadline_ms = u64::MAX;
    assert!(!run_expired(&run, u64::MAX - 1));
    assert!(run_expired(&run, u64::MAX));
}

#[test]
fn dispatch_slots_and_ready_nodes() {
    let run = running_ready_run("wrun_slots");
    assert_eq!(dispatch_slots(&run), 1);
    assert_eq!(ready_nodes(&run, 1), vec!["node".to_owned()]);
    assert!(ready_nodes(&run, 0).is_empty());
    let (busy, _) = dispatching_run("wrun_busy", "watt_busy");
    assert_eq!(dispatch_slots(&busy), 0);
}

#[test]
fn reservation_rejects_invalid_and_colliding_attempt_ids() {
    let owner = owner();
    let scheduler = Scheduler::new();
    let run = running_ready_run("wrun_reserve_invalid");
    assert_eq!(
        check_reservation(&scheduler, &run, &"bad/id".to_owned()),
        Err(WorkflowCoordinatorError::InvalidGeneratedAttemptId("bad/id".to_owned()))
    );

    let run = running_ready_run("wrun_reserve_active");
    let id = "watt_reserve_active".to_owned();
    let key = AttemptKey { run_id: run.id.clone(), node_id: "node".to_owned(), attempt_id: id.clone() };
    let mut scheduler = Scheduler::new();
    scheduler.insert_active(
        id.clone(),
        active(&owner, &key, AgentExecutionRef::local("active", 1), ActiveAttemptPhase::Running),
    );
    assert_eq!(
        check_reservation(&scheduler, &run, &id),
        Err(WorkflowCoordinatorError::AttemptIdCollision(id.clone()))
    );

    let run = running_ready_run("wrun_reserve_pending");
    let id = "watt_reserve_pending".to_owned();
    let key = AttemptKey { run_id: run.id.clone(), node_id: "node".to_owned(), attempt_id: id.clone() };
    let mut scheduler = Scheduler::new();
    scheduler.insert_pending(id.clone(), pending(&owner, &key));
    assert_eq!(
        check_reservation(&scheduler, &run, &id),
        Err(WorkflowCoordinatorError::AttemptIdCollision(id.clone()))
    );

    let (run, _) = dispatching_run("wrun_reserve_snapshot", "watt_reserve_snapshot");
    assert_eq!(
        check_reservation(&Scheduler::new(), &run, &"watt_reserve_snapshot".to_owned()),
        Err(WorkflowCoordinatorError::AttemptIdCollision("watt_reserve_snapshot".to_owned()))
    );
    assert_eq!(check_reservation(&Scheduler::new(), &run, &"watt_fresh".to_owned()), Ok(()));
}

#[test]
fn reserved_attempt_waits_for_its_preparation() {
    let owner = owner();
    let (run, key) = dispatching_run("wrun_reserve", "watt_reserve");
    let mut scheduler = Scheduler::new();
    reserve_pending(&mut scheduler, &owner, &key, 20, run.spec.limits.attempt_timeout_ms);
    assert_eq!(scheduler.pending.len(), 1);
    let record = &scheduler.pending[0].1;
    assert_eq!(record.deadline_unix_ms, 120);
    assert_eq!(record.causation, key);
    assert!(!record.abort_requested);
    reserve_pending(&mut scheduler, &owner, &key, u64::MAX, 5);
    assert_eq!(scheduler.pending.len(), 1);
    assert_eq!(scheduler.pending[0].1.deadline_unix_ms, u64::MAX);
}

#[test]
fn resume_checks_and_quiescence() {
    let owner = owner();
    assert_eq!(
        validate_resume(WorkflowCoordinatorMode::Disabled, &owner, false, true),
        Err(WorkflowCoordinatorError::Disabled)
    );
    assert_eq!(validate_resume(EXECUTE, &owner, true, true), Err(WorkflowCoordinatorError::OwnerPoisoned));
    assert_eq!(validate_resume(EXECUTE, &owner, false, false), Err(WorkflowCoordinatorError::RecoveryRequired));
    assert_eq!(validate_resume(EXECUTE, &owner, false, true), Ok(()));

    let scheduler = Scheduler::new();
    assert!(resumable(&scheduler, &owner, &running_ready_run("wrun_ready")));
    assert!(resumable(&scheduler, &owner, &validated_run("wrun_valid")));
    assert!(!resumable(&scheduler, &owner, &planned_run("wrun_planned")));
    let (live, key) = running_attempt_run("wrun_live", "watt_live");
    assert!(!resumable(&scheduler, &owner, &live));
    let (done, _) = terminal_run("wrun_done", "watt_done");
    assert!(!resumable(&scheduler, &owner, &done));

    let mut busy = Scheduler::new();
    let ready = running_ready_run("wrun_live");
    busy.insert_pending(key.attempt_id.clone(), pending(&owner, &key));
    assert!(!resumable(&busy, &owner, &ready));

    assert!(!resume_error_poisons(&WorkflowCoordinatorError::RunDeadlineExceeded));
    assert!(resume_error_poisons(&WorkflowCoordinatorError::JournalUnavailable));
}

#[test]
fn admission_guards() {
    let owner = owner();
    let invalid = WorkflowOwner::new("", QualifiedAddress::local("root"));
    assert_eq!(
        recover_guard(WorkflowCoordinatorMode::Disabled, &owner, false, false),
        Err(WorkflowCoordinatorError::Disabled)
    );
    assert_eq!(
        recover_guard(WorkflowCoordinatorMode::Preview, &owner, false, false),
        Ok(RecoverStep::Recover)
    );
    assert_eq!(recover_guard(EXECUTE, &owner, false, true), Ok(RecoverStep::AlreadyRecovered));
    assert_eq!(recover_guard(EXECUTE, &invalid, false, true), Err(WorkflowCoordinatorError::InvalidOwner));
    assert_eq!(recover_guard(EXECUTE, &owner, true, true), Err(WorkflowCoordinatorError::OwnerPoisoned));
    assert_eq!(admission_guard(WorkflowCoordinatorMode::Preview, &owner), Ok(()));
    assert_eq!(admission_guard(EXECUTE, &invalid), Err(WorkflowCoordinatorError::InvalidOwner));
    assert_eq!(snapshot_guard(EXECUTE, &owner, true), Err(WorkflowCoordinatorError::OwnerPoisoned));
    assert_eq!(
        cancel_guard(EXECUTE, &owner, &"bad/id".to_owned()),
        Err(WorkflowCoordinatorError::InvalidRunId)
    );
    assert_eq!(cancel_guard(EXECUTE, &owner, &"wrun".to_owned()), Ok(()));
    assert!(cancel_needs_event(WorkflowRunState::Running));
    assert!(cancel_needs_event(WorkflowRunState::Planned));
    assert!(!cancel_needs_event(WorkflowRunState::Cancelling));
    assert!(!cancel_needs_event(WorkflowRunState::Succeeded));
    assert!(!cancel_needs_event(WorkflowRunState::Cancelled));
}

#[test]
fn cancel_reasons_are_bounded() {
    assert_eq!(cancel_reason(None), "workflow cancelled");
    assert_eq!(cancel_reason(Some("stop".to_owned())), "stop");
    let long = "a".repeat(MAX_REASON_BYTES + 10);
    assert_eq!(cancel_reason(Some(long)).len(), MAX_REASON_BYTES);
}

#[test]
fn bounding_a_reason_is_idempotent() {
    let long = "é".repeat(MAX_REASON_BYTES);
    let once = bound_reason(long);
    assert_eq!(once.len(), MAX_REASON_BYTES);
    assert_eq!(once.chars().count(), MAX_REASON_BYTES / 2);
    let twice = bound_reason(once.clone());
    assert_eq!(twice, once);
    assert_eq!(bound_reason("short".to_owned()), "short");
}

#[test]
fn undelivered_intents_keep_order() {
    let intents = vec![("a".to_owned(), 1u8), ("b".to_owned(), 2u8), ("c".to_owned(), 3u8)];
    let acked = vec!["b".to_owned()];
    assert_eq!(undelivered_intents(intents, &acked), vec![("a".to_owned(), 1u8), ("c".to_owned(), 3u8)]);
}

#[test]
fn ids_sort_ascending_without_repeats() {
    let sorted = sort_ids(vec!["watt_b".to_owned(), "watt_a".to_owned(), "watt_c".to_owned()]);
    assert_eq!(sorted, vec!["watt_a".to_owned(), "watt_b".to_owned(), "watt_c".to_owned()]);
    assert!(text_less("a", "b"));
    assert!(text_less("a", "ab"));
    assert!(!text_less("b", "a"));
    assert!(!text_less("a", "a"));
}

#[test]
fn trusted_ceilings_come_from_settings() {
    let settings = WorkflowSettings {
        limits: WorkflowLimitSettings { max_nodes: 8, max_parallel: 2, max_attempts: 3, max_output_bytes: 4_096 },
        timing: WorkflowTimingSettings { run_deadline_secs: 60, attempt_timeout_secs: 10 },
    };
    let ceilings = WorkflowTrustedCeilings::from_settings(&settings);
    assert_eq!(ceilings.run_deadline_ms, 60_000);
    assert_eq!(ceilings.attempt_timeout_ms, 10_000);
    assert_eq!(ceilings.max_output_bytes, 4_096);
    assert_eq!(saturating_secs_to_ms(u64::MAX), u64::MAX);

    let within = WorkflowLimits {
        max_nodes: 8,
        max_parallel: 2,
        max_attempts: 3,
        run_deadline_ms: 60_000,
        attempt_timeout_ms: 10_000,
        max_output_bytes: 4_096,
    };
    assert_eq!(ceilings.validate(&within), Ok(()));
    let mut over = within;
    over.max_parallel = 3;
    over.attempt_timeout_ms = 10_001;
    assert_eq!(ceilings.validate(&over), Err(WorkflowCoordinatorError::TrustedLimitExceeded("max_parallel")));
    let mut over = within;
    over.attempt_timeout_ms = 10_001;
    assert_eq!(
        ceilings.validate(&over),
        Err(WorkflowCoordinatorError::TrustedLimitExceeded("attempt_timeout_ms"))
    );
}

#[test]
fn failures_have_their_recorded_class_and_reason() {
    let f = lost_outcome_failure();
    assert_eq!(f.completion.status, "worker_outcome_lost");
    assert_eq!(f.failure.class, WorkflowFailureClass::AmbiguousExecution);
    let f = preparation_timeout();
    assert_eq!(f.failure.class, WorkflowFailureClass::TransientBeforeExecution);
    let f = lost_worker();
    assert_eq!(f.failure.class, WorkflowFailureClass::AmbiguousExecution);
    let f = cleanup_timeout_failure("gone");
    assert_eq!(f.failure.reason, "gone");
    assert_eq!(f.failure.class, WorkflowFailureClass::AmbiguousExecution);
    assert_eq!(deadline_failure().class, WorkflowFailureClass::Permanent);
    assert_eq!(deadline_spawn_failure().failure.class, WorkflowFailureClass::Permanent);
    let key = AttemptKey { run_id: "r".to_owned(), node_id: "n".to_owned(), attempt_id: "watt_t".to_owned() };
    let f = timeout_failure(&key, false);
    assert_eq!(f.failure.reason, "workflow attempt watt_t timed out");
    assert_eq!(f.completion.status, "workflow_timeout");
    assert_eq!(f.failure.class, WorkflowFailureClass::TransientBeforeExecution);
    assert_eq!(timeout_failure(&key, true).failure.class, WorkflowFailureClass::AmbiguousExecution);
}

#[test]
fn no_retry_makes_only_transient_failures_permanent() {
    let transient = spawn_failure(WorkflowFailureClass::TransientBeforeExecution, "x");
    assert_eq!(no_retry_failure(transient).failure.class, WorkflowFailureClass::Permanent);
    let ambiguous = spawn_failure(WorkflowFailureClass::AmbiguousExecution, "x");
    assert_eq!(no_retry_failure(ambiguous).failure.class, WorkflowFailureClass::AmbiguousExecution);
}

#[test]
fn drain_payloads_cover_every_disposition() {
    let key = AttemptKey { run_id: "r".to_owned(), node_id: "n".to_owned(), attempt_id: "a".to_owned() };
    match drain_payload(WorkflowRunState::Running, &key, DrainKind::Active, None, WorkflowCleanupStatus::TimedOut) {
        WorkflowEventPayload::SpawnFailed { failure, .. } => {
            assert_eq!(failure.completion.status, "workflow_cleanup_timeout");
            assert_eq!(failure.failure.reason, "workflow worker shutdown timed out");
        }
        other => panic!("unexpected {other:?}"),
    }
    let cancelled = Some(StopDisposition::Cancelled("stop".to_owned()));
    assert_eq!(
        drain_payload(WorkflowRunState::Cancelling, &key, DrainKind::Pending, cancelled.clone(), WorkflowCleanupStatus::Confirmed),
        WorkflowEventPayload::AttemptCancelled { node_id: "n".to_owned(), attempt_id: "a".to_owned(), reason: "stop".to_owned() }
    );
    match drain_payload(WorkflowRunState::Running, &key, DrainKind::Pending, cancelled, WorkflowCleanupStatus::Confirmed) {
        WorkflowEventPayload::SpawnFailed { failure, .. } => {
            assert_eq!(failure.completion.status, "workflow_shutdown");
            assert_eq!(failure.failure.class, WorkflowFailureClass::Permanent);
        }
        other => panic!("unexpected {other:?}"),
    }
    let failed = Some(StopDisposition::Failed(spawn_failure(WorkflowFailureClass::TransientBeforeExecution, "x")));
    match drain_payload(WorkflowRunState::Running, &key, DrainKind::Active, failed, WorkflowCleanupStatus::Confirmed) {
        WorkflowEventPayload::SpawnFailed { failure, .. } => {
            assert_eq!(failure.failure.class, WorkflowFailureClass::Permanent);
            assert_eq!(failure.failure.reason, "x");
        }
        other => panic!("unexpected {other:?}"),
    }
    match drain_payload(WorkflowRunState::Running, &key, DrainKind::Active, None, WorkflowCleanupStatus::Confirmed) {
        WorkflowEventPayload::SpawnFailed { failure, .. } => {
            assert_eq!(failure.failure.class, WorkflowFailureClass::AmbiguousExecution);
        }
        other => panic!("unexpected {other:?}"),
    }
    assert_eq!(drain_result(None, false), Ok(()));
    assert_eq!(drain_result(None, true), Err(WorkflowCoordinatorError::CleanupTimeout));
    assert_eq!(
        drain_result(Some(WorkflowCoordinatorError::JournalLimit), true),
        Err(WorkflowCoordinatorError::JournalLimit)
    );
}

#[test]
fn terminal_payload_records_the_stop() {
    let key = AttemptKey { run_id: "r".to_owned(), node_id: "n".to_owned(), attempt_id: "a".to_owned() };
    assert_eq!(
        terminal_payload(&key, StopDisposition::Cancelled("why".to_owned())),
        WorkflowEventPayload::AttemptCancelled { node_id: "n".to_owned(), attempt_id: "a".to_owned(), reason: "why".to_owned() }
    );
}

#[test]
fn journal_errors_map_to_coordinator_errors() {
    assert_eq!(WorkflowCoordinatorError::from_journal(WorkflowJournalError::LimitExceeded), WorkflowCoordinatorError::JournalLimit);
    assert_eq!(WorkflowCoordinatorError::from_journal(WorkflowJournalError::Corruption), WorkflowCoordinatorError::RecoveryInvalid);
    assert_eq!(WorkflowCoordinatorError::from_journal(WorkflowJournalError::RepairMismatch), WorkflowCoordinatorError::RecoveryInvalid);
    assert_eq!(WorkflowCoordinatorError::from_journal(WorkflowJournalError::Io), WorkflowCoordinatorError::JournalUnavailable);
    assert_eq!(WorkflowCoordinatorError::from_journal(WorkflowJournalError::Storage), WorkflowCoordinatorError::JournalUnavailable);
}

#[test]
fn error_messages() {
    assert_eq!(WorkflowCoordinatorError::Disabled.message(0), "workflow execution is disabled");
    assert_eq!(
        WorkflowCoordinatorError::WaitTimeoutExceeded.message(30_000),
        "workflow wait exceeds the 30000ms limit"
    );
    assert_eq!(
        WorkflowCoordinatorError::AttemptIdCollision("watt_x".to_owned()).message(0),
        "workflow attempt id already exists: watt_x"
    );
    assert_eq!(
        WorkflowCoordinatorError::TrustedLimitExceeded("max_nodes").message(0),
        "workflow request exceeds configured max_nodes"
    );
    assert_eq!(
        WorkflowCoordinatorError::UnsupportedWorkerProfileForNode { node_id: "n".to_owned(), profile: "p".to_owned() }.message(0),
        "workflow node n uses unsupported worker profile: p"
    );
    assert_eq!(decimal_text(0), "0");
    assert_eq!(decimal_text(u64::MAX), u64::MAX.to_string());
}

#[test]
fn only_an_authenticated_bound_managed_root_owns_workflows() {
    let execution = AgentExecutionRef::local("root", 1);
    let facts = AgentRuntimeFacts {
        origin: AgentOrigin::ManagedRoot,
        parent: None,
        depth: 0,
        root: "root".to_owned(),
        session_id: Some("session".to_owned()),
    };
    let owner = owner_for_managed_root(&execution, &facts).unwrap();
    assert_eq!(owner.session_id, "session");
    assert_eq!(owner.root_agent, QualifiedAddress::local("root"));

    let spawned = AgentRuntimeFacts { origin: AgentOrigin::Spawned, ..facts_clone(&facts) };
    assert_eq!(
        owner_for_managed_root(&execution, &spawned),
        Err("workflow control requires the authenticated managed root Agent")
    );
    let unbound = AgentRuntimeFacts { session_id: None, ..facts_clone(&facts) };
    assert_eq!(owner_for_managed_root(&execution, &unbound), Err("root Agent session is not bound"));
    let empty = AgentRuntimeFacts { session_id: Some(String::new()), ..facts_clone(&facts) };
    assert_eq!(owner_for_managed_root(&execution, &empty), Err("workflow owner is invalid"));
}

fn facts_clone(facts: &AgentRuntimeFacts) -> AgentRuntimeFacts {
    AgentRuntimeFacts {
        origin: facts.origin,
        parent: facts.parent.clone(),
        depth: facts.depth,
        root: facts.root.clone(),
        session_id: facts.session_id.clone(),
    }
}

#[test]
fn system_clock_reads_the_wall_clock() {
    let now = SystemWorkflowClock.now_unix_ms();
    // 2020-01-01 in milliseconds since the epoch.
    assert!(now > 1_577_836_800_000);
    assert!(now < u64::MAX);
    assert_eq!(unix_ms_from_millis(u128::MAX), u64::MAX);
    assert_eq!(unix_ms_from_millis(42), 42);
}

#[test]
fn a_started_run_is_scheduled_only_for_a_resumed_executing_owner() {
    assert!(schedules_started_run(EXECUTE, true, true));
    assert!(schedules_started_run(WorkflowCoordinatorMode::Execution, true, true));
    assert!(!schedules_started_run(WorkflowCoordinatorMode::Preview, true, true));
    assert!(!schedules_started_run(EXECUTE, false, true));
    assert!(!schedules_started_run(EXECUTE, true, false));
}

#[test]
fn spawn_requests_carry_the_node_and_run_contract() {
    let owner = owner();
    let (run, key) = dispatching_run("wrun_spawn", "watt_spawn");
    let deps: Vec<(String, String)> = vec![("dep".to_owned(), "out".to_owned())];
    let request = spawn_request(&owner, &run, &key, deps.clone(), scenario_capability());
    assert_eq!(request.owner, owner);
    assert_eq!(request.causation, key);
    assert_eq!(request.run_goal, "exercise scheduler invariants");
    assert_eq!(request.task, "run the scheduler case");
    assert_eq!(request.worker_profile, "default");
    assert_eq!(request.dependency_results, deps);
    assert_eq!(request.output_contract, Some(512));
    assert_eq!(request.completion_result_limit, 1_024);
    assert_eq!(request.attempt_capability, vec![0x44u8; 32]);

    let mut run = run;
    run.spec.output_node = "other".to_owned();
    let request = spawn_request(&owner, &run, &key, Vec::<u8>::new(), Vec::new());
    assert_eq!(request.output_contract, None);
}

#[test]
fn scenario_attempts_carry_the_scenario_capability() {
    let (run, _) = dispatching_run("wrun_cap", "watt_cap");
    assert_eq!(run.attempts[0].capability_digest, vec![0x44u8; 32]);
    let (run, _) = running_attempt_run("wrun_cap2", "watt_cap2");
    assert_eq!(run.attempts[0].node_id, "node");
    assert_eq!(run.attempts[0].capability_digest, vec![0x44u8; 32]);
}

#[test]
fn scheduling_past_the_deadline_fails_with_the_deadline() {
    assert_eq!(expired_scheduling(Ok(())), Err(WorkflowCoordinatorError::RunDeadlineExceeded));
    assert_eq!(
        expired_scheduling(Err(WorkflowCoordinatorError::JournalUnavailable)),
        Err(WorkflowCoordinatorError::JournalUnavailable)
    );
}

#[test]
fn cancel_answers_report_terminal_runs() {
    let plan = cancel_plan(WorkflowRunState::Succeeded);
    assert!(plan.already_terminal && !plan.request_cancel);
    let plan = cancel_plan(WorkflowRunState::Cancelling);
    assert!(!plan.already_terminal && !plan.request_cancel);
    let plan = cancel_plan(WorkflowRunState::Running);
    assert!(!plan.already_terminal && plan.request_cancel);
}

#[test]
fn resuming_admits_quiescent_runs_in_id_order() {
    let owner = owner();
    let (live, _) = running_attempt_run("wrun_live", "watt_live");
    let runs = vec![
        running_ready_run("wrun_c"),
        validated_run("wrun_a"),
        planned_run("wrun_planned"),
        live,
        running_ready_run("wrun_b"),
    ];
    let scheduler = Scheduler::new();
    let targets = resume_targets(&scheduler, &owner, &runs);
    assert_eq!(targets, vec!["wrun_a".to_owned(), "wrun_b".to_owned(), "wrun_c".to_owned()]);
    assert_eq!(resume_targets(&scheduler, &owner, &runs), targets);
}
