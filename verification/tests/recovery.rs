use loopal_agent_hub::recovery::{accept_adopted_worker, fresh_handshake, recovered_handshake,
        WorkflowAttemptReconnectResponse, WorkflowWorkerHandshakeDisposition};
use loopal_agent_hub::error::WorkflowCoordinatorError;
use loopal_agent_hub::failure::WorkflowFailureClass;
use loopal_agent_hub::fixtures::{
    active, bound_run, dispatching_run, owner, prepared_worker, reconnect_request,
    running_attempt_run, terminal_run,
};
use loopal_agent_hub::identity::{AgentExecutionRef, QualifiedAddress, WorkflowOwner};
use loopal_agent_hub::mode::WorkflowCoordinatorMode;
use loopal_agent_hub::payload::WorkflowEventPayload;
use loopal_agent_hub::recovery::{
    adoptable_worker, adoption_plan, handshake_decision, install_adoption, locate_attempt,
    map_adoption_error, unreconciled_payload, validate_owner, HandshakeDecision, RecoveryLedger,
    WorkflowRecoveryAdoptionError,
};
use loopal_agent_hub::run::WorkflowAttemptState;
use loopal_agent_hub::scheduler::{ActiveAttemptPhase, WorkflowScheduler};

type Scheduler = WorkflowScheduler<(), ()>;

const EXECUTE: WorkflowCoordinatorMode = WorkflowCoordinatorMode::ExecutionHarness;

#[test]
fn ledger_reads_back_what_was_written() {
    let mut ledger = RecoveryLedger::new();
    let id = "watt_l".to_owned();
    assert_eq!(ledger.deadline_of(&id), None);
    ledger.set_deadline(&id, 50);
    assert_eq!(ledger.deadline_of(&id), Some(50));
    ledger.set_deadline(&id, 70);
    assert_eq!(ledger.deadline_of(&id), Some(70));
    assert_eq!(ledger.deadlines.len(), 1);
    ledger.set_deadline(&"watt_k".to_owned(), 10);
    assert_eq!(ledger.expired(60), vec!["watt_k".to_owned()]);
    assert_eq!(ledger.expired(70), vec!["watt_k".to_owned(), "watt_l".to_owned()]);
    ledger.forget_deadline(&id);
    assert_eq!(ledger.deadline_of(&id), None);
    assert!(!ledger.is_adopted(&id));
    ledger.mark_adopted(&id);
    ledger.mark_adopted(&id);
    assert!(ledger.is_adopted(&id));
    assert_eq!(ledger.adopted.len(), 1);
}

#[test]
fn recovered_live_attempts_get_a_grace_deadline() {
    let (live, _) = running_attempt_run("wrun_grace", "watt_grace");
    let (done, _) = terminal_run("wrun_done", "watt_done");
    let mut ledger = RecoveryLedger::new();
    ledger.install_deadlines(&vec![live, done], 1_000, 500);
    assert_eq!(ledger.deadline_of(&"watt_grace".to_owned()), Some(1_500));
    assert_eq!(ledger.deadline_of(&"watt_done".to_owned()), None);
}

#[test]
fn owner_checks_for_recovery() {
    let owner = owner();
    assert_eq!(
        validate_owner(WorkflowCoordinatorMode::Preview, &owner, false, true),
        Err(WorkflowCoordinatorError::InvalidOwner)
    );
    assert_eq!(validate_owner(EXECUTE, &owner, true, true), Err(WorkflowCoordinatorError::OwnerPoisoned));
    assert_eq!(validate_owner(EXECUTE, &owner, false, false), Err(WorkflowCoordinatorError::RecoveryRequired));
    assert_eq!(validate_owner(EXECUTE, &owner, false, true), Ok(()));
}

#[test]
fn adoption_errors_map_to_lease_errors() {
    assert_eq!(
        map_adoption_error(WorkflowRecoveryAdoptionError::ConflictingOwner),
        WorkflowCoordinatorError::InvalidExecutionLease
    );
    for error in [
        WorkflowRecoveryAdoptionError::MissingCustody,
        WorkflowRecoveryAdoptionError::StaleExecution,
        WorkflowRecoveryAdoptionError::InvalidPhase,
    ] {
        assert_eq!(map_adoption_error(error), WorkflowCoordinatorError::StaleExecutionLease);
    }
}

#[test]
fn adoption_matrix() {
    let owner = owner();
    let (run, key) = bound_run("wrun_adopt", "watt_adopt");
    let request = reconnect_request(&run, &key);
    let mut ledger = RecoveryLedger::new();

    // No recovery deadline: stale.
    assert_eq!(
        adoption_plan(&ledger, EXECUTE, &owner, false, true, 10, Some(&run), &request, true).err(),
        Some(WorkflowCoordinatorError::StaleExecutionLease)
    );
    ledger.set_deadline(&key.attempt_id, 100);
    // Deadline passed: stale.
    assert_eq!(
        adoption_plan(&ledger, EXECUTE, &owner, false, true, 100, Some(&run), &request, true).err(),
        Some(WorkflowCoordinatorError::StaleExecutionLease)
    );
    // Unknown run.
    assert_eq!(
        adoption_plan(&ledger, EXECUTE, &owner, false, true, 10, None, &request, true).err(),
        Some(WorkflowCoordinatorError::InvalidRunId)
    );
    // Capability mismatch.
    assert_eq!(
        adoption_plan(&ledger, EXECUTE, &owner, false, true, 10, Some(&run), &request, false).err(),
        Some(WorkflowCoordinatorError::InvalidExecutionLease)
    );
    // Another worker's address.
    let mut other = reconnect_request(&run, &key);
    other.execution = AgentExecutionRef::local("intruder", 7);
    assert_eq!(
        adoption_plan(&ledger, EXECUTE, &owner, false, true, 10, Some(&run), &other, true).err(),
        Some(WorkflowCoordinatorError::InvalidExecutionLease)
    );
    // A terminal attempt.
    let (done, done_key) = terminal_run("wrun_adopt", "watt_adopt");
    assert_eq!(
        adoption_plan(&ledger, EXECUTE, &owner, false, true, 10, Some(&done), &reconnect_request(&done, &done_key), true).err(),
        Some(WorkflowCoordinatorError::InvalidExecutionLease)
    );
    // Poisoned owner comes first.
    assert_eq!(
        adoption_plan(&ledger, EXECUTE, &owner, true, true, 10, Some(&run), &request, true).err(),
        Some(WorkflowCoordinatorError::OwnerPoisoned)
    );

    let plan = adoption_plan(&ledger, EXECUTE, &owner, false, true, 10, Some(&run), &request, true).unwrap();
    assert_eq!(plan.key, key);
    assert_eq!(plan.prior_state, WorkflowAttemptState::Dispatching);
    assert!(!plan.needs_bind);
    assert!(plan.output_node);
    assert_eq!(plan.attempt_timeout_ms, 100);

    let mut scheduler = Scheduler::new();
    assert!(adoptable_worker(&scheduler, &request.execution, &request.execution));
    assert!(!adoptable_worker(&scheduler, &AgentExecutionRef::local("worker", 8), &request.execution));
    let state = install_adoption(
        &mut scheduler,
        &mut ledger,
        &owner,
        &plan,
        prepared_worker(request.execution.clone(), ()),
    );
    assert_eq!(state, WorkflowAttemptState::Running);
    assert_eq!(scheduler.active.len(), 1);
    assert_eq!(scheduler.active[0].1.phase, ActiveAttemptPhase::Running);
    assert_eq!(scheduler.active[0].1.deadline_unix_ms, 113);
    assert_eq!(ledger.deadline_of(&key.attempt_id), None);
    assert!(ledger.is_adopted(&key.attempt_id));
    // A second adoption of the same attempt is stale.
    assert_eq!(
        adoption_plan(&ledger, EXECUTE, &owner, false, true, 10, Some(&run), &request, true).err(),
        Some(WorkflowCoordinatorError::StaleExecutionLease)
    );
    assert!(!adoptable_worker(&scheduler, &request.execution, &request.execution));
}

#[test]
fn handshake_adopts_recovering_attempts_and_checks_live_ones() {
    let owner = owner();
    let (run, key) = bound_run("wrun_hs", "watt_hs");
    let request = reconnect_request(&run, &key);
    let mut ledger = RecoveryLedger::new();
    let mut scheduler = Scheduler::new();

    // Nothing in custody for a live attempt: stale.
    assert!(matches!(
        handshake_decision(&scheduler, &ledger, EXECUTE, &owner, false, true, Some(&run), &request, true),
        Err(WorkflowCoordinatorError::StaleExecutionLease)
    ));
    scheduler.insert_active(
        key.attempt_id.clone(),
        active(&owner, &key, request.execution.clone(), ActiveAttemptPhase::Activating),
    );
    assert!(matches!(
        handshake_decision(&scheduler, &ledger, EXECUTE, &owner, false, true, Some(&run), &request, true),
        Ok(HandshakeDecision::Fresh(WorkflowAttemptState::Dispatching))
    ));
    // Stale identities.
    let mut stale = reconnect_request(&run, &key);
    stale.execution = AgentExecutionRef::local("worker", 8);
    assert!(matches!(
        handshake_decision(&scheduler, &ledger, EXECUTE, &owner, false, true, Some(&run), &stale, true),
        Err(WorkflowCoordinatorError::StaleExecutionLease)
    ));
    let mut invalid = reconnect_request(&run, &key);
    invalid.execution = AgentExecutionRef::local("worker", 0);
    assert!(matches!(
        handshake_decision(&scheduler, &ledger, EXECUTE, &owner, false, true, Some(&run), &invalid, true),
        Err(WorkflowCoordinatorError::InvalidExecutionLease)
    ));
    let other_owner = WorkflowOwner::new("other", QualifiedAddress::local("root"));
    assert!(matches!(
        handshake_decision(&scheduler, &ledger, EXECUTE, &other_owner, false, true, Some(&run), &request, true),
        Err(WorkflowCoordinatorError::StaleExecutionLease)
    ));
    // A recovering attempt is adopted.
    ledger.set_deadline(&key.attempt_id, 100);
    assert!(matches!(
        handshake_decision(&scheduler, &ledger, EXECUTE, &owner, false, true, Some(&run), &request, true),
        Ok(HandshakeDecision::Adopt)
    ));
    // An adopted one cannot handshake again.
    ledger.forget_deadline(&key.attempt_id);
    ledger.mark_adopted(&key.attempt_id);
    assert!(matches!(
        handshake_decision(&scheduler, &ledger, EXECUTE, &owner, false, true, Some(&run), &request, true),
        Err(WorkflowCoordinatorError::StaleExecutionLease)
    ));
}

#[test]
fn unreconciled_attempts_fail_by_what_they_reached() {
    let (unbound, _) = dispatching_run("wrun_u", "watt_u");
    match unreconciled_payload(Some(&unbound), &"watt_u".to_owned()) {
        Ok(Some(WorkflowEventPayload::AttemptFailed { completion, failure, .. })) => {
            assert_eq!(completion.status, "workflow_recovery_unreconciled");
            assert_eq!(failure.class, WorkflowFailureClass::Permanent);
            assert_eq!(failure.reason, "workflow dispatch was not bound before coordinator restart");
        }
        other => panic!("unexpected {other:?}"),
    }
    let (running, _) = running_attempt_run("wrun_u2", "watt_u2");
    match unreconciled_payload(Some(&running), &"watt_u2".to_owned()) {
        Ok(Some(WorkflowEventPayload::AttemptFailed { failure, .. })) => {
            assert_eq!(failure.class, WorkflowFailureClass::AmbiguousExecution);
        }
        other => panic!("unexpected {other:?}"),
    }
    let (done, _) = terminal_run("wrun_u3", "watt_u3");
    assert!(matches!(unreconciled_payload(Some(&done), &"watt_u3".to_owned()), Ok(None)));
    assert!(matches!(
        unreconciled_payload(Some(&done), &"watt_missing".to_owned()),
        Err(WorkflowCoordinatorError::RecoveryInvalid)
    ));
    assert!(matches!(unreconciled_payload(None, &"watt_u3".to_owned()), Err(WorkflowCoordinatorError::InvalidRunId)));
}

#[test]
fn attempts_are_located_in_the_first_run_that_holds_them() {
    let owner = owner();
    let (first, _) = dispatching_run("wrun_first", "watt_shared");
    let (second, _) = dispatching_run("wrun_second", "watt_shared");
    let runs = vec![(owner.clone(), first), (owner.clone(), second)];
    let (found_owner, run_id) = locate_attempt(&runs, &"watt_shared".to_owned()).unwrap();
    assert_eq!(found_owner, owner);
    assert_eq!(run_id, "wrun_first");
    assert!(locate_attempt(&runs, &"watt_none".to_owned()).is_none());
}

#[test]
fn a_mismatched_adopted_worker_is_refused_and_the_owner_quarantined() {
    let owner = owner();
    let (run, key) = dispatching_run("wrun_adopt_mismatch", "watt_adopt_mismatch");
    let request = reconnect_request(&run, &key);
    let mut scheduler = Scheduler::new();
    let handed = prepared_worker(AgentExecutionRef::local("different-worker", 99), ());
    match accept_adopted_worker(&mut scheduler, EXECUTE, &owner, handed, &request.execution) {
        Err(violation) => {
            assert_eq!(violation.error, WorkflowCoordinatorError::InvalidExecutionLease);
            assert!(violation.poison_owner);
            assert_eq!(violation.offending, AgentExecutionRef::local("different-worker", 99));
        }
        Ok(_) => panic!("a mismatched worker is refused"),
    }
    assert!(scheduler.active.is_empty());
    let handed = prepared_worker(request.execution.clone(), ());
    assert!(accept_adopted_worker(&mut scheduler, EXECUTE, &owner, handed, &request.execution).is_ok());

    let adopted = WorkflowAttemptReconnectResponse {
        execution: request.execution.clone(),
        attempt_state: WorkflowAttemptState::Running,
    };
    let response = recovered_handshake(Ok(adopted)).unwrap();
    assert_eq!(response.disposition, WorkflowWorkerHandshakeDisposition::Recovered);
    assert_eq!(response.attempt_state, WorkflowAttemptState::Running);
    assert_eq!(
        recovered_handshake(Err(WorkflowCoordinatorError::StaleExecutionLease)).err(),
        Some(WorkflowCoordinatorError::StaleExecutionLease)
    );
    let fresh = fresh_handshake(WorkflowAttemptState::Dispatching);
    assert_eq!(fresh.disposition, WorkflowWorkerHandshakeDisposition::Fresh);
}
