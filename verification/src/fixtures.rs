use vstd::prelude::*;

use crate::callbacks::WorkflowPreparedWorker;
use crate::failure::{make_failure, WorkflowFailureClass, WorkflowSpawnFailure};
use crate::identity::{AgentExecutionRef, AttemptKey, QualifiedAddress, WorkflowOwner};
use crate::recovery::WorkflowAttemptReconnect;
use crate::run::{
    WorkflowAgentNode, WorkflowAttemptSnapshot, WorkflowAttemptState, WorkflowLimits,
    WorkflowNodeSnapshot, WorkflowNodeState, WorkflowRunSnapshot, WorkflowRunState, WorkflowSpec,
};
use crate::scheduler::{ActiveAttempt, ActiveAttemptPhase, PendingAttempt};

verus! {

/// The owner the scheduler scenarios run as: a coverage session rooted at
/// the local agent `root`.
pub fn owner() -> (r: WorkflowOwner)
    ensures
        r.session_id@ == "scheduler-coverage-session"@,
        r.root_agent.hub is None,
        r.root_agent.agent@ == "root"@,
{
    WorkflowOwner::new("scheduler-coverage-session", QualifiedAddress::local("root"))
}

/// The limits of the scenario spec: one node, one attempt at a time, a
/// second-long run and a short attempt timeout.
pub open spec fn scenario_limits() -> WorkflowLimits {
    WorkflowLimits {
        max_nodes: 1,
        max_parallel: 1,
        max_attempts: 1,
        run_deadline_ms: 1_000,
        attempt_timeout_ms: 100,
        max_output_bytes: 1_024,
    }
}

/// A one-node spec whose node `node` is also the output node.
pub fn spec() -> (r: WorkflowSpec)
    ensures
        r.limits == scenario_limits(),
        r.output_node@ == "node"@,
        r.nodes@.len() == 1,
        r.nodes@[0].id@ == "node"@,
        r.nodes@[0].dependencies@.len() == 0,
        r.nodes@[0].worker_profile@ == "default"@,
        r.output_max_bytes == 512,
{
    let mut nodes: Vec<WorkflowAgentNode> = Vec::new();
    nodes.push(
        WorkflowAgentNode {
            id: "node".to_owned(),
            dependencies: Vec::new(),
            task: "run the scheduler case".to_owned(),
            worker_profile: "default".to_owned(),
        },
    );
    WorkflowSpec {
        run_goal: "exercise scheduler invariants".to_owned(),
        nodes,
        limits: WorkflowLimits {
            max_nodes: 1,
            max_parallel: 1,
            max_attempts: 1,
            run_deadline_ms: 1_000,
            attempt_timeout_ms: 100,
            max_output_bytes: 1_024,
        },
        output_node: "node".to_owned(),
        output_max_bytes: 512,
    }
}

/// A preparation record of the owner for the key, with a deadline at 100
/// and nothing decided yet.
pub fn pending<T>(owner: &WorkflowOwner, key: &AttemptKey) -> (r: PendingAttempt<T>)
    ensures
        r == crate::dispatch::fresh_pending::<T>(*owner, *key, 100),
{
    PendingAttempt {
        owner: owner.clone(),
        key: key.clone(),
        causation: key.clone(),
        deadline_unix_ms: 100,
        prepare_abort: None,
        abort_waiter: None,
        abort_requested: false,
        abort_status: None,
        delivery_finished: false,
        late_execution: None,
        late_shutdown_waiter: None,
        stop: None,
    }
}

/// A bound worker record in the given phase, with a deadline at 100 and no
/// outcome, tasks or stop.
pub fn active<T, O>(
    owner: &WorkflowOwner,
    key: &AttemptKey,
    execution: AgentExecutionRef,
    phase: ActiveAttemptPhase,
) -> (r: ActiveAttempt<T, O>)
    ensures
        r == (ActiveAttempt::<T, O> {
            owner: *owner,
            key: *key,
            execution,
            outcome: None,
            outcome_waiter: None,
            shutdown_waiter: None,
            deadline_unix_ms: 100,
            shutdown_after_unix_ms: None,
            phase,
            stop: None,
        }),
{
    ActiveAttempt {
        owner: owner.clone(),
        key: key.clone(),
        execution,
        outcome: None,
        outcome_waiter: None,
        shutdown_waiter: None,
        deadline_unix_ms: 100,
        shutdown_after_unix_ms: None,
        phase,
        stop: None,
    }
}

/// A worker failure of the given class and reason.
pub fn spawn_failure(class: WorkflowFailureClass, reason: &str) -> (r: WorkflowSpawnFailure)
    ensures
        crate::failure::failure_is(r, "scheduler_test_failure"@, class, reason@),
{
    make_failure("scheduler_test_failure", class, reason)
}

/// The key of attempt `attempt_id` of node `node` in run `run_id`.
pub fn node_key(run_id: &String, attempt_id: &str) -> (r: AttemptKey)
    ensures
        r.run_id == *run_id,
        r.node_id@ == "node"@,
        r.attempt_id@ == attempt_id@,
{
    AttemptKey {
        run_id: run_id.clone(),
        node_id: "node".to_owned(),
        attempt_id: attempt_id.to_owned(),
    }
}

/// The capability the scenario workers carry: 32 bytes of 0x44.
pub open spec fn scenario_capability_bytes() -> Seq<u8> {
    Seq::new(32, |i: int| 0x44u8)
}

/// Builds `scenario_capability_bytes`.
pub fn scenario_capability() -> (r: Vec<u8>)
    ensures
        r@ == scenario_capability_bytes(),
{
    let mut bytes: Vec<u8> = Vec::new();
    while bytes.len() < 32
        invariant
            bytes@.len() <= 32,
            forall|i: int| 0 <= i < bytes@.len() ==> bytes@[i] == 0x44,
        decreases 32 - bytes@.len(),
    {
        bytes.push(0x44);
    }
    assert(bytes@ =~= scenario_capability_bytes());
    bytes
}

/// A reclaim request for the run's first attempt by generation 7 of its
/// bound agent, or of `worker` when none is bound. The run must have an attempt.
pub fn reconnect_request(run: &WorkflowRunSnapshot, key: &AttemptKey) -> (r: WorkflowAttemptReconnect)
    requires
        run.attempts@.len() > 0,
    ensures
        r.causation == *key,
        r.capability@ == scenario_capability_bytes(),
        r.execution.address.hub is None,
        r.execution.connection_generation == 7,
        run.attempts@[0].agent matches Some(agent) ==> r.execution.address.agent@ == agent.agent@,
        run.attempts@[0].agent is None ==> r.execution.address.agent@ == "worker"@,
{
    let execution = match &run.attempts[0].agent {
        Some(agent) => AgentExecutionRef::local(agent.agent.as_str(), 7),
        None => AgentExecutionRef::local("worker", 7),
    };
    WorkflowAttemptReconnect { causation: key.clone(), capability: scenario_capability(), execution }
}

/// The scenario spec's node in the given state, with the given current attempt.
fn scenario_node(state: WorkflowNodeState, current_attempt: Option<String>) -> (r: Vec<
    WorkflowNodeSnapshot,
>)
    ensures
        r@.len() == 1,
        r@[0].id@ == "node"@,
        r@[0].state == state,
        r@[0].current_attempt == current_attempt,
{
    let mut nodes: Vec<WorkflowNodeSnapshot> = Vec::new();
    nodes.push(WorkflowNodeSnapshot { id: "node".to_owned(), state, current_attempt });
    nodes
}

/// A run of the scenario spec planned by `root` at 10.
pub fn planned_run(run_id: &str) -> (r: WorkflowRunSnapshot)
    ensures
        r.id@ == run_id@,
        r.state == WorkflowRunState::Planned,
        r.spec.limits == scenario_limits(),
        r.created_at_unix_ms == 10,
        r.updated_at_unix_ms == 10,
        r.nodes@.len() == 1 && r.nodes@[0].state == WorkflowNodeState::Pending,
        r.attempts@.len() == 0,
{
    WorkflowRunSnapshot {
        id: run_id.to_owned(),
        root_agent: QualifiedAddress::local("root"),
        state: WorkflowRunState::Planned,
        spec: spec(),
        created_at_unix_ms: 10,
        updated_at_unix_ms: 10,
        nodes: scenario_node(WorkflowNodeState::Pending, None),
        attempts: Vec::new(),
    }
}

/// The planned run once its spec was validated at 11.
pub fn validated_run(run_id: &str) -> (r: WorkflowRunSnapshot)
    ensures
        r.id@ == run_id@,
        r.state == WorkflowRunState::Validated,
        r.spec.limits == scenario_limits(),
        r.created_at_unix_ms == 10,
        r.updated_at_unix_ms == 11,
        r.nodes@.len() == 1 && r.nodes@[0].state == WorkflowNodeState::Pending,
        r.attempts@.len() == 0,
{
    let mut run = planned_run(run_id);
    run.state = WorkflowRunState::Validated;
    run.updated_at_unix_ms = 11;
    run
}

/// The validated run once started at 12: its node, which has no
/// dependencies, is ready.
pub fn running_ready_run(run_id: &str) -> (r: WorkflowRunSnapshot)
    ensures
        r.id@ == run_id@,
        r.state == WorkflowRunState::Running,
        r.spec.limits == scenario_limits(),
        r.created_at_unix_ms == 10,
        r.updated_at_unix_ms == 12,
        r.nodes@.len() == 1 && r.nodes@[0].state == WorkflowNodeState::Ready
            && r.nodes@[0].current_attempt is None,
        r.attempts@.len() == 0,
{
    let mut run = validated_run(run_id);
    run.state = WorkflowRunState::Running;
    run.updated_at_unix_ms = 12;
    run.nodes = scenario_node(WorkflowNodeState::Ready, None);
    run
}

/// The running run once attempt `attempt_id` of its node was dispatched at
/// 13, with the scenario capability. Also returns the attempt's key.
pub fn dispatching_run(run_id: &str, attempt_id: &str) -> (r: (WorkflowRunSnapshot, AttemptKey))
    ensures
        r.0.id@ == run_id@,
        r.0.state == WorkflowRunState::Running,
        r.0.spec.limits == scenario_limits(),
        r.0.created_at_unix_ms == 10,
        r.0.updated_at_unix_ms == 13,
        r.0.nodes@.len() == 1 && r.0.nodes@[0].state == WorkflowNodeState::Running,
        r.0.attempts@.len() == 1,
        r.0.attempts@[0].id@ == attempt_id@,
        r.0.attempts@[0].node_id@ == "node"@,
        r.0.attempts@[0].state == WorkflowAttemptState::Dispatching,
        r.0.attempts@[0].agent is None,
        !r.0.attempts@[0].entered_running,
        r.0.attempts@[0].dispatched_at_unix_ms == 13,
        r.0.attempts@[0].capability_digest@ == scenario_capability_bytes(),
        r.1.run_id == r.0.id,
        r.1.node_id@ == "node"@,
        r.1.attempt_id@ == attempt_id@,
{
    let mut run = running_ready_run(run_id);
    let key = node_key(&run.id, attempt_id);
    run.updated_at_unix_ms = 13;
    run.nodes = scenario_node(WorkflowNodeState::Running, Some(key.attempt_id.clone()));
    let mut attempts: Vec<WorkflowAttemptSnapshot> = Vec::new();
    attempts.push(
        WorkflowAttemptSnapshot {
            id: key.attempt_id.clone(),
            node_id: key.node_id.clone(),
            state: WorkflowAttemptState::Dispatching,
            agent: None,
            entered_running: false,
            capability_digest: scenario_capability(),
            dispatched_at_unix_ms: 13,
        },
    );
    run.attempts = attempts;
    (run, key)
}

/// The dispatching run once its attempt was bound to the local `worker` at 14.
pub fn bound_run(run_id: &str, attempt_id: &str) -> (r: (WorkflowRunSnapshot, AttemptKey))
    ensures
        r.0.id@ == run_id@,
        r.0.state == WorkflowRunState::Running,
        r.0.spec.limits == scenario_limits(),
        r.0.updated_at_unix_ms == 14,
        r.0.attempts@.len() == 1,
        r.0.attempts@[0].id@ == attempt_id@,
        r.0.attempts@[0].node_id@ == "node"@,
        r.0.attempts@[0].state == WorkflowAttemptState::Dispatching,
        r.0.attempts@[0].agent matches Some(a) && a.hub is None && a.agent@ == "worker"@,
        !r.0.attempts@[0].entered_running,
        r.0.attempts@[0].capability_digest@ == scenario_capability_bytes(),
        r.0.attempts@[0].dispatched_at_unix_ms == 13,
        r.1.run_id == r.0.id,
        r.1.node_id@ == "node"@,
        r.1.attempt_id@ == attempt_id@,
{
    let (mut run, key) = dispatching_run(run_id, attempt_id);
    let mut attempt = run.attempts.pop().unwrap();
    attempt.agent = Some(QualifiedAddress::local("worker"));
    run.attempts.push(attempt);
    run.updated_at_unix_ms = 14;
    (run, key)
}

/// The bound run once its attempt was reported running at 15.
pub fn running_attempt_run(run_id: &str, attempt_id: &str) -> (r: (WorkflowRunSnapshot, AttemptKey))
    ensures
        r.0.id@ == run_id@,
        r.0.state == WorkflowRunState::Running,
        r.0.spec.limits == scenario_limits(),
        r.0.updated_at_unix_ms == 15,
        r.0.attempts@.len() == 1,
        r.0.attempts@[0].id@ == attempt_id@,
        r.0.attempts@[0].node_id@ == "node"@,
        r.0.attempts@[0].state == WorkflowAttemptState::Running,
        r.0.attempts@[0].agent matches Some(a) && a.hub is None && a.agent@ == "worker"@,
        r.0.attempts@[0].entered_running,
        r.0.attempts@[0].capability_digest@ == scenario_capability_bytes(),
        r.0.attempts@[0].dispatched_at_unix_ms == 13,
        r.1.run_id == r.0.id,
        r.1.node_id@ == "node"@,
        r.1.attempt_id@ == attempt_id@,
{
    let (mut run, key) = bound_run(run_id, attempt_id);
    let mut attempt = run.attempts.pop().unwrap();
    attempt.state = WorkflowAttemptState::Running;
    attempt.entered_running = true;
    run.attempts.push(attempt);
    run.updated_at_unix_ms = 15;
    (run, key)
}

/// The dispatching run once its cancellation was requested at 14.
pub fn cancelling_dispatch_run(run_id: &str, attempt_id: &str) -> (r: (
    WorkflowRunSnapshot,
    AttemptKey,
))
    ensures
        r.0.id@ == run_id@,
        r.0.state == WorkflowRunState::Cancelling,
        r.0.spec.limits == scenario_limits(),
        r.0.updated_at_unix_ms == 14,
        r.0.attempts@.len() == 1,
        r.0.attempts@[0].id@ == attempt_id@,
        r.0.attempts@[0].node_id@ == "node"@,
        r.0.attempts@[0].state == WorkflowAttemptState::Dispatching,
        r.0.attempts@[0].agent is None,
        r.0.attempts@[0].capability_digest@ == scenario_capability_bytes(),
        r.1.run_id == r.0.id,
        r.1.node_id@ == "node"@,
        r.1.attempt_id@ == attempt_id@,
{
    let (mut run, key) = dispatching_run(run_id, attempt_id);
    run.state = WorkflowRunState::Cancelling;
    run.updated_at_unix_ms = 14;
    (run, key)
}

/// The dispatching run once its only attempt failed for good at 14, which
/// fails its node and the run.
pub fn terminal_run(run_id: &str, attempt_id: &str) -> (r: (WorkflowRunSnapshot, AttemptKey))
    ensures
        r.0.id@ == run_id@,
        r.0.state == WorkflowRunState::Failed,
        r.0.spec.limits == scenario_limits(),
        r.0.updated_at_unix_ms == 14,
        r.0.nodes@.len() == 1 && r.0.nodes@[0].state == WorkflowNodeState::Failed,
        r.0.attempts@.len() == 1,
        r.0.attempts@[0].id@ == attempt_id@,
        r.0.attempts@[0].node_id@ == "node"@,
        r.0.attempts@[0].state == WorkflowAttemptState::Failed,
        r.0.attempts@[0].agent is None,
        r.0.attempts@[0].capability_digest@ == scenario_capability_bytes(),
        r.1.run_id == r.0.id,
        r.1.node_id@ == "node"@,
        r.1.attempt_id@ == attempt_id@,
{
    let (mut run, key) = dispatching_run(run_id, attempt_id);
    let mut attempt = run.attempts.pop().unwrap();
    attempt.state = WorkflowAttemptState::Failed;
    run.attempts.push(attempt);
    run.nodes = scenario_node(WorkflowNodeState::Failed, Some(key.attempt_id.clone()));
    run.state = WorkflowRunState::Failed;
    run.updated_at_unix_ms = 14;
    (run, key)
}

/// A prepared worker for the execution with the given outcome receiver.
pub fn prepared_worker<O>(execution: AgentExecutionRef, outcome: O) -> (r: WorkflowPreparedWorker<O>)
    ensures
        r.execution == execution,
        r.outcome == outcome,
{
    WorkflowPreparedWorker { execution, outcome }
}

} // verus!
