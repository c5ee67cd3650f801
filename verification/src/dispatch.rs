use vstd::prelude::*;

use crate::error::WorkflowCoordinatorError;
use crate::identity::{name_valid, owner_valid, same_text, valid_name, AttemptKey, WorkflowOwner};
use crate::mode::{mode_executes, WorkflowCoordinatorMode};
use crate::order::texts;
use crate::run::{
    count_live_attempts, has_attempt, find_attempt, live_attempts, run_expired_at, saturating_sum,
    WorkflowNodeSnapshot, WorkflowNodeState, WorkflowRunSnapshot, WorkflowRunState, WorkflowSpec,
};
use crate::scheduler::{PendingAttempt, WorkflowScheduler};
use crate::slots::{find_slot, has_slot, slot};

verus! {

/// The checks before scheduling a run, in order.
pub open spec fn dispatch_check(
    mode: WorkflowCoordinatorMode,
    owner: WorkflowOwner,
    run_id: Seq<char>,
    poisoned: bool,
    recovered: bool,
) -> Option<WorkflowCoordinatorError> {
    if !mode_executes(mode) {
        Some(WorkflowCoordinatorError::Disabled)
    } else if !owner_valid(owner) {
        Some(WorkflowCoordinatorError::InvalidOwner)
    } else if !name_valid(run_id) {
        Some(WorkflowCoordinatorError::InvalidRunId)
    } else if poisoned {
        Some(WorkflowCoordinatorError::OwnerPoisoned)
    } else if !recovered {
        Some(WorkflowCoordinatorError::RecoveryRequired)
    } else {
        None
    }
}

/// Checks `dispatch_check`.
pub fn validate_dispatch(
    mode: WorkflowCoordinatorMode,
    owner: &WorkflowOwner,
    run_id: &String,
    poisoned: bool,
    recovered: bool,
) -> (r: Result<(), WorkflowCoordinatorError>)
    ensures
        r is Ok <==> dispatch_check(mode, *owner, run_id@, poisoned, recovered) is None,
        r matches Err(e) ==> dispatch_check(mode, *owner, run_id@, poisoned, recovered) == Some(e),
{
    if !mode.executes() {
        return Err(WorkflowCoordinatorError::Disabled);
    }
    if !owner.is_valid() {
        return Err(WorkflowCoordinatorError::InvalidOwner);
    }
    if !valid_name(run_id) {
        return Err(WorkflowCoordinatorError::InvalidRunId);
    }
    if poisoned {
        return Err(WorkflowCoordinatorError::OwnerPoisoned);
    }
    if !recovered {
        return Err(WorkflowCoordinatorError::RecoveryRequired);
    }
    Ok(())
}

/// What scheduling a run does next.
#[derive(Clone, Copy, Debug, PartialEq, Eq, Structural)]
pub enum DispatchPhase {
    /// The run was validated: journal its start.
    StartRun,
    /// The run is not running: nothing to schedule.
    Idle,
    /// The run's deadline passed: expire it.
    Expired,
    /// Dispatch ready nodes.
    Dispatch,
}

/// The next step of scheduling a run at `now`.
pub fn dispatch_phase(run: &WorkflowRunSnapshot, now: u64) -> (r: DispatchPhase)
    ensures
        r == (if run.state == WorkflowRunState::Validated {
            DispatchPhase::StartRun
        } else if run.state != WorkflowRunState::Running {
            DispatchPhase::Idle
        } else if run_expired_at(*run, now) {
            DispatchPhase::Expired
        } else {
            DispatchPhase::Dispatch
        }),
{
    if run.state == WorkflowRunState::Validated {
        DispatchPhase::StartRun
    } else if run.state != WorkflowRunState::Running {
        DispatchPhase::Idle
    } else if crate::run::run_expired(run, now) {
        DispatchPhase::Expired
    } else {
        DispatchPhase::Dispatch
    }
}

/// How many more attempts the run may have in flight. No more attempts
/// may be live than the run's parallelism allows.
pub fn dispatch_slots(run: &WorkflowRunSnapshot) -> (r: usize)
    requires
        live_attempts(run.attempts@) <= run.spec.limits.max_parallel,
    ensures
        r == run.spec.limits.max_parallel - live_attempts(run.attempts@),
        r == run.spec.limits.max_parallel - run.attempts@.filter(
            |a: crate::run::WorkflowAttemptSnapshot| crate::laws::unresolved(a),
        ).len(),
{
    let live = count_live_attempts(run);
    run.spec.limits.max_parallel as usize - live
}

/// The ids of the ready nodes, in order.
pub open spec fn ready_ids(nodes: Seq<WorkflowNodeSnapshot>) -> Seq<Seq<char>>
    decreases nodes.len(),
{
    if nodes.len() == 0 {
        Seq::empty()
    } else if nodes.last().state == WorkflowNodeState::Ready {
        ready_ids(nodes.drop_last()).push(nodes.last().id@)
    } else {
        ready_ids(nodes.drop_last())
    }
}

/// At most the first `n` elements of `s`.
pub open spec fn first_n<A>(s: Seq<A>, n: nat) -> Seq<A> {
    if s.len() <= n {
        s
    } else {
        s.take(n as int)
    }
}

/// The first `slots` ready nodes of the run, in order.
pub fn ready_nodes(run: &WorkflowRunSnapshot, slots: usize) -> (r: Vec<String>)
    ensures
        texts(r@) == first_n(ready_ids(run.nodes@), slots as nat),
{
    let mut picked: Vec<String> = Vec::new();
    let mut i: usize = 0;
    while i < run.nodes.len()
        invariant
            i <= run.nodes@.len(),
            texts(picked@) == first_n(ready_ids(run.nodes@.take(i as int)), slots as nat),
        decreases run.nodes@.len() - i,
    {
        proof {
            assert(run.nodes@.take(i + 1).drop_last() =~= run.nodes@.take(i as int));
            assert(run.nodes@.take(i + 1).last() == run.nodes@[i as int]);
        }
        if run.nodes[i].state == WorkflowNodeState::Ready {
            let ghost before = ready_ids(run.nodes@.take(i as int));
            proof {
                assert(ready_ids(run.nodes@.take(i + 1)) == before.push(run.nodes@[i as int].id@));
                if before.len() >= slots {
                    assert(first_n(before.push(run.nodes@[i as int].id@), slots as nat) =~= first_n(
                        before,
                        slots as nat,
                    ));
                }
            }
            if picked.len() < slots {
                let ghost prev = picked@;
                picked.push(run.nodes[i].id.clone());
                proof {
                    assert(texts(picked@) =~= texts(prev).push(run.nodes@[i as int].id@));
                    assert(first_n(before.push(run.nodes@[i as int].id@), slots as nat) =~= first_n(
                        before,
                        slots as nat,
                    ).push(run.nodes@[i as int].id@));
                }
            }
        }
        i = i + 1;
    }
    proof {
        assert(run.nodes@.take(i as int) =~= run.nodes@);
    }
    picked
}

/// Why a generated attempt id cannot be reserved, if it cannot.
pub open spec fn reservation_error<T, O>(
    scheduler: WorkflowScheduler<T, O>,
    run: WorkflowRunSnapshot,
    attempt_id: String,
) -> Option<WorkflowCoordinatorError> {
    if !name_valid(attempt_id@) {
        Some(WorkflowCoordinatorError::InvalidGeneratedAttemptId(attempt_id))
    } else if has_attempt(run, attempt_id@) || has_slot(scheduler.active@, attempt_id@) || has_slot(
        scheduler.pending@,
        attempt_id@,
    ) {
        Some(WorkflowCoordinatorError::AttemptIdCollision(attempt_id))
    } else {
        None
    }
}

/// A generated attempt id may be reserved when it is valid and no attempt
/// of the run, bound worker or pending preparation uses it.
pub fn check_reservation<T, O>(
    scheduler: &WorkflowScheduler<T, O>,
    run: &WorkflowRunSnapshot,
    attempt_id: &String,
) -> (r: Result<(), WorkflowCoordinatorError>)
    ensures
        r is Ok <==> reservation_error(*scheduler, *run, *attempt_id) is None,
        r matches Err(e) ==> reservation_error(*scheduler, *run, *attempt_id) == Some(e),
{
    if !valid_name(attempt_id) {
        return Err(WorkflowCoordinatorError::InvalidGeneratedAttemptId(attempt_id.clone()));
    }
    if find_attempt(run, attempt_id).is_some() || find_slot(&scheduler.active, attempt_id).is_some()
        || find_slot(&scheduler.pending, attempt_id).is_some() {
        return Err(WorkflowCoordinatorError::AttemptIdCollision(attempt_id.clone()));
    }
    Ok(())
}

/// The record of a freshly reserved attempt whose preparation is about to start.
pub open spec fn fresh_pending<T>(owner: WorkflowOwner, key: AttemptKey, deadline_unix_ms: u64) -> PendingAttempt<T> {
    PendingAttempt {
        owner,
        key,
        causation: key,
        deadline_unix_ms,
        prepare_abort: None,
        abort_waiter: None,
        abort_requested: false,
        abort_status: None,
        delivery_finished: false,
        late_execution: None,
        late_shutdown_waiter: None,
        stop: None,
    }
}

/// After `DispatchIntended` was journaled at `now`: the attempt is kept as
/// pending with a deadline of its attempt timeout after `now`.
pub fn reserve_pending<T, O>(
    scheduler: &mut WorkflowScheduler<T, O>,
    owner: &WorkflowOwner,
    key: &AttemptKey,
    now: u64,
    attempt_timeout_ms: u64,
)
    requires
        old(scheduler).wf(),
    ensures
        final(scheduler).wf(),
        final(scheduler).active == old(scheduler).active,
        crate::callbacks::put_done(
            old(scheduler).pending@,
            final(scheduler).pending@,
            key.attempt_id@,
            fresh_pending(*owner, *key, saturating_sum(now, attempt_timeout_ms)),
        ),
{
    let pending = PendingAttempt {
        owner: owner.clone(),
        key: key.clone(),
        causation: key.clone(),
        deadline_unix_ms: now.saturating_add(attempt_timeout_ms),
        prepare_abort: None,
        abort_waiter: None,
        abort_requested: false,
        abort_status: None,
        delivery_finished: false,
        late_execution: None,
        late_shutdown_waiter: None,
        stop: None,
    };
    scheduler.put_pending(key.attempt_id.clone(), pending);
}

} // verus!

verus! {

/// After a run was started, it is scheduled at once only when the
/// coordinator executes workflows and the owner's scheduling has resumed.
pub fn schedules_started_run(mode: WorkflowCoordinatorMode, resumed: bool, started: bool) -> (r: bool)
    ensures
        r == (started && mode_executes(mode) && resumed),
{
    started && mode.executes() && resumed
}

/// What the worker runtime needs to prepare an attempt's worker. `D` is a
/// result of one of the node's dependencies.
pub struct WorkflowSpawnRequest<D> {
    pub owner: WorkflowOwner,
    pub causation: AttemptKey,
    pub run_goal: String,
    pub task: String,
    pub dependency_results: Vec<D>,
    pub worker_profile: String,
    /// For the node that produces the run's output: the byte limit of that output.
    pub output_contract: Option<u32>,
    /// The most bytes the worker's completion result may hold.
    pub completion_result_limit: u32,
    pub attempt_capability: Vec<u8>,
}

/// `i` is the position of the first node of the spec with the given id.
pub open spec fn node_index_of(spec: WorkflowSpec, id: Seq<char>, i: int) -> bool {
    &&& 0 <= i < spec.nodes@.len()
    &&& spec.nodes@[i].id@ == id
    &&& forall|j: int| 0 <= j < i ==> spec.nodes@[j].id@ != id
}

/// Builds the request to prepare the worker of an attempt of the run. The
/// attempt's node must be one of the run's nodes.
pub fn spawn_request<D>(
    owner: &WorkflowOwner,
    run: &WorkflowRunSnapshot,
    key: &AttemptKey,
    dependency_results: Vec<D>,
    attempt_capability: Vec<u8>,
) -> (r: WorkflowSpawnRequest<D>)
    requires
        exists|i: int| 0 <= i < run.spec.nodes@.len() && #[trigger] run.spec.nodes@[i].id@ == key.node_id@,
    ensures
        exists|i: int|
            node_index_of(run.spec, key.node_id@, i) && r.task@ == #[trigger] run.spec.nodes@[i].task@
                && r.worker_profile@ == run.spec.nodes@[i].worker_profile@,
        r.owner == *owner,
        r.causation == *key,
        r.run_goal@ == run.spec.run_goal@,
        r.dependency_results == dependency_results,
        r.output_contract == (if key.node_id@ == run.spec.output_node@ {
            Some(run.spec.output_max_bytes)
        } else {
            None
        }),
        r.completion_result_limit == run.spec.limits.max_output_bytes,
        r.attempt_capability == attempt_capability,
{
    let mut i: usize = 0;
    while i < run.spec.nodes.len()
        invariant
            i <= run.spec.nodes@.len(),
            forall|j: int| 0 <= j < i ==> run.spec.nodes@[j].id@ != key.node_id@,
            exists|k: int| 0 <= k < run.spec.nodes@.len() && #[trigger] run.spec.nodes@[k].id@ == key.node_id@,
        ensures
            i < run.spec.nodes@.len(),
            run.spec.nodes@[i as int].id@ == key.node_id@,
            forall|j: int| 0 <= j < i ==> run.spec.nodes@[j].id@ != key.node_id@,
        decreases run.spec.nodes@.len() - i,
    {
        if same_text(&run.spec.nodes[i].id, &key.node_id) {
            break;
        }
        i = i + 1;
    }
    let node = &run.spec.nodes[i];
    let output_contract = if same_text(&key.node_id, &run.spec.output_node) {
        Some(run.spec.output_max_bytes)
    } else {
        None
    };
    let r = WorkflowSpawnRequest {
        owner: owner.clone(),
        causation: key.clone(),
        run_goal: run.spec.run_goal.clone(),
        task: node.task.clone(),
        dependency_results,
        worker_profile: node.worker_profile.clone(),
        output_contract,
        completion_result_limit: run.spec.limits.max_output_bytes,
        attempt_capability,
    };
    assert(node_index_of(run.spec, key.node_id@, i as int));
    assert(r.task@ == run.spec.nodes@[i as int].task@);
    assert(r.worker_profile@ == run.spec.nodes@[i as int].worker_profile@);
    r
}

} // verus!

verus! {

/// Scheduling a running run whose deadline passed: once the run was
/// expired the request fails with `RunDeadlineExceeded`, and a failure to
/// expire it is reported instead. No attempt is reserved either way.
pub fn expired_scheduling(expired: Result<(), WorkflowCoordinatorError>) -> (r: Result<
    (),
    WorkflowCoordinatorError,
>)
    ensures
        expired is Ok ==> r == Err::<(), WorkflowCoordinatorError>(
            WorkflowCoordinatorError::RunDeadlineExceeded,
        ),
        expired matches Err(e) ==> r == Err::<(), WorkflowCoordinatorError>(e),
{
    match expired {
        Ok(()) => Err(WorkflowCoordinatorError::RunDeadlineExceeded),
        Err(e) => Err(e),
    }
}

} // verus!
