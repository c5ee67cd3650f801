use vstd::prelude::*;

use crate::error::WorkflowCoordinatorError;
use crate::identity::{owner_valid, same_owner, same_text, WorkflowOwner};
use crate::mode::{mode_executes, WorkflowCoordinatorMode};
use crate::run::{
    any_live_attempt, any_ready_node, attempt_state_terminal, WorkflowNodeState,
    WorkflowRunSnapshot, WorkflowRunState,
};
use crate::scheduler::{active_in_run, WorkflowScheduler};

verus! {

/// The checks before reopening an owner's scheduling, in order.
pub open spec fn resume_check(
    mode: WorkflowCoordinatorMode,
    owner: WorkflowOwner,
    poisoned: bool,
    recovered: bool,
) -> Option<WorkflowCoordinatorError> {
    if !mode_executes(mode) {
        Some(WorkflowCoordinatorError::Disabled)
    } else if !owner_valid(owner) {
        Some(WorkflowCoordinatorError::InvalidOwner)
    } else if poisoned {
        Some(WorkflowCoordinatorError::OwnerPoisoned)
    } else if !recovered {
        Some(WorkflowCoordinatorError::RecoveryRequired)
    } else {
        None
    }
}

/// Checks `resume_check`.
pub fn validate_resume(
    mode: WorkflowCoordinatorMode,
    owner: &WorkflowOwner,
    poisoned: bool,
    recovered: bool,
) -> (r: Result<(), WorkflowCoordinatorError>)
    ensures
        r is Ok <==> resume_check(mode, *owner, poisoned, recovered) is None,
        r matches Err(e) ==> resume_check(mode, *owner, poisoned, recovered) == Some(e),
{
    if !mode.executes() {
        return Err(WorkflowCoordinatorError::Disabled);
    }
    if !owner.is_valid() {
        return Err(WorkflowCoordinatorError::InvalidOwner);
    }
    if poisoned {
        return Err(WorkflowCoordinatorError::OwnerPoisoned);
    }
    if !recovered {
        return Err(WorkflowCoordinatorError::RecoveryRequired);
    }
    Ok(())
}

/// A run is quiescent and schedulable: validated or running, no attempt
/// unresolved, nothing in custody, and, if running, a node ready.
pub open spec fn resumable_run<T, O>(
    scheduler: WorkflowScheduler<T, O>,
    owner: WorkflowOwner,
    run: WorkflowRunSnapshot,
) -> bool {
    &&& (run.state == WorkflowRunState::Validated || run.state == WorkflowRunState::Running)
    &&& forall|j: int|
        0 <= j < run.attempts@.len() ==> attempt_state_terminal(#[trigger] run.attempts@[j].state)
    &&& forall|j: int|
        0 <= j < scheduler.pending@.len() ==> !((#[trigger] scheduler.pending@[j]).1.owner@
            == owner@ && scheduler.pending@[j].1.key.run_id@ == run.id@)
    &&& forall|j: int|
        0 <= j < scheduler.active@.len() ==> !active_in_run(
            (#[trigger] scheduler.active@[j]).1,
            owner,
            run.id@,
        )
    &&& run.state == WorkflowRunState::Running ==> exists|j: int|
        0 <= j < run.nodes@.len() && (#[trigger] run.nodes@[j].state) == WorkflowNodeState::Ready
}

/// Checks `resumable_run`.
pub fn resumable<T, O>(scheduler: &WorkflowScheduler<T, O>, owner: &WorkflowOwner, run: &WorkflowRunSnapshot) -> (r:
    bool)
    ensures
        r == resumable_run(*scheduler, *owner, *run),
{
    if !(run.state == WorkflowRunState::Validated || run.state == WorkflowRunState::Running) {
        return false;
    }
    if any_live_attempt(run) {
        return false;
    }
    if scheduler.run_busy(owner, &run.id) {
        return false;
    }
    if run.state == WorkflowRunState::Running && !any_ready_node(run) {
        proof {
            assert forall|j: int| 0 <= j < run.nodes@.len() implies (#[trigger] run.nodes@[j].state)
                != WorkflowNodeState::Ready by {
                assert(!(run.nodes@[j].state is Ready));
            }
        }
        return false;
    }
    proof {
        if run.state == WorkflowRunState::Running {
            let j = choose|j: int| 0 <= j < run.nodes@.len() && (#[trigger] run.nodes@[j].state) is Ready;
            assert(run.nodes@[j].state == WorkflowNodeState::Ready);
        }
    }
    true
}

/// Scheduling a resumed run may end at its deadline without poisoning the
/// owner; any other failure poisons it.
pub fn resume_error_poisons(error: &WorkflowCoordinatorError) -> (r: bool)
    ensures
        r == !(*error is RunDeadlineExceeded),
{
    match error {
        WorkflowCoordinatorError::RunDeadlineExceeded => false,
        _ => true,
    }
}

} // verus!

verus! {

/// The ids of a list of runs, in order.
pub open spec fn run_ids(runs: Seq<WorkflowRunSnapshot>) -> Seq<Seq<char>> {
    runs.map_values(|run: WorkflowRunSnapshot| run.id@)
}

/// Whether one of the first `bound` runs has id `x` and is quiescent and
/// schedulable.
pub open spec fn resumes_within<T, O>(
    scheduler: WorkflowScheduler<T, O>,
    owner: WorkflowOwner,
    runs: Seq<WorkflowRunSnapshot>,
    bound: int,
    x: Seq<char>,
) -> bool {
    exists|j: int| 0 <= j < bound && runs[j].id@ == x && resumable_run(scheduler, owner, #[trigger] runs[j])
}

/// Whether some run of `runs` with id `x` is quiescent and schedulable.
pub open spec fn resumes<T, O>(
    scheduler: WorkflowScheduler<T, O>,
    owner: WorkflowOwner,
    runs: Seq<WorkflowRunSnapshot>,
    x: Seq<char>,
) -> bool {
    resumes_within(scheduler, owner, runs, runs.len() as int, x)
}

proof fn lemma_resumes_within_grows<T, O>(
    scheduler: WorkflowScheduler<T, O>,
    owner: WorkflowOwner,
    runs: Seq<WorkflowRunSnapshot>,
    bound: int,
    x: Seq<char>,
)
    requires
        resumes_within(scheduler, owner, runs, bound, x),
    ensures
        resumes_within(scheduler, owner, runs, bound + 1, x),
{
    let j = choose|j: int| 0 <= j < bound && runs[j].id@ == x && resumable_run(scheduler, owner, #[trigger] runs[j]);
    assert(0 <= j < bound + 1 && runs[j].id@ == x && resumable_run(scheduler, owner, runs[j]));
}

/// The owner's runs that resuming admits, in ascending id order: those that
/// are quiescent and schedulable. The scan changes nothing, so repeating it
/// gives the same runs. The runs' ids are distinct.
pub fn resume_targets<T, O>(
    scheduler: &WorkflowScheduler<T, O>,
    owner: &WorkflowOwner,
    runs: &Vec<WorkflowRunSnapshot>,
) -> (r: Vec<String>)
    requires
        crate::order::distinct_texts(run_ids(runs@)),
    ensures
        crate::order::strictly_ascending(crate::order::texts(r@)),
        forall|x: Seq<char>|
            crate::order::texts(r@).contains(x) <==> resumes(*scheduler, *owner, runs@, x),
{
    let mut picked: Vec<String> = Vec::new();
    let mut i: usize = 0;
    while i < runs.len()
        invariant
            i <= runs@.len(),
            crate::order::distinct_texts(run_ids(runs@)),
            crate::order::distinct_texts(crate::order::texts(picked@)),
            forall|k: int|
                0 <= k < picked@.len() ==> #[trigger] resumes_within(
                    *scheduler,
                    *owner,
                    runs@,
                    i as int,
                    picked@[k]@,
                ),
            forall|j: int|
                0 <= j < i && resumable_run(*scheduler, *owner, #[trigger] runs@[j])
                    ==> crate::order::texts(picked@).contains(runs@[j].id@),
        decreases runs@.len() - i,
    {
        let ghost prev = picked@;
        if resumable(scheduler, owner, &runs[i]) {
            picked.push(runs[i].id.clone());
            proof {
                assert(crate::order::texts(picked@) =~= crate::order::texts(prev).push(runs@[i as int].id@));
                assert forall|a: int, b: int|
                    0 <= a < crate::order::texts(picked@).len() && 0 <= b < crate::order::texts(
                        picked@,
                    ).len() && a != b implies crate::order::texts(picked@)[a] != crate::order::texts(
                        picked@,
                    )[b] by {
                    if a == prev.len() || b == prev.len() {
                        let k = if a == prev.len() { b } else { a };
                        assert(picked@[k] == prev[k]);
                        assert(resumes_within(*scheduler, *owner, runs@, i as int, prev[k]@));
                        let j = choose|j: int|
                            0 <= j < i && runs@[j].id@ == prev[k]@ && resumable_run(
                                *scheduler,
                                *owner,
                                #[trigger] runs@[j],
                            );
                        assert(run_ids(runs@)[j] == runs@[j].id@);
                        assert(run_ids(runs@)[i as int] == runs@[i as int].id@);
                    } else {
                        assert(crate::order::texts(prev)[a] == crate::order::texts(picked@)[a]);
                        assert(crate::order::texts(prev)[b] == crate::order::texts(picked@)[b]);
                    }
                }
            }
        }
        proof {
            assert forall|k: int| 0 <= k < picked@.len() implies #[trigger] resumes_within(
                *scheduler,
                *owner,
                runs@,
                i + 1,
                picked@[k]@,
            ) by {
                if k < prev.len() {
                    assert(picked@[k] == prev[k]);
                    lemma_resumes_within_grows(*scheduler, *owner, runs@, i as int, prev[k]@);
                } else {
                    assert(picked@[k]@ == runs@[i as int].id@);
                    assert(resumable_run(*scheduler, *owner, runs@[i as int]));
                }
            }
            assert forall|j: int|
                0 <= j < i + 1 && resumable_run(*scheduler, *owner, #[trigger] runs@[j])
                    implies crate::order::texts(picked@).contains(runs@[j].id@) by {
                if j < i {
                    let k = choose|k: int|
                        0 <= k < crate::order::texts(prev).len() && crate::order::texts(prev)[k]
                            == runs@[j].id@;
                    assert(picked@[k] == prev[k]);
                    assert(crate::order::texts(picked@)[k] == runs@[j].id@);
                } else {
                    assert(picked@.len() == prev.len() + 1);
                    assert(crate::order::texts(picked@)[prev.len() as int] == runs@[j].id@);
                }
            }
        }
        i = i + 1;
    }
    let sorted = crate::order::sort_ids(picked);
    proof {
        assert forall|x: Seq<char>|
            crate::order::texts(sorted@).contains(x) <==> resumes(*scheduler, *owner, runs@, x) by {
            if crate::order::texts(picked@).contains(x) {
                let k = choose|k: int|
                    0 <= k < crate::order::texts(picked@).len() && crate::order::texts(picked@)[k] == x;
                assert(crate::order::texts(picked@)[k] == picked@[k]@);
                assert(resumes_within(*scheduler, *owner, runs@, i as int, picked@[k]@));
            }
            if resumes(*scheduler, *owner, runs@, x) {
                let j = choose|j: int|
                    0 <= j < runs@.len() && runs@[j].id@ == x && resumable_run(
                        *scheduler,
                        *owner,
                        #[trigger] runs@[j],
                    );
            }
        }
    }
    sorted
}

} // verus!
