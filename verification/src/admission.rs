use vstd::prelude::*;

use crate::error::WorkflowCoordinatorError;
use crate::failure::{boundable, bound_reason, bounded_as, short_reason};
use crate::identity::{name_valid, owner_valid, same_text, valid_name, WorkflowOwner};
use crate::mode::WorkflowCoordinatorMode;
use crate::order::texts;
use crate::run::{run_state_terminal, WorkflowRunState};

verus! {

/// Whether an owner's runs must be loaded from the journal.
#[derive(Clone, Copy, Debug, PartialEq, Eq, Structural)]
pub enum RecoverStep {
    /// The owner's runs are already in memory.
    AlreadyRecovered,
    /// Load the owner's runs from the journal.
    Recover,
}

/// The checks before recovering an owner, in order.
pub open spec fn recover_check(
    mode: WorkflowCoordinatorMode,
    owner: WorkflowOwner,
    poisoned: bool,
) -> Option<WorkflowCoordinatorError> {
    if mode == WorkflowCoordinatorMode::Disabled {
        Some(WorkflowCoordinatorError::Disabled)
    } else if !owner_valid(owner) {
        Some(WorkflowCoordinatorError::InvalidOwner)
    } else if poisoned {
        Some(WorkflowCoordinatorError::OwnerPoisoned)
    } else {
        None
    }
}

/// Checks `recover_check` and whether the owner still needs recovery.
pub fn recover_guard(
    mode: WorkflowCoordinatorMode,
    owner: &WorkflowOwner,
    poisoned: bool,
    recovered: bool,
) -> (r: Result<RecoverStep, WorkflowCoordinatorError>)
    ensures
        recover_check(mode, *owner, poisoned) matches Some(e) ==> r == Err::<
            RecoverStep,
            WorkflowCoordinatorError,
        >(e),
        recover_check(mode, *owner, poisoned) is None ==> r == Ok::<
            RecoverStep,
            WorkflowCoordinatorError,
        >(if recovered {
            RecoverStep::AlreadyRecovered
        } else {
            RecoverStep::Recover
        }),
{
    if mode == WorkflowCoordinatorMode::Disabled {
        return Err(WorkflowCoordinatorError::Disabled);
    }
    if !owner.is_valid() {
        return Err(WorkflowCoordinatorError::InvalidOwner);
    }
    if poisoned {
        return Err(WorkflowCoordinatorError::OwnerPoisoned);
    }
    Ok(
        if recovered {
            RecoverStep::AlreadyRecovered
        } else {
            RecoverStep::Recover
        },
    )
}

/// Starting or reading a run needs an enabled coordinator and a valid owner.
pub fn admission_guard(mode: WorkflowCoordinatorMode, owner: &WorkflowOwner) -> (r: Result<
    (),
    WorkflowCoordinatorError,
>)
    ensures
        mode == WorkflowCoordinatorMode::Disabled ==> r == Err::<(), WorkflowCoordinatorError>(
            WorkflowCoordinatorError::Disabled,
        ),
        mode != WorkflowCoordinatorMode::Disabled && !owner_valid(*owner) ==> r == Err::<
            (),
            WorkflowCoordinatorError,
        >(WorkflowCoordinatorError::InvalidOwner),
        mode != WorkflowCoordinatorMode::Disabled && owner_valid(*owner) ==> r is Ok,
{
    if mode == WorkflowCoordinatorMode::Disabled {
        return Err(WorkflowCoordinatorError::Disabled);
    }
    if !owner.is_valid() {
        return Err(WorkflowCoordinatorError::InvalidOwner);
    }
    Ok(())
}

/// Reading an owner's runs also refuses a poisoned owner.
pub fn snapshot_guard(mode: WorkflowCoordinatorMode, owner: &WorkflowOwner, poisoned: bool) -> (r:
    Result<(), WorkflowCoordinatorError>)
    ensures
        r is Ok <==> recover_check(mode, *owner, poisoned) is None,
        r matches Err(e) ==> recover_check(mode, *owner, poisoned) == Some(e),
{
    admission_guard(mode, owner)?;
    if poisoned {
        return Err(WorkflowCoordinatorError::OwnerPoisoned);
    }
    Ok(())
}

/// Cancelling needs an enabled coordinator, a valid owner and a valid run id.
pub fn cancel_guard(mode: WorkflowCoordinatorMode, owner: &WorkflowOwner, run_id: &String) -> (r:
    Result<(), WorkflowCoordinatorError>)
    ensures
        mode == WorkflowCoordinatorMode::Disabled ==> r == Err::<(), WorkflowCoordinatorError>(
            WorkflowCoordinatorError::Disabled,
        ),
        mode != WorkflowCoordinatorMode::Disabled && !owner_valid(*owner) ==> r == Err::<
            (),
            WorkflowCoordinatorError,
        >(WorkflowCoordinatorError::InvalidOwner),
        mode != WorkflowCoordinatorMode::Disabled && owner_valid(*owner) && !name_valid(run_id@)
            ==> r == Err::<(), WorkflowCoordinatorError>(WorkflowCoordinatorError::InvalidRunId),
        mode != WorkflowCoordinatorMode::Disabled && owner_valid(*owner) && name_valid(run_id@)
            ==> r is Ok,
{
    admission_guard(mode, owner)?;
    if !valid_name(run_id) {
        return Err(WorkflowCoordinatorError::InvalidRunId);
    }
    Ok(())
}

/// A cancel request changes the run only while it is neither terminal nor
/// already cancelling.
pub fn cancel_needs_event(state: WorkflowRunState) -> (r: bool)
    ensures
        r == (!run_state_terminal(state) && state != WorkflowRunState::Cancelling),
{
    !state.is_terminal() && state != WorkflowRunState::Cancelling
}

/// The reason recorded for a cancellation: the requested one, or
/// `workflow cancelled`, cut to the journal's bound.
pub fn cancel_reason(reason: Option<String>) -> (r: String)
    requires
        reason matches Some(text) ==> boundable(text@),
    ensures
        reason matches Some(text) ==> bounded_as(text@, r@),
        reason is None ==> r@ == "workflow cancelled"@,
{
    match reason {
        Some(text) => bound_reason(text),
        None => {
            proof {
                reveal_strlit("workflow cancelled");
            }
            short_reason("workflow cancelled")
        },
    }
}

/// The entries of `intents`, in order, whose id is not acknowledged.
pub open spec fn undelivered<N>(intents: Seq<(String, N)>, acked: Seq<Seq<char>>) -> Seq<(String, N)>
    decreases intents.len(),
{
    if intents.len() == 0 {
        Seq::empty()
    } else {
        let rest = undelivered(intents.drop_last(), acked);
        if acked.contains(intents.last().0@) {
            rest
        } else {
            rest.push(intents.last())
        }
    }
}

/// Whether the id occurs among the acknowledged ones.
fn acknowledged(acked: &Vec<String>, id: &String) -> (r: bool)
    ensures
        r == texts(acked@).contains(id@),
{
    let mut i: usize = 0;
    while i < acked.len()
        invariant
            i <= acked@.len(),
            forall|j: int| 0 <= j < i ==> #[trigger] acked@[j]@ != id@,
        decreases acked@.len() - i,
    {
        if same_text(&acked[i], id) {
            assert(texts(acked@)[i as int] == id@);
            return true;
        }
        i = i + 1;
    }
    proof {
        if texts(acked@).contains(id@) {
            let j = choose|j: int| 0 <= j < texts(acked@).len() && #[trigger] texts(acked@)[j] == id@;
            assert(acked@[j]@ == id@);
        }
    }
    false
}

/// The terminal notifications recovered from the journal whose delivery was
/// not acknowledged, in journal order.
pub fn undelivered_intents<N>(intents: Vec<(String, N)>, acked: &Vec<String>) -> (r: Vec<(String, N)>)
    ensures
        r@ == undelivered(intents@, texts(acked@)),
{
    let mut rest = intents;
    let ghost all = rest@;
    let n = rest.len();
    let mut kept: Vec<(String, N)> = Vec::new();
    let mut k: usize = 0;
    while rest.len() > 0
        invariant
            n == all.len(),
            k + rest@.len() == all.len(),
            rest@ == all.skip(k as int),
            kept@ == undelivered(all.take(k as int), texts(acked@)),
        decreases rest@.len(),
    {
        proof {
            assert(all.take(k + 1).drop_last() =~= all.take(k as int));
            assert(all.take(k + 1).last() == all[k as int]);
        }
        let entry = rest.remove(0);
        proof {
            assert(entry == all[k as int]);
            assert(rest@ =~= all.skip(k + 1));
        }
        if !acknowledged(acked, &entry.0) {
            kept.push(entry);
        }
        k = k + 1;
    }
    proof {
        assert(all.take(k as int) =~= all);
    }
    kept
}

} // verus!

verus! {

/// How a new cancel request for a run is answered.
#[derive(Clone, Copy, Debug, PartialEq, Eq, Structural)]
pub struct CancelPlan {
    /// The answer reports the run as already terminal.
    pub already_terminal: bool,
    /// A cancellation is journaled with the request, the run's new revision
    /// is published and the cancel effects begin. Otherwise only the request
    /// is journaled and the answer summarizes the run as it stands.
    pub request_cancel: bool,
}

/// Plans the answer to a cancel request for a run in `state`.
pub fn cancel_plan(state: WorkflowRunState) -> (r: CancelPlan)
    ensures
        r.already_terminal == run_state_terminal(state),
        r.request_cancel == (!run_state_terminal(state) && state != WorkflowRunState::Cancelling),
{
    CancelPlan { already_terminal: state.is_terminal(), request_cancel: cancel_needs_event(state) }
}

} // verus!
