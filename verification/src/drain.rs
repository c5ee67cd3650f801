use vstd::prelude::*;

use crate::error::WorkflowCoordinatorError;
use crate::failure::{
    failure_is, make_failure, no_retry_failure, StopDisposition, WorkflowCleanupStatus,
    WorkflowFailureClass, WorkflowSpawnFailure,
};
use crate::identity::AttemptKey;
use crate::payload::WorkflowEventPayload;
use crate::run::WorkflowRunState;

verus! {

/// Whether a drained attempt was still being prepared or was bound.
#[derive(Clone, Copy, Debug, PartialEq, Eq, Structural)]
pub enum DrainKind {
    Pending,
    Active,
}

/// The failure recorded when cleanup during shutdown timed out.
pub fn cleanup_failure(kind: DrainKind) -> (r: WorkflowSpawnFailure)
    ensures
        failure_is(
            r,
            "workflow_cleanup_timeout"@,
            WorkflowFailureClass::AmbiguousExecution,
            if kind == DrainKind::Pending {
                "workflow worker preparation cleanup timed out"@
            } else {
                "workflow worker shutdown timed out"@
            },
        ),
{
    let reason = match kind {
        DrainKind::Pending => "workflow worker preparation cleanup timed out",
        DrainKind::Active => "workflow worker shutdown timed out",
    };
    make_failure("workflow_cleanup_timeout", WorkflowFailureClass::AmbiguousExecution, reason)
}

/// The failure recorded when the coordinator shut an attempt down: before
/// execution it is permanent, for a bound worker it is ambiguous.
pub fn shutdown_failure(kind: DrainKind) -> (r: WorkflowSpawnFailure)
    ensures
        kind == DrainKind::Pending ==> failure_is(
            r,
            "workflow_shutdown"@,
            WorkflowFailureClass::Permanent,
            "workflow coordinator shut down before worker execution"@,
        ),
        kind == DrainKind::Active ==> failure_is(
            r,
            "workflow_shutdown"@,
            WorkflowFailureClass::AmbiguousExecution,
            "workflow coordinator shut down an active worker"@,
        ),
{
    match kind {
        DrainKind::Pending => make_failure(
            "workflow_shutdown",
            WorkflowFailureClass::Permanent,
            "workflow coordinator shut down before worker execution",
        ),
        DrainKind::Active => make_failure(
            "workflow_shutdown",
            WorkflowFailureClass::AmbiguousExecution,
            "workflow coordinator shut down an active worker",
        ),
    }
}

/// How an attempt drained at shutdown is recorded: a timed-out cleanup is an
/// ambiguous failure; after confirmed cleanup a cancellation stands only
/// while the run is cancelling, a decided failure is kept but not retried,
/// and otherwise the shutdown itself is the failure.
pub fn drain_payload(
    run_state: WorkflowRunState,
    key: &AttemptKey,
    kind: DrainKind,
    stop: Option<StopDisposition>,
    status: WorkflowCleanupStatus,
) -> (r: WorkflowEventPayload)
    ensures
        status == WorkflowCleanupStatus::TimedOut ==> (r matches WorkflowEventPayload::SpawnFailed {
            node_id,
            attempt_id,
            failure,
        } && node_id == key.node_id && attempt_id == key.attempt_id && failure_is(
            failure,
            "workflow_cleanup_timeout"@,
            WorkflowFailureClass::AmbiguousExecution,
            if kind == DrainKind::Pending {
                "workflow worker preparation cleanup timed out"@
            } else {
                "workflow worker shutdown timed out"@
            },
        )),
        status == WorkflowCleanupStatus::Confirmed ==> match stop {
            Some(StopDisposition::Cancelled(reason)) if run_state == WorkflowRunState::Cancelling => r
                == (WorkflowEventPayload::AttemptCancelled {
                node_id: key.node_id,
                attempt_id: key.attempt_id,
                reason,
            }),
            Some(StopDisposition::Failed(f)) => r matches WorkflowEventPayload::SpawnFailed {
                node_id,
                attempt_id,
                failure,
            } && node_id == key.node_id && attempt_id == key.attempt_id && failure.completion
                == f.completion && failure.failure.reason == f.failure.reason
                && failure.failure.class == (if f.failure.class
                == WorkflowFailureClass::TransientBeforeExecution {
                WorkflowFailureClass::Permanent
            } else {
                f.failure.class
            }),
            _ => r matches WorkflowEventPayload::SpawnFailed { node_id, attempt_id, failure }
                && node_id == key.node_id && attempt_id == key.attempt_id && failure.completion.status@
                == "workflow_shutdown"@ && failure.failure.class == (if kind == DrainKind::Pending {
                WorkflowFailureClass::Permanent
            } else {
                WorkflowFailureClass::AmbiguousExecution
            }),
        },
{
    let failure = match status {
        WorkflowCleanupStatus::TimedOut => cleanup_failure(kind),
        WorkflowCleanupStatus::Confirmed => match stop {
            Some(StopDisposition::Cancelled(reason)) => {
                if run_state == WorkflowRunState::Cancelling {
                    return WorkflowEventPayload::AttemptCancelled {
                        node_id: key.node_id.clone(),
                        attempt_id: key.attempt_id.clone(),
                        reason,
                    };
                }
                shutdown_failure(kind)
            },
            Some(StopDisposition::Failed(failure)) => no_retry_failure(failure),
            None => shutdown_failure(kind),
        },
    };
    WorkflowEventPayload::SpawnFailed {
        node_id: key.node_id.clone(),
        attempt_id: key.attempt_id.clone(),
        failure,
    }
}

/// The result of a shutdown drain: the first terminalization error, else a
/// cleanup timeout if any cleanup timed out or failed, else success.
pub fn drain_result(first_error: Option<WorkflowCoordinatorError>, timed_out: bool) -> (r: Result<
    (),
    WorkflowCoordinatorError,
>)
    ensures
        first_error is Some ==> r == Err::<(), WorkflowCoordinatorError>(first_error->0),
        first_error is None && timed_out ==> r == Err::<(), WorkflowCoordinatorError>(
            WorkflowCoordinatorError::CleanupTimeout,
        ),
        first_error is None && !timed_out ==> r is Ok,
{
    match first_error {
        Some(error) => Err(error),
        None => if timed_out {
            Err(WorkflowCoordinatorError::CleanupTimeout)
        } else {
            Ok(())
        },
    }
}

} // verus!
