use vstd::prelude::*;

use crate::failure::{AgentCompletion, StopDisposition, WorkflowAttemptFailure, WorkflowSpawnFailure};
use crate::identity::{AttemptKey, QualifiedAddress};

verus! {

/// A transition that the coordinator asks the run's reducer to apply and
/// the journal to record.
#[derive(Debug, PartialEq, Eq)]
pub enum WorkflowEventPayload {
    SpecValidated,
    RunStarted,
    DispatchIntended { node_id: String, attempt_id: String, capability_digest: Vec<u8> },
    AttemptBound { node_id: String, attempt_id: String, agent: QualifiedAddress },
    AttemptRunning { node_id: String, attempt_id: String },
    AttemptStopRequested { node_id: String, attempt_id: String, reason: String },
    AttemptCancelled { node_id: String, attempt_id: String, reason: String },
    AttemptFailed {
        node_id: String,
        attempt_id: String,
        completion: AgentCompletion,
        failure: WorkflowAttemptFailure,
    },
    /// A worker failure that the run's retry policy turns into the recorded
    /// transition (a retry or a terminal failure of the attempt).
    SpawnFailed { node_id: String, attempt_id: String, failure: WorkflowSpawnFailure },
    RunDeadlineExceeded { failure: WorkflowAttemptFailure },
    CancelRequested { reason: Option<String> },
}

/// The transition that records how a stopped attempt ended.
pub open spec fn stop_payload(key: AttemptKey, stop: StopDisposition) -> WorkflowEventPayload {
    match stop {
        StopDisposition::Cancelled(reason) => WorkflowEventPayload::AttemptCancelled {
            node_id: key.node_id,
            attempt_id: key.attempt_id,
            reason,
        },
        StopDisposition::Failed(failure) => WorkflowEventPayload::SpawnFailed {
            node_id: key.node_id,
            attempt_id: key.attempt_id,
            failure,
        },
    }
}

/// Builds `stop_payload`.
pub fn terminal_payload(key: &AttemptKey, stop: StopDisposition) -> (r: WorkflowEventPayload)
    ensures
        r == stop_payload(*key, stop),
{
    match stop {
        StopDisposition::Cancelled(reason) => WorkflowEventPayload::AttemptCancelled {
            node_id: key.node_id.clone(),
            attempt_id: key.attempt_id.clone(),
            reason,
        },
        StopDisposition::Failed(failure) => WorkflowEventPayload::SpawnFailed {
            node_id: key.node_id.clone(),
            attempt_id: key.attempt_id.clone(),
            failure,
        },
    }
}

/// The transition that records a worker failure of an attempt.
pub fn spawn_failure_payload(key: &AttemptKey, failure: WorkflowSpawnFailure) -> (r: WorkflowEventPayload)
    ensures
        r == (WorkflowEventPayload::SpawnFailed {
            node_id: key.node_id,
            attempt_id: key.attempt_id,
            failure,
        }),
{
    WorkflowEventPayload::SpawnFailed {
        node_id: key.node_id.clone(),
        attempt_id: key.attempt_id.clone(),
        failure,
    }
}

} // verus!
