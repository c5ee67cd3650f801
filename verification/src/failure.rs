use vstd::prelude::*;
use vstd::string::*;
use vstd::utf8::{encode_scalar, encode_utf8, is_char_boundary};

use crate::identity::{byte_len, AttemptKey};

verus! {

/// The longest stop or cancel reason that is journaled, in UTF-8 bytes.
pub const MAX_REASON_BYTES: usize = 1_024;

/// How a failed attempt may be treated by the run's retry policy.
#[derive(Clone, Copy, Debug, PartialEq, Eq, Structural)]
pub enum WorkflowFailureClass {
    /// Nothing ran yet; the attempt may be retried.
    TransientBeforeExecution,
    /// The attempt failed for good.
    Permanent,
    /// The worker may have acted; its effects are unknown.
    AmbiguousExecution,
}

/// Why an attempt failed.
#[derive(Debug, PartialEq, Eq)]
pub struct WorkflowAttemptFailure {
    pub class: WorkflowFailureClass,
    pub reason: String,
}

impl Clone for WorkflowAttemptFailure {
    fn clone(&self) -> (r: Self)
        ensures
            r == *self,
    {
        WorkflowAttemptFailure { class: self.class, reason: self.reason.clone() }
    }
}

/// The completion record a worker, or the coordinator on its behalf, reports.
#[derive(Debug, PartialEq, Eq)]
pub struct AgentCompletion {
    pub status: String,
    pub result: Option<String>,
}

impl Clone for AgentCompletion {
    fn clone(&self) -> (r: Self)
        ensures
            r == *self,
    {
        let result = match &self.result {
            Some(t) => Some(t.clone()),
            None => None,
        };
        AgentCompletion { status: self.status.clone(), result }
    }
}

impl AgentCompletion {
    pub fn new(status: &str, result: Option<String>) -> (r: AgentCompletion)
        ensures
            r.status@ == status@,
            r.result == result,
    {
        AgentCompletion { status: status.to_owned(), result }
    }
}

/// A failure to prepare, activate or keep a worker, with the completion to record.
#[derive(Debug, PartialEq, Eq)]
pub struct WorkflowSpawnFailure {
    pub completion: AgentCompletion,
    pub failure: WorkflowAttemptFailure,
}

impl Clone for WorkflowSpawnFailure {
    fn clone(&self) -> (r: Self)
        ensures
            r == *self,
    {
        WorkflowSpawnFailure { completion: self.completion.clone(), failure: self.failure.clone() }
    }
}

/// How a stopped attempt is to be recorded once its cleanup is known.
#[derive(Debug, PartialEq, Eq)]
pub enum StopDisposition {
    Cancelled(String),
    Failed(WorkflowSpawnFailure),
}

impl Clone for StopDisposition {
    fn clone(&self) -> (r: Self)
        ensures
            r == *self,
    {
        match self {
            StopDisposition::Cancelled(reason) => StopDisposition::Cancelled(reason.clone()),
            StopDisposition::Failed(failure) => StopDisposition::Failed(failure.clone()),
        }
    }
}

/// Copies an optional stop disposition.
pub fn clone_stop(stop: &Option<StopDisposition>) -> (r: Option<StopDisposition>)
    ensures
        r == *stop,
{
    match stop {
        Some(s) => Some(s.clone()),
        None => None,
    }
}

/// Whether cleanup of a worker was confirmed or gave up at its time bound.
#[derive(Clone, Copy, Debug, PartialEq, Eq, Structural)]
pub enum WorkflowCleanupStatus {
    Confirmed,
    TimedOut,
}

/// What an interrupt of a worker achieved.
#[derive(Clone, Copy, Debug, PartialEq, Eq, Structural)]
pub enum WorkflowStopStatus {
    Stopped,
    StillRunning,
}

/// Every character encodes to at most four UTF-8 bytes.
pub proof fn lemma_utf8_len_bound(s: Seq<char>)
    ensures
        encode_utf8(s).len() <= 4 * s.len(),
    decreases s.len(),
{
    if s.len() > 0 {
        lemma_utf8_len_bound(s.drop_first());
        assert(encode_scalar(s[0] as u32).len() <= 4);
    }
}

/// Whether `bound_reason` accepts a reason: it is short enough to keep, or
/// its cut falls on a character boundary.
pub open spec fn boundable(reason: Seq<char>) -> bool {
    byte_len(reason) <= MAX_REASON_BYTES || is_char_boundary(
        encode_utf8(reason),
        MAX_REASON_BYTES as int,
    )
}

/// `r` is `reason` cut to its first `MAX_REASON_BYTES` UTF-8 bytes.
pub open spec fn bounded_as(reason: Seq<char>, r: Seq<char>) -> bool {
    &&& byte_len(reason) <= MAX_REASON_BYTES ==> r == reason
    &&& byte_len(reason) > MAX_REASON_BYTES ==> encode_utf8(r) == encode_utf8(reason).take(
        MAX_REASON_BYTES as int,
    )
}

/// Shortens a reason to at most `MAX_REASON_BYTES` UTF-8 bytes. The cut
/// must fall on a character boundary.
pub fn bound_reason(reason: String) -> (r: String)
    requires
        boundable(reason@),
    ensures
        bounded_as(reason@, r@),
{
    let text = reason.as_str();
    assert(text.spec_bytes() == encode_utf8(text@));
    if text.len() <= MAX_REASON_BYTES {
        reason
    } else {
        let (head, _rest) = text.split_at(MAX_REASON_BYTES);
        assert(head.spec_bytes() == encode_utf8(head@));
        let r = head.to_owned();
        assert(encode_utf8(reason@).take(MAX_REASON_BYTES as int) =~= encode_utf8(
            reason@,
        ).subrange(0, MAX_REASON_BYTES as int));
        r
    }
}

/// A reason of at most 256 characters is never cut.
pub proof fn lemma_short_reason_unbounded(s: Seq<char>)
    requires
        s.len() <= 256,
    ensures
        byte_len(s) <= MAX_REASON_BYTES,
{
    lemma_utf8_len_bound(s);
}

/// A fixed reason text, as `bound_reason` keeps it.
pub fn short_reason(text: &str) -> (r: String)
    requires
        text@.len() <= 256,
    ensures
        r@ == text@,
{
    proof {
        lemma_short_reason_unbounded(text@);
    }
    bound_reason(text.to_owned())
}

/// Builds a spawn failure from its parts.
pub fn make_failure(status: &str, class: WorkflowFailureClass, reason: &str) -> (r:
    WorkflowSpawnFailure)
    ensures
        r.completion.status@ == status@,
        r.completion.result is None,
        r.failure.class == class,
        r.failure.reason@ == reason@,
{
    WorkflowSpawnFailure {
        completion: AgentCompletion::new(status, None),
        failure: WorkflowAttemptFailure { class, reason: reason.to_owned() },
    }
}

/// The spec of a failure built by `make_failure`.
pub open spec fn failure_is(
    f: WorkflowSpawnFailure,
    status: Seq<char>,
    class: WorkflowFailureClass,
    reason: Seq<char>,
) -> bool {
    &&& f.completion.status@ == status
    &&& f.completion.result is None
    &&& f.failure.class == class
    &&& f.failure.reason@ == reason
}

/// The failure recorded when a running worker's outcome channel closes.
pub fn lost_outcome_failure() -> (r: WorkflowSpawnFailure)
    ensures
        failure_is(
            r,
            "worker_outcome_lost"@,
            WorkflowFailureClass::AmbiguousExecution,
            "workflow worker outcome channel closed"@,
        ),
{
    make_failure(
        "worker_outcome_lost",
        WorkflowFailureClass::AmbiguousExecution,
        "workflow worker outcome channel closed",
    )
}

/// The failure recorded when worker preparation outlives the attempt timeout.
pub fn preparation_timeout() -> (r: WorkflowSpawnFailure)
    ensures
        failure_is(
            r,
            "workflow_prepare_timeout"@,
            WorkflowFailureClass::TransientBeforeExecution,
            "workflow worker preparation timed out"@,
        ),
{
    make_failure(
        "workflow_prepare_timeout",
        WorkflowFailureClass::TransientBeforeExecution,
        "workflow worker preparation timed out",
    )
}

/// The failure recorded when a worker stops without a terminal outcome.
pub fn lost_worker() -> (r: WorkflowSpawnFailure)
    ensures
        failure_is(
            r,
            "worker_stopped"@,
            WorkflowFailureClass::AmbiguousExecution,
            "workflow worker stopped without a terminal outcome"@,
        ),
{
    make_failure(
        "worker_stopped",
        WorkflowFailureClass::AmbiguousExecution,
        "workflow worker stopped without a terminal outcome",
    )
}

/// The failure recorded when cleanup of a worker gave up at its time bound.
pub fn cleanup_timeout_failure(reason: &str) -> (r: WorkflowSpawnFailure)
    ensures
        failure_is(
            r,
            "workflow_cleanup_timeout"@,
            WorkflowFailureClass::AmbiguousExecution,
            reason@,
        ),
{
    make_failure("workflow_cleanup_timeout", WorkflowFailureClass::AmbiguousExecution, reason)
}

/// The attempt-level failure recorded when a run outlives its deadline.
pub fn deadline_failure() -> (r: WorkflowAttemptFailure)
    ensures
        r.class == WorkflowFailureClass::Permanent,
        r.reason@ == "workflow run deadline exceeded"@,
{
    WorkflowAttemptFailure {
        class: WorkflowFailureClass::Permanent,
        reason: "workflow run deadline exceeded".to_owned(),
    }
}

/// The spawn failure recorded for attempts stopped by the run deadline.
pub fn deadline_spawn_failure() -> (r: WorkflowSpawnFailure)
    ensures
        failure_is(
            r,
            "workflow_run_deadline"@,
            WorkflowFailureClass::Permanent,
            "workflow run deadline exceeded"@,
        ),
{
    WorkflowSpawnFailure {
        completion: AgentCompletion::new("workflow_run_deadline", None),
        failure: deadline_failure(),
    }
}

/// A failure that must not be retried: a transient class becomes permanent,
/// every other class is kept.
pub fn no_retry_failure(failure: WorkflowSpawnFailure) -> (r: WorkflowSpawnFailure)
    ensures
        r.completion == failure.completion,
        r.failure.reason == failure.failure.reason,
        r.failure.class == (if failure.failure.class == WorkflowFailureClass::TransientBeforeExecution {
            WorkflowFailureClass::Permanent
        } else {
            failure.failure.class
        }),
{
    let mut failure = failure;
    if failure.failure.class == WorkflowFailureClass::TransientBeforeExecution {
        failure.failure.class = WorkflowFailureClass::Permanent;
    }
    failure
}

/// The reason text of an attempt timeout: `workflow attempt <id> timed out`.
pub open spec fn timeout_reason(attempt_id: Seq<char>) -> Seq<char> {
    "workflow attempt "@ + attempt_id + " timed out"@
}

/// The failure recorded when an attempt outlives its attempt timeout.
/// Once the worker entered running its effects are uncertain.
pub fn timeout_failure(key: &AttemptKey, entered_running: bool) -> (r: WorkflowSpawnFailure)
    requires
        boundable(timeout_reason(key.attempt_id@)),
    ensures
        r.completion.status@ == "workflow_timeout"@,
        r.completion.result is None,
        bounded_as(timeout_reason(key.attempt_id@), r.failure.reason@),
        r.failure.class == (if entered_running {
            WorkflowFailureClass::AmbiguousExecution
        } else {
            WorkflowFailureClass::TransientBeforeExecution
        }),
        key.attempt_id@.len() <= 200 ==> failure_is(
            r,
            "workflow_timeout"@,
            if entered_running {
                WorkflowFailureClass::AmbiguousExecution
            } else {
                WorkflowFailureClass::TransientBeforeExecution
            },
            timeout_reason(key.attempt_id@),
        ),
{
    let mut reason = "workflow attempt ".to_owned();
    reason.append(key.attempt_id.as_str());
    reason.append(" timed out");
    proof {
        reveal_strlit("workflow attempt ");
        reveal_strlit(" timed out");
        assert(reason@ == timeout_reason(key.attempt_id@));
        if key.attempt_id@.len() <= 200 {
            lemma_short_reason_unbounded(reason@);
        }
    }
    let reason = bound_reason(reason);
    WorkflowSpawnFailure {
        completion: AgentCompletion::new("workflow_timeout", None),
        failure: WorkflowAttemptFailure {
            class: if entered_running {
                WorkflowFailureClass::AmbiguousExecution
            } else {
                WorkflowFailureClass::TransientBeforeExecution
            },
            reason,
        },
    }
}

} // verus!
