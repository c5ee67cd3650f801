use vstd::prelude::*;
use vstd::string::*;

verus! {

/// Why the coordinator refused or failed a workflow operation. Errors of the
/// request, validation, schema and reducer layers carry their description.
#[derive(Clone, Debug, PartialEq, Eq)]
pub enum WorkflowCoordinatorError {
    Disabled,
    Unavailable,
    InvalidOwner,
    OwnerPoisoned,
    RecoveryRequired,
    RecoveryInvalid,
    RecoveryConflict,
    JournalUnavailable,
    JournalLimit,
    CleanupTimeout,
    WaitTimeoutExceeded,
    InvalidRunId,
    InvalidGeneratedRunId(String),
    InvalidGeneratedAttemptId(String),
    AttemptIdCollision(String),
    InvalidExecutionLease,
    StaleExecutionLease,
    RunDeadlineExceeded,
    TrustedLimitExceeded(&'static str),
    UnsupportedWorkerProfile { profile: String },
    UnsupportedWorkerProfileForNode { node_id: String, profile: String },
    RunIdCollision(String),
    Request(String),
    Validation(String),
    Schema(String),
    Reducer(String),
    UnexpectedStaleEvent,
    Encoding(String),
}

/// The kinds of failure that the session journal store reports.
#[derive(Clone, Copy, Debug, PartialEq, Eq, Structural)]
pub enum WorkflowJournalError {
    LimitExceeded,
    InvalidRunId,
    RunIdMismatch,
    Corruption,
    Serialization,
    RepairMismatch,
    Storage,
    Io,
}

/// How a journal failure is reported: a limit stays a limit, damaged or
/// mismatched data makes recovery invalid, and storage faults make the
/// journal unavailable.
pub open spec fn journal_error_meaning(error: WorkflowJournalError) -> WorkflowCoordinatorError {
    match error {
        WorkflowJournalError::LimitExceeded => WorkflowCoordinatorError::JournalLimit,
        WorkflowJournalError::InvalidRunId
        | WorkflowJournalError::RunIdMismatch
        | WorkflowJournalError::Corruption
        | WorkflowJournalError::Serialization
        | WorkflowJournalError::RepairMismatch => WorkflowCoordinatorError::RecoveryInvalid,
        WorkflowJournalError::Storage | WorkflowJournalError::Io => {
            WorkflowCoordinatorError::JournalUnavailable
        },
    }
}

impl WorkflowCoordinatorError {
    /// Maps a journal failure to the coordinator's error.
    pub fn from_journal(error: WorkflowJournalError) -> (r: WorkflowCoordinatorError)
        ensures
            r == journal_error_meaning(error),
    {
        match error {
            WorkflowJournalError::LimitExceeded => WorkflowCoordinatorError::JournalLimit,
            WorkflowJournalError::InvalidRunId
            | WorkflowJournalError::RunIdMismatch
            | WorkflowJournalError::Corruption
            | WorkflowJournalError::Serialization
            | WorkflowJournalError::RepairMismatch => WorkflowCoordinatorError::RecoveryInvalid,
            WorkflowJournalError::Storage | WorkflowJournalError::Io => {
                WorkflowCoordinatorError::JournalUnavailable
            },
        }
    }
}


/// The decimal digit `d`, for `d < 10`.
pub open spec fn digit_text(d: nat) -> Seq<char> {
    if d == 0 {
        "0"@
    } else if d == 1 {
        "1"@
    } else if d == 2 {
        "2"@
    } else if d == 3 {
        "3"@
    } else if d == 4 {
        "4"@
    } else if d == 5 {
        "5"@
    } else if d == 6 {
        "6"@
    } else if d == 7 {
        "7"@
    } else if d == 8 {
        "8"@
    } else {
        "9"@
    }
}

/// `n` written in decimal, without leading zeros.
pub open spec fn decimal(n: nat) -> Seq<char>
    decreases n,
{
    if n < 10 {
        digit_text(n)
    } else {
        decimal(n / 10) + digit_text(n % 10)
    }
}

fn digit_str(d: u64) -> (r: &'static str)
    requires
        d < 10,
    ensures
        r@ == digit_text(d as nat),
{
    match d {
        0 => "0",
        1 => "1",
        2 => "2",
        3 => "3",
        4 => "4",
        5 => "5",
        6 => "6",
        7 => "7",
        8 => "8",
        _ => "9",
    }
}

/// Writes `n` in decimal.
pub fn decimal_text(n: u64) -> (r: String)
    ensures
        r@ == decimal(n as nat),
    decreases n,
{
    if n < 10 {
        String::from_str(digit_str(n))
    } else {
        let head = decimal_text(n / 10);
        head.concat(digit_str(n % 10))
    }
}

/// The text that describes an error. A wait is refused beyond `max_wait_ms`.
pub open spec fn error_message(error: WorkflowCoordinatorError, max_wait_ms: u64) -> Seq<char> {
    match error {
        WorkflowCoordinatorError::Disabled => "workflow execution is disabled"@,
        WorkflowCoordinatorError::Unavailable => "workflow coordinator is unavailable"@,
        WorkflowCoordinatorError::InvalidOwner => "workflow owner is invalid"@,
        WorkflowCoordinatorError::OwnerPoisoned => "workflow owner requires coordinator restart"@,
        WorkflowCoordinatorError::RecoveryRequired => "workflow owner recovery is required"@,
        WorkflowCoordinatorError::RecoveryInvalid => "workflow recovery data is invalid"@,
        WorkflowCoordinatorError::RecoveryConflict => "workflow recovery conflicts with live state"@,
        WorkflowCoordinatorError::JournalUnavailable => "workflow journal is unavailable"@,
        WorkflowCoordinatorError::JournalLimit => "workflow journal limit exceeded"@,
        WorkflowCoordinatorError::CleanupTimeout => "workflow cleanup timed out"@,
        WorkflowCoordinatorError::WaitTimeoutExceeded => "workflow wait exceeds the "@ + decimal(
            max_wait_ms as nat,
        ) + "ms limit"@,
        WorkflowCoordinatorError::InvalidRunId => "workflow run id is invalid"@,
        WorkflowCoordinatorError::InvalidGeneratedRunId(id) => "generated workflow run id is invalid: "@
            + id@,
        WorkflowCoordinatorError::InvalidGeneratedAttemptId(id) =>
            "generated workflow attempt id is invalid: "@ + id@,
        WorkflowCoordinatorError::AttemptIdCollision(id) => "workflow attempt id already exists: "@
            + id@,
        WorkflowCoordinatorError::InvalidExecutionLease => "workflow execution lease is invalid"@,
        WorkflowCoordinatorError::StaleExecutionLease => "workflow execution lease is stale"@,
        WorkflowCoordinatorError::RunDeadlineExceeded => "workflow run deadline exceeded"@,
        WorkflowCoordinatorError::TrustedLimitExceeded(field) => "workflow request exceeds configured "@
            + field@,
        WorkflowCoordinatorError::UnsupportedWorkerProfile { profile } =>
            "unsupported workflow worker profile: "@ + profile@,
        WorkflowCoordinatorError::UnsupportedWorkerProfileForNode { node_id, profile } =>
            "workflow node "@ + node_id@ + " uses unsupported worker profile: "@ + profile@,
        WorkflowCoordinatorError::RunIdCollision(id) => "workflow run id already exists: "@ + id@,
        WorkflowCoordinatorError::Request(e) => "workflow request failed: "@ + e@,
        WorkflowCoordinatorError::Validation(e) => "workflow validation failed: "@ + e@,
        WorkflowCoordinatorError::Schema(e) => "workflow schema validation failed: "@ + e@,
        WorkflowCoordinatorError::Reducer(e) => "workflow transition failed: "@ + e@,
        WorkflowCoordinatorError::UnexpectedStaleEvent => "new workflow event was unexpectedly stale"@,
        WorkflowCoordinatorError::Encoding(e) => "workflow encoding failed: "@ + e@,
    }
}

impl WorkflowCoordinatorError {
    /// Describes the error for people.
    pub fn message(&self, max_wait_ms: u64) -> (r: String)
        ensures
            r@ == error_message(*self, max_wait_ms),
    {
        match self {
            WorkflowCoordinatorError::Disabled => String::from_str("workflow execution is disabled"),
            WorkflowCoordinatorError::Unavailable => String::from_str("workflow coordinator is unavailable"),
            WorkflowCoordinatorError::InvalidOwner => String::from_str("workflow owner is invalid"),
            WorkflowCoordinatorError::OwnerPoisoned => String::from_str(
                "workflow owner requires coordinator restart",
            ),
            WorkflowCoordinatorError::RecoveryRequired => String::from_str(
                "workflow owner recovery is required",
            ),
            WorkflowCoordinatorError::RecoveryInvalid => String::from_str("workflow recovery data is invalid"),
            WorkflowCoordinatorError::RecoveryConflict => String::from_str(
                "workflow recovery conflicts with live state",
            ),
            WorkflowCoordinatorError::JournalUnavailable => String::from_str("workflow journal is unavailable"),
            WorkflowCoordinatorError::JournalLimit => String::from_str("workflow journal limit exceeded"),
            WorkflowCoordinatorError::CleanupTimeout => String::from_str("workflow cleanup timed out"),
            WorkflowCoordinatorError::WaitTimeoutExceeded => {
                let head = String::from_str("workflow wait exceeds the ");
                let with_limit = head.concat(decimal_text(max_wait_ms).as_str());
                with_limit.concat("ms limit")
            },
            WorkflowCoordinatorError::InvalidRunId => String::from_str("workflow run id is invalid"),
            WorkflowCoordinatorError::InvalidGeneratedRunId(id) => String::from_str(
                "generated workflow run id is invalid: ",
            ).concat(id.as_str()),
            WorkflowCoordinatorError::InvalidGeneratedAttemptId(id) => String::from_str(
                "generated workflow attempt id is invalid: ",
            ).concat(id.as_str()),
            WorkflowCoordinatorError::AttemptIdCollision(id) => String::from_str(
                "workflow attempt id already exists: ",
            ).concat(id.as_str()),
            WorkflowCoordinatorError::InvalidExecutionLease => String::from_str(
                "workflow execution lease is invalid",
            ),
            WorkflowCoordinatorError::StaleExecutionLease => String::from_str("workflow execution lease is stale"),
            WorkflowCoordinatorError::RunDeadlineExceeded => String::from_str("workflow run deadline exceeded"),
            WorkflowCoordinatorError::TrustedLimitExceeded(field) => String::from_str(
                "workflow request exceeds configured ",
            ).concat(field),
            WorkflowCoordinatorError::UnsupportedWorkerProfile { profile } => String::from_str(
                "unsupported workflow worker profile: ",
            ).concat(profile.as_str()),
            WorkflowCoordinatorError::UnsupportedWorkerProfileForNode { node_id, profile } => {
                let head = String::from_str("workflow node ").concat(node_id.as_str());
                head.concat(" uses unsupported worker profile: ").concat(profile.as_str())
            },
            WorkflowCoordinatorError::RunIdCollision(id) => String::from_str(
                "workflow run id already exists: ",
            ).concat(id.as_str()),
            WorkflowCoordinatorError::Request(e) => String::from_str("workflow request failed: ").concat(
                e.as_str(),
            ),
            WorkflowCoordinatorError::Validation(e) => String::from_str("workflow validation failed: ").concat(
                e.as_str(),
            ),
            WorkflowCoordinatorError::Schema(e) => String::from_str(
                "workflow schema validation failed: ",
            ).concat(e.as_str()),
            WorkflowCoordinatorError::Reducer(e) => String::from_str("workflow transition failed: ").concat(
                e.as_str(),
            ),
            WorkflowCoordinatorError::UnexpectedStaleEvent => String::from_str(
                "new workflow event was unexpectedly stale",
            ),
            WorkflowCoordinatorError::Encoding(e) => String::from_str("workflow encoding failed: ").concat(
                e.as_str(),
            ),
        }
    }
}

} // verus!
