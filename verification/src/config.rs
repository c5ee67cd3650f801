use vstd::prelude::*;

use crate::error::WorkflowCoordinatorError;
use crate::run::WorkflowLimits;

verus! {

/// The ceilings that the host configuration places on every run's limits.
#[derive(Clone, Copy, Debug, PartialEq, Eq, Structural)]
pub struct WorkflowTrustedCeilings {
    pub max_nodes: u32,
    pub max_parallel: u32,
    pub max_attempts: u32,
    pub max_output_bytes: u32,
    pub run_deadline_ms: u64,
    pub attempt_timeout_ms: u64,
}

/// The workflow limits section of the host settings.
#[derive(Clone, Copy, Debug, PartialEq, Eq, Structural)]
pub struct WorkflowLimitSettings {
    pub max_nodes: u32,
    pub max_parallel: u32,
    pub max_attempts: u32,
    pub max_output_bytes: u64,
}

/// The workflow timing section of the host settings, in seconds.
#[derive(Clone, Copy, Debug, PartialEq, Eq, Structural)]
pub struct WorkflowTimingSettings {
    pub run_deadline_secs: u64,
    pub attempt_timeout_secs: u64,
}

/// The workflow section of the host settings.
#[derive(Clone, Copy, Debug, PartialEq, Eq, Structural)]
pub struct WorkflowSettings {
    pub limits: WorkflowLimitSettings,
    pub timing: WorkflowTimingSettings,
}

/// Seconds as milliseconds, saturated at `u64::MAX`.
pub open spec fn secs_to_ms(secs: u64) -> u64 {
    if secs * 1000 > u64::MAX {
        u64::MAX
    } else {
        (secs * 1000) as u64
    }
}

/// Converts seconds to milliseconds, saturating at `u64::MAX`.
pub fn saturating_secs_to_ms(secs: u64) -> (r: u64)
    ensures
        r == secs_to_ms(secs),
{
    if secs > u64::MAX / 1000 {
        u64::MAX
    } else {
        secs * 1000
    }
}

/// The first of the limits, in the order nodes, parallelism, attempts,
/// output bytes, run deadline, attempt timeout, that exceeds its ceiling.
pub open spec fn first_exceeded(ceilings: WorkflowTrustedCeilings, limits: WorkflowLimits) -> Option<
    Seq<char>,
> {
    if limits.max_nodes > ceilings.max_nodes {
        Some("max_nodes"@)
    } else if limits.max_parallel > ceilings.max_parallel {
        Some("max_parallel"@)
    } else if limits.max_attempts > ceilings.max_attempts {
        Some("max_attempts"@)
    } else if limits.max_output_bytes > ceilings.max_output_bytes {
        Some("max_output_bytes"@)
    } else if limits.run_deadline_ms > ceilings.run_deadline_ms {
        Some("run_deadline_ms"@)
    } else if limits.attempt_timeout_ms > ceilings.attempt_timeout_ms {
        Some("attempt_timeout_ms"@)
    } else {
        None
    }
}

/// Whether every limit stays within its ceiling.
pub open spec fn within_ceilings(ceilings: WorkflowTrustedCeilings, limits: WorkflowLimits) -> bool {
    &&& limits.max_nodes <= ceilings.max_nodes
    &&& limits.max_parallel <= ceilings.max_parallel
    &&& limits.max_attempts <= ceilings.max_attempts
    &&& limits.max_output_bytes <= ceilings.max_output_bytes
    &&& limits.run_deadline_ms <= ceilings.run_deadline_ms
    &&& limits.attempt_timeout_ms <= ceilings.attempt_timeout_ms
}

impl WorkflowTrustedCeilings {
    /// The ceilings the host settings describe. The output limit of the
    /// settings must fit in 32 bits.
    pub fn from_settings(settings: &WorkflowSettings) -> (r: Self)
        requires
            settings.limits.max_output_bytes <= u32::MAX,
        ensures
            r.max_nodes == settings.limits.max_nodes,
            r.max_parallel == settings.limits.max_parallel,
            r.max_attempts == settings.limits.max_attempts,
            r.max_output_bytes == settings.limits.max_output_bytes,
            r.run_deadline_ms == secs_to_ms(settings.timing.run_deadline_secs),
            r.attempt_timeout_ms == secs_to_ms(settings.timing.attempt_timeout_secs),
    {
        WorkflowTrustedCeilings {
            max_nodes: settings.limits.max_nodes,
            max_parallel: settings.limits.max_parallel,
            max_attempts: settings.limits.max_attempts,
            max_output_bytes: settings.limits.max_output_bytes as u32,
            run_deadline_ms: saturating_secs_to_ms(settings.timing.run_deadline_secs),
            attempt_timeout_ms: saturating_secs_to_ms(settings.timing.attempt_timeout_secs),
        }
    }

    /// Accepts a run's limits when each stays within its ceiling, and
    /// otherwise names the first limit that exceeds it.
    pub fn validate(self, limits: &WorkflowLimits) -> (r: Result<(), WorkflowCoordinatorError>)
        ensures
            r is Ok <==> first_exceeded(self, *limits) is None,
            r is Ok <==> within_ceilings(self, *limits),
            r matches Err(e) ==> (e matches WorkflowCoordinatorError::TrustedLimitExceeded(field)
                && first_exceeded(self, *limits) == Some(field@)),
    {
        let field: &'static str = if limits.max_nodes > self.max_nodes {
            "max_nodes"
        } else if limits.max_parallel > self.max_parallel {
            "max_parallel"
        } else if limits.max_attempts > self.max_attempts {
            "max_attempts"
        } else if limits.max_output_bytes > self.max_output_bytes {
            "max_output_bytes"
        } else if limits.run_deadline_ms > self.run_deadline_ms {
            "run_deadline_ms"
        } else if limits.attempt_timeout_ms > self.attempt_timeout_ms {
            "attempt_timeout_ms"
        } else {
            return Ok(());
        };
        Err(WorkflowCoordinatorError::TrustedLimitExceeded(field))
    }
}

} // verus!
