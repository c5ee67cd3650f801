use vstd::prelude::*;

verus! {

/// How far the coordinator may act on workflow runs.
#[derive(Clone, Copy, Debug, PartialEq, Eq, Structural)]
pub enum WorkflowCoordinatorMode {
    Disabled,
    Preview,
    Execution,
    ExecutionHarness,
}

/// The modes in which the coordinator schedules workers.
pub open spec fn mode_executes(mode: WorkflowCoordinatorMode) -> bool {
    mode is Execution || mode is ExecutionHarness
}

impl WorkflowCoordinatorMode {
    /// Whether this mode dispatches and supervises workers.
    pub fn executes(self) -> (r: bool)
        ensures
            r == mode_executes(self),
    {
        match self {
            WorkflowCoordinatorMode::Execution => true,
            WorkflowCoordinatorMode::ExecutionHarness => true,
            WorkflowCoordinatorMode::Disabled | WorkflowCoordinatorMode::Preview => false,
        }
    }
}

} // verus!
