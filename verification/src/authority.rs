use vstd::prelude::*;

use crate::identity::{
    owner_valid, same_text, AgentExecutionRef, QualifiedAddress, WorkflowOwner,
};

verus! {

/// How an agent came to run on the hub.
#[derive(Clone, Copy, Debug, PartialEq, Eq, Structural)]
pub enum AgentOrigin {
    /// The root agent of a session the hub manages.
    ManagedRoot,
    /// An agent spawned by another agent.
    Spawned,
    /// An agent that connected from outside.
    External,
}

/// What the hub authenticated about a running agent.
#[derive(Debug, PartialEq, Eq)]
pub struct AgentRuntimeFacts {
    pub origin: AgentOrigin,
    pub parent: Option<QualifiedAddress>,
    pub depth: u32,
    pub root: String,
    pub session_id: Option<String>,
}

/// Whether the facts describe the managed root of its own tree running
/// on this hub as the given execution.
pub open spec fn is_managed_root(execution: AgentExecutionRef, facts: AgentRuntimeFacts) -> bool {
    &&& facts.origin == AgentOrigin::ManagedRoot
    &&& facts.parent is None
    &&& facts.depth == 0
    &&& facts.root@ == execution.address.agent@
    &&& execution.address.hub is None
}

/// The owner that a managed root agent acts for: its session and address.
/// Only the authenticated managed root of a bound session may control
/// workflows, and the resulting owner must be valid.
pub fn owner_for_managed_root(execution: &AgentExecutionRef, facts: &AgentRuntimeFacts) -> (r:
    Result<WorkflowOwner, &'static str>)
    ensures
        !is_managed_root(*execution, *facts) ==> (r matches Err(m)
            && m@ == "workflow control requires the authenticated managed root Agent"@),
        is_managed_root(*execution, *facts) && facts.session_id is None ==> (r matches Err(m)
            && m@ == "root Agent session is not bound"@),
        is_managed_root(*execution, *facts) && facts.session_id is Some ==> {
            let owner = WorkflowOwner {
                session_id: facts.session_id->0,
                root_agent: execution.address,
            };
            &&& owner_valid(owner) ==> r == Ok::<WorkflowOwner, &'static str>(owner)
            &&& !owner_valid(owner) ==> (r matches Err(m) && m@ == "workflow owner is invalid"@)
        },
{
    let root = &execution.address;
    if facts.origin != AgentOrigin::ManagedRoot || facts.parent.is_some() || facts.depth != 0
        || !same_text(&facts.root, &root.agent) || !root.is_local() {
        return Err("workflow control requires the authenticated managed root Agent");
    }
    let session_id = match &facts.session_id {
        Some(s) => s.clone(),
        None => return Err("root Agent session is not bound"),
    };
    let owner = WorkflowOwner { session_id, root_agent: root.clone() };
    if owner.is_valid() {
        Ok(owner)
    } else {
        Err("workflow owner is invalid")
    }
}

} // verus!
