use vstd::prelude::*;

use crate::identity::{same_text, QualifiedAddress};

verus! {

/// The lifecycle of a workflow run.
#[derive(Clone, Copy, Debug, PartialEq, Eq, Structural)]
pub enum WorkflowRunState {
    Planned,
    Validated,
    Running,
    Cancelling,
    Succeeded,
    Failed,
    Cancelled,
}

pub open spec fn run_state_terminal(state: WorkflowRunState) -> bool {
    state is Succeeded || state is Failed || state is Cancelled
}

impl WorkflowRunState {
    pub fn is_terminal(self) -> (r: bool)
        ensures
            r == run_state_terminal(self),
    {
        match self {
            WorkflowRunState::Succeeded | WorkflowRunState::Failed | WorkflowRunState::Cancelled => {
                true
            },
            _ => false,
        }
    }
}

/// The lifecycle of one attempt of a node.
#[derive(Clone, Copy, Debug, PartialEq, Eq, Structural)]
pub enum WorkflowAttemptState {
    Dispatching,
    Running,
    Cancelling,
    Succeeded,
    Failed,
    Cancelled,
}

pub open spec fn attempt_state_terminal(state: WorkflowAttemptState) -> bool {
    state is Succeeded || state is Failed || state is Cancelled
}

impl WorkflowAttemptState {
    pub fn is_terminal(self) -> (r: bool)
        ensures
            r == attempt_state_terminal(self),
    {
        match self {
            WorkflowAttemptState::Succeeded
            | WorkflowAttemptState::Failed
            | WorkflowAttemptState::Cancelled => true,
            _ => false,
        }
    }
}

/// The lifecycle of a node of the run's graph.
#[derive(Clone, Copy, Debug, PartialEq, Eq, Structural)]
pub enum WorkflowNodeState {
    Pending,
    Ready,
    Running,
    Succeeded,
    Failed,
    Cancelled,
}

/// The bounds a run is executed under.
#[derive(Clone, Copy, Debug, PartialEq, Eq, Structural)]
pub struct WorkflowLimits {
    pub max_nodes: u32,
    pub max_parallel: u32,
    pub max_attempts: u32,
    pub run_deadline_ms: u64,
    pub attempt_timeout_ms: u64,
    pub max_output_bytes: u32,
}

/// One agent node of a run's specification.
#[derive(Debug, PartialEq, Eq)]
pub struct WorkflowAgentNode {
    pub id: String,
    pub dependencies: Vec<String>,
    pub task: String,
    pub worker_profile: String,
}

/// What a run is asked to do: its goal, its nodes, its limits and which
/// node's output is the run's result.
#[derive(Debug, PartialEq, Eq)]
pub struct WorkflowSpec {
    pub run_goal: String,
    pub nodes: Vec<WorkflowAgentNode>,
    pub limits: WorkflowLimits,
    pub output_node: String,
    pub output_max_bytes: u32,
}

/// The state of one node in a run.
#[derive(Debug, PartialEq, Eq)]
pub struct WorkflowNodeSnapshot {
    pub id: String,
    pub state: WorkflowNodeState,
    pub current_attempt: Option<String>,
}

/// The durable record of one attempt.
#[derive(Debug, PartialEq, Eq)]
pub struct WorkflowAttemptSnapshot {
    pub id: String,
    pub node_id: String,
    pub state: WorkflowAttemptState,
    /// The worker bound to the attempt, once one was.
    pub agent: Option<QualifiedAddress>,
    /// Whether the attempt was ever reported running.
    pub entered_running: bool,
    /// The digest of the attempt's capability, fixed when it was dispatched.
    pub capability_digest: Vec<u8>,
    pub dispatched_at_unix_ms: u64,
}

/// The authoritative state of one run, as the reducer left it.
#[derive(Debug, PartialEq, Eq)]
pub struct WorkflowRunSnapshot {
    pub id: String,
    pub root_agent: QualifiedAddress,
    pub state: WorkflowRunState,
    pub spec: WorkflowSpec,
    pub created_at_unix_ms: u64,
    pub updated_at_unix_ms: u64,
    pub nodes: Vec<WorkflowNodeSnapshot>,
    pub attempts: Vec<WorkflowAttemptSnapshot>,
}

/// The instant at which a run created at `created` with deadline `deadline`
/// expires, saturated at `u64::MAX`.
pub open spec fn saturating_sum(a: u64, b: u64) -> u64 {
    if a + b > u64::MAX {
        u64::MAX
    } else {
        (a + b) as u64
    }
}

/// A run has expired once `now` reaches its creation time plus its deadline.
pub open spec fn run_expired_at(run: WorkflowRunSnapshot, now: u64) -> bool {
    now >= saturating_sum(run.created_at_unix_ms, run.spec.limits.run_deadline_ms)
}

/// Checks `run_expired_at`.
pub fn run_expired(run: &WorkflowRunSnapshot, now: u64) -> (r: bool)
    ensures
        r == run_expired_at(*run, now),
{
    now >= run.created_at_unix_ms.saturating_add(run.spec.limits.run_deadline_ms)
}

/// The position of the attempt with the given id, if the run holds one.
pub open spec fn attempt_index_of(run: WorkflowRunSnapshot, id: Seq<char>, i: int) -> bool {
    0 <= i < run.attempts@.len() && run.attempts@[i].id@ == id && forall|j: int|
        0 <= j < i ==> run.attempts@[j].id@ != id
}

pub open spec fn has_attempt(run: WorkflowRunSnapshot, id: Seq<char>) -> bool {
    exists|j: int| 0 <= j < run.attempts@.len() && run.attempts@[j].id@ == id
}

/// Finds the first attempt of the run with the given id.
pub fn find_attempt(run: &WorkflowRunSnapshot, id: &String) -> (r: Option<usize>)
    ensures
        r matches Some(i) ==> attempt_index_of(*run, id@, i as int),
        r is None ==> !has_attempt(*run, id@),
{
    let mut i: usize = 0;
    while i < run.attempts.len()
        invariant
            i <= run.attempts@.len(),
            forall|j: int| 0 <= j < i ==> run.attempts@[j].id@ != id@,
        decreases run.attempts@.len() - i,
    {
        if same_text(&run.attempts[i].id, id) {
            return Some(i);
        }
        i = i + 1;
    }
    None
}

/// The number of attempts that are not yet terminal.
pub open spec fn live_attempts(attempts: Seq<WorkflowAttemptSnapshot>) -> nat
    decreases attempts.len(),
{
    if attempts.len() == 0 {
        0
    } else {
        live_attempts(attempts.drop_last()) + if attempt_state_terminal(attempts.last().state) {
            0nat
        } else {
            1nat
        }
    }
}

pub proof fn lemma_live_attempts_bound(attempts: Seq<WorkflowAttemptSnapshot>)
    ensures
        live_attempts(attempts) <= attempts.len(),
    decreases attempts.len(),
{
    if attempts.len() > 0 {
        lemma_live_attempts_bound(attempts.drop_last());
    }
}

/// Counts the attempts of the run that are not yet terminal.
pub fn count_live_attempts(run: &WorkflowRunSnapshot) -> (r: usize)
    ensures
        r == live_attempts(run.attempts@),
        r == run.attempts@.filter(|a: WorkflowAttemptSnapshot| crate::laws::unresolved(a)).len(),
{
    let mut count: usize = 0;
    let mut i: usize = 0;
    while i < run.attempts.len()
        invariant
            i <= run.attempts@.len(),
            count == live_attempts(run.attempts@.take(i as int)),
            count <= i,
        decreases run.attempts@.len() - i,
    {
        proof {
            assert(run.attempts@.take(i + 1).drop_last() =~= run.attempts@.take(i as int));
            lemma_live_attempts_bound(run.attempts@.take(i as int));
        }
        if !run.attempts[i].state.is_terminal() {
            count = count + 1;
        }
        i = i + 1;
    }
    assert(run.attempts@.take(i as int) =~= run.attempts@);
    proof {
        crate::laws::law_live_attempts_are_unresolved(run.attempts@);
    }
    count
}

/// Whether any attempt of the run is not yet terminal.
pub fn any_live_attempt(run: &WorkflowRunSnapshot) -> (r: bool)
    ensures
        r == (exists|j: int|
            0 <= j < run.attempts@.len() && !attempt_state_terminal(
                #[trigger] run.attempts@[j].state,
            )),
{
    let mut i: usize = 0;
    while i < run.attempts.len()
        invariant
            i <= run.attempts@.len(),
            forall|j: int|
                0 <= j < i ==> attempt_state_terminal(#[trigger] run.attempts@[j].state),
        decreases run.attempts@.len() - i,
    {
        if !run.attempts[i].state.is_terminal() {
            return true;
        }
        i = i + 1;
    }
    false
}

/// Whether any node of the run is ready to be dispatched.
pub fn any_ready_node(run: &WorkflowRunSnapshot) -> (r: bool)
    ensures
        r == (exists|j: int|
            0 <= j < run.nodes@.len() && (#[trigger] run.nodes@[j].state) is Ready),
{
    let mut i: usize = 0;
    while i < run.nodes.len()
        invariant
            i <= run.nodes@.len(),
            forall|j: int| 0 <= j < i ==> !((#[trigger] run.nodes@[j].state) is Ready),
        decreases run.nodes@.len() - i,
    {
        if run.nodes[i].state == WorkflowNodeState::Ready {
            return true;
        }
        i = i + 1;
    }
    false
}

} // verus!

verus! {

/// The first attempt of the run with the given id, if any.
pub open spec fn attempt_of(run: WorkflowRunSnapshot, id: Seq<char>) -> Option<WorkflowAttemptSnapshot> {
    if has_attempt(run, id) {
        Some(run.attempts@[choose|i: int| attempt_index_of(run, id, i)])
    } else {
        None
    }
}

pub proof fn lemma_attempt_of(run: WorkflowRunSnapshot, id: Seq<char>, i: int)
    requires
        attempt_index_of(run, id, i),
    ensures
        attempt_of(run, id) == Some(run.attempts@[i]),
{
    assert(has_attempt(run, id));
    let k = choose|k: int| attempt_index_of(run, id, k);
    if k < i {
        assert(run.attempts@[k].id@ == id);
    } else if i < k {
        assert(run.attempts@[i].id@ == id);
    }
}

/// Looks up the first attempt of the run with the given id.
pub fn attempt_in<'a>(run: &'a WorkflowRunSnapshot, id: &String) -> (r: Option<&'a WorkflowAttemptSnapshot>)
    ensures
        r matches Some(a) ==> attempt_of(*run, id@) == Some(*a),
        r is None ==> attempt_of(*run, id@) is None,
{
    match find_attempt(run, id) {
        Some(i) => {
            proof {
                lemma_attempt_of(*run, id@, i as int);
            }
            Some(&run.attempts[i])
        },
        None => None,
    }
}

} // verus!
