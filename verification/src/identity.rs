use vstd::prelude::*;
use vstd::string::*;
use vstd::utf8::encode_utf8;

verus! {

/// The longest identifier or agent name, in UTF-8 bytes.
pub const MAX_NAME_BYTES: usize = 128;

/// The length in bytes that `str::len` reports for a text.
pub open spec fn byte_len(s: Seq<char>) -> usize {
    encode_utf8(s).len() as usize
}

/// A name that can address an agent or key a workflow record: it is not
/// empty, its UTF-8 encoding fits in `MAX_NAME_BYTES` bytes and it holds
/// no `/`, which separates hubs from agents in a qualified address.
pub open spec fn name_valid(s: Seq<char>) -> bool {
    &&& s.len() > 0
    &&& byte_len(s) <= MAX_NAME_BYTES
    &&& !s.contains('/')
}

/// Whether `s` holds the character `c`.
pub fn contains_char(s: &str, c: char) -> (r: bool)
    ensures
        r == s@.contains(c),
{
    let n = s.unicode_len();
    let mut i: usize = 0;
    while i < n
        invariant
            n == s@.len(),
            i <= n,
            forall|j: int| 0 <= j < i ==> s@[j] != c,
        decreases n - i,
    {
        if s.get_char(i) == c {
            assert(s@[i as int] == c);
            return true;
        }
        i = i + 1;
    }
    false
}

/// Checks `name_valid`.
pub fn valid_name(s: &String) -> (r: bool)
    ensures
        r == name_valid(s@),
{
    let text = s.as_str();
    let chars = text.unicode_len();
    let bytes = text.len();
    assert(text.spec_bytes() == encode_utf8(text@));
    chars > 0 && bytes <= MAX_NAME_BYTES && !contains_char(text, '/')
}

/// Whether two strings hold the same characters.
pub fn same_text(a: &String, b: &String) -> (r: bool)
    ensures
        r == (a@ == b@),
{
    a.eq(b)
}

/// An agent's address: the hub that hosts it (`None` for this hub) and its name.
#[derive(Debug, PartialEq, Eq)]
pub struct QualifiedAddress {
    pub hub: Option<String>,
    pub agent: String,
}

pub open spec fn text_option_view(o: Option<String>) -> Option<Seq<char>> {
    match o {
        Some(s) => Some(s@),
        None => None,
    }
}

impl View for QualifiedAddress {
    type V = (Option<Seq<char>>, Seq<char>);

    open spec fn view(&self) -> (Option<Seq<char>>, Seq<char>) {
        (text_option_view(self.hub), self.agent@)
    }
}

impl Clone for QualifiedAddress {
    fn clone(&self) -> (r: Self)
        ensures
            r == *self,
    {
        let hub = match &self.hub {
            Some(h) => Some(h.clone()),
            None => None,
        };
        QualifiedAddress { hub, agent: self.agent.clone() }
    }
}

impl QualifiedAddress {
    /// The address of an agent on this hub.
    pub fn local(agent: &str) -> (r: QualifiedAddress)
        ensures
            r.hub is None,
            r.agent@ == agent@,
    {
        QualifiedAddress { hub: None, agent: agent.to_owned() }
    }

    /// Whether the agent lives on this hub.
    pub fn is_local(&self) -> (r: bool)
        ensures
            r == (self.hub is None),
    {
        self.hub.is_none()
    }
}

/// Whether two addresses name the same agent.
pub fn same_address(a: &QualifiedAddress, b: &QualifiedAddress) -> (r: bool)
    ensures
        r == (a@ == b@),
{
    let hub_same = match (&a.hub, &b.hub) {
        (None, None) => true,
        (Some(x), Some(y)) => same_text(x, y),
        _ => false,
    };
    hub_same && same_text(&a.agent, &b.agent)
}

/// One live execution of an agent: its address and the connection
/// generation under which the hub registered it.
#[derive(Debug, PartialEq, Eq)]
pub struct AgentExecutionRef {
    pub address: QualifiedAddress,
    pub connection_generation: u64,
}

impl View for AgentExecutionRef {
    type V = ((Option<Seq<char>>, Seq<char>), u64);

    open spec fn view(&self) -> ((Option<Seq<char>>, Seq<char>), u64) {
        (self.address@, self.connection_generation)
    }
}

impl Clone for AgentExecutionRef {
    fn clone(&self) -> (r: Self)
        ensures
            r == *self,
    {
        AgentExecutionRef {
            address: self.address.clone(),
            connection_generation: self.connection_generation,
        }
    }
}

impl AgentExecutionRef {
    /// An execution of a local agent.
    pub fn local(agent: &str, connection_generation: u64) -> (r: AgentExecutionRef)
        ensures
            r.address.hub is None,
            r.address.agent@ == agent@,
            r.connection_generation == connection_generation,
    {
        AgentExecutionRef { address: QualifiedAddress::local(agent), connection_generation }
    }
}

/// Whether two execution references name the same execution.
pub fn same_execution(a: &AgentExecutionRef, b: &AgentExecutionRef) -> (r: bool)
    ensures
        r == (a@ == b@),
{
    a.connection_generation == b.connection_generation && same_address(&a.address, &b.address)
}

/// Whether two optional execution references are equal.
pub fn same_optional_execution(a: &Option<AgentExecutionRef>, b: &Option<AgentExecutionRef>) -> (r:
    bool)
    ensures
        r == (execution_option_view(*a) == execution_option_view(*b)),
{
    match (a, b) {
        (None, None) => true,
        (Some(x), Some(y)) => same_execution(x, y),
        _ => false,
    }
}

pub open spec fn execution_option_view(o: Option<AgentExecutionRef>) -> Option<
    ((Option<Seq<char>>, Seq<char>), u64),
> {
    match o {
        Some(e) => Some(e@),
        None => None,
    }
}

/// The root agent of one session, which owns that session's workflow runs.
#[derive(Debug, PartialEq, Eq)]
pub struct WorkflowOwner {
    pub session_id: String,
    pub root_agent: QualifiedAddress,
}

impl View for WorkflowOwner {
    type V = (Seq<char>, (Option<Seq<char>>, Seq<char>));

    open spec fn view(&self) -> (Seq<char>, (Option<Seq<char>>, Seq<char>)) {
        (self.session_id@, self.root_agent@)
    }
}

impl Clone for WorkflowOwner {
    fn clone(&self) -> (r: Self)
        ensures
            r == *self,
    {
        WorkflowOwner { session_id: self.session_id.clone(), root_agent: self.root_agent.clone() }
    }
}

/// An owner is valid when its session is named and its root is a valid
/// agent on this hub.
pub open spec fn owner_valid(owner: WorkflowOwner) -> bool {
    &&& owner.session_id@.len() > 0
    &&& owner.root_agent.hub is None
    &&& name_valid(owner.root_agent.agent@)
}

impl WorkflowOwner {
    pub fn new(session_id: &str, root_agent: QualifiedAddress) -> (r: WorkflowOwner)
        ensures
            r.session_id@ == session_id@,
            r.root_agent == root_agent,
    {
        WorkflowOwner { session_id: session_id.to_owned(), root_agent }
    }

    /// Checks `owner_valid`.
    pub fn is_valid(&self) -> (r: bool)
        ensures
            r == owner_valid(*self),
    {
        self.session_id.as_str().unicode_len() > 0 && self.root_agent.is_local() && valid_name(
            &self.root_agent.agent,
        )
    }
}

/// Whether two owners are the same session root.
pub fn same_owner(a: &WorkflowOwner, b: &WorkflowOwner) -> (r: bool)
    ensures
        r == (a@ == b@),
{
    same_text(&a.session_id, &b.session_id) && same_address(&a.root_agent, &b.root_agent)
}

/// Names one attempt of one node of one run. The same triple is the
/// causation that a worker's permission requests carry.
#[derive(Debug, PartialEq, Eq)]
pub struct AttemptKey {
    pub run_id: String,
    pub node_id: String,
    pub attempt_id: String,
}

/// The permission causation that binds a worker to its attempt.
pub type WorkflowPermissionCausation = AttemptKey;

impl View for AttemptKey {
    type V = (Seq<char>, Seq<char>, Seq<char>);

    open spec fn view(&self) -> (Seq<char>, Seq<char>, Seq<char>) {
        (self.run_id@, self.node_id@, self.attempt_id@)
    }
}

impl Clone for AttemptKey {
    fn clone(&self) -> (r: Self)
        ensures
            r == *self,
    {
        AttemptKey {
            run_id: self.run_id.clone(),
            node_id: self.node_id.clone(),
            attempt_id: self.attempt_id.clone(),
        }
    }
}

impl AttemptKey {
    /// A causation is valid when its three identifiers are.
    pub fn is_valid(&self) -> (r: bool)
        ensures
            r == (name_valid(self.run_id@) && name_valid(self.node_id@) && name_valid(
                self.attempt_id@,
            )),
    {
        valid_name(&self.run_id) && valid_name(&self.node_id) && valid_name(&self.attempt_id)
    }
}

/// Whether two keys name the same attempt of the same node and run.
pub fn same_key(a: &AttemptKey, b: &AttemptKey) -> (r: bool)
    ensures
        r == (a@ == b@),
{
    same_text(&a.run_id, &b.run_id) && same_text(&a.node_id, &b.node_id) && same_text(
        &a.attempt_id,
        &b.attempt_id,
    )
}

} // verus!
