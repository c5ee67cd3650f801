use vstd::prelude::*;

use crate::callbacks::WorkflowPreparedWorker;
use crate::clock::WorkflowClock;
use crate::error::WorkflowCoordinatorError;
use crate::failure::{AgentCompletion, WorkflowAttemptFailure, WorkflowFailureClass};
use crate::identity::{
    name_valid, owner_valid, same_address, same_execution, same_owner, same_text,
    AgentExecutionRef, AttemptKey, WorkflowOwner,
};
use crate::mode::{mode_executes, WorkflowCoordinatorMode};
use crate::order::{distinct_texts, sort_ids, strictly_ascending, texts};
use crate::payload::WorkflowEventPayload;
use crate::run::{
    attempt_in, attempt_of, attempt_state_terminal, has_attempt, find_attempt, saturating_sum,
    WorkflowAttemptSnapshot, WorkflowAttemptState, WorkflowRunSnapshot,
};
use crate::scheduler::{
    lease_valid, valid_lease, ActiveAttempt, ActiveAttemptPhase, WorkflowScheduler,
};
use crate::slots::{
    find_slot, has_slot, lemma_push_keeps_unique, lemma_remove_keeps_unique, lemma_slot_at,
    lemma_update_keeps_unique, slot, slot_index, unique_slots,
};

verus! {

/// What recovery remembers about attempts that were live before a restart:
/// the instant by which each must reclaim its worker, and the attempts whose
/// worker was already adopted.
pub struct RecoveryLedger {
    pub deadlines: Vec<(String, u64)>,
    pub adopted: Vec<String>,
}

/// A worker's request to reclaim its attempt after a restart.
pub struct WorkflowAttemptReconnect {
    pub causation: AttemptKey,
    pub capability: Vec<u8>,
    pub execution: AgentExecutionRef,
}

/// What the coordinator answers a reclaimed worker.
pub struct WorkflowAttemptReconnectResponse {
    pub execution: AgentExecutionRef,
    pub attempt_state: WorkflowAttemptState,
}

/// How a worker runtime refused to hand over a recovered worker.
#[derive(Clone, Copy, Debug, PartialEq, Eq, Structural)]
pub enum WorkflowRecoveryAdoptionError {
    ConflictingOwner,
    MissingCustody,
    StaleExecution,
    InvalidPhase,
}

/// What an adoption needs once its request was checked.
pub struct AdoptionPlan {
    pub key: AttemptKey,
    pub prior_state: WorkflowAttemptState,
    pub dispatched_at_unix_ms: u64,
    /// The worker is not yet recorded as bound.
    pub needs_bind: bool,
    /// The attempt's node produces the run's output.
    pub output_node: bool,
    pub attempt_timeout_ms: u64,
}

/// How a worker's startup handshake is answered.
pub enum HandshakeDecision {
    /// The attempt awaits recovery: adopt the worker.
    Adopt,
    /// The worker is the current one of a live attempt in this state.
    Fresh(WorkflowAttemptState),
}

pub open spec fn contains_text(v: Seq<String>, x: Seq<char>) -> bool {
    texts(v).contains(x)
}

/// Whether some run holds a non-terminal attempt with this id.
pub open spec fn recovering(runs: Seq<WorkflowRunSnapshot>, x: Seq<char>) -> bool {
    exists|r: int, a: int|
        0 <= r < runs.len() && 0 <= a < runs[r].attempts@.len() && (#[trigger] runs[r].attempts@[a]).id@
            == x && !attempt_state_terminal(runs[r].attempts@[a].state)
}

/// `recovering`, among the runs before `r` and the first `a` attempts of run `r`.
pub open spec fn recovering_upto(runs: Seq<WorkflowRunSnapshot>, r: int, a: int, x: Seq<char>) -> bool {
    exists|p: int, q: int|
        0 <= p <= r && p < runs.len() && 0 <= q < runs[p].attempts@.len() && (p < r || q < a) && (#[trigger] runs[p].attempts@[q]).id@ == x
            && !attempt_state_terminal(runs[p].attempts@[q].state)
}

/// The checks of a recovery request on its owner, in order.
pub open spec fn owner_check(
    mode: WorkflowCoordinatorMode,
    owner: WorkflowOwner,
    poisoned: bool,
    recovered: bool,
) -> Option<WorkflowCoordinatorError> {
    if !mode_executes(mode) || !owner_valid(owner) {
        Some(WorkflowCoordinatorError::InvalidOwner)
    } else if poisoned {
        Some(WorkflowCoordinatorError::OwnerPoisoned)
    } else if !recovered {
        Some(WorkflowCoordinatorError::RecoveryRequired)
    } else {
        None
    }
}

/// Whether a recorded attempt accepts a reclaim by this worker.
pub open spec fn attempt_accepts(
    attempt: WorkflowAttemptSnapshot,
    request: WorkflowAttemptReconnect,
    capability_matches: bool,
) -> bool {
    &&& attempt.node_id@ == request.causation.node_id@
    &&& !attempt_state_terminal(attempt.state)
    &&& capability_matches
    &&& (attempt.agent matches Some(agent) ==> agent@ == request.execution.address@)
    &&& (attempt.state == WorkflowAttemptState::Dispatching || attempt.state
        == WorkflowAttemptState::Running)
}

impl RecoveryLedger {
    pub open spec fn wf(&self) -> bool {
        unique_slots(self.deadlines@) && distinct_texts(texts(self.adopted@))
    }

    pub fn new() -> (r: RecoveryLedger)
        ensures
            r.wf(),
            r.deadlines@.len() == 0,
            r.adopted@.len() == 0,
    {
        RecoveryLedger { deadlines: Vec::new(), adopted: Vec::new() }
    }

    /// The recovery deadline of an attempt, if it has one.
    pub fn deadline_of(&self, id: &String) -> (r: Option<u64>)
        requires
            self.wf(),
        ensures
            r == slot(self.deadlines@, id@),
    {
        match find_slot(&self.deadlines, id) {
            Some(i) => {
                proof {
                    lemma_slot_at(self.deadlines@, i as int);
                }
                Some(self.deadlines[i].1)
            },
            None => None,
        }
    }

    /// Sets the recovery deadline of an attempt, replacing an earlier one.
    pub fn set_deadline(&mut self, id: &String, deadline: u64)
        requires
            old(self).wf(),
        ensures
            final(self).wf(),
            final(self).adopted == old(self).adopted,
            slot(final(self).deadlines@, id@) == Some(deadline),
            forall|x: Seq<char>|
                x != id@ ==> #[trigger] slot(final(self).deadlines@, x) == slot(
                    old(self).deadlines@,
                    x,
                ),
    {
        let ghost before = self.deadlines@;
        match find_slot(&self.deadlines, id) {
            Some(i) => {
                proof {
                    lemma_slot_at(before, i as int);
                }
                let (slot_id, _previous) = self.deadlines.remove(i);
                self.deadlines.insert(i, (slot_id, deadline));
                proof {
                    let e = (before[i as int].0, deadline);
                    assert(self.deadlines@ =~= before.update(i as int, e));
                    lemma_update_keeps_unique(before, i as int, e);
                    lemma_slot_at(self.deadlines@, i as int);
                    assert forall|x: Seq<char>| x != id@ implies #[trigger] slot(
                        self.deadlines@,
                        x,
                    ) == slot(before, x) by {
                        if has_slot(before, x) {
                            let j = slot_index(before, x);
                            assert(self.deadlines@[j] == before[j]);
                            lemma_slot_at(self.deadlines@, j);
                            lemma_slot_at(before, j);
                        }
                        if has_slot(self.deadlines@, x) {
                            let j = slot_index(self.deadlines@, x);
                            assert(self.deadlines@[j] == before[j]);
                        }
                    }
                }
            },
            None => {
                let entry = (id.clone(), deadline);
                proof {
                    lemma_push_keeps_unique(before, entry);
                }
                self.deadlines.push(entry);
                proof {
                    assert forall|x: Seq<char>| x != id@ implies #[trigger] slot(
                        self.deadlines@,
                        x,
                    ) == slot(before, x) by {
                        if has_slot(before, x) {
                            let j = slot_index(before, x);
                            assert(self.deadlines@[j] == before[j]);
                            lemma_slot_at(self.deadlines@, j);
                            lemma_slot_at(before, j);
                        }
                        if has_slot(self.deadlines@, x) {
                            let j = slot_index(self.deadlines@, x);
                            assert(j < before.len());
                            assert(self.deadlines@[j] == before[j]);
                        }
                    }
                }
            },
        }
    }

    /// Forgets the recovery deadline of an attempt.
    pub fn forget_deadline(&mut self, id: &String)
        requires
            old(self).wf(),
        ensures
            final(self).wf(),
            final(self).adopted == old(self).adopted,
            !has_slot(final(self).deadlines@, id@),
            forall|x: Seq<char>|
                x != id@ ==> #[trigger] slot(final(self).deadlines@, x) == slot(
                    old(self).deadlines@,
                    x,
                ),
    {
        if let Some(i) = find_slot(&self.deadlines, id) {
            proof {
                lemma_slot_at(self.deadlines@, i as int);
                lemma_remove_keeps_unique(self.deadlines@, i as int);
            }
            let _forgotten = self.deadlines.remove(i);
        }
    }

    /// Whether the attempt's worker was already adopted after recovery.
    pub fn is_adopted(&self, id: &String) -> (r: bool)
        ensures
            r == contains_text(self.adopted@, id@),
    {
        let mut i: usize = 0;
        while i < self.adopted.len()
            invariant
                i <= self.adopted@.len(),
                forall|j: int| 0 <= j < i ==> #[trigger] self.adopted@[j]@ != id@,
            decreases self.adopted@.len() - i,
        {
            if same_text(&self.adopted[i], id) {
                assert(texts(self.adopted@)[i as int] == id@);
                return true;
            }
            i = i + 1;
        }
        proof {
            if texts(self.adopted@).contains(id@) {
                let j = choose|j: int|
                    0 <= j < texts(self.adopted@).len() && #[trigger] texts(self.adopted@)[j] == id@;
                assert(self.adopted@[j]@ == id@);
            }
        }
        false
    }

    /// Records that the attempt's worker was adopted.
    pub fn mark_adopted(&mut self, id: &String)
        requires
            old(self).wf(),
        ensures
            final(self).wf(),
            final(self).deadlines == old(self).deadlines,
            forall|x: Seq<char>| contains_text(final(self).adopted@, x) <==> (contains_text(
                old(self).adopted@,
                x,
            ) || x == id@),
    {
        if self.is_adopted(id) {
            return;
        }
        let ghost before = self.adopted@;
        self.adopted.push(id.clone());
        proof {
            assert(texts(self.adopted@) =~= texts(before).push(id@));
            assert forall|a: int, b: int|
                0 <= a < texts(self.adopted@).len() && 0 <= b < texts(self.adopted@).len() && a != b
                    implies texts(self.adopted@)[a] != texts(self.adopted@)[b] by {
                if a == before.len() {
                    assert(texts(before)[b] == texts(self.adopted@)[b]);
                } else if b == before.len() {
                    assert(texts(before)[a] == texts(self.adopted@)[a]);
                }
            }
            assert forall|x: Seq<char>| contains_text(self.adopted@, x) <==> (contains_text(
                before,
                x,
            ) || x == id@) by {
                if texts(self.adopted@).contains(x) {
                    let j = choose|j: int|
                        0 <= j < texts(self.adopted@).len() && #[trigger] texts(self.adopted@)[j] == x;
                    if j < before.len() {
                        assert(texts(before)[j] == x);
                    }
                }
                if texts(before).contains(x) {
                    let j = choose|j: int| 0 <= j < texts(before).len() && #[trigger] texts(before)[j] == x;
                    assert(texts(self.adopted@)[j] == x);
                }
                if x == id@ {
                    assert(texts(self.adopted@)[before.len() as int] == x);
                }
            }
        }
    }

    /// Gives every attempt that was live before the restart a deadline of
    /// the grace period after `recovery_now` to reclaim its worker.
    pub fn install_deadlines(&mut self, runs: &Vec<WorkflowRunSnapshot>, recovery_now: u64, grace_ms: u64)
        requires
            old(self).wf(),
        ensures
            final(self).wf(),
            final(self).adopted == old(self).adopted,
            forall|x: Seq<char>|
                #[trigger] recovering(runs@, x) ==> slot(final(self).deadlines@, x) == Some(
                    saturating_sum(recovery_now, grace_ms),
                ),
            forall|x: Seq<char>|
                !(#[trigger] recovering(runs@, x)) ==> slot(final(self).deadlines@, x) == slot(
                    old(self).deadlines@,
                    x,
                ),
    {
        let deadline = recovery_now.saturating_add(grace_ms);
        let ghost before = self.deadlines@;
        let mut r: usize = 0;
        while r < runs.len()
            invariant
                self.wf(),
                self.adopted == old(self).adopted,
                r <= runs@.len(),
                deadline == saturating_sum(recovery_now, grace_ms),
                forall|x: Seq<char>|
                    #[trigger] recovering_upto(runs@, r as int, 0, x) ==> slot(self.deadlines@, x)
                        == Some(deadline),
                forall|x: Seq<char>|
                    !(#[trigger] recovering_upto(runs@, r as int, 0, x)) ==> slot(
                        self.deadlines@,
                        x,
                    ) == slot(before, x),
            decreases runs@.len() - r,
        {
            let run = &runs[r];
            let mut a: usize = 0;
            while a < run.attempts.len()
                invariant
                    self.wf(),
                    self.adopted == old(self).adopted,
                    r < runs@.len(),
                    *run == runs@[r as int],
                    a <= run.attempts@.len(),
                    deadline == saturating_sum(recovery_now, grace_ms),
                    forall|x: Seq<char>|
                        #[trigger] recovering_upto(runs@, r as int, a as int, x) ==> slot(
                            self.deadlines@,
                            x,
                        ) == Some(deadline),
                    forall|x: Seq<char>|
                        !(#[trigger] recovering_upto(runs@, r as int, a as int, x)) ==> slot(
                            self.deadlines@,
                            x,
                        ) == slot(before, x),
                decreases run.attempts@.len() - a,
            {
                let ghost prev = self.deadlines@;
                if !run.attempts[a].state.is_terminal() {
                    self.set_deadline(&run.attempts[a].id, deadline);
                }
                proof {
                    let id = run.attempts@[a as int].id@;
                    assert forall|x: Seq<char>| #[trigger] recovering_upto(runs@, r as int, a + 1, x)
                        implies slot(self.deadlines@, x) == Some(deadline) by {
                        let (p, q) = choose|p: int, q: int|
                            0 <= p <= r && p < runs@.len() && 0 <= q < runs@[p].attempts@.len() && (p < r || q < a + 1)
                                && (#[trigger] runs@[p].attempts@[q]).id@ == x
                                && !attempt_state_terminal(runs@[p].attempts@[q].state);
                        if p < r || q < a {
                            assert(recovering_upto(runs@, r as int, a as int, x));
                        }
                    }
                    assert forall|x: Seq<char>| !(#[trigger] recovering_upto(runs@, r as int, a + 1, x))
                        implies slot(self.deadlines@, x) == slot(before, x) by {
                        if recovering_upto(runs@, r as int, a as int, x) {
                            let (p, q) = choose|p: int, q: int|
                                0 <= p <= r && p < runs@.len() && 0 <= q < runs@[p].attempts@.len() && (p < r || q < a)
                                    && (#[trigger] runs@[p].attempts@[q]).id@ == x
                                    && !attempt_state_terminal(runs@[p].attempts@[q].state);
                            assert(recovering_upto(runs@, r as int, a + 1, x));
                        }
                        if x == id && !attempt_state_terminal(run.attempts@[a as int].state) {
                            assert(recovering_upto(runs@, r as int, a + 1, x));
                        }
                    }
                }
                a = a + 1;
            }
            proof {
                assert forall|x: Seq<char>| #[trigger] recovering_upto(runs@, r + 1, 0, x) == recovering_upto(
                    runs@,
                    r as int,
                    run.attempts@.len() as int,
                    x,
                ) by {
                    if recovering_upto(runs@, r + 1, 0, x) {
                        let (p, q) = choose|p: int, q: int|
                            0 <= p <= r + 1 && p < runs@.len() && 0 <= q < runs@[p].attempts@.len() && (p < r + 1 || q < 0)
                                && (#[trigger] runs@[p].attempts@[q]).id@ == x
                                && !attempt_state_terminal(runs@[p].attempts@[q].state);
                        assert(recovering_upto(runs@, r as int, run.attempts@.len() as int, x));
                    }
                    if recovering_upto(runs@, r as int, run.attempts@.len() as int, x) {
                        let (p, q) = choose|p: int, q: int|
                            0 <= p <= r && p < runs@.len() && 0 <= q < runs@[p].attempts@.len() && (p < r || q < run.attempts@.len())
                                && (#[trigger] runs@[p].attempts@[q]).id@ == x
                                && !attempt_state_terminal(runs@[p].attempts@[q].state);
                        assert(recovering_upto(runs@, r + 1, 0, x));
                    }
                }
            }
            r = r + 1;
        }
        proof {
            assert forall|x: Seq<char>| #[trigger] recovering(runs@, x) == recovering_upto(
                runs@,
                runs@.len() as int,
                0,
                x,
            ) by {
                if recovering(runs@, x) {
                    let (p, q) = choose|p: int, q: int|
                        0 <= p < runs@.len() && 0 <= q < runs@[p].attempts@.len() && (#[trigger] runs@[p].attempts@[q]).id@ == x
                            && !attempt_state_terminal(runs@[p].attempts@[q].state);
                    assert(recovering_upto(runs@, runs@.len() as int, 0, x));
                }
                if recovering_upto(runs@, runs@.len() as int, 0, x) {
                    let (p, q) = choose|p: int, q: int|
                        0 <= p <= runs@.len() && p < runs@.len() && 0 <= q < runs@[p].attempts@.len() && (p < runs@.len() || q < 0)
                            && (#[trigger] runs@[p].attempts@[q]).id@ == x
                            && !attempt_state_terminal(runs@[p].attempts@[q].state);
                    assert(recovering(runs@, x));
                }
            }
        }
    }

    /// The attempts whose recovery deadline has passed at `now`, in
    /// ascending id order.
    pub fn expired(&self, now: u64) -> (r: Vec<String>)
        requires
            self.wf(),
        ensures
            strictly_ascending(texts(r@)),
            forall|x: Seq<char>|
                texts(r@).contains(x) <==> (slot(self.deadlines@, x) matches Some(d) && d <= now),
    {
        let mut ids: Vec<String> = Vec::new();
        let mut i: usize = 0;
        while i < self.deadlines.len()
            invariant
                i <= self.deadlines@.len(),
                texts(ids@) == expired_ids(self.deadlines@.take(i as int), now),
            decreases self.deadlines@.len() - i,
        {
            proof {
                assert(self.deadlines@.take(i + 1).drop_last() =~= self.deadlines@.take(i as int));
                assert(self.deadlines@.take(i + 1).last() == self.deadlines@[i as int]);
            }
            if self.deadlines[i].1 <= now {
                let ghost prev = ids@;
                ids.push(self.deadlines[i].0.clone());
                proof {
                    assert(texts(ids@) =~= texts(prev).push(self.deadlines@[i as int].0@));
                }
            }
            i = i + 1;
        }
        proof {
            assert(self.deadlines@.take(i as int) =~= self.deadlines@);
            lemma_expired_ids(self.deadlines@, now);
            assert forall|x: Seq<char>| #![trigger slot(self.deadlines@, x)]
                texts(ids@).contains(x) <==> (slot(self.deadlines@, x) matches Some(d) && d <= now) by {
                if texts(ids@).contains(x) {
                    let j = choose|j: int|
                        0 <= j < self.deadlines@.len() && #[trigger] self.deadlines@[j].0@ == x
                            && self.deadlines@[j].1 <= now;
                    lemma_slot_at(self.deadlines@, j);
                }
                if slot(self.deadlines@, x) matches Some(d) && d <= now {
                    let j = slot_index(self.deadlines@, x);
                    assert(self.deadlines@[j].0@ == x);
                }
            }
        }
        sort_ids(ids)
    }
}

/// The ids, in order, whose deadline has passed at `now`.
pub open spec fn expired_ids(s: Seq<(String, u64)>, now: u64) -> Seq<Seq<char>>
    decreases s.len(),
{
    if s.len() == 0 {
        Seq::empty()
    } else if s.last().1 <= now {
        expired_ids(s.drop_last(), now).push(s.last().0@)
    } else {
        expired_ids(s.drop_last(), now)
    }
}

pub proof fn lemma_expired_ids(s: Seq<(String, u64)>, now: u64)
    requires
        unique_slots(s),
    ensures
        distinct_texts(expired_ids(s, now)),
        forall|x: Seq<char>|
            expired_ids(s, now).contains(x) <==> exists|j: int|
                0 <= j < s.len() && #[trigger] s[j].0@ == x && s[j].1 <= now,
    decreases s.len(),
{
    if s.len() > 0 {
        let p = s.drop_last();
        assert forall|a: int, b: int| 0 <= a < p.len() && 0 <= b < p.len() && a != b implies #[trigger] p[a].0@
            != #[trigger] p[b].0@ by {
            assert(p[a] == s[a] && p[b] == s[b]);
        }
        lemma_expired_ids(p, now);
        let rest = expired_ids(p, now);
        assert forall|x: Seq<char>|
            expired_ids(s, now).contains(x) <==> exists|j: int|
                0 <= j < s.len() && #[trigger] s[j].0@ == x && s[j].1 <= now by {
            if s.last().1 <= now {
                assert(expired_ids(s, now) == rest.push(s.last().0@));
                if rest.contains(x) {
                    let j = choose|j: int| 0 <= j < p.len() && #[trigger] p[j].0@ == x && p[j].1 <= now;
                    assert(s[j] == p[j]);
                }
                if x == s.last().0@ {
                    assert(expired_ids(s, now)[rest.len() as int] == x);
                }
                if expired_ids(s, now).contains(x) {
                    let m = choose|m: int| 0 <= m < expired_ids(s, now).len() && #[trigger] expired_ids(s, now)[m] == x;
                    if m < rest.len() {
                        assert(rest[m] == x);
                    }
                }
            }
            if exists|j: int| 0 <= j < s.len() && #[trigger] s[j].0@ == x && s[j].1 <= now {
                let j = choose|j: int| 0 <= j < s.len() && #[trigger] s[j].0@ == x && s[j].1 <= now;
                if j < p.len() {
                    assert(p[j] == s[j]);
                    assert(rest.contains(x));
                    let m = choose|m: int| 0 <= m < rest.len() && #[trigger] rest[m] == x;
                    if s.last().1 <= now {
                        assert(expired_ids(s, now)[m] == x);
                    }
                } else {
                    assert(expired_ids(s, now)[rest.len() as int] == x);
                }
            }
        }
        if s.last().1 <= now {
            let t = rest.push(s.last().0@);
            assert forall|a: int, b: int| 0 <= a < t.len() && 0 <= b < t.len() && a != b implies t[a] != t[b] by {
                if a == rest.len() || b == rest.len() {
                    let m = if a == rest.len() { b } else { a };
                    assert(t[m] == rest[m]);
                    assert(rest.contains(rest[m]));
                    let j = choose|j: int| 0 <= j < p.len() && #[trigger] p[j].0@ == rest[m] && p[j].1 <= now;
                    assert(s[j] == p[j]);
                    assert(j != s.len() - 1);
                }
            }
        }
    }
}

/// The instant recovery measures deadlines from. A zero grace period needs
/// no clock reading: deadlines then lie at the end of time.
pub fn recovery_now<C: WorkflowClock>(grace_ms: u64, clock: &C) -> (r: u64)
    ensures
        grace_ms == 0 ==> r == u64::MAX,
{
    if grace_ms == 0 {
        u64::MAX
    } else {
        clock.now_unix_ms()
    }
}

/// Checks `owner_check`.
pub fn validate_owner(
    mode: WorkflowCoordinatorMode,
    owner: &WorkflowOwner,
    poisoned: bool,
    recovered: bool,
) -> (r: Result<(), WorkflowCoordinatorError>)
    ensures
        r is Ok <==> owner_check(mode, *owner, poisoned, recovered) is None,
        r matches Err(e) ==> owner_check(mode, *owner, poisoned, recovered) == Some(e),
{
    if !mode.executes() || !owner.is_valid() {
        return Err(WorkflowCoordinatorError::InvalidOwner);
    }
    if poisoned {
        return Err(WorkflowCoordinatorError::OwnerPoisoned);
    }
    if !recovered {
        return Err(WorkflowCoordinatorError::RecoveryRequired);
    }
    Ok(())
}

/// How a worker runtime's refusal to hand over a recovered worker is
/// reported: a conflicting owner makes the lease invalid; every other
/// refusal makes it stale.
pub fn map_adoption_error(error: WorkflowRecoveryAdoptionError) -> (r: WorkflowCoordinatorError)
    ensures
        error == WorkflowRecoveryAdoptionError::ConflictingOwner ==> r
            == WorkflowCoordinatorError::InvalidExecutionLease,
        error != WorkflowRecoveryAdoptionError::ConflictingOwner ==> r
            == WorkflowCoordinatorError::StaleExecutionLease,
{
    match error {
        WorkflowRecoveryAdoptionError::ConflictingOwner => {
            WorkflowCoordinatorError::InvalidExecutionLease
        },
        WorkflowRecoveryAdoptionError::MissingCustody
        | WorkflowRecoveryAdoptionError::StaleExecution
        | WorkflowRecoveryAdoptionError::InvalidPhase => {
            WorkflowCoordinatorError::StaleExecutionLease
        },
    }
}

/// Whether the attempt's agent, if recorded, is the execution's address.
fn agent_matches(attempt: &WorkflowAttemptSnapshot, execution: &AgentExecutionRef) -> (r: bool)
    ensures
        r == (attempt.agent matches Some(agent) ==> agent@ == execution.address@),
{
    match &attempt.agent {
        Some(agent) => same_address(agent, &execution.address),
        None => true,
    }
}

/// Whether an attempt is dispatching or running.
fn in_flight(state: WorkflowAttemptState) -> (r: bool)
    ensures
        r == (state == WorkflowAttemptState::Dispatching || state == WorkflowAttemptState::Running),
{
    state == WorkflowAttemptState::Dispatching || state == WorkflowAttemptState::Running
}

/// Checks a worker's reclaim of its attempt after a restart, in order: the
/// owner; a recovery deadline that has not passed at `now` and no earlier
/// adoption; the run; the attempt; and that the attempt accepts this worker.
pub fn adoption_plan(
    ledger: &RecoveryLedger,
    mode: WorkflowCoordinatorMode,
    owner: &WorkflowOwner,
    poisoned: bool,
    recovered: bool,
    now: u64,
    run: Option<&WorkflowRunSnapshot>,
    request: &WorkflowAttemptReconnect,
    capability_matches: bool,
) -> (r: Result<AdoptionPlan, WorkflowCoordinatorError>)
    requires
        ledger.wf(),
    ensures
        ({
            let id = request.causation.attempt_id@;
            let deadline = slot(ledger.deadlines@, id);
            let expected = if owner_check(mode, *owner, poisoned, recovered) is Some {
                owner_check(mode, *owner, poisoned, recovered)
            } else if deadline is None || now >= deadline->0 || contains_text(ledger.adopted@, id) {
                Some(WorkflowCoordinatorError::StaleExecutionLease)
            } else if run is None {
                Some(WorkflowCoordinatorError::InvalidRunId)
            } else if attempt_of(*run->0, id) is None {
                Some(WorkflowCoordinatorError::RecoveryInvalid)
            } else if !attempt_accepts(attempt_of(*run->0, id)->0, *request, capability_matches) {
                Some(WorkflowCoordinatorError::InvalidExecutionLease)
            } else {
                None
            };
            &&& expected is Some ==> r == Err::<AdoptionPlan, WorkflowCoordinatorError>(expected->0)
            &&& expected is None ==> (r matches Ok(plan) && {
                let attempt = attempt_of(*run->0, id)->0;
                &&& plan.key == request.causation
                &&& plan.prior_state == attempt.state
                &&& plan.dispatched_at_unix_ms == attempt.dispatched_at_unix_ms
                &&& plan.needs_bind == attempt.agent is None
                &&& plan.output_node == (request.causation.node_id@ == run->0.spec.output_node@)
                &&& plan.attempt_timeout_ms == run->0.spec.limits.attempt_timeout_ms
            })
        }),
{
    validate_owner(mode, owner, poisoned, recovered)?;
    let causation = &request.causation;
    let deadline = match ledger.deadline_of(&causation.attempt_id) {
        Some(d) => d,
        None => return Err(WorkflowCoordinatorError::StaleExecutionLease),
    };
    if now >= deadline || ledger.is_adopted(&causation.attempt_id) {
        return Err(WorkflowCoordinatorError::StaleExecutionLease);
    }
    let run = match run {
        Some(run) => run,
        None => return Err(WorkflowCoordinatorError::InvalidRunId),
    };
    let attempt = match attempt_in(run, &causation.attempt_id) {
        Some(a) => a,
        None => return Err(WorkflowCoordinatorError::RecoveryInvalid),
    };
    if !same_text(&attempt.node_id, &causation.node_id) || attempt.state.is_terminal()
        || !capability_matches || !agent_matches(attempt, &request.execution) {
        return Err(WorkflowCoordinatorError::InvalidExecutionLease);
    }
    if !in_flight(attempt.state) {
        return Err(WorkflowCoordinatorError::InvalidExecutionLease);
    }
    Ok(
        AdoptionPlan {
            key: causation.clone(),
            prior_state: attempt.state,
            dispatched_at_unix_ms: attempt.dispatched_at_unix_ms,
            needs_bind: attempt.agent.is_none(),
            output_node: same_text(&causation.node_id, &run.spec.output_node),
            attempt_timeout_ms: run.spec.limits.attempt_timeout_ms,
        },
    )
}

/// The running custody record of an adopted worker.
pub open spec fn adopted_record<T, O>(
    owner: WorkflowOwner,
    plan: AdoptionPlan,
    worker: WorkflowPreparedWorker<O>,
) -> ActiveAttempt<T, O> {
    ActiveAttempt {
        owner,
        key: plan.key,
        execution: worker.execution,
        outcome: Some(worker.outcome),
        outcome_waiter: None,
        shutdown_waiter: None,
        deadline_unix_ms: saturating_sum(plan.dispatched_at_unix_ms, plan.attempt_timeout_ms),
        shutdown_after_unix_ms: None,
        phase: ActiveAttemptPhase::Running,
        stop: None,
    }
}

/// Whether a handed-over worker may be adopted: it is the requested
/// execution and its lease is valid and not yet bound.
pub fn adoptable_worker<T, O>(
    scheduler: &WorkflowScheduler<T, O>,
    worker: &AgentExecutionRef,
    requested: &AgentExecutionRef,
) -> (r: bool)
    ensures
        r == (worker@ == requested@ && lease_valid(*worker)
            && !crate::scheduler::execution_held(scheduler.active@, *worker)),
{
    same_execution(worker, requested) && scheduler.unique_lease(worker)
}

/// After the binding and running transitions were journaled: the adopted
/// worker is kept as running with its own attempt deadline, its
/// recovery deadline is forgotten and the adoption is remembered. Returns
/// the attempt state to report, which is running for a dispatching attempt.
pub fn install_adoption<T, O>(
    scheduler: &mut WorkflowScheduler<T, O>,
    ledger: &mut RecoveryLedger,
    owner: &WorkflowOwner,
    plan: &AdoptionPlan,
    worker: WorkflowPreparedWorker<O>,
) -> (r: WorkflowAttemptState)
    requires
        old(scheduler).wf(),
        old(ledger).wf(),
    ensures
        final(scheduler).wf(),
        final(ledger).wf(),
        final(scheduler).pending == old(scheduler).pending,
        crate::callbacks::put_done(
            old(scheduler).active@,
            final(scheduler).active@,
            plan.key.attempt_id@,
            adopted_record(*owner, *plan, worker),
        ),
        !has_slot(final(ledger).deadlines@, plan.key.attempt_id@),
        forall|x: Seq<char>|
            x != plan.key.attempt_id@ ==> #[trigger] slot(final(ledger).deadlines@, x) == slot(
                old(ledger).deadlines@,
                x,
            ),
        forall|x: Seq<char>| contains_text(final(ledger).adopted@, x) <==> (contains_text(
            old(ledger).adopted@,
            x,
        ) || x == plan.key.attempt_id@),
        r == (if plan.prior_state == WorkflowAttemptState::Dispatching {
            WorkflowAttemptState::Running
        } else {
            plan.prior_state
        }),
{
    let attempt = ActiveAttempt {
        owner: owner.clone(),
        key: plan.key.clone(),
        execution: worker.execution,
        outcome: Some(worker.outcome),
        outcome_waiter: None,
        shutdown_waiter: None,
        deadline_unix_ms: plan.dispatched_at_unix_ms.saturating_add(plan.attempt_timeout_ms),
        shutdown_after_unix_ms: None,
        phase: ActiveAttemptPhase::Running,
        stop: None,
    };
    scheduler.put_active(plan.key.attempt_id.clone(), attempt);
    ledger.forget_deadline(&plan.key.attempt_id);
    ledger.mark_adopted(&plan.key.attempt_id);
    if plan.prior_state == WorkflowAttemptState::Dispatching {
        WorkflowAttemptState::Running
    } else {
        plan.prior_state
    }
}

/// Whether the current custody of an attempt is this worker's live binding.
pub open spec fn live_binding<T, O>(
    a: ActiveAttempt<T, O>,
    owner: WorkflowOwner,
    request: WorkflowAttemptReconnect,
) -> bool {
    &&& a.owner@ == owner@
    &&& a.key@ == request.causation@
    &&& a.execution@ == request.execution@
    &&& (a.phase == ActiveAttemptPhase::Activating || a.phase == ActiveAttemptPhase::Running)
}

/// Answers a worker's startup handshake, in order: the owner; a valid
/// causation and lease; an attempt awaiting recovery is adopted; an adopted
/// one cannot handshake again; otherwise the run's attempt must be bound to
/// this worker's address and the coordinator's custody must hold exactly
/// this live worker.
pub fn handshake_decision<T, O>(
    scheduler: &WorkflowScheduler<T, O>,
    ledger: &RecoveryLedger,
    mode: WorkflowCoordinatorMode,
    owner: &WorkflowOwner,
    poisoned: bool,
    recovered: bool,
    run: Option<&WorkflowRunSnapshot>,
    request: &WorkflowAttemptReconnect,
    capability_matches: bool,
) -> (r: Result<HandshakeDecision, WorkflowCoordinatorError>)
    requires
        scheduler.wf(),
        ledger.wf(),
    ensures
        ({
            let id = request.causation.attempt_id@;
            let attempt = attempt_of(*run->0, id)->0;
            let active = scheduler.active_slot(id);
            let expected = if owner_check(mode, *owner, poisoned, recovered) is Some {
                owner_check(mode, *owner, poisoned, recovered)
            } else if !(name_valid(request.causation.run_id@) && name_valid(
                request.causation.node_id@,
            ) && name_valid(id)) || !lease_valid(request.execution) {
                Some(WorkflowCoordinatorError::InvalidExecutionLease)
            } else if has_slot(ledger.deadlines@, id) {
                None
            } else if contains_text(ledger.adopted@, id) {
                Some(WorkflowCoordinatorError::StaleExecutionLease)
            } else if run is None {
                Some(WorkflowCoordinatorError::InvalidRunId)
            } else if attempt_of(*run->0, id) is None {
                Some(WorkflowCoordinatorError::RecoveryInvalid)
            } else if attempt.node_id@ != request.causation.node_id@ || attempt_state_terminal(
                attempt.state,
            ) || !capability_matches || !(attempt.agent matches Some(agent) && agent@
                == request.execution.address@) {
                Some(WorkflowCoordinatorError::InvalidExecutionLease)
            } else if active is None || !live_binding(active->0, *owner, *request) {
                Some(WorkflowCoordinatorError::StaleExecutionLease)
            } else if !(attempt.state == WorkflowAttemptState::Dispatching || attempt.state
                == WorkflowAttemptState::Running) {
                Some(WorkflowCoordinatorError::InvalidExecutionLease)
            } else {
                None
            };
            &&& expected is Some ==> r == Err::<HandshakeDecision, WorkflowCoordinatorError>(
                expected->0,
            )
            &&& expected is None && has_slot(ledger.deadlines@, id) ==> (r matches Ok(
                HandshakeDecision::Adopt,
            ))
            &&& expected is None && !has_slot(ledger.deadlines@, id) ==> (r matches Ok(
                HandshakeDecision::Fresh(state),
            ) && state == attempt.state)
        }),
{
    validate_owner(mode, owner, poisoned, recovered)?;
    if !request.causation.is_valid() || !valid_lease(&request.execution) {
        return Err(WorkflowCoordinatorError::InvalidExecutionLease);
    }
    let id = &request.causation.attempt_id;
    if ledger.deadline_of(id).is_some() {
        return Ok(HandshakeDecision::Adopt);
    }
    if ledger.is_adopted(id) {
        return Err(WorkflowCoordinatorError::StaleExecutionLease);
    }
    let run = match run {
        Some(run) => run,
        None => return Err(WorkflowCoordinatorError::InvalidRunId),
    };
    let attempt = match attempt_in(run, id) {
        Some(a) => a,
        None => return Err(WorkflowCoordinatorError::RecoveryInvalid),
    };
    let bound_here = match &attempt.agent {
        Some(agent) => same_address(agent, &request.execution.address),
        None => false,
    };
    if !same_text(&attempt.node_id, &request.causation.node_id) || attempt.state.is_terminal()
        || !capability_matches || !bound_here {
        return Err(WorkflowCoordinatorError::InvalidExecutionLease);
    }
    let i = match find_slot(&scheduler.active, id) {
        Some(i) => i,
        None => return Err(WorkflowCoordinatorError::StaleExecutionLease),
    };
    proof {
        lemma_slot_at(scheduler.active@, i as int);
    }
    let active = &scheduler.active[i].1;
    if !same_owner(&active.owner, owner) || !crate::identity::same_key(&active.key, &request.causation)
        || !same_execution(&active.execution, &request.execution) || !(active.phase
        == ActiveAttemptPhase::Activating || active.phase == ActiveAttemptPhase::Running) {
        return Err(WorkflowCoordinatorError::StaleExecutionLease);
    }
    if !in_flight(attempt.state) {
        return Err(WorkflowCoordinatorError::InvalidExecutionLease);
    }
    Ok(HandshakeDecision::Fresh(attempt.state))
}

/// The failure recorded for an attempt that did not reclaim its worker in
/// time: ambiguous once a worker was bound or ran, permanent otherwise.
pub open spec fn unreconciled_failure(attempt: WorkflowAttemptSnapshot, f: WorkflowAttemptFailure) -> bool {
    if attempt.agent is Some || attempt.entered_running {
        f.class == WorkflowFailureClass::AmbiguousExecution && f.reason@
            == "workflow attempt did not reclaim its exact execution lease before recovery grace expired"@
    } else {
        f.class == WorkflowFailureClass::Permanent && f.reason@
            == "workflow dispatch was not bound before coordinator restart"@
    }
}

/// The transition for an attempt whose recovery deadline passed: none for a
/// terminal attempt, else its failure. The run must be known and hold the
/// attempt.
pub fn unreconciled_payload(run: Option<&WorkflowRunSnapshot>, attempt_id: &String) -> (r: Result<
    Option<WorkflowEventPayload>,
    WorkflowCoordinatorError,
>)
    ensures
        run is None ==> r == Err::<Option<WorkflowEventPayload>, WorkflowCoordinatorError>(
            WorkflowCoordinatorError::InvalidRunId,
        ),
        run is Some && attempt_of(*run->0, attempt_id@) is None ==> r == Err::<
            Option<WorkflowEventPayload>,
            WorkflowCoordinatorError,
        >(WorkflowCoordinatorError::RecoveryInvalid),
        run is Some && attempt_of(*run->0, attempt_id@) is Some ==> {
            let attempt = attempt_of(*run->0, attempt_id@)->0;
            &&& attempt_state_terminal(attempt.state) ==> (r matches Ok(None))
            &&& !attempt_state_terminal(attempt.state) ==> (r matches Ok(
                Some(WorkflowEventPayload::AttemptFailed { node_id, attempt_id: a, completion, failure }),
            ) && node_id == attempt.node_id && a == *attempt_id && completion.status@
                == "workflow_recovery_unreconciled"@ && completion.result is None
                && unreconciled_failure(attempt, failure))
        },
{
    let run = match run {
        Some(run) => run,
        None => return Err(WorkflowCoordinatorError::InvalidRunId),
    };
    let attempt = match attempt_in(run, attempt_id) {
        Some(a) => a,
        None => return Err(WorkflowCoordinatorError::RecoveryInvalid),
    };
    if attempt.state.is_terminal() {
        return Ok(None);
    }
    let uncertain = attempt.agent.is_some() || attempt.entered_running;
    let failure = WorkflowAttemptFailure {
        class: if uncertain {
            WorkflowFailureClass::AmbiguousExecution
        } else {
            WorkflowFailureClass::Permanent
        },
        reason: if uncertain {
            "workflow attempt did not reclaim its exact execution lease before recovery grace expired".to_owned()
        } else {
            "workflow dispatch was not bound before coordinator restart".to_owned()
        },
    };
    Ok(
        Some(
            WorkflowEventPayload::AttemptFailed {
                node_id: attempt.node_id.clone(),
                attempt_id: attempt_id.clone(),
                completion: AgentCompletion::new("workflow_recovery_unreconciled", None),
                failure,
            },
        ),
    )
}

/// Whether a run holds an attempt with this id.
pub open spec fn run_has_attempt(run: WorkflowRunSnapshot, id: Seq<char>) -> bool {
    has_attempt(run, id)
}

/// The owner and run of the first run that holds the attempt, among all
/// runs in custody.
pub fn locate_attempt(runs: &Vec<(WorkflowOwner, WorkflowRunSnapshot)>, attempt_id: &String) -> (r:
    Option<(WorkflowOwner, String)>)
    ensures
        r is None ==> forall|i: int|
            0 <= i < runs@.len() ==> !has_attempt(#[trigger] runs@[i].1, attempt_id@),
        r matches Some((owner, run_id)) ==> exists|i: int|
            0 <= i < runs@.len() && has_attempt(#[trigger] runs@[i].1, attempt_id@) && owner
                == runs@[i].0 && run_id == runs@[i].1.id && forall|j: int|
                0 <= j < i ==> !has_attempt(#[trigger] runs@[j].1, attempt_id@),
{
    let mut i: usize = 0;
    while i < runs.len()
        invariant
            i <= runs@.len(),
            forall|j: int| 0 <= j < i ==> !has_attempt(#[trigger] runs@[j].1, attempt_id@),
        decreases runs@.len() - i,
    {
        if let Some(_) = find_attempt(&runs[i].1, attempt_id) {
            return Some((runs[i].0.clone(), runs[i].1.id.clone()));
        }
        i = i + 1;
    }
    None
}

} // verus!

verus! {

/// Checks the worker that the runtime handed over for an adoption: the
/// requested execution with a valid lease that no bound worker holds is
/// kept, and custody is unchanged. Any other worker is refused as
/// `reject_lease` describes.
pub fn accept_adopted_worker<T, O>(
    scheduler: &mut WorkflowScheduler<T, O>,
    mode: WorkflowCoordinatorMode,
    owner: &WorkflowOwner,
    worker: WorkflowPreparedWorker<O>,
    requested: &AgentExecutionRef,
) -> (r: Result<WorkflowPreparedWorker<O>, crate::stop::LeaseViolation<T>>)
    requires
        old(scheduler).wf(),
    ensures
        final(scheduler).wf(),
        ({
            let adoptable = worker.execution@ == requested@ && lease_valid(worker.execution)
                && !crate::scheduler::execution_held(old(scheduler).active@, worker.execution);
            &&& adoptable ==> r == Ok::<WorkflowPreparedWorker<O>, crate::stop::LeaseViolation<T>>(worker)
                && final(scheduler).pending == old(scheduler).pending && final(scheduler).active
                == old(scheduler).active
            &&& !adoptable ==> (r matches Err(v) && v.error == WorkflowCoordinatorError::InvalidExecutionLease
                && v.poison_owner && v.offending == worker.execution && (!mode_executes(mode)
                ==> final(scheduler).pending == old(scheduler).pending && final(scheduler).active
                == old(scheduler).active && v.aborts@.len() == 0 && v.quarantined@.len() == 0)
                && (mode_executes(mode) ==> final(scheduler).pending@ == crate::scheduler::map_entries(
                old(scheduler).pending@,
                |p: crate::scheduler::PendingAttempt<T>| crate::scheduler::run_abort_marked(p, *owner, None),
            ) && crate::scheduler::starts_for(
                v.aborts@,
                crate::scheduler::run_abort_targets(old(scheduler).pending@, *owner, None),
                *owner,
            ) && final(scheduler).active@ == crate::stop::other_owners(
                old(scheduler).active@,
                *owner,
            ) && v.quarantined@.len() == crate::stop::owned_by(old(scheduler).active@, *owner).len()))
        }),
{
    if adoptable_worker(scheduler, &worker.execution, requested) {
        Ok(worker)
    } else {
        Err(scheduler.reject_lease(mode, owner, worker.execution))
    }
}

} // verus!

verus! {

/// Whether a worker's handshake reclaimed its attempt after a restart or
/// found it current.
#[derive(Clone, Copy, Debug, PartialEq, Eq, Structural)]
pub enum WorkflowWorkerHandshakeDisposition {
    Recovered,
    Fresh,
}

/// The answer to a worker's startup handshake.
#[derive(Clone, Copy, Debug, PartialEq, Eq, Structural)]
pub struct WorkflowWorkerHandshakeResponse {
    pub disposition: WorkflowWorkerHandshakeDisposition,
    pub attempt_state: WorkflowAttemptState,
}

/// Answers a handshake that `handshake_decision` sent to adoption: it
/// succeeds or fails exactly as the adoption did, and reports the adopted
/// attempt's state as recovered.
pub fn recovered_handshake(adopted: Result<WorkflowAttemptReconnectResponse, WorkflowCoordinatorError>) -> (r:
    Result<WorkflowWorkerHandshakeResponse, WorkflowCoordinatorError>)
    ensures
        adopted matches Err(e) ==> r == Err::<WorkflowWorkerHandshakeResponse, WorkflowCoordinatorError>(e),
        adopted matches Ok(a) ==> r == Ok::<WorkflowWorkerHandshakeResponse, WorkflowCoordinatorError>(
            WorkflowWorkerHandshakeResponse {
                disposition: WorkflowWorkerHandshakeDisposition::Recovered,
                attempt_state: a.attempt_state,
            },
        ),
{
    match adopted {
        Ok(a) => Ok(
            WorkflowWorkerHandshakeResponse {
                disposition: WorkflowWorkerHandshakeDisposition::Recovered,
                attempt_state: a.attempt_state,
            },
        ),
        Err(e) => Err(e),
    }
}

/// Answers the handshake of a current worker: it is acknowledged with its
/// attempt's state, and no transition is journaled.
pub fn fresh_handshake(attempt_state: WorkflowAttemptState) -> (r: WorkflowWorkerHandshakeResponse)
    ensures
        r == (WorkflowWorkerHandshakeResponse {
            disposition: WorkflowWorkerHandshakeDisposition::Fresh,
            attempt_state,
        }),
{
    WorkflowWorkerHandshakeResponse { disposition: WorkflowWorkerHandshakeDisposition::Fresh, attempt_state }
}

} // verus!
