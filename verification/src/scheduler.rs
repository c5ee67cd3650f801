use vstd::prelude::*;

use crate::failure::{StopDisposition, WorkflowCleanupStatus, WorkflowSpawnFailure};
use crate::identity::{
    same_execution, same_key, same_owner, same_text, AgentExecutionRef, AttemptKey, WorkflowOwner,
};
use crate::slots::{
    find_slot, has_slot, lemma_push_keeps_unique, lemma_remove_keeps_unique, lemma_slot_at,
    lemma_update_keeps_unique, slot, slot_index, unique_slots,
};

verus! {

/// Where a bound worker stands in the coordinator's custody.
#[derive(Clone, Copy, Debug, PartialEq, Eq, Structural)]
pub enum ActiveAttemptPhase {
    /// Bound and being activated.
    Activating,
    /// Activated; its outcome is awaited.
    Running,
    /// Asked to stop; a shutdown follows after the grace period.
    Interrupting,
    /// Being shut down.
    ShuttingDown,
}

/// An attempt whose worker is being prepared. `T` is the handle of a
/// background task that the coordinator keeps custody of.
pub struct PendingAttempt<T> {
    pub owner: WorkflowOwner,
    pub key: AttemptKey,
    pub causation: AttemptKey,
    pub deadline_unix_ms: u64,
    /// The preparation task, until it is aborted or delivered.
    pub prepare_abort: Option<T>,
    /// The task that aborts preparation and waits for its cleanup.
    pub abort_waiter: Option<T>,
    pub abort_requested: bool,
    pub abort_status: Option<WorkflowCleanupStatus>,
    /// No further preparation result can arrive.
    pub delivery_finished: bool,
    /// A worker that was prepared after the abort was requested.
    pub late_execution: Option<AgentExecutionRef>,
    /// The task that shuts the late worker down.
    pub late_shutdown_waiter: Option<T>,
    pub stop: Option<StopDisposition>,
}

/// A bound worker. `T` is a background task handle and `O` the receiver of
/// the worker's outcome.
pub struct ActiveAttempt<T, O> {
    pub owner: WorkflowOwner,
    pub key: AttemptKey,
    pub execution: AgentExecutionRef,
    pub outcome: Option<O>,
    pub outcome_waiter: Option<T>,
    pub shutdown_waiter: Option<T>,
    pub deadline_unix_ms: u64,
    pub shutdown_after_unix_ms: Option<u64>,
    pub phase: ActiveAttemptPhase,
    pub stop: Option<StopDisposition>,
}

/// The coordinator's custody of attempts, each kept under its attempt id:
/// those still being prepared and those bound to a worker.
pub struct WorkflowScheduler<T, O> {
    pub pending: Vec<(String, PendingAttempt<T>)>,
    pub active: Vec<(String, ActiveAttempt<T, O>)>,
}

/// An abort of a worker's preparation that the coordinator must start.
pub struct AbortStart {
    pub owner: WorkflowOwner,
    pub key: AttemptKey,
    pub causation: AttemptKey,
}

/// An interrupt of a bound worker that the coordinator must send.
pub struct InterruptStart {
    pub owner: WorkflowOwner,
    pub key: AttemptKey,
    pub execution: AgentExecutionRef,
}

pub open spec fn pending_matches<T>(p: PendingAttempt<T>, owner: WorkflowOwner, key: AttemptKey) -> bool {
    p.owner@ == owner@ && p.key@ == key@
}

pub open spec fn active_matches<T, O>(
    a: ActiveAttempt<T, O>,
    owner: WorkflowOwner,
    key: AttemptKey,
    execution: AgentExecutionRef,
) -> bool {
    a.owner@ == owner@ && a.key@ == key@ && a.execution@ == execution@
}

/// Applies `f` to the record kept under `id` and keeps every other entry.
pub open spec fn map_slot<A>(s: Seq<(String, A)>, id: Seq<char>, f: spec_fn(A) -> A) -> Seq<(String, A)> {
    s.map_values(|e: (String, A)| if e.0@ == id { (e.0, f(e.1)) } else { e })
}

pub proof fn lemma_map_slot_is_update<A>(s: Seq<(String, A)>, i: int, f: spec_fn(A) -> A)
    requires
        unique_slots(s),
        0 <= i < s.len(),
    ensures
        map_slot(s, s[i].0@, f) == s.update(i, (s[i].0, f(s[i].1))),
{
    assert(map_slot(s, s[i].0@, f) =~= s.update(i, (s[i].0, f(s[i].1))));
}

pub proof fn lemma_map_slot_compose<A>(
    s: Seq<(String, A)>,
    id: Seq<char>,
    f: spec_fn(A) -> A,
    g: spec_fn(A) -> A,
)
    ensures
        map_slot(map_slot(s, id, f), id, g) == map_slot(s, id, |a: A| g(f(a))),
{
    assert(map_slot(map_slot(s, id, f), id, g) =~= map_slot(s, id, |a: A| g(f(a))));
}

/// Applies `f` to every record and keeps the ids.
pub open spec fn map_entries<A>(s: Seq<(String, A)>, f: spec_fn(A) -> A) -> Seq<(String, A)> {
    s.map_values(|e: (String, A)| (e.0, f(e.1)))
}

pub proof fn lemma_map_entries_keeps_slots<A>(s: Seq<(String, A)>, f: spec_fn(A) -> A)
    requires
        unique_slots(s),
    ensures
        unique_slots(map_entries(s, f)),
        forall|x: Seq<char>| #[trigger] has_slot(map_entries(s, f), x) == has_slot(s, x),
        forall|x: Seq<char>|
            has_slot(s, x) ==> #[trigger] slot(map_entries(s, f), x) == Some(f(slot(s, x)->0)),
{
    let t = map_entries(s, f);
    assert forall|a: int, b: int| 0 <= a < t.len() && 0 <= b < t.len() && a != b implies #[trigger] t[a].0@
        != #[trigger] t[b].0@ by {
        assert(t[a].0 == s[a].0);
        assert(t[b].0 == s[b].0);
    }
    assert forall|x: Seq<char>| #[trigger] has_slot(t, x) == has_slot(s, x) by {
        if has_slot(s, x) {
            let j = slot_index(s, x);
            assert(t[j].0 == s[j].0);
        }
        if has_slot(t, x) {
            let j = slot_index(t, x);
            assert(t[j].0 == s[j].0);
        }
    }
    assert forall|x: Seq<char>| has_slot(s, x) implies #[trigger] slot(t, x) == Some(
        f(slot(s, x)->0),
    ) by {
        let j = slot_index(s, x);
        assert(t[j].0 == s[j].0);
        lemma_slot_at(t, j);
        lemma_slot_at(s, j);
    }
}

/// The pending record after an abort was requested for it.
pub open spec fn abort_marked<T>(p: PendingAttempt<T>) -> PendingAttempt<T> {
    PendingAttempt { abort_requested: true, ..p }
}

/// The pending record after its preparation timed out with `failure`: no
/// further delivery is awaited, and a stop already decided is kept.
pub open spec fn timeout_marked<T>(p: PendingAttempt<T>, failure: WorkflowSpawnFailure) -> PendingAttempt<T> {
    PendingAttempt {
        delivery_finished: true,
        stop: if p.stop is None {
            Some(StopDisposition::Failed(failure))
        } else {
            p.stop
        },
        ..p
    }
}

/// Whether the pending attempt kept under `key.attempt_id` belongs to
/// exactly this owner and key.
pub open spec fn pending_owned<T>(s: Seq<(String, PendingAttempt<T>)>, owner: WorkflowOwner, key: AttemptKey) -> bool {
    &&& slot(s, key.attempt_id@) is Some
    &&& pending_matches(slot(s, key.attempt_id@)->0, owner, key)
}

/// Whether a pending attempt kept under `key.attempt_id` belongs to exactly
/// this owner and key and has no abort requested yet.
pub open spec fn abortable<T>(s: Seq<(String, PendingAttempt<T>)>, owner: WorkflowOwner, key: AttemptKey) -> bool {
    &&& slot(s, key.attempt_id@) is Some
    &&& pending_matches(slot(s, key.attempt_id@)->0, owner, key)
    &&& !slot(s, key.attempt_id@)->0.abort_requested
}

impl<T, O> WorkflowScheduler<T, O> {
    /// No attempt id is kept twice in either collection.
    pub open spec fn wf(&self) -> bool {
        unique_slots(self.pending@) && unique_slots(self.active@)
    }

    pub open spec fn pending_slot(&self, id: Seq<char>) -> Option<PendingAttempt<T>> {
        slot(self.pending@, id)
    }

    pub open spec fn active_slot(&self, id: Seq<char>) -> Option<ActiveAttempt<T, O>> {
        slot(self.active@, id)
    }

    /// No attempts in custody.
    pub fn new() -> (r: Self)
        ensures
            r.wf(),
            r.pending@.len() == 0,
            r.active@.len() == 0,
    {
        WorkflowScheduler { pending: Vec::new(), active: Vec::new() }
    }

    /// Requests the abort of one attempt's preparation, once. A pending
    /// attempt of another owner or key, or one already being aborted, is
    /// left as it is.
    pub fn request_attempt_abort(&mut self, owner: &WorkflowOwner, key: &AttemptKey) -> (r: Option<
        AbortStart,
    >)
        requires
            old(self).wf(),
        ensures
            final(self).wf(),
            final(self).active == old(self).active,
            abortable(old(self).pending@, *owner, *key) ==> {
                &&& final(self).pending@ == map_slot(
                    old(self).pending@,
                    key.attempt_id@,
                    |p: PendingAttempt<T>| abort_marked(p),
                )
                &&& r matches Some(start) && start.owner == *owner && start.key == *key
                    && start.causation == slot(old(self).pending@, key.attempt_id@)->0.causation
            },
            !abortable(old(self).pending@, *owner, *key) ==> final(self).pending == old(
                self,
            ).pending && r is None,
    {
        let found = find_slot(&self.pending, &key.attempt_id);
        let i = match found {
            Some(i) => i,
            None => return None,
        };
        proof {
            lemma_slot_at(self.pending@, i as int);
        }
        if !same_owner(&self.pending[i].1.owner, owner) || !same_key(&self.pending[i].1.key, key)
            || self.pending[i].1.abort_requested {
            return None;
        }
        let ghost before = self.pending@;
        let (slot_id, mut p) = self.pending.remove(i);
        p.abort_requested = true;
        let causation = p.causation.clone();
        self.pending.insert(i, (slot_id, p));
        proof {
            assert(self.pending@ =~= before.update(i as int, (before[i as int].0, abort_marked(before[i as int].1))));
            lemma_map_slot_is_update(before, i as int, |p: PendingAttempt<T>| abort_marked(p));
            lemma_update_keeps_unique(before, i as int, (before[i as int].0, abort_marked(before[i as int].1)));
        }
        Some(AbortStart { owner: owner.clone(), key: key.clone(), causation })
    }
}

} // verus!

verus! {

/// What settling an acknowledged preparation abort leads to.
pub enum AbortSettlement<T> {
    /// The callback is stale or the tombstone is not ready; nothing changed.
    Ignored,
    /// The owner is poisoned: the tombstone was released without a journal entry.
    Released,
    /// The tombstone was released and its attempt must be terminalized.
    Terminalize(PendingAttempt<T>, WorkflowCleanupStatus),
}

/// The pending record once a preparation abort was acknowledged with
/// `status`. When the preparation task had not finished, it was joined and
/// can deliver nothing more.
pub open spec fn abort_acknowledged<T>(
    p: PendingAttempt<T>,
    status: WorkflowCleanupStatus,
    preparation_finished: bool,
) -> PendingAttempt<T> {
    PendingAttempt {
        abort_status: Some(status),
        delivery_finished: p.delivery_finished || !preparation_finished,
        ..p
    }
}

/// A tombstone is ready to settle once its abort was requested and
/// acknowledged, no late worker is in containment and no delivery is awaited.
pub open spec fn settle_ready<T>(p: PendingAttempt<T>) -> bool {
    &&& p.abort_requested
    &&& p.late_execution is None
    &&& p.delivery_finished
    &&& p.abort_status is Some
}

impl<T, O> WorkflowScheduler<T, O> {
    /// The preparation of an attempt timed out: its delivery is closed, a
    /// failure stop is recorded unless a stop was already decided, and the
    /// preparation abort is requested once.
    pub fn preparation_timed_out(
        &mut self,
        owner: &WorkflowOwner,
        key: &AttemptKey,
        failure: WorkflowSpawnFailure,
    ) -> (r: Option<AbortStart>)
        requires
            old(self).wf(),
        ensures
            final(self).wf(),
            final(self).active == old(self).active,
            !pending_owned(old(self).pending@, *owner, *key) ==> final(self).pending == old(
                self,
            ).pending && r is None,
            pending_owned(old(self).pending@, *owner, *key) && slot(
                old(self).pending@,
                key.attempt_id@,
            )->0.abort_requested ==> r is None && final(self).pending@ == map_slot(
                old(self).pending@,
                key.attempt_id@,
                |p: PendingAttempt<T>| timeout_marked(p, failure),
            ),
            pending_owned(old(self).pending@, *owner, *key) && !slot(
                old(self).pending@,
                key.attempt_id@,
            )->0.abort_requested ==> r is Some && final(self).pending@ == map_slot(
                old(self).pending@,
                key.attempt_id@,
                |p: PendingAttempt<T>| abort_marked(timeout_marked(p, failure)),
            ),
    {
        let i = match find_slot(&self.pending, &key.attempt_id) {
            Some(i) => i,
            None => return None,
        };
        proof {
            lemma_slot_at(self.pending@, i as int);
        }
        if !same_owner(&self.pending[i].1.owner, owner) || !same_key(&self.pending[i].1.key, key) {
            return None;
        }
        let ghost before = self.pending@;
        let ghost f = |p: PendingAttempt<T>| timeout_marked(p, failure);
        let (slot_id, mut p) = self.pending.remove(i);
        p.delivery_finished = true;
        if p.stop.is_none() {
            p.stop = Some(StopDisposition::Failed(failure));
        }
        self.pending.insert(i, (slot_id, p));
        proof {
            assert(self.pending@ =~= before.update(i as int, (before[i as int].0, f(before[i as int].1))));
            lemma_map_slot_is_update(before, i as int, f);
            lemma_update_keeps_unique(before, i as int, (before[i as int].0, f(before[i as int].1)));
            lemma_slot_at(self.pending@, i as int);
            lemma_map_slot_compose(before, key.attempt_id@, f, |p: PendingAttempt<T>| abort_marked(p));
        }
        self.request_attempt_abort(owner, key)
    }

    /// The preparation task reported that its delivery is over. Returns
    /// whether the abort can now be finalized.
    pub fn preparation_delivery_finished(&mut self, owner: &WorkflowOwner, key: &AttemptKey) -> (r:
        bool)
        requires
            old(self).wf(),
        ensures
            final(self).wf(),
            final(self).active == old(self).active,
            !pending_owned(old(self).pending@, *owner, *key) ==> final(self).pending == old(
                self,
            ).pending && !r,
            pending_owned(old(self).pending@, *owner, *key) ==> final(self).pending@ == map_slot(
                old(self).pending@,
                key.attempt_id@,
                |p: PendingAttempt<T>| PendingAttempt { delivery_finished: true, ..p },
            ) && r == slot(old(self).pending@, key.attempt_id@)->0.abort_status is Some,
    {
        let i = match find_slot(&self.pending, &key.attempt_id) {
            Some(i) => i,
            None => return false,
        };
        proof {
            lemma_slot_at(self.pending@, i as int);
        }
        if !same_owner(&self.pending[i].1.owner, owner) || !same_key(&self.pending[i].1.key, key) {
            return false;
        }
        let ghost before = self.pending@;
        let ghost f = |p: PendingAttempt<T>| PendingAttempt { delivery_finished: true, ..p };
        let (slot_id, mut p) = self.pending.remove(i);
        p.delivery_finished = true;
        let finalize = p.abort_status.is_some();
        self.pending.insert(i, (slot_id, p));
        proof {
            assert(self.pending@ =~= before.update(i as int, (before[i as int].0, f(before[i as int].1))));
            lemma_map_slot_is_update(before, i as int, f);
            lemma_update_keeps_unique(before, i as int, (before[i as int].0, f(before[i as int].1)));
        }
        finalize
    }

    /// First half of an abort acknowledgement: for the exact tombstone of an
    /// abort without a late worker, the preparation task is taken so that it
    /// can be joined. `None` when the callback is stale.
    pub fn take_preparation_task(&mut self, owner: &WorkflowOwner, key: &AttemptKey) -> (r: Option<
        Option<T>,
    >)
        requires
            old(self).wf(),
        ensures
            final(self).wf(),
            final(self).active == old(self).active,
            ({
                let s = slot(old(self).pending@, key.attempt_id@);
                let acknowledged = pending_owned(old(self).pending@, *owner, *key)
                    && s->0.abort_requested && s->0.late_execution is None;
                &&& !acknowledged ==> final(self).pending == old(self).pending && r is None
                &&& acknowledged ==> r == Some(s->0.prepare_abort) && final(self).pending@
                    == map_slot(
                    old(self).pending@,
                    key.attempt_id@,
                    |p: PendingAttempt<T>| PendingAttempt { prepare_abort: None, ..p },
                )
            }),
    {
        let i = match find_slot(&self.pending, &key.attempt_id) {
            Some(i) => i,
            None => return None,
        };
        proof {
            lemma_slot_at(self.pending@, i as int);
        }
        if !same_owner(&self.pending[i].1.owner, owner) || !same_key(&self.pending[i].1.key, key)
            || !self.pending[i].1.abort_requested || self.pending[i].1.late_execution.is_some() {
            return None;
        }
        let ghost before = self.pending@;
        let ghost f = |p: PendingAttempt<T>| PendingAttempt { prepare_abort: None, ..p };
        let (slot_id, mut p) = self.pending.remove(i);
        let task = p.prepare_abort.take();
        self.pending.insert(i, (slot_id, p));
        proof {
            assert(self.pending@ =~= before.update(i as int, (before[i as int].0, f(before[i as int].1))));
            lemma_map_slot_is_update(before, i as int, f);
            lemma_update_keeps_unique(before, i as int, (before[i as int].0, f(before[i as int].1)));
        }
        Some(task)
    }

    /// Second half of an abort acknowledgement, after the preparation task
    /// was joined. The exact tombstone of a requested abort without a late
    /// worker is released outright when its owner is poisoned. Otherwise the
    /// exact tombstone records the cleanup status, and an unfinished
    /// preparation can deliver nothing more. Returns whether the abort can
    /// now be finalized.
    pub fn acknowledge_abort(
        &mut self,
        owner: &WorkflowOwner,
        key: &AttemptKey,
        status: WorkflowCleanupStatus,
        poisoned: bool,
        preparation_finished: bool,
    ) -> (r: bool)
        requires
            old(self).wf(),
        ensures
            final(self).wf(),
            final(self).active == old(self).active,
            ({
                let s = slot(old(self).pending@, key.attempt_id@);
                let requested = pending_owned(old(self).pending@, *owner, *key)
                    && s->0.abort_requested && s->0.late_execution is None;
                &&& poisoned ==> !r
                &&& poisoned && !requested ==> final(self).pending == old(self).pending
                &&& poisoned && requested ==> !has_slot(final(self).pending@, key.attempt_id@)
                    && (forall|id: Seq<char>|
                    id != key.attempt_id@ ==> #[trigger] slot(final(self).pending@, id) == slot(
                        old(self).pending@,
                        id,
                    ))
            }),
            ({
                let s = slot(old(self).pending@, key.attempt_id@);
                let current = pending_owned(old(self).pending@, *owner, *key)
                    && s->0.late_execution is None;
                &&& !poisoned && !current ==> final(self).pending == old(self).pending && !r
                &&& !poisoned && current ==> final(self).pending@ == map_slot(
                    old(self).pending@,
                    key.attempt_id@,
                    |p: PendingAttempt<T>| abort_acknowledged(p, status, preparation_finished),
                ) && r == (s->0.delivery_finished || !preparation_finished)
            }),
    {
        let i = match find_slot(&self.pending, &key.attempt_id) {
            Some(i) => i,
            None => return false,
        };
        proof {
            lemma_slot_at(self.pending@, i as int);
        }
        if poisoned {
            if !same_owner(&self.pending[i].1.owner, owner) || !same_key(&self.pending[i].1.key, key)
                || !self.pending[i].1.abort_requested || self.pending[i].1.late_execution.is_some() {
                return false;
            }
            let ghost before = self.pending@;
            let _released = self.pending.remove(i);
            proof {
                lemma_remove_keeps_unique(before, i as int);
            }
            return false;
        }
        if !same_owner(&self.pending[i].1.owner, owner) || !same_key(&self.pending[i].1.key, key)
            || self.pending[i].1.late_execution.is_some() {
            return false;
        }
        let ghost before = self.pending@;
        let ghost f = |p: PendingAttempt<T>| abort_acknowledged(p, status, preparation_finished);
        let (slot_id, mut p) = self.pending.remove(i);
        p.abort_status = Some(status);
        p.delivery_finished = p.delivery_finished || !preparation_finished;
        let finalize = p.delivery_finished;
        self.pending.insert(i, (slot_id, p));
        proof {
            assert(self.pending@ =~= before.update(i as int, (before[i as int].0, f(before[i as int].1))));
            lemma_map_slot_is_update(before, i as int, f);
            lemma_update_keeps_unique(before, i as int, (before[i as int].0, f(before[i as int].1)));
        }
        finalize
    }

    /// Settles an acknowledged abort: the exact tombstone that is ready is
    /// released, and unless its owner is poisoned its attempt is to be
    /// terminalized with the acknowledged status.
    pub fn settle_abort(&mut self, owner: &WorkflowOwner, key: &AttemptKey, poisoned: bool) -> (r:
        AbortSettlement<T>)
        requires
            old(self).wf(),
        ensures
            final(self).wf(),
            final(self).active == old(self).active,
            ({
                let s = slot(old(self).pending@, key.attempt_id@);
                let ready = pending_owned(old(self).pending@, *owner, *key) && settle_ready(s->0);
                &&& !ready ==> final(self).pending == old(self).pending && r is Ignored
                &&& ready ==> !has_slot(final(self).pending@, key.attempt_id@) && (forall|
                    id: Seq<char>,
                | id != key.attempt_id@ ==> #[trigger] slot(final(self).pending@, id) == slot(
                    old(self).pending@,
                    id,
                ))
                &&& ready && poisoned ==> r is Released
                &&& ready && !poisoned ==> r == AbortSettlement::Terminalize(
                    s->0,
                    s->0.abort_status->0,
                )
            }),
    {
        let i = match find_slot(&self.pending, &key.attempt_id) {
            Some(i) => i,
            None => return AbortSettlement::Ignored,
        };
        proof {
            lemma_slot_at(self.pending@, i as int);
        }
        if !same_owner(&self.pending[i].1.owner, owner) || !same_key(&self.pending[i].1.key, key)
            || !self.pending[i].1.abort_requested || self.pending[i].1.late_execution.is_some()
            || !self.pending[i].1.delivery_finished {
            return AbortSettlement::Ignored;
        }
        let status = match self.pending[i].1.abort_status {
            Some(status) => status,
            None => return AbortSettlement::Ignored,
        };
        let ghost before = self.pending@;
        let (_slot_id, tombstone) = self.pending.remove(i);
        proof {
            lemma_remove_keeps_unique(before, i as int);
        }
        if poisoned {
            AbortSettlement::Released
        } else {
            AbortSettlement::Terminalize(tombstone, status)
        }
    }

    /// A late worker's containment finished. The exact tombstone holding
    /// that execution is released once, with its task handles dropped, for
    /// terminalization. Any other callback is stale.
    pub fn take_late_custody(
        &mut self,
        owner: &WorkflowOwner,
        key: &AttemptKey,
        execution: &AgentExecutionRef,
    ) -> (r: Option<PendingAttempt<T>>)
        requires
            old(self).wf(),
        ensures
            final(self).wf(),
            final(self).active == old(self).active,
            ({
                let s = slot(old(self).pending@, key.attempt_id@);
                let current = pending_owned(old(self).pending@, *owner, *key)
                    && (s->0.late_execution matches Some(e) && e@ == execution@);
                &&& !current ==> final(self).pending == old(self).pending && r is None
                &&& current ==> !has_slot(final(self).pending@, key.attempt_id@) && (forall|
                    id: Seq<char>,
                | id != key.attempt_id@ ==> #[trigger] slot(final(self).pending@, id) == slot(
                    old(self).pending@,
                    id,
                )) && r == Some(
                    PendingAttempt {
                        prepare_abort: None,
                        abort_waiter: None,
                        late_shutdown_waiter: None,
                        ..s->0
                    },
                )
            }),
    {
        let i = match find_slot(&self.pending, &key.attempt_id) {
            Some(i) => i,
            None => return None,
        };
        proof {
            lemma_slot_at(self.pending@, i as int);
        }
        if !same_owner(&self.pending[i].1.owner, owner) || !same_key(&self.pending[i].1.key, key) {
            return None;
        }
        let late = match &self.pending[i].1.late_execution {
            Some(late) => same_execution(late, execution),
            None => false,
        };
        if !late {
            return None;
        }
        let ghost before = self.pending@;
        let (_slot_id, mut tombstone) = self.pending.remove(i);
        proof {
            lemma_remove_keeps_unique(before, i as int);
        }
        tombstone.prepare_abort = None;
        tombstone.abort_waiter = None;
        tombstone.late_shutdown_waiter = None;
        Some(tombstone)
    }
}

} // verus!

verus! {

/// A lease is valid when it names a live connection of a valid agent on this hub.
pub open spec fn lease_valid(execution: AgentExecutionRef) -> bool {
    &&& execution.connection_generation != 0
    &&& execution.address.hub is None
    &&& crate::identity::name_valid(execution.address.agent@)
}

/// Checks `lease_valid`.
pub fn valid_lease(execution: &AgentExecutionRef) -> (r: bool)
    ensures
        r == lease_valid(*execution),
{
    execution.connection_generation != 0 && execution.address.is_local()
        && crate::identity::valid_name(&execution.address.agent)
}

/// Whether some bound worker already holds the execution.
pub open spec fn execution_held<T, O>(s: Seq<(String, ActiveAttempt<T, O>)>, execution: AgentExecutionRef) -> bool {
    exists|j: int| 0 <= j < s.len() && (#[trigger] s[j].1).execution@ == execution@
}

/// Whether a pending attempt belongs to the owner (and to the run, when one
/// is named) and may still be asked to abort.
pub open spec fn run_abortable<T>(p: PendingAttempt<T>, owner: WorkflowOwner, run_id: Option<Seq<char>>) -> bool {
    &&& p.owner@ == owner@
    &&& (run_id matches Some(id) ==> p.key.run_id@ == id)
    &&& !p.abort_requested
}

/// The pending record after a run-wide abort request.
pub open spec fn run_abort_marked<T>(p: PendingAttempt<T>, owner: WorkflowOwner, run_id: Option<Seq<char>>) -> PendingAttempt<T> {
    if run_abortable(p, owner, run_id) {
        abort_marked(p)
    } else {
        p
    }
}

pub open spec fn run_filter(run_id: Option<&String>) -> Option<Seq<char>> {
    match run_id {
        Some(id) => Some(id@),
        None => None,
    }
}

/// The keys, in order, of the pending attempts that a run-wide abort starts.
pub open spec fn run_abort_targets<T>(
    s: Seq<(String, PendingAttempt<T>)>,
    owner: WorkflowOwner,
    run_id: Option<Seq<char>>,
) -> Seq<PendingAttempt<T>>
    decreases s.len(),
{
    if s.len() == 0 {
        Seq::empty()
    } else {
        let rest = run_abort_targets(s.drop_last(), owner, run_id);
        if run_abortable(s.last().1, owner, run_id) {
            rest.push(s.last().1)
        } else {
            rest
        }
    }
}

/// The aborts started for `targets`, in order.
pub open spec fn starts_for<T>(r: Seq<AbortStart>, targets: Seq<PendingAttempt<T>>, owner: WorkflowOwner) -> bool {
    &&& r.len() == targets.len()
    &&& forall|k: int|
        0 <= k < r.len() ==> (#[trigger] r[k]).owner == owner && r[k].key == targets[k].key
            && r[k].causation == targets[k].causation
}

/// The pending record of a cancelled run: its stop becomes a cancellation.
pub open spec fn cancel_marked<T>(p: PendingAttempt<T>, owner: WorkflowOwner, run_id: Seq<char>, reason: String) -> PendingAttempt<T> {
    if p.owner@ == owner@ && p.key.run_id@ == run_id {
        PendingAttempt { stop: Some(StopDisposition::Cancelled(reason)), ..p }
    } else {
        p
    }
}

/// Whether a bound worker belongs to the owner's run.
pub open spec fn active_in_run<T, O>(a: ActiveAttempt<T, O>, owner: WorkflowOwner, run_id: Seq<char>) -> bool {
    a.owner@ == owner@ && a.key.run_id@ == run_id
}

impl<T, O> WorkflowScheduler<T, O> {
    /// Whether the attempt kept under `key.attempt_id` is bound to exactly
    /// this owner, key and execution, and, when a phase is given, is in it.
    pub fn matches_active(
        &self,
        owner: &WorkflowOwner,
        key: &AttemptKey,
        execution: &AgentExecutionRef,
        phase: Option<ActiveAttemptPhase>,
    ) -> (r: bool)
        requires
            self.wf(),
        ensures
            r == (self.active_slot(key.attempt_id@) is Some && active_matches(
                self.active_slot(key.attempt_id@)->0,
                *owner,
                *key,
                *execution,
            ) && (phase is None || phase == Some(self.active_slot(key.attempt_id@)->0.phase))),
    {
        let i = match find_slot(&self.active, &key.attempt_id) {
            Some(i) => i,
            None => return false,
        };
        proof {
            lemma_slot_at(self.active@, i as int);
        }
        let a = &self.active[i].1;
        same_owner(&a.owner, owner) && same_key(&a.key, key) && same_execution(
            &a.execution,
            execution,
        ) && match phase {
            None => true,
            Some(phase) => a.phase == phase,
        }
    }

    /// A lease may be bound when it is valid and no bound worker holds it.
    pub fn unique_lease(&self, execution: &AgentExecutionRef) -> (r: bool)
        ensures
            r == (lease_valid(*execution) && !execution_held(self.active@, *execution)),
    {
        if !valid_lease(execution) {
            return false;
        }
        let mut i: usize = 0;
        while i < self.active.len()
            invariant
                i <= self.active@.len(),
                forall|j: int| 0 <= j < i ==> (#[trigger] self.active@[j].1).execution@ != execution@,
            decreases self.active@.len() - i,
        {
            if same_execution(&self.active[i].1.execution, execution) {
                return false;
            }
            i = i + 1;
        }
        true
    }

    /// Takes custody of a new pending attempt under a fresh id.
    pub fn insert_pending(&mut self, id: String, attempt: PendingAttempt<T>)
        requires
            old(self).wf(),
            !has_slot(old(self).pending@, id@),
        ensures
            final(self).wf(),
            final(self).active == old(self).active,
            final(self).pending@ == old(self).pending@.push((id, attempt)),
    {
        proof {
            lemma_push_keeps_unique(self.pending@, (id, attempt));
        }
        self.pending.push((id, attempt));
    }

    /// Takes custody of a newly bound worker under a fresh id.
    pub fn insert_active(&mut self, id: String, attempt: ActiveAttempt<T, O>)
        requires
            old(self).wf(),
            !has_slot(old(self).active@, id@),
        ensures
            final(self).wf(),
            final(self).pending == old(self).pending,
            final(self).active@ == old(self).active@.push((id, attempt)),
    {
        proof {
            lemma_push_keeps_unique(self.active@, (id, attempt));
        }
        self.active.push((id, attempt));
    }

    /// Releases the pending attempt kept under `id`, if any.
    pub fn remove_pending(&mut self, id: &String) -> (r: Option<PendingAttempt<T>>)
        requires
            old(self).wf(),
        ensures
            final(self).wf(),
            final(self).active == old(self).active,
            r == slot(old(self).pending@, id@),
            !has_slot(final(self).pending@, id@),
            forall|x: Seq<char>|
                x != id@ ==> #[trigger] slot(final(self).pending@, x) == slot(old(self).pending@, x),
            !has_slot(old(self).pending@, id@) ==> final(self).pending == old(self).pending,
    {
        match find_slot(&self.pending, id) {
            None => None,
            Some(i) => {
                proof {
                    lemma_slot_at(self.pending@, i as int);
                    lemma_remove_keeps_unique(self.pending@, i as int);
                }
                let (_slot_id, p) = self.pending.remove(i);
                Some(p)
            },
        }
    }

    /// Releases the bound worker kept under `id`, if any.
    pub fn remove_active(&mut self, id: &String) -> (r: Option<ActiveAttempt<T, O>>)
        requires
            old(self).wf(),
        ensures
            final(self).wf(),
            final(self).pending == old(self).pending,
            r == slot(old(self).active@, id@),
            !has_slot(final(self).active@, id@),
            forall|x: Seq<char>|
                x != id@ ==> #[trigger] slot(final(self).active@, x) == slot(old(self).active@, x),
            !has_slot(old(self).active@, id@) ==> final(self).active == old(self).active,
    {
        match find_slot(&self.active, id) {
            None => None,
            Some(i) => {
                proof {
                    lemma_slot_at(self.active@, i as int);
                    lemma_remove_keeps_unique(self.active@, i as int);
                }
                let (_slot_id, a) = self.active.remove(i);
                Some(a)
            },
        }
    }

    /// Requests, once each, the abort of every pending attempt of the
    /// owner's run, and returns the aborts to start in custody order.
    pub fn request_run_abort(&mut self, owner: &WorkflowOwner, run_id: &String) -> (r: Vec<
        AbortStart,
    >)
        requires
            old(self).wf(),
        ensures
            final(self).wf(),
            final(self).active == old(self).active,
            final(self).pending@ == map_entries(
                old(self).pending@,
                |p: PendingAttempt<T>| run_abort_marked(p, *owner, Some(run_id@)),
            ),
            starts_for(r@, run_abort_targets(old(self).pending@, *owner, Some(run_id@)), *owner),
    {
        self.request_aborts(owner, Some(run_id))
    }

    /// Requests, once each, the abort of every pending attempt of the
    /// owner, in any run.
    pub fn request_owner_abort(&mut self, owner: &WorkflowOwner) -> (r: Vec<AbortStart>)
        requires
            old(self).wf(),
        ensures
            final(self).wf(),
            final(self).active == old(self).active,
            final(self).pending@ == map_entries(
                old(self).pending@,
                |p: PendingAttempt<T>| run_abort_marked(p, *owner, None),
            ),
            starts_for(r@, run_abort_targets(old(self).pending@, *owner, None), *owner),
    {
        self.request_aborts(owner, None)
    }

    fn request_aborts(&mut self, owner: &WorkflowOwner, run_id: Option<&String>) -> (r: Vec<
        AbortStart,
    >)
        requires
            old(self).wf(),
        ensures
            final(self).wf(),
            final(self).active == old(self).active,
            final(self).pending@ == map_entries(
                old(self).pending@,
                |p: PendingAttempt<T>| run_abort_marked(p, *owner, run_filter(run_id)),
            ),
            starts_for(r@, run_abort_targets(old(self).pending@, *owner, run_filter(run_id)), *owner),
    {
        let ghost before = self.pending@;
        let ghost f = |p: PendingAttempt<T>| run_abort_marked(p, *owner, run_filter(run_id));
        let mut starts: Vec<AbortStart> = Vec::new();
        let mut i: usize = 0;
        while i < self.pending.len()
            invariant
                self.pending@.len() == before.len(),
                i <= before.len(),
                unique_slots(before),
                self.active == old(self).active,
                f == (|p: PendingAttempt<T>| run_abort_marked(p, *owner, run_filter(run_id))),
                forall|j: int| 0 <= j < i ==> #[trigger] self.pending@[j] == (before[j].0, f(before[j].1)),
                forall|j: int| i <= j < before.len() ==> #[trigger] self.pending@[j] == before[j],
                starts_for(starts@, run_abort_targets(before.take(i as int), *owner, run_filter(run_id)), *owner),
            decreases before.len() - i,
        {
            proof {
                assert(before.take(i + 1).drop_last() =~= before.take(i as int));
                assert(before.take(i + 1).last() == before[i as int]);
            }
            assert(self.pending@[i as int] == before[i as int]);
            let in_run = match run_id {
                Some(id) => same_text(&self.pending[i].1.key.run_id, id),
                None => true,
            };
            let eligible = same_owner(&self.pending[i].1.owner, owner) && in_run
                && !self.pending[i].1.abort_requested;
            assert(eligible == run_abortable(before[i as int].1, *owner, run_filter(run_id)));
            if eligible {
                let ghost mid = self.pending@;
                let (slot_id, mut p) = self.pending.remove(i);
                p.abort_requested = true;
                let start = AbortStart {
                    owner: owner.clone(),
                    key: p.key.clone(),
                    causation: p.causation.clone(),
                };
                self.pending.insert(i, (slot_id, p));
                starts.push(start);
                proof {
                    assert(p == f(before[i as int].1));
                    assert(self.pending@ =~= mid.update(i as int, (before[i as int].0, f(before[i as int].1))));
                }
            } else {
                assert(f(before[i as int].1) == before[i as int].1);
            }
            i = i + 1;
        }
        proof {
            assert(before.take(i as int) =~= before);
            assert(self.pending@ =~= map_entries(before, f));
            lemma_map_entries_keeps_slots(before, f);
        }
        starts
    }

    /// Records a cancellation as the stop of every pending attempt of the
    /// owner's run.
    pub fn mark_cancelled(&mut self, owner: &WorkflowOwner, run_id: &String, reason: &String)
        requires
            old(self).wf(),
        ensures
            final(self).wf(),
            final(self).active == old(self).active,
            final(self).pending@ == map_entries(
                old(self).pending@,
                |p: PendingAttempt<T>| cancel_marked(p, *owner, run_id@, *reason),
            ),
    {
        let ghost before = self.pending@;
        let ghost f = |p: PendingAttempt<T>| cancel_marked(p, *owner, run_id@, *reason);
        let mut i: usize = 0;
        while i < self.pending.len()
            invariant
                self.pending@.len() == before.len(),
                i <= before.len(),
                unique_slots(before),
                self.active == old(self).active,
                f == (|p: PendingAttempt<T>| cancel_marked(p, *owner, run_id@, *reason)),
                forall|j: int| 0 <= j < i ==> #[trigger] self.pending@[j] == (before[j].0, f(before[j].1)),
                forall|j: int| i <= j < before.len() ==> #[trigger] self.pending@[j] == before[j],
            decreases before.len() - i,
        {
            assert(self.pending@[i as int] == before[i as int]);
            if same_owner(&self.pending[i].1.owner, owner) && same_text(
                &self.pending[i].1.key.run_id,
                run_id,
            ) {
                let ghost mid = self.pending@;
                let (slot_id, mut p) = self.pending.remove(i);
                p.stop = Some(StopDisposition::Cancelled(reason.clone()));
                self.pending.insert(i, (slot_id, p));
                proof {
                    assert(p == f(before[i as int].1));
                    assert(self.pending@ =~= mid.update(i as int, (before[i as int].0, f(before[i as int].1))));
                }
            } else {
                assert(f(before[i as int].1) == before[i as int].1);
            }
            i = i + 1;
        }
        proof {
            assert(self.pending@ =~= map_entries(before, f));
            lemma_map_entries_keeps_slots(before, f);
        }
    }
}

} // verus!

verus! {

/// Whether a preparation task taken from a tombstone had finished before it
/// was joined: `finished` is `None` when no task was kept, else whether the
/// task had finished. A missing task counts as unfinished, so the tombstone
/// awaits no further delivery.
pub fn preparation_finished(finished: Option<bool>) -> (r: bool)
    ensures
        r == (finished == Some(true)),
{
    match finished {
        Some(done) => done,
        None => false,
    }
}

} // verus!
