use vstd::prelude::*;

use crate::clock::WorkflowClock;
use crate::error::WorkflowCoordinatorError;
use crate::failure::{
    cleanup_timeout_failure, clone_stop, failure_is, lost_worker, StopDisposition,
    WorkflowCleanupStatus, WorkflowFailureClass, WorkflowSpawnFailure,
};
use crate::identity::{same_execution, same_owner, same_text, AgentExecutionRef, AttemptKey, WorkflowOwner};
use crate::run::saturating_sum;
use crate::scheduler::{
    active_in_run, active_matches, cancel_marked, lemma_map_entries_keeps_slots,
    lemma_map_slot_is_update, map_entries, map_slot, run_abort_marked, run_abort_targets,
    starts_for, AbortStart, ActiveAttempt, ActiveAttemptPhase, InterruptStart, PendingAttempt,
    WorkflowScheduler,
};
use crate::slots::{
    find_slot, has_slot, lemma_push_keeps_unique, lemma_slot_at, lemma_update_keeps_unique, slot,
    slot_index, unique_slots,
};

verus! {

/// The bound worker after its run was cancelled: it records the
/// cancellation, is interrupted, and is shut down once the grace period
/// after some clock reading has passed.
pub open spec fn cancel_interrupted<T, O>(
    a: ActiveAttempt<T, O>,
    b: ActiveAttempt<T, O>,
    reason: String,
    grace: u64,
) -> bool {
    &&& b == ActiveAttempt {
        stop: Some(StopDisposition::Cancelled(reason)),
        shutdown_after_unix_ms: b.shutdown_after_unix_ms,
        phase: ActiveAttemptPhase::Interrupting,
        ..a
    }
    &&& b.shutdown_after_unix_ms matches Some(d) && exists|t: u64| d == saturating_sum(t, grace)
}

/// The bound workers, in order, that a run cancellation interrupts.
pub open spec fn interrupt_targets<T, O>(
    s: Seq<(String, ActiveAttempt<T, O>)>,
    owner: WorkflowOwner,
    run_id: Seq<char>,
) -> Seq<ActiveAttempt<T, O>>
    decreases s.len(),
{
    if s.len() == 0 {
        Seq::empty()
    } else {
        let rest = interrupt_targets(s.drop_last(), owner, run_id);
        if active_in_run(s.last().1, owner, run_id) {
            rest.push(s.last().1)
        } else {
            rest
        }
    }
}

/// The interrupts sent to `targets`, in order, on behalf of `owner`.
pub open spec fn interrupts_for<T, O>(
    r: Seq<InterruptStart>,
    targets: Seq<ActiveAttempt<T, O>>,
    owner: WorkflowOwner,
) -> bool {
    &&& r.len() == targets.len()
    &&& forall|k: int|
        0 <= k < r.len() ==> (#[trigger] r[k]).owner == owner && r[k].key == targets[k].key
            && r[k].execution == targets[k].execution
}

/// An interrupting worker whose grace period has passed at `now`.
pub open spec fn escalation_due<T, O>(a: ActiveAttempt<T, O>, now: u64) -> bool {
    a.phase == ActiveAttemptPhase::Interrupting && (a.shutdown_after_unix_ms matches Some(d)
        && now >= d)
}

pub open spec fn escalated<T, O>(a: ActiveAttempt<T, O>, now: u64) -> ActiveAttempt<T, O> {
    if escalation_due(a, now) {
        ActiveAttempt { phase: ActiveAttemptPhase::ShuttingDown, ..a }
    } else {
        a
    }
}

/// The workers, in order, whose shutdown is due at `now`.
pub open spec fn escalation_targets<T, O>(s: Seq<(String, ActiveAttempt<T, O>)>, now: u64) -> Seq<
    ActiveAttempt<T, O>,
>
    decreases s.len(),
{
    if s.len() == 0 {
        Seq::empty()
    } else {
        let rest = escalation_targets(s.drop_last(), now);
        if escalation_due(s.last().1, now) {
            rest.push(s.last().1)
        } else {
            rest
        }
    }
}

/// Shutdowns for `targets`, each on behalf of the worker's own owner.
pub open spec fn shutdowns_for<T, O>(r: Seq<InterruptStart>, targets: Seq<ActiveAttempt<T, O>>) -> bool {
    &&& r.len() == targets.len()
    &&& forall|k: int|
        0 <= k < r.len() ==> (#[trigger] r[k]).owner == targets[k].owner && r[k].key
            == targets[k].key && r[k].execution == targets[k].execution
}

/// The entries of `s` that belong to another owner, in order.
pub open spec fn other_owners<T, O>(s: Seq<(String, ActiveAttempt<T, O>)>, owner: WorkflowOwner) -> Seq<
    (String, ActiveAttempt<T, O>),
>
    decreases s.len(),
{
    if s.len() == 0 {
        Seq::empty()
    } else {
        let rest = other_owners(s.drop_last(), owner);
        if s.last().1.owner@ == owner@ {
            rest
        } else {
            rest.push(s.last())
        }
    }
}

/// The workers of `owner`, in order.
pub open spec fn owned_by<T, O>(s: Seq<(String, ActiveAttempt<T, O>)>, owner: WorkflowOwner) -> Seq<
    ActiveAttempt<T, O>,
>
    decreases s.len(),
{
    if s.len() == 0 {
        Seq::empty()
    } else {
        let rest = owned_by(s.drop_last(), owner);
        if s.last().1.owner@ == owner@ {
            rest.push(s.last().1)
        } else {
            rest
        }
    }
}

pub proof fn lemma_other_owners_slots<T, O>(s: Seq<(String, ActiveAttempt<T, O>)>, owner: WorkflowOwner)
    requires
        unique_slots(s),
    ensures
        unique_slots(other_owners(s, owner)),
        forall|x: Seq<char>| #[trigger] has_slot(other_owners(s, owner), x) ==> has_slot(s, x),
    decreases s.len(),
{
    if s.len() > 0 {
        let p = s.drop_last();
        assert forall|a: int, b: int| 0 <= a < p.len() && 0 <= b < p.len() && a != b implies #[trigger] p[a].0@
            != #[trigger] p[b].0@ by {
            assert(p[a] == s[a] && p[b] == s[b]);
        }
        lemma_other_owners_slots(p, owner);
        let rest = other_owners(p, owner);
        assert forall|x: Seq<char>| #[trigger] has_slot(rest, x) implies has_slot(s, x) by {
            let j = slot_index(p, x);
            assert(s[j] == p[j]);
        }
        if s.last().1.owner@ != owner@ {
            if has_slot(rest, s.last().0@) {
                let j = slot_index(p, s.last().0@);
                assert(s[j] == p[j]);
                assert(j != s.len() - 1);
            }
            lemma_push_keeps_unique(rest, s.last());
            assert forall|x: Seq<char>| #[trigger] has_slot(rest.push(s.last()), x) implies has_slot(
                s,
                x,
            ) by {
                let t = rest.push(s.last());
                let j = slot_index(t, x);
                if j < rest.len() {
                    assert(t[j] == rest[j]);
                    assert(has_slot(rest, x));
                } else {
                    assert(s[s.len() - 1].0@ == x);
                }
            }
        }
    }
}

/// A bound worker after a failure stop was requested for it at `now`.
pub open spec fn failure_stopping<T, O>(
    a: ActiveAttempt<T, O>,
    failure: WorkflowSpawnFailure,
    now: u64,
    grace: u64,
) -> ActiveAttempt<T, O> {
    ActiveAttempt {
        stop: Some(StopDisposition::Failed(failure)),
        shutdown_after_unix_ms: Some(saturating_sum(now, grace)),
        phase: ActiveAttemptPhase::Interrupting,
        ..a
    }
}

/// How a stopped worker's attempt is recorded: a timed-out cleanup is an
/// ambiguous failure; otherwise the decided stop, or, if none was decided,
/// a worker lost without outcome.
pub open spec fn stopped_record<T, O>(
    a: ActiveAttempt<T, O>,
    status: WorkflowCleanupStatus,
    r: StopDisposition,
) -> bool {
    if status == WorkflowCleanupStatus::TimedOut {
        r matches StopDisposition::Failed(f) && failure_is(
            f,
            "workflow_cleanup_timeout"@,
            WorkflowFailureClass::AmbiguousExecution,
            "workflow worker shutdown timed out"@,
        )
    } else if a.stop is Some {
        r == a.stop->0
    } else {
        r matches StopDisposition::Failed(f) && failure_is(
            f,
            "worker_stopped"@,
            WorkflowFailureClass::AmbiguousExecution,
            "workflow worker stopped without a terminal outcome"@,
        )
    }
}

impl<T, O> WorkflowScheduler<T, O> {
    /// Cancels a run's custody: pending attempts record the cancellation and
    /// have their preparation aborted once; bound workers record it, are
    /// interrupted and get a shutdown deadline of the grace period after a
    /// clock reading. Returns the aborts and interrupts to start.
    pub fn begin_cancel_effects<C: WorkflowClock>(
        &mut self,
        owner: &WorkflowOwner,
        run_id: &String,
        reason: &String,
        clock: &C,
        grace_ms: u64,
    ) -> (r: (Vec<AbortStart>, Vec<InterruptStart>))
        requires
            old(self).wf(),
        ensures
            final(self).wf(),
            ({
                let marked = map_entries(
                    old(self).pending@,
                    |p: PendingAttempt<T>| cancel_marked(p, *owner, run_id@, *reason),
                );
                &&& final(self).pending@ == map_entries(
                    marked,
                    |p: PendingAttempt<T>| run_abort_marked(p, *owner, Some(run_id@)),
                )
                &&& starts_for(r.0@, run_abort_targets(marked, *owner, Some(run_id@)), *owner)
            }),
            final(self).active@.len() == old(self).active@.len(),
            forall|j: int|
                0 <= j < old(self).active@.len() ==> #[trigger] final(self).active@[j].0 == old(
                    self,
                ).active@[j].0 && if active_in_run(old(self).active@[j].1, *owner, run_id@) {
                    cancel_interrupted(
                        old(self).active@[j].1,
                        final(self).active@[j].1,
                        *reason,
                        grace_ms,
                    )
                } else {
                    final(self).active@[j] == old(self).active@[j]
                },
            interrupts_for(r.1@, interrupt_targets(old(self).active@, *owner, run_id@), *owner),
    {
        self.mark_cancelled(owner, run_id, reason);
        let aborts = self.request_run_abort(owner, run_id);
        let ghost before = self.active@;
        let ghost pending_after = self.pending@;
        let mut interrupts: Vec<InterruptStart> = Vec::new();
        let mut i: usize = 0;
        while i < self.active.len()
            invariant
                self.active@.len() == before.len(),
                i <= before.len(),
                unique_slots(before),
                self.pending@ == pending_after,
                unique_slots(pending_after),
                forall|j: int|
                    0 <= j < i ==> (#[trigger] self.active@[j]).0 == before[j].0 && if active_in_run(
                        before[j].1,
                        *owner,
                        run_id@,
                    ) {
                        cancel_interrupted(before[j].1, self.active@[j].1, *reason, grace_ms)
                    } else {
                        self.active@[j] == before[j]
                    },
                forall|j: int| i <= j < before.len() ==> #[trigger] self.active@[j] == before[j],
                interrupts_for(
                    interrupts@,
                    interrupt_targets(before.take(i as int), *owner, run_id@),
                    *owner,
                ),
            decreases before.len() - i,
        {
            proof {
                assert(before.take(i + 1).drop_last() =~= before.take(i as int));
                assert(before.take(i + 1).last() == before[i as int]);
            }
            assert(self.active@[i as int] == before[i as int]);
            let in_run = same_owner(&self.active[i].1.owner, owner) && same_text(
                &self.active[i].1.key.run_id,
                run_id,
            );
            assert(in_run == active_in_run(before[i as int].1, *owner, run_id@));
            if in_run {
                let ghost mid = self.active@;
                let (slot_id, mut a) = self.active.remove(i);
                let now = clock.now_unix_ms();
                a.stop = Some(StopDisposition::Cancelled(reason.clone()));
                a.shutdown_after_unix_ms = Some(now.saturating_add(grace_ms));
                a.phase = ActiveAttemptPhase::Interrupting;
                interrupts.push(
                    InterruptStart {
                        owner: owner.clone(),
                        key: a.key.clone(),
                        execution: a.execution.clone(),
                    },
                );
                self.active.insert(i, (slot_id, a));
                proof {
                    assert(saturating_sum(now, grace_ms) == now.saturating_add(grace_ms));
                    assert(cancel_interrupted(before[i as int].1, a, *reason, grace_ms));
                    assert(self.active@ =~= mid.update(i as int, (before[i as int].0, a)));
                    assert(forall|j: int| 0 <= j < before.len() && j != i ==> self.active@[j] == mid[j]);
                    assert(self.active@[i as int].0 == before[i as int].0);
                    assert(cancel_interrupted(before[i as int].1, self.active@[i as int].1, *reason, grace_ms));
                }
            }
            i = i + 1;
        }
        proof {
            assert(before.take(i as int) =~= before);
            assert forall|a: int, b: int|
                0 <= a < self.active@.len() && 0 <= b < self.active@.len() && a != b implies #[trigger] self.active@[a].0@
                != #[trigger] self.active@[b].0@ by {
                assert(self.active@[a].0 == before[a].0);
                assert(self.active@[b].0 == before[b].0);
            }
        }
        (aborts, interrupts)
    }

    /// Escalates every interrupting worker whose grace period has passed at
    /// `now` to a shutdown, and returns the shutdowns to start.
    pub fn escalate(&mut self, now: u64) -> (r: Vec<InterruptStart>)
        requires
            old(self).wf(),
        ensures
            final(self).wf(),
            final(self).pending == old(self).pending,
            final(self).active@ == map_entries(
                old(self).active@,
                |a: ActiveAttempt<T, O>| escalated(a, now),
            ),
            shutdowns_for(r@, escalation_targets(old(self).active@, now)),
    {
        let ghost before = self.active@;
        let ghost f = |a: ActiveAttempt<T, O>| escalated(a, now);
        let mut shutdowns: Vec<InterruptStart> = Vec::new();
        let mut i: usize = 0;
        while i < self.active.len()
            invariant
                self.active@.len() == before.len(),
                i <= before.len(),
                unique_slots(before),
                self.pending == old(self).pending,
                f == (|a: ActiveAttempt<T, O>| escalated(a, now)),
                forall|j: int| 0 <= j < i ==> #[trigger] self.active@[j] == (before[j].0, f(before[j].1)),
                forall|j: int| i <= j < before.len() ==> #[trigger] self.active@[j] == before[j],
                shutdowns_for(shutdowns@, escalation_targets(before.take(i as int), now)),
            decreases before.len() - i,
        {
            proof {
                assert(before.take(i + 1).drop_last() =~= before.take(i as int));
                assert(before.take(i + 1).last() == before[i as int]);
            }
            assert(self.active@[i as int] == before[i as int]);
            let due = self.active[i].1.phase == ActiveAttemptPhase::Interrupting && match self.active[i].1.shutdown_after_unix_ms {
                Some(deadline) => now >= deadline,
                None => false,
            };
            if due {
                let ghost mid = self.active@;
                let (slot_id, mut a) = self.active.remove(i);
                a.phase = ActiveAttemptPhase::ShuttingDown;
                shutdowns.push(
                    InterruptStart {
                        owner: a.owner.clone(),
                        key: a.key.clone(),
                        execution: a.execution.clone(),
                    },
                );
                self.active.insert(i, (slot_id, a));
                proof {
                    assert(a == f(before[i as int].1));
                    assert(self.active@ =~= mid.update(i as int, (before[i as int].0, a)));
                }
            } else {
                assert(f(before[i as int].1) == before[i as int].1);
            }
            i = i + 1;
        }
        proof {
            assert(before.take(i as int) =~= before);
            assert(self.active@ =~= map_entries(before, f));
            lemma_map_entries_keeps_slots(before, f);
        }
        shutdowns
    }

    /// Releases every bound worker of a quarantined owner, handing back each
    /// execution with the shutdown task it may already have, and requests
    /// the abort of all the owner's pending preparations once.
    pub fn quarantine_owner(&mut self, owner: &WorkflowOwner) -> (r: (
        Vec<AbortStart>,
        Vec<(AgentExecutionRef, Option<T>)>,
    ))
        requires
            old(self).wf(),
        ensures
            final(self).wf(),
            final(self).pending@ == map_entries(
                old(self).pending@,
                |p: PendingAttempt<T>| run_abort_marked(p, *owner, None),
            ),
            starts_for(r.0@, run_abort_targets(old(self).pending@, *owner, None), *owner),
            final(self).active@ == other_owners(old(self).active@, *owner),
            r.1@.len() == owned_by(old(self).active@, *owner).len(),
            forall|k: int|
                0 <= k < r.1@.len() ==> (#[trigger] r.1@[k]).0 == owned_by(
                    old(self).active@,
                    *owner,
                )[k].execution && r.1@[k].1 == owned_by(old(self).active@, *owner)[k].shutdown_waiter,
    {
        let aborts = self.request_owner_abort(owner);
        let ghost before = self.active@;
        let ghost pending_after = self.pending@;
        let mut rest: Vec<(String, ActiveAttempt<T, O>)> = Vec::new();
        std::mem::swap(&mut rest, &mut self.active);
        let n = rest.len();
        let mut contain: Vec<(AgentExecutionRef, Option<T>)> = Vec::new();
        let mut k: usize = 0;
        while rest.len() > 0
            invariant
                n == before.len(),
                self.pending@ == pending_after,
                unique_slots(pending_after),
                k + rest@.len() == before.len(),
                rest@ == before.skip(k as int),
                self.active@ == other_owners(before.take(k as int), *owner),
                contain@.len() == owned_by(before.take(k as int), *owner).len(),
                forall|m: int|
                    0 <= m < contain@.len() ==> (#[trigger] contain@[m]).0 == owned_by(
                        before.take(k as int),
                        *owner,
                    )[m].execution && contain@[m].1 == owned_by(before.take(k as int), *owner)[m].shutdown_waiter,
            decreases rest@.len(),
        {
            proof {
                assert(before.take(k + 1).drop_last() =~= before.take(k as int));
                assert(before.take(k + 1).last() == before[k as int]);
                assert(rest@[0] == before[k as int]);
            }
            let (slot_id, mut a) = rest.remove(0);
            proof {
                assert(rest@ =~= before.skip(k + 1));
            }
            if same_owner(&a.owner, owner) {
                let waiter = a.shutdown_waiter.take();
                contain.push((a.execution, waiter));
            } else {
                self.active.push((slot_id, a));
            }
            k = k + 1;
        }
        proof {
            assert(before.take(k as int) =~= before);
            lemma_other_owners_slots(before, *owner);
        }
        (aborts, contain)
    }

    /// After a failure stop was journaled for an attempt: the exact bound
    /// execution records the failure, is interrupted and gets a shutdown
    /// deadline. A missing worker makes the lease stale; a worker of another
    /// execution is left as it is.
    pub fn apply_failure_stop(
        &mut self,
        owner: &WorkflowOwner,
        key: &AttemptKey,
        execution: &AgentExecutionRef,
        failure: WorkflowSpawnFailure,
        now: u64,
        grace_ms: u64,
    ) -> (r: Result<Option<InterruptStart>, WorkflowCoordinatorError>)
        requires
            old(self).wf(),
        ensures
            final(self).wf(),
            final(self).pending == old(self).pending,
            ({
                let s = slot(old(self).active@, key.attempt_id@);
                &&& s is None ==> r == Err::<Option<InterruptStart>, WorkflowCoordinatorError>(
                    WorkflowCoordinatorError::StaleExecutionLease,
                ) && final(self).active == old(self).active
                &&& s is Some && s->0.execution@ != execution@ ==> (r matches Ok(None)
                    && final(self).active == old(self).active)
                &&& s is Some && s->0.execution@ == execution@ ==> (final(self).active@ == map_slot(
                    old(self).active@,
                    key.attempt_id@,
                    |a: ActiveAttempt<T, O>| failure_stopping(a, failure, now, grace_ms),
                ) && (r matches Ok(Some(start)) && start.owner == *owner && start.key == *key
                    && start.execution == *execution))
            }),
    {
        let i = match find_slot(&self.active, &key.attempt_id) {
            Some(i) => i,
            None => return Err(WorkflowCoordinatorError::StaleExecutionLease),
        };
        proof {
            lemma_slot_at(self.active@, i as int);
        }
        if !same_execution(&self.active[i].1.execution, execution) {
            return Ok(None);
        }
        let ghost before = self.active@;
        let ghost f = |a: ActiveAttempt<T, O>| failure_stopping(a, failure, now, grace_ms);
        let (slot_id, mut a) = self.active.remove(i);
        a.stop = Some(StopDisposition::Failed(failure));
        a.shutdown_after_unix_ms = Some(now.saturating_add(grace_ms));
        a.phase = ActiveAttemptPhase::Interrupting;
        self.active.insert(i, (slot_id, a));
        proof {
            assert(self.active@ =~= before.update(i as int, (before[i as int].0, f(before[i as int].1))));
            lemma_map_slot_is_update(before, i as int, f);
            lemma_update_keeps_unique(before, i as int, (before[i as int].0, f(before[i as int].1)));
        }
        Ok(Some(InterruptStart { owner: owner.clone(), key: key.clone(), execution: execution.clone() }))
    }

    /// A worker reported stopped. For the exact bound execution, the stop to
    /// record is returned; any other callback is stale.
    pub fn stopped_disposition(
        &self,
        owner: &WorkflowOwner,
        key: &AttemptKey,
        execution: &AgentExecutionRef,
        status: WorkflowCleanupStatus,
    ) -> (r: Option<StopDisposition>)
        requires
            self.wf(),
        ensures
            ({
                let s = self.active_slot(key.attempt_id@);
                &&& !(s is Some && active_matches(s->0, *owner, *key, *execution)) ==> r is None
                &&& s is Some && active_matches(s->0, *owner, *key, *execution) ==> r is Some
                    && stopped_record(s->0, status, r->0)
                &&& s is Some && active_matches(s->0, *owner, *key, *execution) && status
                    == WorkflowCleanupStatus::TimedOut ==> (r matches Some(
                    StopDisposition::Failed(f),
                ) && failure_is(
                    f,
                    "workflow_cleanup_timeout"@,
                    WorkflowFailureClass::AmbiguousExecution,
                    "workflow worker shutdown timed out"@,
                ))
                &&& s is Some && active_matches(s->0, *owner, *key, *execution) && status
                    == WorkflowCleanupStatus::Confirmed && s->0.stop is Some ==> r == s->0.stop
            }),
    {
        let i = match find_slot(&self.active, &key.attempt_id) {
            Some(i) => i,
            None => return None,
        };
        proof {
            lemma_slot_at(self.active@, i as int);
        }
        let a = &self.active[i].1;
        if !same_owner(&a.owner, owner) || !crate::identity::same_key(&a.key, key)
            || !same_execution(&a.execution, execution) {
            return None;
        }
        if status == WorkflowCleanupStatus::TimedOut {
            return Some(
                StopDisposition::Failed(cleanup_timeout_failure("workflow worker shutdown timed out")),
            );
        }
        match clone_stop(&a.stop) {
            Some(stop) => Some(stop),
            None => Some(StopDisposition::Failed(lost_worker())),
        }
    }

    /// After `AttemptRunning` was journaled: the worker is running, its
    /// attempt deadline starts at `now`, and its outcome receiver is handed
    /// out to be awaited.
    pub fn mark_running(&mut self, id: &String, now: u64, attempt_timeout_ms: u64) -> (r: Option<O>)
        requires
            old(self).wf(),
            has_slot(old(self).active@, id@),
        ensures
            final(self).wf(),
            final(self).pending == old(self).pending,
            r == slot(old(self).active@, id@)->0.outcome,
            final(self).active@ == map_slot(
                old(self).active@,
                id@,
                |a: ActiveAttempt<T, O>|
                    ActiveAttempt {
                        phase: ActiveAttemptPhase::Running,
                        deadline_unix_ms: saturating_sum(now, attempt_timeout_ms),
                        outcome: None,
                        ..a
                    },
            ),
    {
        let i = find_slot(&self.active, id).unwrap();
        proof {
            lemma_slot_at(self.active@, i as int);
        }
        let ghost before = self.active@;
        let ghost f = |a: ActiveAttempt<T, O>|
            ActiveAttempt {
                phase: ActiveAttemptPhase::Running,
                deadline_unix_ms: saturating_sum(now, attempt_timeout_ms),
                outcome: None,
                ..a
            };
        let (slot_id, mut a) = self.active.remove(i);
        a.phase = ActiveAttemptPhase::Running;
        a.deadline_unix_ms = now.saturating_add(attempt_timeout_ms);
        let outcome = a.outcome.take();
        self.active.insert(i, (slot_id, a));
        proof {
            assert(self.active@ =~= before.update(i as int, (before[i as int].0, f(before[i as int].1))));
            lemma_map_slot_is_update(before, i as int, f);
            lemma_update_keeps_unique(before, i as int, (before[i as int].0, f(before[i as int].1)));
        }
        outcome
    }

    /// Hands out the outcome receiver of a bound worker, if it still has one.
    pub fn take_outcome(&mut self, id: &String) -> (r: Option<O>)
        requires
            old(self).wf(),
        ensures
            final(self).wf(),
            final(self).pending == old(self).pending,
            !has_slot(old(self).active@, id@) ==> r is None && final(self).active == old(
                self,
            ).active,
            has_slot(old(self).active@, id@) ==> r == slot(old(self).active@, id@)->0.outcome
                && final(self).active@ == map_slot(
                old(self).active@,
                id@,
                |a: ActiveAttempt<T, O>| ActiveAttempt { outcome: None, ..a },
            ),
    {
        let i = match find_slot(&self.active, id) {
            Some(i) => i,
            None => return None,
        };
        proof {
            lemma_slot_at(self.active@, i as int);
        }
        let ghost before = self.active@;
        let ghost f = |a: ActiveAttempt<T, O>| ActiveAttempt { outcome: None, ..a };
        let (slot_id, mut a) = self.active.remove(i);
        let outcome = a.outcome.take();
        self.active.insert(i, (slot_id, a));
        proof {
            assert(self.active@ =~= before.update(i as int, (before[i as int].0, f(before[i as int].1))));
            lemma_map_slot_is_update(before, i as int, f);
            lemma_update_keeps_unique(before, i as int, (before[i as int].0, f(before[i as int].1)));
        }
        outcome
    }

    /// Keeps the task that awaits a bound worker's outcome, if the worker is
    /// still in custody; otherwise the task is dropped.
    pub fn install_outcome_waiter(&mut self, id: &String, waiter: T)
        requires
            old(self).wf(),
        ensures
            final(self).wf(),
            final(self).pending == old(self).pending,
            !has_slot(old(self).active@, id@) ==> final(self).active == old(self).active,
            has_slot(old(self).active@, id@) ==> final(self).active@ == map_slot(
                old(self).active@,
                id@,
                |a: ActiveAttempt<T, O>| ActiveAttempt { outcome_waiter: Some(waiter), ..a },
            ),
    {
        let i = match find_slot(&self.active, id) {
            Some(i) => i,
            None => return,
        };
        proof {
            lemma_slot_at(self.active@, i as int);
        }
        let ghost before = self.active@;
        let ghost f = |a: ActiveAttempt<T, O>| ActiveAttempt { outcome_waiter: Some(waiter), ..a };
        let (slot_id, mut a) = self.active.remove(i);
        a.outcome_waiter = Some(waiter);
        self.active.insert(i, (slot_id, a));
        proof {
            assert(self.active@ =~= before.update(i as int, (before[i as int].0, f(before[i as int].1))));
            lemma_map_slot_is_update(before, i as int, f);
            lemma_update_keeps_unique(before, i as int, (before[i as int].0, f(before[i as int].1)));
        }
    }

    /// Keeps the supervisor of a bound worker's shutdown, if the worker is
    /// still in custody; otherwise the task is dropped.
    pub fn install_shutdown_waiter(&mut self, id: &String, waiter: T)
        requires
            old(self).wf(),
        ensures
            final(self).wf(),
            final(self).pending == old(self).pending,
            !has_slot(old(self).active@, id@) ==> final(self).active == old(self).active,
            has_slot(old(self).active@, id@) ==> final(self).active@ == map_slot(
                old(self).active@,
                id@,
                |a: ActiveAttempt<T, O>| ActiveAttempt { shutdown_waiter: Some(waiter), ..a },
            ),
    {
        let i = match find_slot(&self.active, id) {
            Some(i) => i,
            None => return,
        };
        proof {
            lemma_slot_at(self.active@, i as int);
        }
        let ghost before = self.active@;
        let ghost f = |a: ActiveAttempt<T, O>| ActiveAttempt { shutdown_waiter: Some(waiter), ..a };
        let (slot_id, mut a) = self.active.remove(i);
        a.shutdown_waiter = Some(waiter);
        self.active.insert(i, (slot_id, a));
        proof {
            assert(self.active@ =~= before.update(i as int, (before[i as int].0, f(before[i as int].1))));
            lemma_map_slot_is_update(before, i as int, f);
            lemma_update_keeps_unique(before, i as int, (before[i as int].0, f(before[i as int].1)));
        }
    }
}

} // verus!

verus! {

/// What a worker lease that cannot be bound leads to.
pub struct LeaseViolation<T> {
    /// The error the request fails with.
    pub error: WorkflowCoordinatorError,
    /// The owner is to be recorded as poisoned.
    pub poison_owner: bool,
    /// The execution of the refused worker, to be shut down.
    pub offending: AgentExecutionRef,
    /// The preparation aborts that quarantining the owner starts.
    pub aborts: Vec<AbortStart>,
    /// The owner's bound workers that quarantining released, each with the
    /// shutdown task it may already have.
    pub quarantined: Vec<(AgentExecutionRef, Option<T>)>,
}

impl<T, O> WorkflowScheduler<T, O> {
    /// Refuses a worker whose lease is invalid or already held: the request
    /// fails with `InvalidExecutionLease`, the worker is contained, and the
    /// owner is poisoned, which, when the coordinator executes workflows,
    /// quarantines all its custody.
    pub fn reject_lease(
        &mut self,
        mode: crate::mode::WorkflowCoordinatorMode,
        owner: &WorkflowOwner,
        execution: AgentExecutionRef,
    ) -> (r: LeaseViolation<T>)
        requires
            old(self).wf(),
        ensures
            final(self).wf(),
            r.error == WorkflowCoordinatorError::InvalidExecutionLease,
            r.poison_owner,
            r.offending == execution,
            !crate::mode::mode_executes(mode) ==> final(self).pending == old(self).pending
                && final(self).active == old(self).active && r.aborts@.len() == 0
                && r.quarantined@.len() == 0,
            crate::mode::mode_executes(mode) ==> {
                &&& final(self).pending@ == map_entries(
                    old(self).pending@,
                    |p: PendingAttempt<T>| run_abort_marked(p, *owner, None),
                )
                &&& starts_for(r.aborts@, run_abort_targets(old(self).pending@, *owner, None), *owner)
                &&& final(self).active@ == other_owners(old(self).active@, *owner)
                &&& r.quarantined@.len() == owned_by(old(self).active@, *owner).len()
                &&& forall|k: int|
                    0 <= k < r.quarantined@.len() ==> (#[trigger] r.quarantined@[k]).0 == owned_by(
                        old(self).active@,
                        *owner,
                    )[k].execution && r.quarantined@[k].1 == owned_by(
                        old(self).active@,
                        *owner,
                    )[k].shutdown_waiter
            },
    {
        let (aborts, quarantined) = if mode.executes() {
            self.quarantine_owner(owner)
        } else {
            (Vec::new(), Vec::new())
        };
        LeaseViolation {
            error: WorkflowCoordinatorError::InvalidExecutionLease,
            poison_owner: true,
            offending: execution,
            aborts,
            quarantined,
        }
    }
}

} // verus!
