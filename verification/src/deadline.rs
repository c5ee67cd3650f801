use vstd::prelude::*;

use crate::failure::StopDisposition;
use crate::identity::{same_owner, same_text, AgentExecutionRef, AttemptKey, WorkflowOwner};
use crate::order::{ids_ascending, sort_keyed};
use crate::run::{run_expired_at, WorkflowRunSnapshot, WorkflowRunState};
use crate::scheduler::{
    active_in_run, lemma_map_slot_is_update, map_slot, ActiveAttempt, ActiveAttemptPhase,
    PendingAttempt, WorkflowScheduler,
};
use crate::slots::{
    find_slot, has_slot, lemma_select_map, lemma_slot_at, lemma_update_keeps_unique, select_map,
    selected_from, unique_slots,
};

verus! {

/// A preparation without a decided stop whose attempt deadline has passed.
pub open spec fn pending_due<T>(now: u64) -> spec_fn(PendingAttempt<T>) -> bool {
    |p: PendingAttempt<T>| p.stop is None && now >= p.deadline_unix_ms
}

pub open spec fn pending_identity<T>() -> spec_fn(PendingAttempt<T>) -> (WorkflowOwner, AttemptKey) {
    |p: PendingAttempt<T>| (p.owner, p.key)
}

/// A bound worker without a decided stop whose attempt deadline has passed.
pub open spec fn active_due<T, O>(now: u64) -> spec_fn(ActiveAttempt<T, O>) -> bool {
    |a: ActiveAttempt<T, O>| a.stop is None && now >= a.deadline_unix_ms
}

/// A bound worker's identity and whether it entered running.
pub open spec fn active_identity<T, O>() -> spec_fn(ActiveAttempt<T, O>) -> (
    WorkflowOwner,
    AttemptKey,
    AgentExecutionRef,
    bool,
) {
    |a: ActiveAttempt<T, O>| (a.owner, a.key, a.execution, a.phase == ActiveAttemptPhase::Running)
}

pub open spec fn pending_in_run<T>(owner: WorkflowOwner, run_id: Seq<char>) -> spec_fn(PendingAttempt<T>) -> bool {
    |p: PendingAttempt<T>| p.owner@ == owner@ && p.key.run_id@ == run_id
}

pub open spec fn active_of_run<T, O>(owner: WorkflowOwner, run_id: Seq<char>) -> spec_fn(ActiveAttempt<T, O>) -> bool {
    |a: ActiveAttempt<T, O>| active_in_run(a, owner, run_id)
}

/// A bound worker's key, execution and whether a stop was already decided.
pub open spec fn active_stop_view<T, O>() -> spec_fn(ActiveAttempt<T, O>) -> (
    AttemptKey,
    AgentExecutionRef,
    bool,
) {
    |a: ActiveAttempt<T, O>| (a.key, a.execution, a.stop is Some)
}

/// Whether a run's deadline sweep applies: the run is running and expired.
pub open spec fn run_deadline_due(run: WorkflowRunSnapshot, now: u64) -> bool {
    run.state == WorkflowRunState::Running && run_expired_at(run, now)
}

/// Checks `run_deadline_due`.
pub fn deadline_due(run: &WorkflowRunSnapshot, now: u64) -> (r: bool)
    ensures
        r == run_deadline_due(*run, now),
{
    run.state == WorkflowRunState::Running && crate::run::run_expired(run, now)
}

impl<T, O> WorkflowScheduler<T, O> {
    /// The preparations whose attempt deadline passed at `now` and that have
    /// no decided stop, in ascending id order.
    pub fn expired_pending(&self, now: u64) -> (r: Vec<(String, (WorkflowOwner, AttemptKey))>)
        requires
            self.wf(),
        ensures
            ids_ascending(r@),
            forall|e: (String, (WorkflowOwner, AttemptKey))|
                r@.contains(e) <==> selected_from(
                    self.pending@,
                    pending_due::<T>(now),
                    pending_identity::<T>(),
                    e,
                ),
    {
        let ghost keep = pending_due::<T>(now);
        let ghost f = pending_identity::<T>();
        let mut picked: Vec<(String, (WorkflowOwner, AttemptKey))> = Vec::new();
        let mut i: usize = 0;
        while i < self.pending.len()
            invariant
                i <= self.pending@.len(),
                keep == pending_due::<T>(now),
                f == pending_identity::<T>(),
                picked@ == select_map(self.pending@.take(i as int), keep, f),
            decreases self.pending@.len() - i,
        {
            proof {
                assert(self.pending@.take(i + 1).drop_last() =~= self.pending@.take(i as int));
                assert(self.pending@.take(i + 1).last() == self.pending@[i as int]);
            }
            let p = &self.pending[i].1;
            if p.stop.is_none() && now >= p.deadline_unix_ms {
                picked.push((self.pending[i].0.clone(), (p.owner.clone(), p.key.clone())));
            }
            i = i + 1;
        }
        proof {
            assert(self.pending@.take(i as int) =~= self.pending@);
            lemma_select_map(self.pending@, keep, f);
        }
        sort_keyed(picked)
    }

    /// The bound workers whose attempt deadline passed at `now` and that
    /// have no decided stop, in ascending id order, with whether each
    /// entered running.
    pub fn expired_active(&self, now: u64) -> (r: Vec<
        (String, (WorkflowOwner, AttemptKey, AgentExecutionRef, bool)),
    >)
        requires
            self.wf(),
        ensures
            ids_ascending(r@),
            forall|e: (String, (WorkflowOwner, AttemptKey, AgentExecutionRef, bool))|
                r@.contains(e) <==> selected_from(
                    self.active@,
                    active_due::<T, O>(now),
                    active_identity::<T, O>(),
                    e,
                ),
            forall|k: int|
                0 <= k < r@.len() ==> (#[trigger] crate::slots::slot(self.active@, r@[k].0@) matches Some(
                    a,
                ) && a.stop is None && now >= a.deadline_unix_ms && r@[k].1.0 == a.owner && r@[k].1.1
                    == a.key && r@[k].1.2 == a.execution && r@[k].1.3 == (a.phase
                    == ActiveAttemptPhase::Running)),
    {
        let ghost keep = active_due::<T, O>(now);
        let ghost f = active_identity::<T, O>();
        let mut picked: Vec<(String, (WorkflowOwner, AttemptKey, AgentExecutionRef, bool))> =
            Vec::new();
        let mut i: usize = 0;
        while i < self.active.len()
            invariant
                i <= self.active@.len(),
                keep == active_due::<T, O>(now),
                f == active_identity::<T, O>(),
                picked@ == select_map(self.active@.take(i as int), keep, f),
            decreases self.active@.len() - i,
        {
            proof {
                assert(self.active@.take(i + 1).drop_last() =~= self.active@.take(i as int));
                assert(self.active@.take(i + 1).last() == self.active@[i as int]);
            }
            let a = &self.active[i].1;
            if a.stop.is_none() && now >= a.deadline_unix_ms {
                picked.push(
                    (
                        self.active[i].0.clone(),
                        (
                            a.owner.clone(),
                            a.key.clone(),
                            a.execution.clone(),
                            a.phase == ActiveAttemptPhase::Running,
                        ),
                    ),
                );
            }
            i = i + 1;
        }
        proof {
            assert(self.active@.take(i as int) =~= self.active@);
            lemma_select_map(self.active@, keep, f);
        }
        let r = sort_keyed(picked);
        proof {
            assert forall|k: int| 0 <= k < r@.len() implies (#[trigger] crate::slots::slot(
                self.active@,
                r@[k].0@,
            ) matches Some(a) && a.stop is None && now >= a.deadline_unix_ms && r@[k].1.0 == a.owner
                && r@[k].1.1 == a.key && r@[k].1.2 == a.execution && r@[k].1.3 == (a.phase
                == ActiveAttemptPhase::Running)) by {
            assert(r@.contains(r@[k]));
            crate::laws::law_timeout_scan_reports_running(self.active@, now, r@[k]);
        }
        }
        r
    }

    /// The preparations of the owner's run, in ascending id order.
    pub fn run_pending(&self, owner: &WorkflowOwner, run_id: &String) -> (r: Vec<(String, ())>)
        requires
            self.wf(),
        ensures
            ids_ascending(r@),
            forall|e: (String, ())|
                r@.contains(e) <==> selected_from(
                    self.pending@,
                    pending_in_run::<T>(*owner, run_id@),
                    |p: PendingAttempt<T>| (),
                    e,
                ),
    {
        let ghost keep = pending_in_run::<T>(*owner, run_id@);
        let ghost f = |p: PendingAttempt<T>| ();
        let mut picked: Vec<(String, ())> = Vec::new();
        let mut i: usize = 0;
        while i < self.pending.len()
            invariant
                i <= self.pending@.len(),
                keep == pending_in_run::<T>(*owner, run_id@),
                f == (|p: PendingAttempt<T>| ()),
                picked@ == select_map(self.pending@.take(i as int), keep, f),
            decreases self.pending@.len() - i,
        {
            proof {
                assert(self.pending@.take(i + 1).drop_last() =~= self.pending@.take(i as int));
                assert(self.pending@.take(i + 1).last() == self.pending@[i as int]);
            }
            let p = &self.pending[i].1;
            if same_owner(&p.owner, owner) && same_text(&p.key.run_id, run_id) {
                picked.push((self.pending[i].0.clone(), ()));
            }
            i = i + 1;
        }
        proof {
            assert(self.pending@.take(i as int) =~= self.pending@);
            lemma_select_map(self.pending@, keep, f);
        }
        sort_keyed(picked)
    }

    /// The bound workers of the owner's run, in ascending id order, with
    /// whether each already has a decided stop.
    pub fn run_active(&self, owner: &WorkflowOwner, run_id: &String) -> (r: Vec<
        (String, (AttemptKey, AgentExecutionRef, bool)),
    >)
        requires
            self.wf(),
        ensures
            ids_ascending(r@),
            forall|e: (String, (AttemptKey, AgentExecutionRef, bool))|
                r@.contains(e) <==> selected_from(
                    self.active@,
                    active_of_run::<T, O>(*owner, run_id@),
                    active_stop_view::<T, O>(),
                    e,
                ),
            forall|k: int|
                0 <= k < r@.len() ==> (#[trigger] crate::slots::slot(self.active@, r@[k].0@) matches Some(
                    a,
                ) && a.owner@ == owner@ && a.key.run_id@ == run_id@ && r@[k].1.0 == a.key && r@[k].1.1
                    == a.execution && r@[k].1.2 == (a.stop is Some)),
    {
        let ghost keep = active_of_run::<T, O>(*owner, run_id@);
        let ghost f = active_stop_view::<T, O>();
        let mut picked: Vec<(String, (AttemptKey, AgentExecutionRef, bool))> = Vec::new();
        let mut i: usize = 0;
        while i < self.active.len()
            invariant
                i <= self.active@.len(),
                keep == active_of_run::<T, O>(*owner, run_id@),
                f == active_stop_view::<T, O>(),
                picked@ == select_map(self.active@.take(i as int), keep, f),
            decreases self.active@.len() - i,
        {
            proof {
                assert(self.active@.take(i + 1).drop_last() =~= self.active@.take(i as int));
                assert(self.active@.take(i + 1).last() == self.active@[i as int]);
            }
            let a = &self.active[i].1;
            if same_owner(&a.owner, owner) && same_text(&a.key.run_id, run_id) {
                picked.push(
                    (
                        self.active[i].0.clone(),
                        (a.key.clone(), a.execution.clone(), a.stop.is_some()),
                    ),
                );
            }
            i = i + 1;
        }
        proof {
            assert(self.active@.take(i as int) =~= self.active@);
            lemma_select_map(self.active@, keep, f);
        }
        let r = sort_keyed(picked);
        proof {
            assert forall|k: int| 0 <= k < r@.len() implies (#[trigger] crate::slots::slot(
                self.active@,
                r@[k].0@,
            ) matches Some(a) && a.owner@ == owner@ && a.key.run_id@ == run_id@ && r@[k].1.0 == a.key
                && r@[k].1.1 == a.execution && r@[k].1.2 == (a.stop is Some)) by {
            assert(r@.contains(r@[k]));
            crate::laws::law_run_sweep_reports_decided_stops(self.active@, *owner, run_id@, r@[k]);
        }
        }
        r
    }

    /// Whether any preparation or bound worker of the owner's run is in custody.
    pub fn run_busy(&self, owner: &WorkflowOwner, run_id: &String) -> (r: bool)
        ensures
            r == ((exists|j: int|
                0 <= j < self.pending@.len() && (#[trigger] self.pending@[j]).1.owner@ == owner@
                    && self.pending@[j].1.key.run_id@ == run_id@) || (exists|j: int|
                0 <= j < self.active@.len() && active_in_run(
                    (#[trigger] self.active@[j]).1,
                    *owner,
                    run_id@,
                ))),
    {
        let mut i: usize = 0;
        while i < self.pending.len()
            invariant
                i <= self.pending@.len(),
                forall|j: int|
                    0 <= j < i ==> !((#[trigger] self.pending@[j]).1.owner@ == owner@
                        && self.pending@[j].1.key.run_id@ == run_id@),
            decreases self.pending@.len() - i,
        {
            if same_owner(&self.pending[i].1.owner, owner) && same_text(
                &self.pending[i].1.key.run_id,
                run_id,
            ) {
                return true;
            }
            i = i + 1;
        }
        let mut k: usize = 0;
        while k < self.active.len()
            invariant
                k <= self.active@.len(),
                forall|j: int|
                    0 <= j < self.pending@.len() ==> !((#[trigger] self.pending@[j]).1.owner@
                        == owner@ && self.pending@[j].1.key.run_id@ == run_id@),
                forall|j: int|
                    0 <= j < k ==> !active_in_run((#[trigger] self.active@[j]).1, *owner, run_id@),
            decreases self.active@.len() - k,
        {
            if same_owner(&self.active[k].1.owner, owner) && same_text(
                &self.active[k].1.key.run_id,
                run_id,
            ) {
                return true;
            }
            k = k + 1;
        }
        false
    }

    /// Records the stop of a pending attempt, if it is still pending.
    pub fn set_pending_stop(&mut self, id: &String, stop: StopDisposition)
        requires
            old(self).wf(),
        ensures
            final(self).wf(),
            final(self).active == old(self).active,
            !has_slot(old(self).pending@, id@) ==> final(self).pending == old(self).pending,
            has_slot(old(self).pending@, id@) ==> final(self).pending@ == map_slot(
                old(self).pending@,
                id@,
                |p: PendingAttempt<T>| PendingAttempt { stop: Some(stop), ..p },
            ),
    {
        let i = match find_slot(&self.pending, id) {
            Some(i) => i,
            None => return,
        };
        proof {
            lemma_slot_at(self.pending@, i as int);
        }
        let ghost before = self.pending@;
        let ghost f = |p: PendingAttempt<T>| PendingAttempt { stop: Some(stop), ..p };
        let (slot_id, mut p) = self.pending.remove(i);
        p.stop = Some(stop);
        self.pending.insert(i, (slot_id, p));
        proof {
            assert(self.pending@ =~= before.update(i as int, (before[i as int].0, f(before[i as int].1))));
            lemma_map_slot_is_update(before, i as int, f);
            lemma_update_keeps_unique(before, i as int, (before[i as int].0, f(before[i as int].1)));
        }
    }

    /// Records the stop of a bound worker, if it is still in custody.
    pub fn set_active_stop(&mut self, id: &String, stop: StopDisposition)
        requires
            old(self).wf(),
        ensures
            final(self).wf(),
            final(self).pending == old(self).pending,
            !has_slot(old(self).active@, id@) ==> final(self).active == old(self).active,
            has_slot(old(self).active@, id@) ==> final(self).active@ == map_slot(
                old(self).active@,
                id@,
                |a: ActiveAttempt<T, O>| ActiveAttempt { stop: Some(stop), ..a },
            ),
    {
        let i = match find_slot(&self.active, id) {
            Some(i) => i,
            None => return,
        };
        proof {
            lemma_slot_at(self.active@, i as int);
        }
        let ghost before = self.active@;
        let ghost f = |a: ActiveAttempt<T, O>| ActiveAttempt { stop: Some(stop), ..a };
        let (slot_id, mut a) = self.active.remove(i);
        a.stop = Some(stop);
        self.active.insert(i, (slot_id, a));
        proof {
            assert(self.active@ =~= before.update(i as int, (before[i as int].0, f(before[i as int].1))));
            lemma_map_slot_is_update(before, i as int, f);
            lemma_update_keeps_unique(before, i as int, (before[i as int].0, f(before[i as int].1)));
        }
    }
}

} // verus!
