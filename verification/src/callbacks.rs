use vstd::prelude::*;

use crate::error::WorkflowCoordinatorError;

use crate::failure::{
    clone_stop, failure_is, lost_outcome_failure, short_reason, AgentCompletion, StopDisposition,
    WorkflowAttemptFailure, WorkflowFailureClass, WorkflowSpawnFailure,
};
use crate::identity::{same_key, same_owner, same_text, AgentExecutionRef, AttemptKey, WorkflowOwner};
use crate::run::{
    attempt_index_of, find_attempt, has_attempt, saturating_sum, WorkflowAttemptState,
    WorkflowRunSnapshot, WorkflowRunState,
};
use crate::scheduler::{
    execution_held, lease_valid, lemma_map_slot_is_update, map_slot, pending_owned,
    ActiveAttempt, ActiveAttemptPhase, InterruptStart, PendingAttempt, WorkflowScheduler,
};
use crate::slots::{
    find_slot, has_slot, lemma_push_keeps_unique, lemma_remove_keeps_unique, lemma_slot_at,
    lemma_update_keeps_unique, slot, unique_slots,
};

verus! {

/// A prepared worker: its execution and the receiver of its outcome.
pub struct WorkflowPreparedWorker<O> {
    pub execution: AgentExecutionRef,
    pub outcome: O,
}

/// Why activating a bound worker failed.
pub enum WorkflowActivationFailure {
    /// The worker stopped before it ran.
    Stopped(WorkflowSpawnFailure),
    /// The activation reply was lost; the worker may be running.
    Uncertain(WorkflowAttemptFailure),
}

/// How a preparation that was stopped is finished.
pub enum StopDecision<O> {
    /// No worker came of it: journal the stop, then keep scheduling a
    /// running run.
    TerminalizeUnprepared(StopDisposition),
    /// Journal the binding of the worker, then take it into custody as
    /// interrupting with this stop.
    BindAndStop { worker: WorkflowPreparedWorker<O>, deadline_unix_ms: u64, stop: StopDisposition },
    /// The worker's lease is invalid or already bound: the request fails
    /// with `error`, and `WorkflowScheduler::reject_lease` contains the
    /// worker and poisons and quarantines the owner.
    DuplicateLease { worker: WorkflowPreparedWorker<O>, error: WorkflowCoordinatorError },
}

/// How a prepared worker is bound.
pub enum BindDecision<O> {
    /// Journal the binding, then take the worker into custody as activating.
    Bind { worker: WorkflowPreparedWorker<O>, deadline_unix_ms: u64 },
    /// The worker's lease is invalid or already bound: the request fails
    /// with `error`, and `WorkflowScheduler::reject_lease` contains the
    /// worker and poisons and quarantines the owner.
    DuplicateLease { worker: WorkflowPreparedWorker<O>, error: WorkflowCoordinatorError },
}

/// What a preparation result leads to.
pub enum PreparedDecision<O> {
    /// The result is stale, the owner poisoned, or a late worker of the same
    /// attempt is already contained: the delivery is dropped, which contains
    /// any worker in it.
    Dropped(Result<WorkflowPreparedWorker<O>, WorkflowSpawnFailure>),
    /// The run is not known: the delivery is dropped and the run id is invalid.
    MissingRun(Result<WorkflowPreparedWorker<O>, WorkflowSpawnFailure>),
    /// A failed preparation raced an abort: the tombstone waits for the
    /// abort's acknowledgement.
    AbortFailureKept,
    /// A worker prepared after its abort was requested: shut it down and keep
    /// the tombstone until that shutdown is confirmed. Its outcome is dropped.
    ContainLate { execution: AgentExecutionRef, outcome: O },
    /// The run is cancelling or the attempt already has a stop.
    FinishStop(StopDecision<O>),
    /// The run or attempt moved on: contain the worker.
    ContainStale(WorkflowPreparedWorker<O>),
    /// The run or attempt moved on and no worker was prepared.
    StaleFailure,
    /// Preparation failed: journal the failure, then keep scheduling.
    CommitFailure(WorkflowSpawnFailure),
    /// Preparation succeeded: bind and activate the worker.
    Activate(BindDecision<O>),
}

/// What an activation report leads to.
pub enum ActivationDecision {
    /// The report is stale.
    Ignored,
    /// Journal that the attempt runs, then await its outcome.
    MarkRunning,
    /// Journal the failure, release the worker and keep scheduling.
    CommitFailure(WorkflowSpawnFailure),
    /// Journal a stop request and interrupt the worker with this failure.
    FailureStop(WorkflowSpawnFailure, String),
}

/// The pending record once its delivery was observed.
pub open spec fn delivered<T>(p: PendingAttempt<T>) -> PendingAttempt<T> {
    PendingAttempt { delivery_finished: true, ..p }
}

/// The stop a preparation is finished with: the decided one, or a cancellation.
pub open spec fn stop_or_cancelled(stop: Option<StopDisposition>, r: StopDisposition) -> bool {
    match stop {
        Some(s) => r == s,
        None => r matches StopDisposition::Cancelled(reason)
            && reason@ == "cancelled before worker preparation completed"@,
    }
}

/// Whether a stopped preparation is finished as `r` describes.
pub open spec fn finish_decided<T, O>(
    active: Seq<(String, ActiveAttempt<T, O>)>,
    pending: PendingAttempt<T>,
    prepared: Result<WorkflowPreparedWorker<O>, WorkflowSpawnFailure>,
    r: StopDecision<O>,
) -> bool {
    match prepared {
        Err(_) => r matches StopDecision::TerminalizeUnprepared(stop) && stop_or_cancelled(
            pending.stop,
            stop,
        ),
        Ok(worker) => if lease_valid(worker.execution) && !execution_held(active, worker.execution) {
            r matches StopDecision::BindAndStop { worker: w, deadline_unix_ms, stop } && w == worker
                && deadline_unix_ms == pending.deadline_unix_ms && stop_or_cancelled(
                pending.stop,
                stop,
            )
        } else {
            r == StopDecision::DuplicateLease {
                worker,
                error: WorkflowCoordinatorError::InvalidExecutionLease,
            }
        },
    }
}

/// Whether binding a worker is decided as `r` describes.
pub open spec fn bind_decided<T, O>(
    active: Seq<(String, ActiveAttempt<T, O>)>,
    worker: WorkflowPreparedWorker<O>,
    deadline_unix_ms: u64,
    r: BindDecision<O>,
) -> bool {
    if lease_valid(worker.execution) && !execution_held(active, worker.execution) {
        r == BindDecision::Bind { worker, deadline_unix_ms }
    } else {
        r == BindDecision::DuplicateLease {
            worker,
            error: WorkflowCoordinatorError::InvalidExecutionLease,
        }
    }
}

/// Whether the run still expects this worker: it is running and its
/// attempt with this id is dispatching for this node.
pub open spec fn run_expects(run: WorkflowRunSnapshot, key: AttemptKey) -> bool {
    &&& run.state == WorkflowRunState::Running
    &&& has_attempt(run, key.attempt_id@)
    &&& exists|i: int|
        attempt_index_of(run, key.attempt_id@, i) && run.attempts@[i].node_id@ == key.node_id@
            && run.attempts@[i].state == WorkflowAttemptState::Dispatching
}

/// The stop of a finished preparation: the decided one, or a cancellation.
fn stop_or_default(stop: &Option<StopDisposition>) -> (r: StopDisposition)
    ensures
        stop_or_cancelled(*stop, r),
{
    match clone_stop(stop) {
        Some(s) => s,
        None => StopDisposition::Cancelled(
            "cancelled before worker preparation completed".to_owned(),
        ),
    }
}

impl<T, O> WorkflowScheduler<T, O> {
    /// Finishes a preparation whose attempt was stopped: without a worker
    /// the stop is journaled; a worker with a fresh lease is bound and then
    /// interrupted; a worker whose lease is invalid or taken is contained.
    pub fn finish_preparation_stop(
        &self,
        prepared: Result<WorkflowPreparedWorker<O>, WorkflowSpawnFailure>,
        pending: &PendingAttempt<T>,
    ) -> (r: StopDecision<O>)
        ensures
            finish_decided(self.active@, *pending, prepared, r),
    {
        match prepared {
            Err(_) => StopDecision::TerminalizeUnprepared(stop_or_default(&pending.stop)),
            Ok(worker) => {
                if self.unique_lease(&worker.execution) {
                    StopDecision::BindAndStop {
                        worker,
                        deadline_unix_ms: pending.deadline_unix_ms,
                        stop: stop_or_default(&pending.stop),
                    }
                } else {
                    StopDecision::DuplicateLease {
                        worker,
                        error: WorkflowCoordinatorError::InvalidExecutionLease,
                    }
                }
            },
        }
    }

    /// Decides how a prepared worker is bound: only a valid lease that no
    /// bound worker holds may be.
    pub fn bind_prepared(&self, worker: WorkflowPreparedWorker<O>, deadline_unix_ms: u64) -> (r:
        BindDecision<O>)
        ensures
            bind_decided(self.active@, worker, deadline_unix_ms, r),
    {
        if self.unique_lease(&worker.execution) {
            BindDecision::Bind { worker, deadline_unix_ms }
        } else {
            BindDecision::DuplicateLease {
                worker,
                error: WorkflowCoordinatorError::InvalidExecutionLease,
            }
        }
    }

    /// A preparation result arrived for an attempt.
    pub fn prepared(
        &mut self,
        owner: &WorkflowOwner,
        key: &AttemptKey,
        prepared: Result<WorkflowPreparedWorker<O>, WorkflowSpawnFailure>,
        poisoned: bool,
        run: Option<&WorkflowRunSnapshot>,
    ) -> (r: PreparedDecision<O>)
        requires
            old(self).wf(),
        ensures
            final(self).wf(),
            final(self).active == old(self).active,
            ({
                let id = key.attempt_id@;
                let s = slot(old(self).pending@, id);
                let owned = pending_owned(old(self).pending@, *owner, *key);
                let p = s->0;
                &&& !owned || poisoned ==> final(self).pending == old(self).pending && r
                    == PreparedDecision::Dropped(prepared)
                &&& owned && !poisoned && p.late_execution is Some ==> final(self).pending@
                    == map_slot(old(self).pending@, id, |q: PendingAttempt<T>| delivered(q))
                    && r == PreparedDecision::Dropped(prepared)
                &&& owned && !poisoned && p.late_execution is None && run is None
                    ==> final(self).pending@ == map_slot(
                    old(self).pending@,
                    id,
                    |q: PendingAttempt<T>| delivered(q),
                ) && r == PreparedDecision::MissingRun(prepared)
                &&& owned && !poisoned && p.late_execution is None && run is Some
                    && p.abort_requested ==> match prepared {
                    Err(f) => final(self).pending@ == map_slot(
                        old(self).pending@,
                        id,
                        |q: PendingAttempt<T>|
                            PendingAttempt {
                                delivery_finished: true,
                                stop: if f.failure.class == WorkflowFailureClass::AmbiguousExecution {
                                    Some(StopDisposition::Failed(f))
                                } else {
                                    q.stop
                                },
                                ..q
                            },
                    ) && r is AbortFailureKept,
                    Ok(w) => final(self).pending@ == map_slot(
                        old(self).pending@,
                        id,
                        |q: PendingAttempt<T>|
                            PendingAttempt {
                                delivery_finished: true,
                                prepare_abort: None,
                                late_execution: Some(w.execution),
                                ..q
                            },
                    ) && r == PreparedDecision::ContainLate {
                        execution: w.execution,
                        outcome: w.outcome,
                    },
                }
                &&& owned && !poisoned && p.late_execution is None && run is Some
                    && !p.abort_requested ==> {
                    let run = run->0;
                    &&& !has_slot(final(self).pending@, id)
                    &&& forall|x: Seq<char>|
                        x != id ==> #[trigger] slot(final(self).pending@, x) == slot(
                            old(self).pending@,
                            x,
                        )
                    &&& (run.state == WorkflowRunState::Cancelling || p.stop is Some) ==> (r matches PreparedDecision::FinishStop(d)
                        && finish_decided(old(self).active@, delivered(p), prepared, d))
                    &&& !(run.state == WorkflowRunState::Cancelling || p.stop is Some)
                        && !run_expects(*run, *key) ==> match prepared {
                        Ok(w) => r == PreparedDecision::ContainStale(w),
                        Err(_) => r is StaleFailure,
                    }
                    &&& !(run.state == WorkflowRunState::Cancelling || p.stop is Some)
                        && run_expects(*run, *key) ==> match prepared {
                        Ok(w) => r matches PreparedDecision::Activate(d) && bind_decided(
                            old(self).active@,
                            w,
                            p.deadline_unix_ms,
                            d,
                        ),
                        Err(f) => r == PreparedDecision::<O>::CommitFailure(f),
                    }
                }
            }),
    {
        let i = match find_slot(&self.pending, &key.attempt_id) {
            Some(i) => i,
            None => return PreparedDecision::Dropped(prepared),
        };
        proof {
            lemma_slot_at(self.pending@, i as int);
        }
        if !same_owner(&self.pending[i].1.owner, owner) || !same_key(&self.pending[i].1.key, key) {
            return PreparedDecision::Dropped(prepared);
        }
        if poisoned {
            return PreparedDecision::Dropped(prepared);
        }
        let ghost before = self.pending@;
        let late = self.pending[i].1.late_execution.is_some();
        let abort_requested = self.pending[i].1.abort_requested;
        if late || run.is_none() || abort_requested {
            let ghost f = |q: PendingAttempt<T>| delivered(q);
            let (slot_id, mut p) = self.pending.remove(i);
            p.delivery_finished = true;
            if late || run.is_none() {
                self.pending.insert(i, (slot_id, p));
                proof {
                    assert(self.pending@ =~= before.update(i as int, (before[i as int].0, f(before[i as int].1))));
                    lemma_map_slot_is_update(before, i as int, f);
                    lemma_update_keeps_unique(before, i as int, (before[i as int].0, f(before[i as int].1)));
                }
                if late {
                    return PreparedDecision::Dropped(prepared);
                }
                return PreparedDecision::MissingRun(prepared);
            }
            match prepared {
                Err(failure) => {
                    let ghost g = |q: PendingAttempt<T>|
                        PendingAttempt {
                            delivery_finished: true,
                            stop: if failure.failure.class == WorkflowFailureClass::AmbiguousExecution {
                                Some(StopDisposition::Failed(failure))
                            } else {
                                q.stop
                            },
                            ..q
                        };
                    if failure.failure.class == WorkflowFailureClass::AmbiguousExecution {
                        p.stop = Some(StopDisposition::Failed(failure));
                    }
                    self.pending.insert(i, (slot_id, p));
                    proof {
                        assert(self.pending@ =~= before.update(i as int, (before[i as int].0, g(before[i as int].1))));
                        lemma_map_slot_is_update(before, i as int, g);
                        lemma_update_keeps_unique(before, i as int, (before[i as int].0, g(before[i as int].1)));
                    }
                    return PreparedDecision::AbortFailureKept;
                },
                Ok(worker) => {
                    let ghost g = |q: PendingAttempt<T>|
                        PendingAttempt {
                            delivery_finished: true,
                            prepare_abort: None,
                            late_execution: Some(worker.execution),
                            ..q
                        };
                    p.prepare_abort = None;
                    let execution = worker.execution;
                    p.late_execution = Some(execution.clone());
                    self.pending.insert(i, (slot_id, p));
                    proof {
                        assert(self.pending@ =~= before.update(i as int, (before[i as int].0, g(before[i as int].1))));
                        lemma_map_slot_is_update(before, i as int, g);
                        lemma_update_keeps_unique(before, i as int, (before[i as int].0, g(before[i as int].1)));
                    }
                    return PreparedDecision::ContainLate { execution, outcome: worker.outcome };
                },
            }
        }
        let run = run.unwrap();
        let (_slot_id, mut p) = self.pending.remove(i);
        p.delivery_finished = true;
        proof {
            lemma_remove_keeps_unique(before, i as int);
        }
        if run.state == WorkflowRunState::Cancelling || p.stop.is_some() {
            return PreparedDecision::FinishStop(self.finish_preparation_stop(prepared, &p));
        }
        let expected = run.state == WorkflowRunState::Running && match find_attempt(
            run,
            &key.attempt_id,
        ) {
            None => false,
            Some(j) => same_text(&run.attempts[j].node_id, &key.node_id) && run.attempts[j].state
                == WorkflowAttemptState::Dispatching,
        };
        proof {
            if expected {
                let j = choose|j: int|
                    attempt_index_of(*run, key.attempt_id@, j) && run.attempts@[j].node_id@
                        == key.node_id@ && run.attempts@[j].state == WorkflowAttemptState::Dispatching;
                assert(run.attempts@[j].id@ == key.attempt_id@);
            }
            if run_expects(*run, *key) {
                let j = choose|j: int|
                    attempt_index_of(*run, key.attempt_id@, j) && run.attempts@[j].node_id@
                        == key.node_id@ && run.attempts@[j].state == WorkflowAttemptState::Dispatching;
                assert(run.attempts@[j].id@ == key.attempt_id@);
            }
        }
        if !expected {
            return match prepared {
                Ok(worker) => PreparedDecision::ContainStale(worker),
                Err(_) => PreparedDecision::StaleFailure,
            };
        }
        match prepared {
            Err(failure) => PreparedDecision::CommitFailure(failure),
            Ok(worker) => PreparedDecision::Activate(self.bind_prepared(worker, p.deadline_unix_ms)),
        }
    }
}

} // verus!

verus! {

/// The custody record of a worker bound and being activated.
pub open spec fn activating_record<T, O>(
    owner: WorkflowOwner,
    key: AttemptKey,
    worker: WorkflowPreparedWorker<O>,
    deadline_unix_ms: u64,
) -> ActiveAttempt<T, O> {
    ActiveAttempt {
        owner,
        key,
        execution: worker.execution,
        outcome: Some(worker.outcome),
        outcome_waiter: None,
        shutdown_waiter: None,
        deadline_unix_ms,
        shutdown_after_unix_ms: None,
        phase: ActiveAttemptPhase::Activating,
        stop: None,
    }
}

/// The custody record of a worker bound only to be stopped.
pub open spec fn stopping_record<T, O>(
    owner: WorkflowOwner,
    key: AttemptKey,
    worker: WorkflowPreparedWorker<O>,
    deadline_unix_ms: u64,
    stop: StopDisposition,
    now: u64,
    grace_ms: u64,
) -> ActiveAttempt<T, O> {
    ActiveAttempt {
        owner,
        key,
        execution: worker.execution,
        outcome: Some(worker.outcome),
        outcome_waiter: None,
        shutdown_waiter: None,
        deadline_unix_ms,
        shutdown_after_unix_ms: Some(saturating_sum(now, grace_ms)),
        phase: ActiveAttemptPhase::Interrupting,
        stop: Some(stop),
    }
}

/// The custody after `a` is kept under `id`, replacing any record kept there.
pub open spec fn put_done<A>(before: Seq<(String, A)>, after: Seq<(String, A)>, id: Seq<char>, a: A) -> bool {
    &&& unique_slots(after)
    &&& slot(after, id) == Some(a)
    &&& forall|x: Seq<char>| x != id ==> #[trigger] slot(after, x) == slot(before, x)
}

impl<T, O> WorkflowScheduler<T, O> {
    /// Keeps a bound worker under `id`, replacing a record kept there.
    pub fn put_active(&mut self, id: String, attempt: ActiveAttempt<T, O>)
        requires
            old(self).wf(),
        ensures
            final(self).wf(),
            final(self).pending == old(self).pending,
            put_done(old(self).active@, final(self).active@, id@, attempt),
    {
        let ghost before = self.active@;
        match find_slot(&self.active, &id) {
            Some(i) => {
                proof {
                    lemma_slot_at(before, i as int);
                }
                let _replaced = self.active.remove(i);
                self.active.insert(i, (id, attempt));
                proof {
                    let e = (id, attempt);
                    assert(self.active@ =~= before.update(i as int, e));
                    lemma_update_keeps_unique(before, i as int, e);
                    lemma_slot_at(self.active@, i as int);
                    assert forall|x: Seq<char>| x != id@ implies #[trigger] slot(self.active@, x)
                        == slot(before, x) by {
                        if crate::slots::has_slot(before, x) {
                            let j = crate::slots::slot_index(before, x);
                            assert(j != i);
                            assert(self.active@[j] == before[j]);
                            lemma_slot_at(self.active@, j);
                            lemma_slot_at(before, j);
                        }
                        if crate::slots::has_slot(self.active@, x) {
                            let j = crate::slots::slot_index(self.active@, x);
                            assert(j != i);
                            assert(self.active@[j] == before[j]);
                        }
                    }
                }
            },
            None => {
                proof {
                    lemma_push_keeps_unique(before, (id, attempt));
                }
                self.active.push((id, attempt));
                proof {
                    assert forall|x: Seq<char>| x != id@ implies #[trigger] slot(self.active@, x)
                        == slot(before, x) by {
                        if crate::slots::has_slot(before, x) {
                            let j = crate::slots::slot_index(before, x);
                            assert(self.active@[j] == before[j]);
                            lemma_slot_at(self.active@, j);
                            lemma_slot_at(before, j);
                        }
                        if crate::slots::has_slot(self.active@, x) {
                            let j = crate::slots::slot_index(self.active@, x);
                            assert(j < before.len());
                            assert(self.active@[j] == before[j]);
                        }
                    }
                }
            },
        }
    }

    /// Keeps a pending attempt under `id`, replacing a record kept there.
    pub fn put_pending(&mut self, id: String, attempt: PendingAttempt<T>)
        requires
            old(self).wf(),
        ensures
            final(self).wf(),
            final(self).active == old(self).active,
            put_done(old(self).pending@, final(self).pending@, id@, attempt),
    {
        let ghost before = self.pending@;
        match find_slot(&self.pending, &id) {
            Some(i) => {
                proof {
                    lemma_slot_at(before, i as int);
                }
                let _replaced = self.pending.remove(i);
                self.pending.insert(i, (id, attempt));
                proof {
                    let e = (id, attempt);
                    assert(self.pending@ =~= before.update(i as int, e));
                    lemma_update_keeps_unique(before, i as int, e);
                    lemma_slot_at(self.pending@, i as int);
                    assert forall|x: Seq<char>| x != id@ implies #[trigger] slot(self.pending@, x)
                        == slot(before, x) by {
                        if crate::slots::has_slot(before, x) {
                            let j = crate::slots::slot_index(before, x);
                            assert(j != i);
                            assert(self.pending@[j] == before[j]);
                            lemma_slot_at(self.pending@, j);
                            lemma_slot_at(before, j);
                        }
                        if crate::slots::has_slot(self.pending@, x) {
                            let j = crate::slots::slot_index(self.pending@, x);
                            assert(j != i);
                            assert(self.pending@[j] == before[j]);
                        }
                    }
                }
            },
            None => {
                proof {
                    lemma_push_keeps_unique(before, (id, attempt));
                }
                self.pending.push((id, attempt));
                proof {
                    assert forall|x: Seq<char>| x != id@ implies #[trigger] slot(self.pending@, x)
                        == slot(before, x) by {
                        if crate::slots::has_slot(before, x) {
                            let j = crate::slots::slot_index(before, x);
                            assert(self.pending@[j] == before[j]);
                            lemma_slot_at(self.pending@, j);
                            lemma_slot_at(before, j);
                        }
                        if crate::slots::has_slot(self.pending@, x) {
                            let j = crate::slots::slot_index(self.pending@, x);
                            assert(j < before.len());
                            assert(self.pending@[j] == before[j]);
                        }
                    }
                }
            },
        }
    }

    /// After `AttemptBound` was journaled: the worker is kept as activating.
    pub fn bind_activating(
        &mut self,
        owner: &WorkflowOwner,
        key: &AttemptKey,
        worker: WorkflowPreparedWorker<O>,
        deadline_unix_ms: u64,
    )
        requires
            old(self).wf(),
        ensures
            final(self).wf(),
            final(self).pending == old(self).pending,
            put_done(
                old(self).active@,
                final(self).active@,
                key.attempt_id@,
                activating_record(*owner, *key, worker, deadline_unix_ms),
            ),
            slot(final(self).active@, key.attempt_id@) matches Some(a) && crate::scheduler::active_matches(
                a,
                *owner,
                *key,
                worker.execution,
            ) && a.phase == ActiveAttemptPhase::Activating && a.stop is None && a.deadline_unix_ms
                == deadline_unix_ms,
    {
        let attempt = ActiveAttempt {
            owner: owner.clone(),
            key: key.clone(),
            execution: worker.execution,
            outcome: Some(worker.outcome),
            outcome_waiter: None,
            shutdown_waiter: None,
            deadline_unix_ms,
            shutdown_after_unix_ms: None,
            phase: ActiveAttemptPhase::Activating,
            stop: None,
        };
        self.put_active(key.attempt_id.clone(), attempt);
        proof {
            crate::laws::law_bound_worker_awaits_activation::<T, O>(*owner, *key, worker, deadline_unix_ms);
        }
    }

    /// After `AttemptBound` was journaled for a stopped preparation: the
    /// worker is kept as interrupting with its stop and a shutdown deadline
    /// of the grace period after `now`, and is to be interrupted.
    pub fn bind_stopping(
        &mut self,
        owner: &WorkflowOwner,
        key: &AttemptKey,
        worker: WorkflowPreparedWorker<O>,
        deadline_unix_ms: u64,
        stop: StopDisposition,
        now: u64,
        grace_ms: u64,
    ) -> (r: InterruptStart)
        requires
            old(self).wf(),
        ensures
            final(self).wf(),
            final(self).pending == old(self).pending,
            put_done(
                old(self).active@,
                final(self).active@,
                key.attempt_id@,
                stopping_record(*owner, *key, worker, deadline_unix_ms, stop, now, grace_ms),
            ),
            r.owner == *owner && r.key == *key && r.execution == worker.execution,
    {
        let execution = worker.execution;
        let start = InterruptStart {
            owner: owner.clone(),
            key: key.clone(),
            execution: execution.clone(),
        };
        let attempt = ActiveAttempt {
            owner: owner.clone(),
            key: key.clone(),
            execution,
            outcome: Some(worker.outcome),
            outcome_waiter: None,
            shutdown_waiter: None,
            deadline_unix_ms,
            shutdown_after_unix_ms: Some(now.saturating_add(grace_ms)),
            phase: ActiveAttemptPhase::Interrupting,
            stop: Some(stop),
        };
        self.put_active(key.attempt_id.clone(), attempt);
        start
    }

    /// An activation report arrived. Only the exact activating worker counts:
    /// success makes it run; a stop before running is journaled as its
    /// failure; an uncertain activation is an ambiguous failure that stops it.
    pub fn activated(
        &self,
        owner: &WorkflowOwner,
        key: &AttemptKey,
        execution: &AgentExecutionRef,
        result: Result<(), WorkflowActivationFailure>,
    ) -> (r: ActivationDecision)
        requires
            self.wf(),
        ensures
            ({
                let s = self.active_slot(key.attempt_id@);
                let current = s is Some && crate::scheduler::active_matches(
                    s->0,
                    *owner,
                    *key,
                    *execution,
                ) && s->0.phase == ActiveAttemptPhase::Activating;
                &&& !current ==> r is Ignored
                &&& current ==> match result {
                    Ok(()) => r is MarkRunning,
                    Err(WorkflowActivationFailure::Stopped(f)) => r
                        == ActivationDecision::CommitFailure(f),
                    Err(WorkflowActivationFailure::Uncertain(f)) => r matches ActivationDecision::FailureStop(
                        g,
                        reason,
                    ) && g.completion.status@ == "activation_uncertain"@ && g.completion.result is None
                        && g.failure.class == WorkflowFailureClass::AmbiguousExecution
                        && g.failure.reason == f.reason && reason@
                        == "workflow worker activation was uncertain"@,
                }
            }),
    {
        if !self.matches_active(owner, key, execution, Some(ActiveAttemptPhase::Activating)) {
            return ActivationDecision::Ignored;
        }
        match result {
            Ok(()) => ActivationDecision::MarkRunning,
            Err(WorkflowActivationFailure::Stopped(failure)) => ActivationDecision::CommitFailure(
                failure,
            ),
            Err(WorkflowActivationFailure::Uncertain(mut failure)) => {
                failure.class = WorkflowFailureClass::AmbiguousExecution;
                proof {
                    reveal_strlit("workflow worker activation was uncertain");
                }
                ActivationDecision::FailureStop(
                    WorkflowSpawnFailure {
                        completion: AgentCompletion::new("activation_uncertain", None),
                        failure,
                    },
                    short_reason("workflow worker activation was uncertain"),
                )
            },
        }
    }

    /// A worker's outcome arrived. It is journaled only for the exact
    /// worker while it runs; a stopping worker's cleanup decides instead.
    pub fn outcome_counts(
        &self,
        owner: &WorkflowOwner,
        key: &AttemptKey,
        execution: &AgentExecutionRef,
    ) -> (r: bool)
        requires
            self.wf(),
        ensures
            r == (self.active_slot(key.attempt_id@) is Some && crate::scheduler::active_matches(
                self.active_slot(key.attempt_id@)->0,
                *owner,
                *key,
                *execution,
            ) && self.active_slot(key.attempt_id@)->0.phase == ActiveAttemptPhase::Running),
    {
        self.matches_active(owner, key, execution, Some(ActiveAttemptPhase::Running))
    }

    /// A running worker's outcome channel closed: the exact running worker
    /// is to be stopped with an ambiguous failure.
    pub fn outcome_lost(
        &self,
        owner: &WorkflowOwner,
        key: &AttemptKey,
        execution: &AgentExecutionRef,
    ) -> (r: Option<(WorkflowSpawnFailure, String)>)
        requires
            self.wf(),
        ensures
            ({
                let s = self.active_slot(key.attempt_id@);
                let current = s is Some && crate::scheduler::active_matches(
                    s->0,
                    *owner,
                    *key,
                    *execution,
                ) && s->0.phase == ActiveAttemptPhase::Running;
                &&& !current ==> r is None
                &&& current ==> (r matches Some((f, reason)) && failure_is(
                    f,
                    "worker_outcome_lost"@,
                    WorkflowFailureClass::AmbiguousExecution,
                    "workflow worker outcome channel closed"@,
                ) && reason@ == "workflow worker outcome channel closed"@)
            }),
    {
        if !self.matches_active(owner, key, execution, Some(ActiveAttemptPhase::Running)) {
            return None;
        }
        proof {
            reveal_strlit("workflow worker outcome channel closed");
        }
        Some((lost_outcome_failure(), short_reason("workflow worker outcome channel closed")))
    }

    /// Keeps the task that aborts an attempt's preparation, if the attempt
    /// is still pending; otherwise the task is dropped.
    pub fn install_abort_waiter(&mut self, id: &String, waiter: T)
        requires
            old(self).wf(),
        ensures
            final(self).wf(),
            final(self).active == old(self).active,
            !has_slot(old(self).pending@, id@) ==> final(self).pending == old(self).pending,
            has_slot(old(self).pending@, id@) ==> final(self).pending@ == map_slot(
                old(self).pending@,
                id@,
                |p: PendingAttempt<T>| PendingAttempt { abort_waiter: Some(waiter), ..p },
            ),
    {
        let i = match find_slot(&self.pending, id) {
            Some(i) => i,
            None => return,
        };
        proof {
            lemma_slot_at(self.pending@, i as int);
        }
        let ghost before = self.pending@;
        let ghost f = |p: PendingAttempt<T>| PendingAttempt { abort_waiter: Some(waiter), ..p };
        let (slot_id, mut p) = self.pending.remove(i);
        p.abort_waiter = Some(waiter);
        self.pending.insert(i, (slot_id, p));
        proof {
            assert(self.pending@ =~= before.update(i as int, (before[i as int].0, f(before[i as int].1))));
            lemma_map_slot_is_update(before, i as int, f);
            lemma_update_keeps_unique(before, i as int, (before[i as int].0, f(before[i as int].1)));
        }
    }

    /// Keeps the preparation task of a pending attempt, if it is still
    /// pending; otherwise the task is dropped.
    pub fn install_prepare_task(&mut self, id: &String, task: T)
        requires
            old(self).wf(),
        ensures
            final(self).wf(),
            final(self).active == old(self).active,
            !has_slot(old(self).pending@, id@) ==> final(self).pending == old(self).pending,
            has_slot(old(self).pending@, id@) ==> final(self).pending@ == map_slot(
                old(self).pending@,
                id@,
                |p: PendingAttempt<T>| PendingAttempt { prepare_abort: Some(task), ..p },
            ),
    {
        let i = match find_slot(&self.pending, id) {
            Some(i) => i,
            None => return,
        };
        proof {
            lemma_slot_at(self.pending@, i as int);
        }
        let ghost before = self.pending@;
        let ghost f = |p: PendingAttempt<T>| PendingAttempt { prepare_abort: Some(task), ..p };
        let (slot_id, mut p) = self.pending.remove(i);
        p.prepare_abort = Some(task);
        self.pending.insert(i, (slot_id, p));
        proof {
            assert(self.pending@ =~= before.update(i as int, (before[i as int].0, f(before[i as int].1))));
            lemma_map_slot_is_update(before, i as int, f);
            lemma_update_keeps_unique(before, i as int, (before[i as int].0, f(before[i as int].1)));
        }
    }

    /// Keeps the supervisor of a late worker's shutdown. The tombstone of the
    /// attempt must still be pending.
    pub fn install_late_shutdown_waiter(&mut self, id: &String, waiter: T)
        requires
            old(self).wf(),
            has_slot(old(self).pending@, id@),
        ensures
            final(self).wf(),
            final(self).active == old(self).active,
            final(self).pending@ == map_slot(
                old(self).pending@,
                id@,
                |p: PendingAttempt<T>| PendingAttempt { late_shutdown_waiter: Some(waiter), ..p },
            ),
    {
        let i = find_slot(&self.pending, id).unwrap();
        proof {
            lemma_slot_at(self.pending@, i as int);
        }
        let ghost before = self.pending@;
        let ghost f = |p: PendingAttempt<T>| PendingAttempt { late_shutdown_waiter: Some(waiter), ..p };
        let (slot_id, mut p) = self.pending.remove(i);
        p.late_shutdown_waiter = Some(waiter);
        self.pending.insert(i, (slot_id, p));
        proof {
            assert(self.pending@ =~= before.update(i as int, (before[i as int].0, f(before[i as int].1))));
            lemma_map_slot_is_update(before, i as int, f);
            lemma_update_keeps_unique(before, i as int, (before[i as int].0, f(before[i as int].1)));
        }
    }
}

} // verus!
