use vstd::prelude::*;

use crate::failure::{
    bounded_as, boundable, StopDisposition, WorkflowCleanupStatus, WorkflowSpawnFailure,
    MAX_REASON_BYTES,
};
use crate::callbacks::{activating_record, WorkflowPreparedWorker};
use crate::deadline::{active_due, active_identity, active_of_run, active_stop_view};
use crate::failure::{failure_is, WorkflowFailureClass};
use crate::identity::{byte_len, AgentExecutionRef, AttemptKey, WorkflowOwner};
use crate::dispatch::{first_n, ready_ids};
use crate::run::{
    live_attempts, run_expired_at, WorkflowAttemptSnapshot, WorkflowAttemptState, WorkflowRunSnapshot,
};
use crate::scheduler::{
    abort_acknowledged, abort_marked, abortable, lemma_map_entries_keeps_slots, lemma_map_slot_compose,
    lemma_map_slot_is_update, map_entries, map_slot, pending_owned, settle_ready, timeout_marked,
    ActiveAttempt, ActiveAttemptPhase, PendingAttempt,
};
use crate::slots::{
    has_slot, lemma_slot_at, lemma_update_keeps_unique, selected_from, slot, slot_index, unique_slots,
};
use crate::stop::{escalated, escalation_due, escalation_targets, other_owners, owned_by, stopped_record};

verus! {

/// The record kept under `id` after `map_slot` is `f` of the record before.
proof fn lemma_slot_after_map<A>(s: Seq<(String, A)>, id: Seq<char>, f: spec_fn(A) -> A)
    requires
        unique_slots(s),
        has_slot(s, id),
    ensures
        unique_slots(map_slot(s, id, f)),
        slot(map_slot(s, id, f), id) == Some(f(slot(s, id)->0)),
{
    let i = slot_index(s, id);
    lemma_slot_at(s, i);
    lemma_map_slot_is_update(s, i, f);
    let e = (s[i].0, f(s[i].1));
    lemma_update_keeps_unique(s, i, e);
    lemma_slot_at(s.update(i, e), i);
}

/// The abort of a preparation is requested at most once: once
/// `request_attempt_abort` marked the attempt, the attempt stays in custody
/// and a second request for it is refused.
pub proof fn law_abort_requested_once<T>(
    pending: Seq<(String, PendingAttempt<T>)>,
    owner: WorkflowOwner,
    key: AttemptKey,
)
    requires
        unique_slots(pending),
        abortable(pending, owner, key),
    ensures
        ({
            let after = map_slot(pending, key.attempt_id@, |p: PendingAttempt<T>| abort_marked(p));
            pending_owned(after, owner, key) && !abortable(after, owner, key)
        }),
{
    lemma_slot_after_map(pending, key.attempt_id@, |p: PendingAttempt<T>| abort_marked(p));
}

/// A preparation that timed out delivers nothing more, has a stop decided
/// and has its abort requested, so no later abort request for it starts a
/// second abort; a stop decided before the timeout is kept.
pub proof fn law_timeout_closes_preparation<T>(
    pending: Seq<(String, PendingAttempt<T>)>,
    owner: WorkflowOwner,
    key: AttemptKey,
    failure: WorkflowSpawnFailure,
)
    requires
        unique_slots(pending),
        pending_owned(pending, owner, key),
    ensures
        ({
            let id = key.attempt_id@;
            let before = slot(pending, id)->0;
            let after = if before.abort_requested {
                map_slot(pending, id, |p: PendingAttempt<T>| timeout_marked(p, failure))
            } else {
                map_slot(pending, id, |p: PendingAttempt<T>| abort_marked(timeout_marked(p, failure)))
            };
            &&& pending_owned(after, owner, key)
            &&& !abortable(after, owner, key)
            &&& slot(after, id)->0.delivery_finished
            &&& slot(after, id)->0.stop == (if before.stop is None {
                Some(StopDisposition::Failed(failure))
            } else {
                before.stop
            })
        }),
{
    let id = key.attempt_id@;
    let f = |p: PendingAttempt<T>| timeout_marked(p, failure);
    let g = |p: PendingAttempt<T>| abort_marked(timeout_marked(p, failure));
    lemma_slot_after_map(pending, id, f);
    lemma_slot_after_map(pending, id, g);
}

/// An abort that was requested and then acknowledged, for a tombstone with
/// no late worker whose delivery is over (or whose unfinished preparation
/// was joined), is ready to settle with the acknowledged status: the
/// acknowledgement that reports `true` is followed by a settlement that
/// releases the tombstone.
pub proof fn law_acknowledged_abort_is_ready<T>(
    pending: Seq<(String, PendingAttempt<T>)>,
    owner: WorkflowOwner,
    key: AttemptKey,
    status: WorkflowCleanupStatus,
    preparation_finished: bool,
)
    requires
        unique_slots(pending),
        pending_owned(pending, owner, key),
        slot(pending, key.attempt_id@)->0.abort_requested,
        slot(pending, key.attempt_id@)->0.late_execution is None,
        slot(pending, key.attempt_id@)->0.delivery_finished || !preparation_finished,
    ensures
        ({
            let after = map_slot(
                pending,
                key.attempt_id@,
                |p: PendingAttempt<T>| abort_acknowledged(p, status, preparation_finished),
            );
            &&& pending_owned(after, owner, key)
            &&& settle_ready(slot(after, key.attempt_id@)->0)
            &&& slot(after, key.attempt_id@)->0.abort_status == Some(status)
        }),
{
    lemma_slot_after_map(
        pending,
        key.attempt_id@,
        |p: PendingAttempt<T>| abort_acknowledged(p, status, preparation_finished),
    );
}

/// A tombstone is released at most once: once its id has left custody,
/// every later callback for it is stale, so a second settlement is ignored
/// and a second containment report hands nothing back.
pub proof fn law_released_tombstone_is_stale<T>(
    pending: Seq<(String, PendingAttempt<T>)>,
    owner: WorkflowOwner,
    key: AttemptKey,
)
    requires
        !has_slot(pending, key.attempt_id@),
    ensures
        !pending_owned(pending, owner, key),
        !abortable(pending, owner, key),
{
}

proof fn lemma_escalated_not_due<T, O>(a: ActiveAttempt<T, O>, now: u64)
    ensures
        !escalation_due(escalated(a, now), now),
        escalated(escalated(a, now), now) == escalated(a, now),
{
}

proof fn lemma_escalation_none_left<T, O>(s: Seq<(String, ActiveAttempt<T, O>)>, now: u64)
    ensures
        escalation_targets(map_entries(s, |a: ActiveAttempt<T, O>| escalated(a, now)), now).len()
            == 0,
    decreases s.len(),
{
    let f = |a: ActiveAttempt<T, O>| escalated(a, now);
    let t = map_entries(s, f);
    if s.len() > 0 {
        assert(t.drop_last() =~= map_entries(s.drop_last(), f));
        lemma_escalation_none_left(s.drop_last(), now);
        lemma_escalated_not_due(s.last().1, now);
        assert(t.last().1 == f(s.last().1));
    }
}

/// Escalation at one instant is idempotent: after `escalate(now)` no
/// worker is due for a shutdown at `now`, so a second `escalate(now)`
/// starts no shutdown and changes nothing.
pub proof fn law_escalation_idempotent<T, O>(active: Seq<(String, ActiveAttempt<T, O>)>, now: u64)
    ensures
        ({
            let once = map_entries(active, |a: ActiveAttempt<T, O>| escalated(a, now));
            &&& escalation_targets(once, now).len() == 0
            &&& map_entries(once, |a: ActiveAttempt<T, O>| escalated(a, now)) == once
        }),
{
    let f = |a: ActiveAttempt<T, O>| escalated(a, now);
    let once = map_entries(active, f);
    lemma_escalation_none_left(active, now);
    assert forall|k: int| 0 <= k < once.len() implies #[trigger] map_entries(once, f)[k] == once[k] by {
        lemma_escalated_not_due(active[k].1, now);
    }
    assert(map_entries(once, f) =~= once);
}

/// A quarantined owner keeps no bound worker: every worker left in custody
/// belongs to another owner, so quarantining it again releases nothing.
pub proof fn law_quarantine_leaves_no_worker<T, O>(
    active: Seq<(String, ActiveAttempt<T, O>)>,
    owner: WorkflowOwner,
)
    ensures
        forall|k: int|
            0 <= k < other_owners(active, owner).len() ==> (#[trigger] other_owners(
                active,
                owner,
            )[k]).1.owner@ != owner@,
        owned_by(other_owners(active, owner), owner).len() == 0,
        other_owners(other_owners(active, owner), owner) == other_owners(active, owner),
    decreases active.len(),
{
    if active.len() > 0 {
        let p = active.drop_last();
        law_quarantine_leaves_no_worker(p, owner);
        let rest = other_owners(p, owner);
        if active.last().1.owner@ != owner@ {
            let t = rest.push(active.last());
            assert(t.drop_last() =~= rest);
            assert forall|k: int| 0 <= k < t.len() implies (#[trigger] t[k]).1.owner@ != owner@ by {
                if k < rest.len() {
                    assert(t[k] == rest[k]);
                }
            }
        }
    }
}

/// Once a run has expired it stays expired: expiry is monotone in time.
pub proof fn law_run_expiry_monotone(run: WorkflowRunSnapshot, earlier: u64, later: u64)
    requires
        earlier <= later,
        run_expired_at(run, earlier),
    ensures
        run_expired_at(run, later),
{
}

/// A bounded reason fits the bound, and bounding it again keeps it as it is.
pub proof fn law_bound_reason_idempotent(reason: Seq<char>, bounded: Seq<char>)
    requires
        bounded_as(reason, bounded),
    ensures
        byte_len(bounded) <= MAX_REASON_BYTES,
        boundable(bounded),
        bounded_as(bounded, bounded),
{
    if byte_len(reason) > MAX_REASON_BYTES {
        assert(vstd::utf8::encode_utf8(bounded).len() == MAX_REASON_BYTES);
    }
}

/// Scheduling never exceeds a run's parallelism: the live attempts and the
/// ready nodes picked for the free slots together stay within
/// `max_parallel`, and every picked node is ready.
pub proof fn law_dispatch_respects_parallelism(run: WorkflowRunSnapshot)
    requires
        live_attempts(run.attempts@) <= run.spec.limits.max_parallel,
    ensures
        ({
            let slots = (run.spec.limits.max_parallel - live_attempts(run.attempts@)) as nat;
            let picked = first_n(ready_ids(run.nodes@), slots);
            &&& live_attempts(run.attempts@) + picked.len() <= run.spec.limits.max_parallel
            &&& picked.len() <= ready_ids(run.nodes@).len()
            &&& picked == ready_ids(run.nodes@).take(picked.len() as int)
        }),
{
    let slots = (run.spec.limits.max_parallel - live_attempts(run.attempts@)) as nat;
    let all = ready_ids(run.nodes@);
    if all.len() <= slots {
        assert(all.take(all.len() as int) =~= all);
    }
}

/// Whether an attempt has not yet reached a terminal state: it is neither
/// succeeded, failed nor cancelled.
pub open spec fn unresolved(a: WorkflowAttemptSnapshot) -> bool {
    !(a.state == WorkflowAttemptState::Succeeded || a.state == WorkflowAttemptState::Failed
        || a.state == WorkflowAttemptState::Cancelled)
}

/// Every attempt that is not terminal counts against the run's
/// parallelism, whatever its state: the live count is the number of
/// attempts that are neither succeeded, failed nor cancelled.
pub proof fn law_live_attempts_are_unresolved(attempts: Seq<WorkflowAttemptSnapshot>)
    ensures
        live_attempts(attempts) == attempts.filter(|a: WorkflowAttemptSnapshot| unresolved(a)).len(),
    decreases attempts.len(),
{
    reveal(Seq::filter);
    if attempts.len() > 0 {
        law_live_attempts_are_unresolved(attempts.drop_last());
    }
}

/// An entry that the attempt-timeout scan reports names a bound worker of
/// custody without a decided stop whose deadline has passed, and its flag
/// says whether that worker entered running: it is set exactly when the
/// worker's phase is `Running`.
pub proof fn law_timeout_scan_reports_running<T, O>(
    active: Seq<(String, ActiveAttempt<T, O>)>,
    now: u64,
    e: (String, (WorkflowOwner, AttemptKey, AgentExecutionRef, bool)),
)
    requires
        unique_slots(active),
        selected_from(active, active_due::<T, O>(now), active_identity::<T, O>(), e),
    ensures
        slot(active, e.0@) is Some,
        ({
            let a = slot(active, e.0@)->0;
            &&& a.stop is None
            &&& now >= a.deadline_unix_ms
            &&& e.1.0 == a.owner && e.1.1 == a.key && e.1.2 == a.execution
            &&& e.1.3 == (a.phase == ActiveAttemptPhase::Running)
        }),
{
    let j = choose|j: int|
        0 <= j < active.len() && active_due::<T, O>(now)(#[trigger] active[j].1) && e == (
            active[j].0,
            active_identity::<T, O>()(active[j].1),
        );
    lemma_slot_at(active, j);
}

/// An entry that the run-deadline sweep reports names a bound worker of the
/// owner's run, and its flag says whether that worker already has a
/// decided stop: it is set exactly when the worker's stop is decided.
pub proof fn law_run_sweep_reports_decided_stops<T, O>(
    active: Seq<(String, ActiveAttempt<T, O>)>,
    owner: WorkflowOwner,
    run_id: Seq<char>,
    e: (String, (AttemptKey, AgentExecutionRef, bool)),
)
    requires
        unique_slots(active),
        selected_from(active, active_of_run::<T, O>(owner, run_id), active_stop_view::<T, O>(), e),
    ensures
        slot(active, e.0@) is Some,
        ({
            let a = slot(active, e.0@)->0;
            &&& a.owner@ == owner@ && a.key.run_id@ == run_id
            &&& e.1.0 == a.key && e.1.1 == a.execution
            &&& e.1.2 == (a.stop is Some)
        }),
{
    let j = choose|j: int|
        0 <= j < active.len() && active_of_run::<T, O>(owner, run_id)(#[trigger] active[j].1) && e == (
            active[j].0,
            active_stop_view::<T, O>()(active[j].1),
        );
    lemma_slot_at(active, j);
}

/// A cleanup that timed out is recorded as an ambiguous cleanup-timeout
/// failure, whatever stop was decided for the worker before.
pub proof fn law_timed_out_cleanup_overrides_decided_stop<T, O>(
    a: ActiveAttempt<T, O>,
    r: StopDisposition,
)
    requires
        stopped_record(a, WorkflowCleanupStatus::TimedOut, r),
    ensures
        r matches StopDisposition::Failed(f) && failure_is(
            f,
            "workflow_cleanup_timeout"@,
            WorkflowFailureClass::AmbiguousExecution,
            "workflow worker shutdown timed out"@,
        ),
{
}

/// A worker just bound from a successful preparation waits for its
/// activation: it is kept under its attempt id, for exactly this owner, key
/// and execution, in phase `Activating` with no stop, so the activation
/// report that follows is the current one and is not ignored.
pub proof fn law_bound_worker_awaits_activation<T, O>(
    owner: WorkflowOwner,
    key: AttemptKey,
    worker: WorkflowPreparedWorker<O>,
    deadline_unix_ms: u64,
)
    ensures
        ({
            let a = activating_record::<T, O>(owner, key, worker, deadline_unix_ms);
            &&& crate::scheduler::active_matches(a, owner, key, worker.execution)
            &&& a.phase == ActiveAttemptPhase::Activating
            &&& a.stop is None
            &&& a.deadline_unix_ms == deadline_unix_ms
        }),
{
}

} // verus!
