//! What the worker state machine does for workers: none is lost, each is served in its turn, and
//! everything that changes is announced.
use super::machine::{effects_of, may_come, pool_after, Effect, Event, Pool, TaskId, WorkerId};
use super::machine_laws::{
    consistent, knows, law_run_keeps_consistency, law_step_keeps_consistency, may_run, run,
};
use vstd::prelude::*;

verus! {

proof fn lemma_idle_leaves(pool: Pool, worker_id: WorkerId) -> (at: int)
    requires
        consistent(pool),
        pool.idle.contains(worker_id),
    ensures
        0 <= at < pool.idle.len(),
        pool.idle[at] == worker_id,
        pool_after(pool, Event::AssignHeartbeatIfIdle { worker_id }).idle == pool.idle.remove(at),
        !pool.busy.contains_key(worker_id.0),
        forall|i: int| 0 <= i < pool.idle.len() && i != at ==> pool.idle[i] != worker_id,
{
    pool.idle.index_of_first_ensures(worker_id);
    let at = pool.idle.index_of_first(worker_id)->0;
    assert(!pool.busy.contains_key(pool.idle[at].0));
    at
}

/// No event loses a worker: one that is idle or busy still is, unless the event removes it; and
/// one that registers is idle or busy from then on.
pub proof fn law_no_worker_is_lost(pool: Pool, event: Event, worker_id: WorkerId)
    requires
        consistent(pool),
        may_come(pool, event),
        knows(pool, worker_id) || event == (Event::WorkerReady { worker_id }),
    ensures
        knows(pool_after(pool, event), worker_id) || effects_of(pool, event).contains(
            Effect::WorkerRemoved { worker_id },
        ),
{
    let next = pool_after(pool, event);
    match event {
        Event::TaskSubmitted { submission_id } => {
            if pool.idle.contains(worker_id) && pool.idle.len() > 0 {
                let k = choose|k: int| 0 <= k < pool.idle.len() && pool.idle[k] == worker_id;
                if k > 0 {
                    assert(next.idle[k - 1] == worker_id);
                }
            }
        },
        Event::TaskWithdrawn { submission_id } => {},
        Event::WorkerReady { worker_id: new } => {
            if pool.idle.contains(worker_id) {
                let k = choose|k: int| 0 <= k < pool.idle.len() && pool.idle[k] == worker_id;
                assert(next.idle[k] == worker_id);
            } else if new == worker_id && pool.tasks.len() == 0 {
                assert(next.idle[pool.idle.len() as int] == worker_id);
            }
        },
        Event::WorkerResponded { worker_id: w } => {
            if w.0 == worker_id.0 && pool.busy.contains_key(w.0) {
                assert(effects_of(pool, event)[1] == (Effect::WorkerRemoved { worker_id }));
            }
        },
        Event::WorkerTimedOut { worker_id: w } => {
            if w.0 == worker_id.0 && pool.busy.contains_key(w.0) {
                assert(effects_of(pool, event)[0] == (Effect::WorkerRemoved { worker_id }));
            }
        },
        Event::AssignHeartbeatIfIdle { worker_id: w } => {
            if pool.idle.contains(w) {
                let at = lemma_idle_leaves(pool, w);
                if pool.idle.contains(worker_id) && worker_id != w {
                    let k = choose|k: int| 0 <= k < pool.idle.len() && pool.idle[k] == worker_id;
                    assert(next.idle[if k < at {
                        k
                    } else {
                        k - 1
                    }] == worker_id);
                }
            }
        },
    }
}

/// Everything that changes for a worker is announced, and nothing is announced that does not
/// change: a worker is told to wait exactly when it starts to, gets a task exactly when it is
/// busy with it and was not before, and is removed exactly when it was busy and is no longer;
/// one that stays busy keeps its task.
pub proof fn law_what_changes_is_announced(pool: Pool, event: Event, worker_id: WorkerId)
    requires
        consistent(pool),
        may_come(pool, event),
    ensures
        ({
            let next = pool_after(pool, event);
            let effects = effects_of(pool, event);
            let was_busy = pool.busy.contains_key(worker_id.0);
            let is_busy = next.busy.contains_key(worker_id.0);
            &&& effects.contains(Effect::WorkerWaiting { worker_id }) <==> (next.idle.contains(
                worker_id,
            ) && !pool.idle.contains(worker_id))
            &&& forall|task_id: TaskId|
                effects.contains(#[trigger] given(worker_id, task_id)) <==> (is_busy && !was_busy
                    && next.busy[worker_id.0] == task_id)
            &&& effects.contains(Effect::WorkerRemoved { worker_id }) <==> (was_busy && !is_busy)
            &&& was_busy && is_busy ==> next.busy[worker_id.0] == pool.busy[worker_id.0]
            &&& effects.no_duplicates()
        }),
{
    let next = pool_after(pool, event);
    let effects = effects_of(pool, event);
    if pool.idle.contains(worker_id) {
        let k = choose|k: int| 0 <= k < pool.idle.len() && pool.idle[k] == worker_id;
        assert(!pool.busy.contains_key(pool.idle[k].0));
    }
    assert forall|e: Effect| effects.contains(e) implies effects[0] == e || effects[1] == e by {}
    match event {
        Event::TaskSubmitted { submission_id } => {
            if pool.idle.len() > 0 {
                assert(!pool.busy.contains_key(pool.idle[0].0));
                assert(effects[0] == given(pool.idle[0], TaskId::External(submission_id)));
                assert(pool.idle[0].0 == worker_id.0 ==> pool.idle[0] == worker_id);
                if next.idle.contains(worker_id) {
                    let k = choose|k: int| 0 <= k < next.idle.len() && next.idle[k] == worker_id;
                    assert(pool.idle[k + 1] == worker_id);
                }
            }
        },
        Event::TaskWithdrawn { submission_id } => {},
        Event::WorkerReady { worker_id: new } => {
            assert(new.0 == worker_id.0 ==> new == worker_id);
            if pool.tasks.len() > 0 {
                assert(effects[0] == given(new, TaskId::External(pool.tasks[0])));
            } else {
                assert(effects[0] == (Effect::WorkerWaiting { worker_id: new }));
                assert(next.idle[pool.idle.len() as int] == new);
                if next.idle.contains(worker_id) {
                    let k = choose|k: int| 0 <= k < next.idle.len() && next.idle[k] == worker_id;
                    if k < pool.idle.len() {
                        assert(pool.idle[k] == worker_id);
                    }
                }
            }
        },
        Event::WorkerResponded { worker_id: w } => {
            assert(w.0 == worker_id.0 ==> w == worker_id);
            if pool.busy.contains_key(w.0) {
                assert(effects[1] == (Effect::WorkerRemoved { worker_id: w }));
            }
        },
        Event::WorkerTimedOut { worker_id: w } => {
            assert(w.0 == worker_id.0 ==> w == worker_id);
            if pool.busy.contains_key(w.0) {
                assert(effects[0] == (Effect::WorkerRemoved { worker_id: w }));
            }
        },
        Event::AssignHeartbeatIfIdle { worker_id: w } => {
            assert(w.0 == worker_id.0 ==> w == worker_id);
            if pool.idle.contains(w) {
                let at = lemma_idle_leaves(pool, w);
                assert(effects[0] == given(w, TaskId::Heartbeat));
                if next.idle.contains(worker_id) {
                    let k = choose|k: int| 0 <= k < next.idle.len() && next.idle[k] == worker_id;
                    assert(pool.idle[if k < at {
                        k
                    } else {
                        k + 1
                    }] == worker_id);
                }
            }
        },
    }
}

/// The handing of a task to a worker.
pub open spec fn given(worker_id: WorkerId, task_id: TaskId) -> Effect {
    Effect::TaskAssigned { worker_id, task_id }
}

/// A submitter is told of a completion exactly when the worker that had the task answered, and
/// of a failure exactly when that worker took too long.
pub proof fn law_answers_come_from_the_worker(
    pool: Pool,
    event: Event,
    worker_id: WorkerId,
    task_id: TaskId,
)
    requires
        consistent(pool),
        may_come(pool, event),
    ensures
        ({
            let effects = effects_of(pool, event);
            let had = pool.busy.contains_key(worker_id.0) && pool.busy[worker_id.0] == task_id;
            &&& effects.contains(Effect::TaskCompleted { worker_id, task_id }) <==> (had && event
                == (Event::WorkerResponded { worker_id }))
            &&& match task_id {
                TaskId::External(submission_id) => had && event == (Event::WorkerTimedOut {
                    worker_id,
                }) ==> effects.contains(Effect::TaskFailed { submission_id }),
                TaskId::Heartbeat => true,
            }
            &&& forall|i: int|
                0 <= i < effects.len() ==> match #[trigger] effects[i] {
                    Effect::TaskFailed { submission_id } => event matches Event::WorkerTimedOut {
                        worker_id: late,
                    } && pool.busy.contains_key(late.0) && pool.busy[late.0] == TaskId::External(
                        submission_id,
                    ),
                    Effect::TaskCompleted { worker_id: done, task_id: what } => event
                        == (Event::WorkerResponded { worker_id: done }) && pool.busy.contains_key(
                        done.0,
                    ) && pool.busy[done.0] == what,
                    _ => true,
                }
        }),
{
    let effects = effects_of(pool, event);
    assert forall|e: Effect| effects.contains(e) implies effects[0] == e || effects[1] == e by {}
    match event {
        Event::WorkerResponded { worker_id: w } => {
            assert(w.0 == worker_id.0 ==> w == worker_id);
            if pool.busy.contains_key(w.0) {
                assert(effects[0] == (Effect::TaskCompleted {
                    worker_id: w,
                    task_id: pool.busy[w.0],
                }));
            }
        },
        Event::WorkerTimedOut { worker_id: w } => {
            if pool.busy.contains_key(w.0) {
                match pool.busy[w.0] {
                    TaskId::External(submission_id) => {
                        assert(effects[1] == (Effect::TaskFailed { submission_id }));
                    },
                    TaskId::Heartbeat => {},
                }
            }
        },
        _ => {},
    }
}

/// A worker's answer is taken to the submitter before the worker is forgotten.
pub proof fn law_answer_goes_before_removal(pool: Pool, event: Event, at: int, worker_id: WorkerId)
    requires
        consistent(pool),
        may_come(pool, event),
        0 <= at < effects_of(pool, event).len(),
        effects_of(pool, event)[at] == (Effect::WorkerRemoved { worker_id }),
    ensures
        forall|i: int, task_id: TaskId|
            0 <= i < effects_of(pool, event).len() && #[trigger] effects_of(pool, event)[i]
                == #[trigger] finished(worker_id, task_id) ==> i < at,
{
}

/// The completion of a worker's task.
pub open spec fn finished(worker_id: WorkerId, task_id: TaskId) -> Effect {
    Effect::TaskCompleted { worker_id, task_id }
}

/// The workers that registered in a run, in order.
pub open spec fn registered(events: Seq<Event>) -> Seq<WorkerId>
    decreases events.len(),
{
    if events.len() == 0 {
        Seq::empty()
    } else {
        let before = registered(events.drop_last());
        match events.last() {
            Event::WorkerReady { worker_id } => before.push(worker_id),
            _ => before,
        }
    }
}

/// The workers that were handed submissions, in order.
pub open spec fn served(effects: Seq<Effect>) -> Seq<WorkerId>
    decreases effects.len(),
{
    if effects.len() == 0 {
        Seq::empty()
    } else {
        let before = served(effects.drop_last());
        match effects.last() {
            Effect::TaskAssigned { worker_id, task_id: TaskId::External(submission_id) } =>
                before.push(worker_id),
            _ => before,
        }
    }
}

/// Whether the worker was given a heartbeat.
pub open spec fn was_checked(effects: Seq<Effect>, worker_id: WorkerId) -> bool {
    effects.contains(Effect::TaskAssigned { worker_id, task_id: TaskId::Heartbeat })
}

/// The workers of a list that were not given a heartbeat, in order.
pub open spec fn unchecked(workers: Seq<WorkerId>, effects: Seq<Effect>) -> Seq<WorkerId>
    decreases workers.len(),
{
    if workers.len() == 0 {
        Seq::empty()
    } else {
        let before = unchecked(workers.drop_last(), effects);
        if was_checked(effects, workers.last()) {
            before
        } else {
            before.push(workers.last())
        }
    }
}

proof fn lemma_served_concat(a: Seq<Effect>, b: Seq<Effect>)
    ensures
        served(a + b) == served(a) + served(b),
    decreases b.len(),
{
    if b.len() == 0 {
        assert(a + b =~= a);
        assert(served(a) + served(b) =~= served(a));
    } else {
        lemma_served_concat(a, b.drop_last());
        assert((a + b).drop_last() =~= a + b.drop_last());
        assert((a + b).last() == b.last());
        assert(served(a + b) =~= served(a) + served(b));
    }
}

proof fn lemma_unchecked_same(workers: Seq<WorkerId>, a: Seq<Effect>, b: Seq<Effect>)
    requires
        forall|w: WorkerId| workers.contains(w) ==> #[trigger] was_checked(a, w) == was_checked(
            b,
            w,
        ),
    ensures
        unchecked(workers, a) == unchecked(workers, b),
    decreases workers.len(),
{
    if workers.len() > 0 {
        let rest = workers.drop_last();
        assert(workers.contains(workers.last()));
        assert forall|w: WorkerId| rest.contains(w) implies #[trigger] was_checked(a, w)
            == was_checked(b, w) by {
            let k = choose|k: int| 0 <= k < rest.len() && rest[k] == w;
            assert(workers[k] == w);
        }
        lemma_unchecked_same(rest, a, b);
    }
}

proof fn lemma_unchecked_members(workers: Seq<WorkerId>, effects: Seq<Effect>, w: WorkerId)
    ensures
        unchecked(workers, effects).contains(w) ==> workers.contains(w) && !was_checked(effects, w),
    decreases workers.len(),
{
    if workers.len() > 0 {
        let rest = workers.drop_last();
        lemma_unchecked_members(rest, effects, w);
        let some = unchecked(workers, effects);
        if some.contains(w) {
            let k = choose|k: int| 0 <= k < some.len() && some[k] == w;
            if k < unchecked(rest, effects).len() {
                assert(unchecked(rest, effects)[k] == w);
                let j = choose|j: int| 0 <= j < rest.len() && rest[j] == w;
                assert(workers[j] == w);
            } else {
                assert(workers[workers.len() - 1] == w);
            }
        }
    }
}

/// Where one more worker of a list is given a heartbeat, that one leaves the rest of the list.
proof fn lemma_one_more_checked(
    workers: Seq<WorkerId>,
    a: Seq<Effect>,
    b: Seq<Effect>,
    w: WorkerId,
    at: int,
)
    requires
        workers.no_duplicates(),
        forall|v: WorkerId| #[trigger] was_checked(b, v) == (was_checked(a, v) || v == w),
        0 <= at < unchecked(workers, a).len(),
        unchecked(workers, a)[at] == w,
    ensures
        unchecked(workers, b) == unchecked(workers, a).remove(at),
    decreases workers.len(),
{
    let rest = workers.drop_last();
    if workers.len() > 0 {
        let last = workers.last();
        let before = unchecked(rest, a);
        assert(workers[workers.len() - 1] == last);
        if last == w {
            assert forall|v: WorkerId| rest.contains(v) implies #[trigger] was_checked(a, v)
                == was_checked(b, v) by {
                let k = choose|k: int| 0 <= k < rest.len() && rest[k] == v;
                assert(workers[k] == v);
            }
            lemma_unchecked_same(rest, a, b);
            if at < before.len() {
                lemma_unchecked_members(rest, a, w);
                assert(before[at] == w);
                let k = choose|k: int| 0 <= k < rest.len() && rest[k] == w;
                assert(workers[k] == w);
                assert(false);
            }
            assert(unchecked(workers, a).remove(at) =~= before);
        } else {
            assert(at < before.len());
            assert(before[at] == w);
            lemma_one_more_checked(rest, a, b, w, at);
            assert(unchecked(workers, b) =~= unchecked(workers, a).remove(at));
        }
    }
}

/// Workers are served in the order in which they came: those that were handed submissions,
/// followed by those that still wait, are those that waited at first, followed by those that
/// registered, all but the ones that were given a heartbeat. Where each worker registers once,
/// that holds of every run of events.
pub proof fn law_workers_are_served_in_order(pool: Pool, events: Seq<Event>)
    requires
        consistent(pool),
        may_run(pool, events),
        (pool.idle + registered(events)).no_duplicates(),
    ensures
        served(run(pool, events).1) + run(pool, events).0.idle == unchecked(
            pool.idle + registered(events),
            run(pool, events).1,
        ),
    decreases events.len(),
{
    let all = pool.idle + registered(events);
    if events.len() == 0 {
        assert(all =~= pool.idle);
        assert forall|w: WorkerId| !#[trigger] was_checked(Seq::<Effect>::empty(), w) by {}
        lemma_nobody_checked(pool.idle);
        assert(served(Seq::<Effect>::empty()) + pool.idle =~= pool.idle);
    } else {
        let early = events.drop_last();
        let event = events.last();
        let known = pool.idle + registered(early);
        assert(known.no_duplicates()) by {
            assert forall|i: int, j: int|
                0 <= i < known.len() && 0 <= j < known.len() && i != j implies known[i]
                != known[j] by {
                assert(all[i] == known[i] && all[j] == known[j]);
            }
        }
        law_workers_are_served_in_order(pool, early);
        law_run_keeps_consistency(pool, early);
        let (mid, done) = run(pool, early);
        let effects = effects_of(mid, event);
        let next = pool_after(mid, event);
        let total = done + effects;
        lemma_served_concat(done, effects);
        reveal_with_fuel(served, 3);
        let left = served(done) + mid.idle;
        assert forall|w: WorkerId| #[trigger] was_checked(total, w) == (was_checked(done, w)
            || was_checked(effects, w)) by {
            let e = given(w, TaskId::Heartbeat);
            if done.contains(e) {
                let k = choose|k: int| 0 <= k < done.len() && done[k] == e;
                assert(total[k] == e);
            }
            if effects.contains(e) {
                let k = choose|k: int| 0 <= k < effects.len() && effects[k] == e;
                assert(total[done.len() + k] == e);
            }
            if total.contains(e) {
                let k = choose|k: int| 0 <= k < total.len() && total[k] == e;
                if k < done.len() {
                    assert(done[k] == e);
                } else {
                    assert(effects[k - done.len()] == e);
                }
            }
        }
        match event {
            Event::TaskSubmitted { submission_id } => {
                assert(all =~= known);
                assert forall|w: WorkerId| !#[trigger] was_checked(effects, w) by {}
                lemma_unchecked_same(all, done, total);
                if mid.idle.len() > 0 {
                    assert(served(effects) =~= seq![mid.idle[0]]);
                    assert(served(effects) + next.idle =~= mid.idle);
                } else {
                    assert(served(effects) =~= Seq::empty());
                    assert(served(effects) + next.idle =~= mid.idle);
                }
                assert(served(total) + next.idle =~= served(done) + (served(effects) + next.idle));
            },
            Event::WorkerReady { worker_id } => {
                assert(all =~= known.push(worker_id));
                assert forall|w: WorkerId| !#[trigger] was_checked(effects, w) by {}
                lemma_unchecked_same(all, done, total);
                lemma_not_checked_before(pool, early, worker_id);
                assert(!was_checked(done, worker_id)) by {
                    if was_checked(done, worker_id) {
                        let k = choose|k: int| 0 <= k < known.len() && known[k] == worker_id;
                        assert(all[k] == all[known.len() as int]);
                    }
                }
                assert(all.drop_last() =~= known);
                assert(unchecked(all, done) == unchecked(known, done).push(worker_id));
                if mid.tasks.len() > 0 {
                    assert(served(effects) =~= seq![worker_id]);
                    assert(mid.idle =~= Seq::empty());
                } else {
                    assert(served(effects) =~= Seq::empty());
                }
                assert(served(total) + next.idle =~= left.push(worker_id));
            },
            Event::AssignHeartbeatIfIdle { worker_id } => {
                assert(all =~= known);
                assert(served(effects) =~= Seq::empty());
                if mid.idle.contains(worker_id) {
                    let at = lemma_idle_leaves(mid, worker_id);
                    assert(effects[0] == given(worker_id, TaskId::Heartbeat));
                    assert(left[served(done).len() + at] == worker_id);
                    assert forall|w: WorkerId| #[trigger] was_checked(effects, w) == (w
                        == worker_id) by {}
                    lemma_one_more_checked(all, done, total, worker_id, served(done).len() + at);
                    assert(served(total) + next.idle =~= left.remove(served(done).len() + at));
                } else {
                    assert forall|w: WorkerId| !#[trigger] was_checked(effects, w) by {}
                    lemma_unchecked_same(all, done, total);
                    assert(served(total) + next.idle =~= left);
                }
            },
            _ => {
                assert(all =~= known);
                assert(served(effects) =~= Seq::empty());
                assert forall|w: WorkerId| !#[trigger] was_checked(effects, w) by {}
                lemma_unchecked_same(all, done, total);
                assert(served(total) + next.idle =~= left);
            },
        }
    }
}

proof fn lemma_nobody_checked(workers: Seq<WorkerId>)
    ensures
        unchecked(workers, Seq::empty()) == workers,
    decreases workers.len(),
{
    if workers.len() > 0 {
        lemma_nobody_checked(workers.drop_last());
        assert(!was_checked(Seq::empty(), workers.last()));
        assert(workers.drop_last().push(workers.last()) =~= workers);
    }
}

/// Only workers that waited or registered wait or are given heartbeats.
proof fn lemma_not_checked_before(pool: Pool, events: Seq<Event>, w: WorkerId)
    requires
        consistent(pool),
        may_run(pool, events),
    ensures
        run(pool, events).0.idle.contains(w) ==> (pool.idle + registered(events)).contains(w),
        was_checked(run(pool, events).1, w) ==> (pool.idle + registered(events)).contains(w),
    decreases events.len(),
{
    let all = pool.idle + registered(events);
    if events.len() == 0 {
        assert(all =~= pool.idle);
    } else {
        let early = events.drop_last();
        let event = events.last();
        let known = pool.idle + registered(early);
        lemma_not_checked_before(pool, early, w);
        law_run_keeps_consistency(pool, early);
        let (mid, done) = run(pool, early);
        let effects = effects_of(mid, event);
        let next = pool_after(mid, event);
        let total = done + effects;
        if known.contains(w) {
            let k = choose|k: int| 0 <= k < known.len() && known[k] == w;
            assert(all[k] == w);
        }
        if event == (Event::WorkerReady { worker_id: w }) {
            assert(all[known.len() as int] == w);
        }
        law_what_changes_is_announced(mid, event, w);
        if next.idle.contains(w) && !mid.idle.contains(w) {
            assert(effects.contains(Effect::WorkerWaiting { worker_id: w }));
            assert(event == (Event::WorkerReady { worker_id: w }));
        }
        let e = given(w, TaskId::Heartbeat);
        if total.contains(e) {
            let k = choose|k: int| 0 <= k < total.len() && total[k] == e;
            if k < done.len() {
                assert(done[k] == e);
                assert(was_checked(done, w));
            } else {
                assert(effects[k - done.len()] == e);
                assert(event == (Event::AssignHeartbeatIfIdle { worker_id: w }));
                assert(mid.idle.contains(w));
            }
        }
    }
}

/// A worker that waits long gets a heartbeat, and only such a worker does.
pub proof fn law_heartbeats_go_to_idle_workers(pool: Pool, event: Event, worker_id: WorkerId)
    requires
        consistent(pool),
        may_come(pool, event),
    ensures
        was_checked(effects_of(pool, event), worker_id) <==> (event
            == (Event::AssignHeartbeatIfIdle { worker_id }) && pool.idle.contains(worker_id)),
{
    let effects = effects_of(pool, event);
    if event == (Event::AssignHeartbeatIfIdle { worker_id }) && pool.idle.contains(worker_id) {
        assert(effects[0] == given(worker_id, TaskId::Heartbeat));
    }
}

/// A task does not wait while a worker does: one that comes when a worker waits is with the
/// worker that has waited longest, and a worker that comes when a task waits has the task that
/// has waited longest.
pub proof fn law_who_waits_longest_is_first(pool: Pool, event: Event)
    requires
        consistent(pool),
        may_come(pool, event),
    ensures
        ({
            let next = pool_after(pool, event);
            &&& next.tasks.len() == 0 || next.idle.len() == 0
            &&& event matches Event::TaskSubmitted { submission_id } ==> {
                &&& pool.idle.len() > 0 ==> next.busy.contains_key(pool.idle.first().0)
                    && next.busy[pool.idle.first().0] == TaskId::External(submission_id)
                &&& pool.idle.len() == 0 ==> next.tasks.len() > 0 && next.tasks.last()
                    == submission_id
            }
            &&& event matches Event::WorkerReady { worker_id } ==> pool.tasks.len() > 0 ==> {
                &&& next.busy.contains_key(worker_id.0)
                &&& next.busy[worker_id.0] == TaskId::External(pool.tasks.first())
            }
        }),
{
    law_step_keeps_consistency(pool, event);
}

/// A withdrawal takes one place of the task out of the queue, where it has one, and leaves the
/// order of the others; workers are left alone.
pub proof fn law_withdrawal_takes_one_out(
    pool: Pool,
    submission_id: super::machine::SubmissionId,
) -> (at: int)
    ensures
        ({
            let next = pool_after(pool, Event::TaskWithdrawn { submission_id });
            &&& pool.tasks.contains(submission_id) ==> 0 <= at < pool.tasks.len()
                && pool.tasks[at] == submission_id && next.tasks == pool.tasks.remove(at)
            &&& !pool.tasks.contains(submission_id) ==> next.tasks == pool.tasks
            &&& next.idle == pool.idle
            &&& next.busy == pool.busy
            &&& effects_of(pool, Event::TaskWithdrawn { submission_id }).len() == 0
        }),
{
    pool.tasks.index_of_first_ensures(submission_id);
    if pool.tasks.contains(submission_id) {
        pool.tasks.index_of_first(submission_id)->0
    } else {
        0
    }
}

/// The only event that cannot come is a registration of a worker that is idle or busy already.
pub proof fn law_only_a_second_registration_cannot_come(pool: Pool, event: Event)
    ensures
        may_come(pool, event) <==> !(event matches Event::WorkerReady { worker_id } && knows(
            pool,
            worker_id,
        )),
{
}

} // verus!
