//! What holds of the worker state machine over any run of events.
use super::machine::{
    Effect, Event, Pool, SubmissionId, TaskId, WorkerId, effects_of, empty_pool, may_come,
    pool_after, without_first,
};
use vstd::prelude::*;

verus! {

/// Tasks and workers never wait at the same time, no worker waits twice, and no
/// worker both waits and is busy.
pub open spec fn consistent(pool: Pool) -> bool {
    &&& pool.tasks.len() == 0 || pool.idle.len() == 0
    &&& pool.idle.no_duplicates()
    &&& forall|i: int| 0 <= i < pool.idle.len() ==> !pool.busy.contains_key(#[trigger] pool.idle[i].0)
    &&& pool.busy.dom().finite()
}

/// Whether the pool knows the worker.
pub open spec fn knows(pool: Pool, worker_id: WorkerId) -> bool {
    pool.busy.contains_key(worker_id.0) || pool.idle.contains(worker_id)
}

/// The worker that an effect names.
pub open spec fn names_worker(effect: Effect, worker_id: WorkerId) -> bool {
    match effect {
        Effect::TaskAssigned { worker_id: w, task_id } => w == worker_id,
        Effect::WorkerWaiting { worker_id: w } => w == worker_id,
        Effect::TaskCompleted { worker_id: w, task_id } => w == worker_id,
        Effect::TaskFailed { submission_id } => false,
        Effect::WorkerRemoved { worker_id: w } => w == worker_id,
    }
}

/// The empty pool is consistent.
pub proof fn law_empty_pool_is_consistent()
    ensures
        consistent(empty_pool()),
{
}

proof fn lemma_without_first<T>(queue: Seq<T>, item: T)
    ensures
        queue.contains(item) ==> {
            &&& exists|i: int| 0 <= i < queue.len() && queue[i] == item
                && #[trigger] queue.remove(i) == without_first(queue, item)
            &&& without_first(queue, item).len() == queue.len() - 1
            &&& without_first(queue, item).to_multiset() == queue.to_multiset().remove(item)
        },
        !queue.contains(item) ==> without_first(queue, item) == queue,
        queue.no_duplicates() ==> without_first(queue, item).no_duplicates(),
        queue.no_duplicates() ==> !without_first(queue, item).contains(item),
        forall|x: T| #[trigger]
            without_first(queue, item).contains(x) ==> queue.contains(x),
{
    queue.index_of_first_ensures(item);
    queue.to_multiset_ensures();
    if queue.contains(item) {
        let i = queue.index_of_first(item)->0;
        let rest = queue.remove(i);
        assert(rest == without_first(queue, item));
        assert forall|x: T| #[trigger] rest.contains(x) implies queue.contains(x) by {
            let k = choose|k: int| 0 <= k < rest.len() && rest[k] == x;
            assert(queue[if k < i {
                k
            } else {
                k + 1
            }] == x);
        }
    }
}

/// Every event that may come keeps the pool consistent.
pub proof fn law_step_keeps_consistency(pool: Pool, event: Event)
    requires
        consistent(pool),
        may_come(pool, event),
    ensures
        consistent(pool_after(pool, event)),
{
    let next = pool_after(pool, event);
    match event {
        Event::TaskSubmitted { submission_id } => {
            if pool.idle.len() > 0 {
                assert forall|i: int| 0 <= i < next.idle.len() implies !next.busy.contains_key(
                    #[trigger] next.idle[i].0,
                ) by {
                    assert(next.idle[i] == pool.idle[i + 1]);
                    assert(pool.idle[i + 1] != pool.idle[0]);
                }
            }
        },
        Event::TaskWithdrawn { submission_id } => {
            lemma_without_first(pool.tasks, submission_id);
        },
        Event::WorkerReady { worker_id } => {
            if pool.tasks.len() == 0 {
                assert forall|i: int, j: int|
                    0 <= i < next.idle.len() && 0 <= j < next.idle.len() && i
                        != j implies next.idle[i] != next.idle[j] by {
                    if i < pool.idle.len() {
                        assert(pool.idle.contains(pool.idle[i]));
                    }
                    if j < pool.idle.len() {
                        assert(pool.idle.contains(pool.idle[j]));
                    }
                }
            }
        },
        Event::WorkerResponded { worker_id } => {},
        Event::WorkerTimedOut { worker_id } => {},
        Event::AssignHeartbeatIfIdle { worker_id } => {
            lemma_without_first(pool.idle, worker_id);
            if pool.idle.contains(worker_id) {
                assert forall|i: int| 0 <= i < next.idle.len() implies !next.busy.contains_key(
                    #[trigger] next.idle[i].0,
                ) by {
                    let w = next.idle[i];
                    assert(next.idle.contains(w));
                    assert(pool.idle.contains(w));
                    let k = choose|k: int| 0 <= k < pool.idle.len() && pool.idle[k] == w;
                    assert(!pool.busy.contains_key(pool.idle[k].0));
                    assert(w != worker_id);
                }
            }
        },
    }
}

/// A worker that an event removes is gone: it is neither idle nor busy afterwards.
pub proof fn law_removed_worker_is_gone(pool: Pool, event: Event, worker_id: WorkerId)
    requires
        consistent(pool),
        effects_of(pool, event).contains(Effect::WorkerRemoved { worker_id }),
    ensures
        !knows(pool_after(pool, event), worker_id),
{
    let next = pool_after(pool, event);
    if next.idle.contains(worker_id) {
        let k = choose|k: int| 0 <= k < next.idle.len() && next.idle[k] == worker_id;
        assert(!pool.busy.contains_key(pool.idle[k].0));
    }
}

/// A worker that the pool does not know stays unknown until it registers, and no
/// effect names it: a worker that was removed is never given work again.
pub proof fn law_unknown_worker_stays_unknown(pool: Pool, event: Event, worker_id: WorkerId)
    requires
        !knows(pool, worker_id),
        event != (Event::WorkerReady { worker_id }),
    ensures
        !knows(pool_after(pool, event), worker_id),
        forall|i: int|
            0 <= i < effects_of(pool, event).len() ==> !names_worker(
                #[trigger] effects_of(pool, event)[i],
                worker_id,
            ),
{
    let next = pool_after(pool, event);
    match event {
        Event::TaskSubmitted { submission_id } => {
            if pool.idle.len() > 0 {
                assert(pool.idle.contains(pool.idle[0]));
                if next.idle.contains(worker_id) {
                    let k = choose|k: int| 0 <= k < next.idle.len() && next.idle[k] == worker_id;
                    assert(pool.idle[k + 1] == worker_id);
                }
            }
        },
        Event::TaskWithdrawn { submission_id } => {},
        Event::WorkerReady { worker_id: w } => {
            if pool.tasks.len() == 0 && next.idle.contains(worker_id) {
                let k = choose|k: int| 0 <= k < next.idle.len() && next.idle[k] == worker_id;
                if k < pool.idle.len() {
                    assert(pool.idle[k] == worker_id);
                }
            }
        },
        Event::WorkerResponded { worker_id: w } => {},
        Event::WorkerTimedOut { worker_id: w } => {},
        Event::AssignHeartbeatIfIdle { worker_id: w } => {
            lemma_without_first(pool.idle, w);
        },
    }
}

/// An answer or a timeout of a worker that has no task changes nothing, and a
/// heartbeat for a worker that is not idle changes nothing.
pub proof fn law_stale_events_change_nothing(pool: Pool, worker_id: WorkerId)
    ensures
        !pool.busy.contains_key(worker_id.0) ==> {
            &&& pool_after(pool, Event::WorkerResponded { worker_id }) == pool
            &&& effects_of(pool, Event::WorkerResponded { worker_id }).len() == 0
            &&& pool_after(pool, Event::WorkerTimedOut { worker_id }) == pool
            &&& effects_of(pool, Event::WorkerTimedOut { worker_id }).len() == 0
        },
        !pool.idle.contains(worker_id) ==> {
            &&& pool_after(pool, Event::AssignHeartbeatIfIdle { worker_id }) == pool
            &&& effects_of(pool, Event::AssignHeartbeatIfIdle { worker_id }).len() == 0
        },
{
    if !pool.busy.contains_key(worker_id.0) {
        assert(pool.busy.remove(worker_id.0) =~= pool.busy);
    }
}

/// Of an answer and a timeout for the same worker, whichever comes first settles
/// its task; the other changes nothing.
pub proof fn law_first_outcome_settles(pool: Pool, worker_id: WorkerId)
    ensures
        ({
            let answered = pool_after(pool, Event::WorkerResponded { worker_id });
            let timed_out = pool_after(pool, Event::WorkerTimedOut { worker_id });
            &&& answered == timed_out
            &&& pool_after(answered, Event::WorkerTimedOut { worker_id }) == answered
            &&& effects_of(answered, Event::WorkerTimedOut { worker_id }).len() == 0
            &&& pool_after(timed_out, Event::WorkerResponded { worker_id }) == timed_out
            &&& effects_of(timed_out, Event::WorkerResponded { worker_id }).len() == 0
        }),
{
    law_stale_events_change_nothing(
        pool_after(pool, Event::WorkerResponded { worker_id }),
        worker_id,
    );
}

/// A withdrawal of a task that does not wait changes nothing; the answer to a task
/// that was already handed out cannot be called back.
pub proof fn law_late_withdrawal_changes_nothing(pool: Pool, submission_id: SubmissionId)
    requires
        !pool.tasks.contains(submission_id),
    ensures
        pool_after(pool, Event::TaskWithdrawn { submission_id }) == pool,
        effects_of(pool, Event::TaskWithdrawn { submission_id }).len() == 0,
{
    lemma_without_first(pool.tasks, submission_id);
}

/// The pool after a run of events, and all effects of the run in order.
pub open spec fn run(pool: Pool, events: Seq<Event>) -> (Pool, Seq<Effect>)
    decreases events.len(),
{
    if events.len() == 0 {
        (pool, Seq::empty())
    } else {
        let before = run(pool, events.drop_last());
        (pool_after(before.0, events.last()), before.1 + effects_of(before.0, events.last()))
    }
}

/// Whether each event of the run may come when it comes.
pub open spec fn may_run(pool: Pool, events: Seq<Event>) -> bool
    decreases events.len(),
{
    events.len() == 0 || (may_run(pool, events.drop_last()) && may_come(
        run(pool, events.drop_last()).0,
        events.last(),
    ))
}

/// The first events of a run that may come may come.
pub proof fn lemma_may_run_front(pool: Pool, events: Seq<Event>, n: int)
    requires
        may_run(pool, events),
        0 <= n <= events.len(),
    ensures
        may_run(pool, events.take(n)),
    decreases events.len(),
{
    if n == events.len() {
        assert(events.take(n) =~= events);
    } else {
        lemma_may_run_front(pool, events.drop_last(), n);
        assert(events.drop_last().take(n) =~= events.take(n));
    }
}

/// A run of events that may come keeps the pool consistent.
pub proof fn law_run_keeps_consistency(pool: Pool, events: Seq<Event>)
    requires
        consistent(pool),
        may_run(pool, events),
    ensures
        consistent(run(pool, events).0),
    decreases events.len(),
{
    if events.len() > 0 {
        law_run_keeps_consistency(pool, events.drop_last());
        law_step_keeps_consistency(run(pool, events.drop_last()).0, events.last());
    }
}

/// The submissions of a run, in order.
pub open spec fn submitted(events: Seq<Event>) -> Seq<SubmissionId>
    decreases events.len(),
{
    if events.len() == 0 {
        Seq::empty()
    } else {
        let before = submitted(events.drop_last());
        match events.last() {
            Event::TaskSubmitted { submission_id } => before.push(submission_id),
            _ => before,
        }
    }
}

/// The submissions that were handed to workers, in order.
pub open spec fn handed_out(effects: Seq<Effect>) -> Seq<SubmissionId>
    decreases effects.len(),
{
    if effects.len() == 0 {
        Seq::empty()
    } else {
        let before = handed_out(effects.drop_last());
        match effects.last() {
            Effect::TaskAssigned { worker_id, task_id: TaskId::External(submission_id) } =>
                before.push(submission_id),
            _ => before,
        }
    }
}

proof fn lemma_handed_out_concat(a: Seq<Effect>, b: Seq<Effect>)
    ensures
        handed_out(a + b) == handed_out(a) + handed_out(b),
    decreases b.len(),
{
    if b.len() == 0 {
        assert(a + b =~= a);
        assert(handed_out(a) + handed_out(b) =~= handed_out(a));
    } else {
        lemma_handed_out_concat(a, b.drop_last());
        assert((a + b).drop_last() =~= a + b.drop_last());
        assert((a + b).last() == b.last());
        assert(handed_out(a + b) =~= handed_out(a) + handed_out(b));
    }
}

/// Whether no task is withdrawn in the run.
pub open spec fn no_withdrawal(events: Seq<Event>) -> bool {
    forall|i: int| 0 <= i < events.len() ==> !(#[trigger] events[i] is TaskWithdrawn)
}

/// Tasks are handed out in the order in which they were submitted: what was handed
/// out, followed by what still waits, is what waited at first, followed by what was
/// submitted.
pub proof fn law_tasks_go_out_in_order(pool: Pool, events: Seq<Event>)
    requires
        consistent(pool),
        may_run(pool, events),
        no_withdrawal(events),
    ensures
        handed_out(run(pool, events).1) + run(pool, events).0.tasks == pool.tasks + submitted(
            events,
        ),
    decreases events.len(),
{
    if events.len() == 0 {
        assert(handed_out(Seq::<Effect>::empty()) + pool.tasks =~= pool.tasks + submitted(events));
    } else {
        let early = events.drop_last();
        assert forall|i: int| 0 <= i < early.len() implies !(#[trigger] early[i] is TaskWithdrawn) by {
            assert(early[i] == events[i]);
        }
        law_tasks_go_out_in_order(pool, early);
        law_run_keeps_consistency(pool, early);
        let (mid, done) = run(pool, early);
        let event = events.last();
        assert(event == events[events.len() - 1]);
        let effects = effects_of(mid, event);
        lemma_handed_out_concat(done, effects);
        assert(effects.len() <= 2);
        reveal_with_fuel(handed_out, 3);
        let next = pool_after(mid, event);
        match event {
            Event::TaskSubmitted { submission_id } => {
                if mid.idle.len() > 0 {
                    assert(mid.tasks =~= Seq::empty());
                    assert(handed_out(effects) =~= seq![submission_id]);
                } else {
                    assert(handed_out(effects) =~= Seq::empty());
                }
                assert(handed_out(effects) + next.tasks =~= mid.tasks.push(submission_id));
            },
            Event::WorkerReady { worker_id } => {
                if mid.tasks.len() > 0 {
                    assert(handed_out(effects) =~= seq![mid.tasks[0]]);
                } else {
                    assert(handed_out(effects) =~= Seq::empty());
                }
                assert(handed_out(effects) + next.tasks =~= mid.tasks);
            },
            _ => {
                assert(handed_out(effects) =~= Seq::empty());
                assert(handed_out(effects) + next.tasks =~= mid.tasks);
            },
        }
        assert(handed_out(done + effects) + next.tasks =~= handed_out(done) + (handed_out(effects)
            + next.tasks));
        assert(handed_out(done) + (handed_out(effects) + next.tasks) =~= pool.tasks + submitted(
            events,
        )) by {
            match event {
                Event::TaskSubmitted { submission_id } => {
                    assert(handed_out(done) + mid.tasks.push(submission_id) =~= (handed_out(done)
                        + mid.tasks).push(submission_id));
                },
                _ => {},
            }
        }
    }
}

/// How often a submission is answered: completed or failed.
pub open spec fn answers(effects: Seq<Effect>, submission_id: SubmissionId) -> nat
    decreases effects.len(),
{
    if effects.len() == 0 {
        0
    } else {
        answers(effects.drop_last(), submission_id) + match effects.last() {
            Effect::TaskCompleted { worker_id, task_id } => if task_id == TaskId::External(
                submission_id,
            ) {
                1nat
            } else {
                0nat
            },
            Effect::TaskFailed { submission_id: failed } => if failed == submission_id {
                1nat
            } else {
                0nat
            },
            _ => 0nat,
        }
    }
}

/// The busy workers that hold the submission.
pub open spec fn holders(pool: Pool, submission_id: SubmissionId) -> Set<u32> {
    pool.busy.dom().filter(|w: u32| pool.busy[w] == TaskId::External(submission_id))
}

/// How many times the pool holds a submission: in the queue, or with a worker.
pub open spec fn held(pool: Pool, submission_id: SubmissionId) -> nat {
    pool.tasks.to_multiset().count(submission_id) + holders(pool, submission_id).len()
}

/// How often a submission stands in a list.
pub open spec fn times(ids: Seq<SubmissionId>, submission_id: SubmissionId) -> nat {
    ids.to_multiset().count(submission_id)
}

proof fn lemma_answers_concat(a: Seq<Effect>, b: Seq<Effect>, id: SubmissionId)
    ensures
        answers(a + b, id) == answers(a, id) + answers(b, id),
    decreases b.len(),
{
    if b.len() == 0 {
        assert(a + b =~= a);
    } else {
        lemma_answers_concat(a, b.drop_last(), id);
        assert((a + b).drop_last() =~= a + b.drop_last());
        assert((a + b).last() == b.last());
    }
}

/// No event loses a task or answers it twice: what the pool holds of a submission
/// afterwards, with the answers given and the withdrawals granted, is what it held
/// before, with what came in.
pub proof fn law_step_conserves_tasks(pool: Pool, event: Event, id: SubmissionId)
    requires
        consistent(pool),
        may_come(pool, event),
    ensures
        held(pool_after(pool, event), id) + answers(effects_of(pool, event), id) + (if event == (
        Event::TaskWithdrawn { submission_id: id }) && pool.tasks.contains(id) {
            1nat
        } else {
            0nat
        }) == held(pool, id) + (if event == (Event::TaskSubmitted { submission_id: id }) {
            1nat
        } else {
            0nat
        }),
{
    let next = pool_after(pool, event);
    let effects = effects_of(pool, event);
    reveal_with_fuel(answers, 3);
    pool.tasks.to_multiset_ensures();
    assert(holders(pool, id).finite());
    match event {
        Event::TaskSubmitted { submission_id } => {
            if pool.idle.len() > 0 {
                let w = pool.idle[0].0;
                assert(!pool.busy.contains_key(w));
                if submission_id == id {
                    assert(holders(next, id) =~= holders(pool, id).insert(w));
                } else {
                    assert(holders(next, id) =~= holders(pool, id));
                }
                assert(answers(effects, id) == 0);
            } else {
                assert(holders(next, id) =~= holders(pool, id));
            }
        },
        Event::TaskWithdrawn { submission_id } => {
            lemma_without_first(pool.tasks, submission_id);
            assert(holders(next, id) =~= holders(pool, id));
        },
        Event::WorkerReady { worker_id } => {
            let w = worker_id.0;
            if pool.tasks.len() > 0 {
                assert(pool.tasks.skip(1) =~= pool.tasks.remove(0));
                if pool.tasks[0] == id {
                    assert(holders(next, id) =~= holders(pool, id).insert(w));
                    assert(pool.tasks.contains(id));
                } else {
                    assert(holders(next, id) =~= holders(pool, id));
                }
            } else {
                assert(holders(next, id) =~= holders(pool, id));
            }
        },
        Event::WorkerResponded { worker_id } => {
            lemma_holder_leaves(pool, worker_id.0, id);
        },
        Event::WorkerTimedOut { worker_id } => {
            lemma_holder_leaves(pool, worker_id.0, id);
        },
        Event::AssignHeartbeatIfIdle { worker_id } => {
            if pool.idle.contains(worker_id) {
                let k = choose|k: int| 0 <= k < pool.idle.len() && pool.idle[k] == worker_id;
                assert(!pool.busy.contains_key(pool.idle[k].0));
            }
            assert(holders(next, id) =~= holders(pool, id));
        },
    }
}

proof fn lemma_holder_leaves(pool: Pool, w: u32, id: SubmissionId)
    requires
        consistent(pool),
    ensures
        ({
            let next = Pool { busy: pool.busy.remove(w), ..pool };
            holders(next, id).len() + (if pool.busy.contains_key(w) && pool.busy[w]
                == TaskId::External(id) {
                1nat
            } else {
                0nat
            }) == holders(pool, id).len()
        }),
{
    let next = Pool { busy: pool.busy.remove(w), ..pool };
    assert(holders(next, id) =~= holders(pool, id).remove(w));
    assert(holders(pool, id).finite());
}

/// Over a run without withdrawals, what the pool holds of a submission at the end,
/// with the answers given, is what it held at first, with the times it came in.
pub proof fn law_run_conserves_tasks(pool: Pool, events: Seq<Event>, id: SubmissionId)
    requires
        consistent(pool),
        may_run(pool, events),
        no_withdrawal(events),
    ensures
        held(run(pool, events).0, id) + answers(run(pool, events).1, id) == held(pool, id) + times(
            submitted(events),
            id,
        ),
    decreases events.len(),
{
    submitted(events).to_multiset_ensures();
    if events.len() > 0 {
        let early = events.drop_last();
        assert forall|i: int| 0 <= i < early.len() implies !(#[trigger] early[i] is TaskWithdrawn) by {
            assert(early[i] == events[i]);
        }
        law_run_conserves_tasks(pool, early, id);
        law_run_keeps_consistency(pool, early);
        let (mid, done) = run(pool, early);
        let event = events.last();
        assert(event == events[events.len() - 1]);
        law_step_conserves_tasks(mid, event, id);
        lemma_answers_concat(done, effects_of(mid, event), id);
        submitted(early).to_multiset_ensures();
    }
}

/// A submission that comes in once, to a pool that starts empty, is answered at most
/// once; and it has been answered exactly when the pool no longer holds it.
pub proof fn law_one_answer_per_submission(events: Seq<Event>, id: SubmissionId)
    requires
        may_run(empty_pool(), events),
        no_withdrawal(events),
        times(submitted(events), id) == 1,
    ensures
        answers(run(empty_pool(), events).1, id) <= 1,
        answers(run(empty_pool(), events).1, id) == 1 <==> held(run(empty_pool(), events).0, id)
            == 0,
{
    let pool = empty_pool();
    law_run_conserves_tasks(pool, events, id);
    pool.tasks.to_multiset_ensures();
    assert(holders(pool, id) =~= Set::empty());
    assert(held(pool, id) == 0);
}

proof fn lemma_busy_was_assigned(events: Seq<Event>, w: u32)
    requires
        may_run(empty_pool(), events),
        run(empty_pool(), events).0.busy.contains_key(w),
    ensures
        run(empty_pool(), events).1.contains(
            Effect::TaskAssigned {
                worker_id: WorkerId(w),
                task_id: run(empty_pool(), events).0.busy[w],
            },
        ),
    decreases events.len(),
{
    if events.len() > 0 {
        let early = events.drop_last();
        let (mid, done) = run(empty_pool(), early);
        let event = events.last();
        let effects = effects_of(mid, event);
        let (next, all) = run(empty_pool(), events);
        let wanted = Effect::TaskAssigned { worker_id: WorkerId(w), task_id: next.busy[w] };
        if mid.busy.contains_key(w) && mid.busy[w] == next.busy[w] {
            lemma_busy_was_assigned(early, w);
            let k = choose|k: int| 0 <= k < done.len() && done[k] == wanted;
            assert(all[k] == wanted);
        } else {
            assert(effects.len() == 1 && effects[0] == wanted);
            assert(all[done.len() as int] == wanted);
        }
    }
}

/// An answer is for the task that the worker was given: each completion in a run was
/// preceded by the assignment of that task to that worker.
pub proof fn law_completion_follows_assignment(
    events: Seq<Event>,
    at: int,
    worker_id: WorkerId,
    task_id: TaskId,
)
    requires
        may_run(empty_pool(), events),
        0 <= at < run(empty_pool(), events).1.len(),
        run(empty_pool(), events).1[at] == (Effect::TaskCompleted { worker_id, task_id }),
    ensures
        exists|k: int|
            0 <= k < at && #[trigger] run(empty_pool(), events).1[k] == (Effect::TaskAssigned {
                worker_id,
                task_id,
            }),
    decreases events.len(),
{
    if events.len() > 0 {
        let early = events.drop_last();
        let (mid, done) = run(empty_pool(), early);
        let event = events.last();
        let effects = effects_of(mid, event);
        let all = run(empty_pool(), events).1;
        let wanted = Effect::TaskAssigned { worker_id, task_id };
        if at < done.len() {
            assert(done[at] == all[at]);
            law_completion_follows_assignment(early, at, worker_id, task_id);
            let k = choose|k: int| 0 <= k < at && #[trigger] run(empty_pool(), early).1[k] == wanted;
            assert(all[k] == wanted);
        } else {
            assert(all[at] == effects[at - done.len()]);
            lemma_busy_was_assigned(early, worker_id.0);
            let k = choose|k: int| 0 <= k < done.len() && done[k] == wanted;
            assert(all[k] == wanted);
        }
    }
}

} // verus!
