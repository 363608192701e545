//! What the agent state machine does for agents: none is lost, each is told what it is to do,
//! and what becomes of a task is said of the agent that had it.
use super::machine::{
    can_dispatch, changed, current, dispatched, dispatched_once, dispatches, effects_of, frees,
    idle_at, next_agent, notices, pool_after, AgentId, AgentState, AgentStatus, Effect, Epoch,
    Event, Pool, TaskId,
};
use super::machine_laws::{consistent, law_next_agent_is_lowest_idle};
use vstd::prelude::*;

verus! {

/// Whether the agent is at work on the task at this epoch.
pub open spec fn at_work_on(pool: Pool, task_id: TaskId, epoch: Epoch) -> bool {
    &&& pool.agents.contains_key(epoch.agent_id.0)
    &&& pool.agents[epoch.agent_id.0] == (AgentState {
        status: AgentStatus::Busy { task_id },
        epoch,
    })
}

/// The handing of a task to an agent.
pub open spec fn given(task_id: TaskId, epoch: Epoch) -> Effect {
    Effect::DispatchTask { task_id, epoch }
}

proof fn lemma_dispatch(pool: Pool, n: u32)
    requires
        consistent(pool),
    ensures
        dispatched(pool).agents.contains_key(n) == pool.agents.contains_key(n),
        pool.agents.contains_key(n) ==> {
            let before = pool.agents[n];
            let after = dispatched(pool).agents[n];
            ||| after == before && forall|i: int|
                0 <= i < dispatches(pool).len() ==> !((
                #[trigger] dispatches(pool)[i])->DispatchTask_epoch.agent_id.0 == n)
            ||| before.status is Idle && after.epoch == before.next_epoch() && (
            after.status matches AgentStatus::Busy { task_id } && dispatches(pool).contains(
                given(task_id, after.epoch),
            ))
        },
        forall|i: int|
            0 <= i < dispatches(pool).len() ==> ((#[trigger] dispatches(
                pool,
            )[i]) matches Effect::DispatchTask { task_id, epoch } && at_work_on(
                dispatched(pool),
                task_id,
                epoch,
            )),
    decreases pool.pending.len(),
{
    if can_dispatch(pool) {
        law_next_agent_is_lowest_idle(pool);
        let m = next_agent(pool);
        let next = dispatched_once(pool);
        let task = pool.pending[0];
        let epoch = pool.agents[m].next_epoch();
        assert(consistent(next));
        lemma_dispatch(next, n);
        lemma_dispatch(next, m);
        let all = dispatches(pool);
        let rest = dispatches(next);
        assert(all[0] == given(task, epoch));
        assert forall|i: int| 0 < i < all.len() implies #[trigger] all[i] == rest[i - 1] by {}
        assert(next.agents[m].status is Busy);
        assert(dispatched(next).agents[m] == next.agents[m]);
        if pool.agents.contains_key(n) {
            if n == m {
                assert(all.contains(given(task, epoch)));
            } else {
                assert(next.agents[n] == pool.agents[n]);
                let after = dispatched(next).agents[n];
                if let AgentStatus::Busy { task_id } = after.status {
                    let e = given(task_id, after.epoch);
                    if rest.contains(e) {
                        let k = choose|k: int| 0 <= k < rest.len() && rest[k] == e;
                        assert(all[k + 1] == e);
                        assert(all.contains(e));
                    }
                }
            }
        }
    }
}

/// No event loses an agent: one that is registered still is, unless it left or its current timer
/// ran out; one that registers is; and no other agent comes in.
pub proof fn law_no_agent_is_lost(pool: Pool, event: Event, n: u32)
    requires
        consistent(pool),
    ensures
        ({
            let left = event == (Event::AgentDeregistered { agent_id: AgentId(n) }) || (
            event matches Event::AgentTimedOut { epoch } && epoch.agent_id == AgentId(n)
                && pool.agents.contains_key(n) && pool.agents[n].epoch == epoch);
            let came = event == (Event::AgentRegistered { agent_id: AgentId(n) });
            pool_after(pool, event).agents.contains_key(n) <==> (pool.agents.contains_key(n)
                && !left) || came
        }),
{
    let next = changed(pool, event);
    assert(consistent(next));
    lemma_dispatch(next, n);
    match event {
        Event::AgentDeregistered { agent_id } => {
            assert(AgentId(agent_id.0) == agent_id);
        },
        Event::AgentTimedOut { epoch } => {
            assert(AgentId(epoch.agent_id.0) == epoch.agent_id);
        },
        Event::AgentRegistered { agent_id } => {
            assert(AgentId(agent_id.0) == agent_id);
        },
        Event::AgentResponded { agent_id } => {},
        _ => {},
    }
}

/// An agent is handed a task exactly when it then is at work on it at that epoch and was not
/// before; so the timer that starts with it is that of the work it is at.
pub proof fn law_work_is_handed_out(pool: Pool, event: Event, task_id: TaskId, epoch: Epoch)
    requires
        consistent(pool),
        forall|n: u32| pool.agents.contains_key(n) ==> (#[trigger] pool.agents[n]).epoch.sequence
            < u32::MAX - 1,
    ensures
        effects_of(pool, event).contains(given(task_id, epoch)) <==> (at_work_on(
            pool_after(pool, event),
            task_id,
            epoch,
        ) && !at_work_on(pool, task_id, epoch)),
{
    let next = changed(pool, event);
    let n = epoch.agent_id.0;
    let effects = effects_of(pool, event);
    let e = given(task_id, epoch);
    assert(consistent(next));
    lemma_dispatch(next, n);
    assert(AgentId(n) == epoch.agent_id);
    if effects.contains(e) {
        let k = choose|k: int| 0 <= k < effects.len() && effects[k] == e;
        let first = notices(pool, event).len();
        assert(k >= first);
        assert(frees(pool, event));
        assert(dispatches(next)[k - first] == e);
        assert(at_work_on(dispatched(next), task_id, epoch));
        if at_work_on(pool, task_id, epoch) {
            assert(next.agents[n].epoch != epoch);
        }
    }
    if at_work_on(pool_after(pool, event), task_id, epoch) && !at_work_on(pool, task_id, epoch) {
        assert(frees(pool, event));
        assert(dispatches(next).contains(e));
        let k = choose|k: int| 0 <= k < dispatches(next).len() && dispatches(next)[k] == e;
        assert(effects[notices(pool, event).len() + k] == e);
    }
}

/// A submitter is told of a completion exactly when the agent that was at work on the task
/// answered, and of a failure exactly when that agent left or ran out of time.
pub proof fn law_answers_come_from_the_agent(
    pool: Pool,
    event: Event,
    agent_id: AgentId,
    task_id: TaskId,
)
    requires
        consistent(pool),
    ensures
        ({
            let effects = effects_of(pool, event);
            let had = pool.agents.contains_key(agent_id.0) && pool.agents[agent_id.0].status == (
            AgentStatus::Busy { task_id });
            let gone = event == (Event::AgentDeregistered { agent_id }) || (
            event matches Event::AgentTimedOut { epoch } && epoch.agent_id == agent_id
                && pool.agents.contains_key(agent_id.0) && pool.agents[agent_id.0].epoch == epoch);
            &&& effects.contains(Effect::TaskCompleted { agent_id, task_id }) <==> (had && event
                == (Event::AgentResponded { agent_id }))
            &&& had && gone ==> effects.contains(Effect::TaskFailed { task_id })
            &&& effects.contains(Effect::TaskFailed { task_id }) ==> (
            event is AgentDeregistered || event is AgentTimedOut)
        }),
{
    let next = changed(pool, event);
    let effects = effects_of(pool, event);
    let told = notices(pool, event);
    assert(consistent(next));
    lemma_dispatch(next, agent_id.0);
    assert forall|e: Effect| effects.contains(e) && !(e is DispatchTask) implies told.contains(
        e,
    ) by {
        let k = choose|k: int| 0 <= k < effects.len() && effects[k] == e;
        if k < told.len() {
            assert(told[k] == e);
        } else {
            assert(dispatches(next)[k - told.len()] == e);
        }
    }
    assert forall|k: int| 0 <= k < told.len() implies #[trigger] told[k] == effects[k] by {}
    match event {
        Event::AgentResponded { agent_id: w } => {
            assert(w.0 == agent_id.0 ==> w == agent_id);
            if pool.agents.contains_key(w.0) && pool.agents[w.0].status is Busy {
                assert(effects[0] == told[0]);
            }
        },
        Event::AgentDeregistered { agent_id: w } => {
            if pool.agents.contains_key(w.0) && pool.agents[w.0].status is Busy {
                assert(effects[0] == told[0]);
            }
        },
        Event::AgentTimedOut { epoch } => {
            if current(pool, epoch) && pool.agents[epoch.agent_id.0].status is Busy {
                assert(effects[0] == told[0]);
            }
        },
        _ => {},
    }
}

/// The tasks that are handed out, in order.
pub open spec fn handed_out(effects: Seq<Effect>) -> Seq<TaskId>
    decreases effects.len(),
{
    if effects.len() == 0 {
        Seq::empty()
    } else {
        let before = handed_out(effects.drop_last());
        match effects.last() {
            Effect::DispatchTask { task_id, epoch } => before.push(task_id),
            _ => before,
        }
    }
}

proof fn lemma_handed_out_concat(a: Seq<Effect>, b: Seq<Effect>)
    ensures
        handed_out(a + b) == handed_out(a) + handed_out(b),
    decreases b.len(),
{
    if b.len() == 0 {
        assert(a + b =~= a);
        assert(handed_out(a) + handed_out(b) =~= handed_out(a));
    } else {
        lemma_handed_out_concat(a, b.drop_last());
        assert((a + b).drop_last() =~= a + b.drop_last());
        assert((a + b).last() == b.last());
        assert(handed_out(a + b) =~= handed_out(a) + handed_out(b));
    }
}

proof fn lemma_handed_out_dispatches(pool: Pool)
    requires
        consistent(pool),
    ensures
        handed_out(dispatches(pool)) + dispatched(pool).pending == pool.pending,
    decreases pool.pending.len(),
{
    if can_dispatch(pool) {
        law_next_agent_is_lowest_idle(pool);
        let next = dispatched_once(pool);
        let m = next_agent(pool);
        assert(consistent(next));
        lemma_handed_out_dispatches(next);
        let one = seq![given(pool.pending[0], pool.agents[m].next_epoch())];
        lemma_handed_out_concat(one, dispatches(next));
        assert(one.drop_last() =~= Seq::empty());
        reveal_with_fuel(handed_out, 2);
        assert(handed_out(one) =~= seq![pool.pending[0]]);
        assert(handed_out(dispatches(pool)) + dispatched(pool).pending =~= seq![pool.pending[0]]
            + next.pending);
        assert(seq![pool.pending[0]] + pool.pending.skip(1) =~= pool.pending);
    } else {
        assert(handed_out(Seq::<Effect>::empty()) + pool.pending =~= pool.pending);
    }
}

/// Tasks are handed out in the order in which they came: what an event hands out, followed by
/// what then waits, is what waited before, followed by the task that it brings.
pub proof fn law_tasks_go_out_in_order(pool: Pool, event: Event)
    requires
        consistent(pool),
        !(event is TaskWithdrawn),
    ensures
        handed_out(effects_of(pool, event)) + pool_after(pool, event).pending == pool.pending + (
        match event {
            Event::TaskSubmitted { task_id } => seq![task_id],
            _ => Seq::empty(),
        }),
{
    let next = changed(pool, event);
    let told = notices(pool, event);
    assert(consistent(next));
    reveal_with_fuel(handed_out, 3);
    assert(told.len() <= 2);
    assert(handed_out(told) =~= Seq::empty());
    if frees(pool, event) {
        lemma_handed_out_concat(told, dispatches(next));
        lemma_handed_out_dispatches(next);
        assert(handed_out(told) + handed_out(dispatches(next)) =~= handed_out(dispatches(next)));
    }
    match event {
        Event::TaskSubmitted { task_id } => {
            assert(next.pending =~= pool.pending + seq![task_id]);
        },
        _ => {
            assert(pool.pending + Seq::<TaskId>::empty() =~= pool.pending);
            assert(handed_out(told) + next.pending =~= next.pending);
        },
    }
}

/// An agent starts to wait exactly when it comes in or has answered, and each time at an epoch
/// that it was not at before: a new agent at the first, one that answered at its next.
pub proof fn law_waiting_is_announced(pool: Pool, event: Event, epoch: Epoch)
    requires
        consistent(pool),
    ensures
        ({
            let n = epoch.agent_id.0;
            let came = event == (Event::AgentRegistered { agent_id: epoch.agent_id })
                && !pool.agents.contains_key(n) && epoch.sequence == 0;
            let answered = event == (Event::AgentResponded { agent_id: epoch.agent_id })
                && pool.agents.contains_key(n) && pool.agents[n].status is Busy && epoch
                == pool.agents[n].next_epoch();
            effects_of(pool, event).contains(Effect::AgentBecameIdle { epoch }) <==> came
                || answered
        }),
{
    let next = changed(pool, event);
    let effects = effects_of(pool, event);
    let told = notices(pool, event);
    let e = Effect::AgentBecameIdle { epoch };
    assert(consistent(next));
    lemma_dispatch(next, epoch.agent_id.0);
    if effects.contains(e) {
        let k = choose|k: int| 0 <= k < effects.len() && effects[k] == e;
        if k < told.len() {
            assert(told[k] == e);
        } else {
            assert(dispatches(next)[k - told.len()] == e);
        }
    }
    assert forall|k: int| 0 <= k < told.len() implies #[trigger] told[k] == effects[k] by {}
    match event {
        Event::AgentRegistered { agent_id } => {
            if !pool.agents.contains_key(agent_id.0) {
                assert(effects[0] == told[0]);
            }
        },
        Event::AgentResponded { agent_id } => {
            if pool.agents.contains_key(agent_id.0) && pool.agents[agent_id.0].status is Busy {
                assert(effects[1] == told[1]);
            }
        },
        _ => {},
    }
}

/// An event leaves every agent alone that it is not about, unless it was idle and gets a task.
pub proof fn law_others_are_left_alone(pool: Pool, event: Event, n: u32)
    requires
        consistent(pool),
        pool.agents.contains_key(n),
        match event {
            Event::AgentRegistered { agent_id } => true,
            Event::AgentDeregistered { agent_id } => agent_id.0 != n,
            Event::AgentResponded { agent_id } => agent_id.0 != n,
            Event::AgentTimedOut { epoch } => epoch.agent_id.0 != n,
            _ => true,
        },
    ensures
        pool_after(pool, event).agents.contains_key(n),
        pool_after(pool, event).agents[n] == pool.agents[n] || (idle_at(pool.agents, n)
            && pool_after(pool, event).agents[n].status is Busy),
{
    let next = changed(pool, event);
    assert(consistent(next));
    lemma_dispatch(next, n);
}

} // verus!
