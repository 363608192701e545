//! What holds of the agent state machine.
use super::machine::{
    AgentId, AgentState, AgentStatus, Effect, Epoch, Event, Pool, TaskId, can_dispatch, changed,
    current, dispatch_fits, dispatched, dispatched_once, dispatches, effects_of, empty_pool,
    frees, idle_at, lowest_idle, next_agent, notices, numbers_of, pool_after, step_fits, works,
};
use vstd::prelude::*;

verus! {

/// Each agent's epoch is its own, and there are finitely many agents.
pub open spec fn consistent(pool: Pool) -> bool {
    &&& pool.agents.dom().finite()
    &&& forall|n: u32| #[trigger]
        pool.agents.contains_key(n) ==> pool.agents[n].epoch.agent_id == AgentId(n)
}

proof fn lemma_lowest_exists(agents: Map<u32, AgentState>, n: u32)
    requires
        idle_at(agents, n),
    ensures
        exists|m: u32| lowest_idle(agents, m),
    decreases n,
{
    if exists|m: u32| idle_at(agents, m) && m < n {
        let m = choose|m: u32| idle_at(agents, m) && m < n;
        lemma_lowest_exists(agents, m);
    } else {
        assert(lowest_idle(agents, n));
    }
}

/// The agent that gets the next task is idle, and no idle agent has a lower number.
pub proof fn law_next_agent_is_lowest_idle(pool: Pool)
    requires
        can_dispatch(pool),
    ensures
        lowest_idle(pool.agents, next_agent(pool)),
{
    let n = choose|n: u32| idle_at(pool.agents, n);
    lemma_lowest_exists(pool.agents, n);
}

proof fn lemma_dispatched_consistent(pool: Pool)
    requires
        consistent(pool),
    ensures
        consistent(dispatched(pool)),
    decreases pool.pending.len(),
{
    if can_dispatch(pool) {
        law_next_agent_is_lowest_idle(pool);
        lemma_dispatched_consistent(dispatched_once(pool));
    }
}

/// Every event keeps the pool consistent.
pub proof fn law_step_keeps_consistency(pool: Pool, event: Event)
    requires
        consistent(pool),
    ensures
        consistent(pool_after(pool, event)),
{
    assert(consistent(changed(pool, event)));
    lemma_dispatched_consistent(changed(pool, event));
}

/// The empty pool is consistent, and nothing in it waits for an idle agent.
pub proof fn law_empty_pool()
    ensures
        consistent(empty_pool()),
        !can_dispatch(empty_pool()),
{
}

proof fn lemma_dispatched_settles(pool: Pool)
    ensures
        !can_dispatch(dispatched(pool)),
    decreases pool.pending.len(),
{
    if can_dispatch(pool) {
        lemma_dispatched_settles(dispatched_once(pool));
    }
}

/// No task waits while an agent is idle: where that held before an event, it holds
/// after it.
pub proof fn law_no_task_waits_for_an_idle_agent(pool: Pool, event: Event)
    requires
        !can_dispatch(pool),
    ensures
        !can_dispatch(pool_after(pool, event)),
{
    let next = changed(pool, event);
    if frees(pool, event) {
        lemma_dispatched_settles(next);
    } else {
        match event {
            Event::TaskWithdrawn { task_id } => {
                broadcast use vstd::seq_lib::group_filter_ensures;

                if pool.pending.len() == 0 {
                    reveal(Seq::filter);
                }
            },
            _ => {},
        }
        if can_dispatch(next) {
            let n = choose|n: u32| idle_at(next.agents, n);
            assert(idle_at(pool.agents, n));
        }
    }
}

/// A timeout with an epoch that is not its agent's current one changes nothing.
pub proof fn law_stale_timeout_changes_nothing(pool: Pool, epoch: Epoch)
    requires
        !current(pool, epoch),
    ensures
        pool_after(pool, Event::AgentTimedOut { epoch }) == pool,
        effects_of(pool, Event::AgentTimedOut { epoch }).len() == 0,
{
}

/// A timeout with an agent's current epoch removes the agent, and fails the task
/// that it had.
pub proof fn law_current_timeout_removes(pool: Pool, epoch: Epoch)
    requires
        current(pool, epoch),
    ensures
        !pool_after(pool, Event::AgentTimedOut { epoch }).agents.contains_key(epoch.agent_id.0),
        effects_of(pool, Event::AgentTimedOut { epoch }).last() == (Effect::DeregisterAgent {
            agent_id: epoch.agent_id,
        }),
        forall|task_id: TaskId|
            pool.agents[epoch.agent_id.0].status == (AgentStatus::Busy { task_id })
                ==> #[trigger] effects_of(pool, Event::AgentTimedOut { epoch }).contains(
                Effect::TaskFailed { task_id },
            ),
{
    let effects = effects_of(pool, Event::AgentTimedOut { epoch });
    assert forall|task_id: TaskId|
        pool.agents[epoch.agent_id.0].status == (AgentStatus::Busy {
            task_id,
        }) implies #[trigger] effects.contains(Effect::TaskFailed { task_id }) by {
        assert(effects[0] == (Effect::TaskFailed { task_id }));
    }
}

/// How an agent that was there before and is there after has moved: where its state
/// is another, its sequence number is higher.
pub open spec fn moved_on(before: AgentState, after: AgentState) -> bool {
    after == before || after.epoch.sequence > before.epoch.sequence
}

proof fn lemma_dispatched_moves_on(pool: Pool, n: u32)
    requires
        dispatch_fits(pool),
        pool.agents.contains_key(n),
    ensures
        dispatched(pool).agents.contains_key(n),
        moved_on(pool.agents[n], dispatched(pool).agents[n]),
    decreases pool.pending.len(),
{
    if can_dispatch(pool) {
        law_next_agent_is_lowest_idle(pool);
        lemma_dispatched_moves_on(dispatched_once(pool), n);
    }
}

/// Every transition between idle and busy moves an agent's sequence number up.
pub proof fn law_sequence_moves_up(pool: Pool, event: Event, n: u32)
    requires
        step_fits(pool, event),
        pool.agents.contains_key(n),
        pool_after(pool, event).agents.contains_key(n),
    ensures
        moved_on(pool.agents[n], pool_after(pool, event).agents[n]),
{
    if frees(pool, event) {
        lemma_dispatched_moves_on(changed(pool, event), n);
    }
}

/// Once an agent has changed between idle and busy, a timeout with the epoch from
/// before the change is stale.
pub proof fn law_work_makes_a_timeout_stale(pool: Pool, event: Event, epoch: Epoch)
    requires
        step_fits(pool, event),
        current(pool, epoch),
        pool_after(pool, event).agents.contains_key(epoch.agent_id.0),
        pool_after(pool, event).agents[epoch.agent_id.0] != pool.agents[epoch.agent_id.0],
    ensures
        !current(pool_after(pool, event), epoch),
{
    law_sequence_moves_up(pool, event, epoch.agent_id.0);
}

/// A registration of an agent that is known changes nothing; so does a second registration,
/// whatever the pool was before the first.
pub proof fn law_registration_is_idempotent(pool: Pool, agent_id: AgentId)
    ensures
        pool.agents.contains_key(agent_id.0) ==> {
            &&& pool_after(pool, Event::AgentRegistered { agent_id }) == pool
            &&& effects_of(pool, Event::AgentRegistered { agent_id }).len() == 0
        },
        ({
            let once = pool_after(pool, Event::AgentRegistered { agent_id });
            &&& pool_after(once, Event::AgentRegistered { agent_id }) == once
            &&& effects_of(once, Event::AgentRegistered { agent_id }).len() == 0
        }),
{
    if !pool.agents.contains_key(agent_id.0) {
        lemma_dispatched_keeps(changed(pool, Event::AgentRegistered { agent_id }), agent_id.0);
    }
}

proof fn lemma_dispatched_keeps(pool: Pool, n: u32)
    requires
        pool.agents.contains_key(n),
    ensures
        dispatched(pool).agents.contains_key(n),
    decreases pool.pending.len(),
{
    if can_dispatch(pool) {
        lemma_dispatched_keeps(dispatched_once(pool), n);
    }
}

/// An answer of an agent that is unknown or idle changes nothing, nor does the
/// departure of an unknown agent.
pub proof fn law_unexpected_events_change_nothing(pool: Pool, agent_id: AgentId)
    ensures
        !works(pool, agent_id) ==> {
            &&& pool_after(pool, Event::AgentResponded { agent_id }) == pool
            &&& effects_of(pool, Event::AgentResponded { agent_id }).len() == 0
        },
        !pool.agents.contains_key(agent_id.0) ==> {
            &&& pool_after(pool, Event::AgentDeregistered { agent_id }) == pool
            &&& effects_of(pool, Event::AgentDeregistered { agent_id }).len() == 0
        },
{
    if !pool.agents.contains_key(agent_id.0) {
        assert(pool.agents.remove(agent_id.0) =~= pool.agents);
    }
}

/// After a withdrawal the task no longer waits, all others wait in the same order,
/// the agents are as before, and nothing is to be done.
pub proof fn law_withdrawal(pool: Pool, task_id: TaskId)
    ensures
        ({
            let next = pool_after(pool, Event::TaskWithdrawn { task_id });
            &&& !next.pending.contains(task_id)
            &&& next.pending == pool.pending.filter(|other: TaskId| other != task_id)
            &&& forall|other: TaskId|
                other != task_id && #[trigger] pool.pending.contains(other)
                    ==> next.pending.contains(other)
            &&& !pool.pending.contains(task_id) ==> next.pending == pool.pending
            &&& next.agents == pool.agents
            &&& effects_of(pool, Event::TaskWithdrawn { task_id }).len() == 0
        }),
{
    broadcast use vstd::seq_lib::group_filter_ensures;

    let keep = |other: TaskId| other != task_id;
    let next = pool_after(pool, Event::TaskWithdrawn { task_id });
    assert forall|other: TaskId| other != task_id && #[trigger] pool.pending.contains(
        other,
    ) implies next.pending.contains(other) by {
        let k = choose|k: int| 0 <= k < pool.pending.len() && pool.pending[k] == other;
        assert(keep(pool.pending[k]));
    }
    if !pool.pending.contains(task_id) {
        lemma_filter_all(pool.pending, keep);
    }
}

proof fn lemma_filter_all(s: Seq<TaskId>, keep: spec_fn(TaskId) -> bool)
    requires
        forall|i: int| 0 <= i < s.len() ==> keep(#[trigger] s[i]),
    ensures
        s.filter(keep) == s,
    decreases s.len(),
{
    reveal(Seq::filter);
    if s.len() > 0 {
        lemma_filter_all(s.drop_last(), keep);
        assert(s.drop_last().push(s.last()) =~= s);
    }
}

/// Every agent is either idle or busy: the two counts add up to the number of agents.
pub proof fn law_idle_and_busy_add_up(pool: Pool)
    requires
        pool.agents.dom().finite(),
    ensures
        numbers_of(pool.agents, true).len() + numbers_of(pool.agents, false).len()
            == pool.agents.len(),
{
    let idle = numbers_of(pool.agents, true);
    let busy = numbers_of(pool.agents, false);
    assert(idle.disjoint(busy));
    assert(idle + busy =~= pool.agents.dom());
    vstd::set_lib::lemma_set_disjoint_lens(idle, busy);
}

/// Tasks go out in the order in which they wait, to agents in the order of their
/// numbers, and what did not go out still waits in order.
pub proof fn law_dispatch_order(pool: Pool)
    requires
        consistent(pool),
    ensures
        dispatches(pool).len() <= pool.pending.len(),
        dispatched(pool).pending == pool.pending.skip(dispatches(pool).len() as int),
        forall|k: int|
            #![trigger dispatches(pool)[k]]
            0 <= k < dispatches(pool).len() ==> {
                &&& dispatches(pool)[k] is DispatchTask
                &&& dispatches(pool)[k]->DispatchTask_task_id == pool.pending[k]
                &&& idle_at(pool.agents, dispatches(pool)[k]->DispatchTask_epoch.agent_id.0)
            },
        forall|j: int, k: int|
            #![trigger dispatches(pool)[j], dispatches(pool)[k]]
            0 <= j < k < dispatches(pool).len()
                ==> dispatches(pool)[j]->DispatchTask_epoch.agent_id.0
                < dispatches(pool)[k]->DispatchTask_epoch.agent_id.0,
    decreases pool.pending.len(),
{
    if can_dispatch(pool) {
        law_next_agent_is_lowest_idle(pool);
        let next = dispatched_once(pool);
        let n = next_agent(pool);
        assert(consistent(next));
        law_dispatch_order(next);
        let rest = dispatches(next);
        let all = dispatches(pool);
        assert forall|k: int| 0 <= k < rest.len() implies #[trigger] all[k + 1] == rest[k] by {}
        assert(all[0]->DispatchTask_epoch.agent_id == AgentId(n));
        assert forall|k: int|
            #![trigger all[k]]
            0 <= k < all.len() implies all[k] is DispatchTask && all[k]->DispatchTask_task_id
            == pool.pending[k] && idle_at(pool.agents, all[k]->DispatchTask_epoch.agent_id.0) && (k
            > 0 ==> n < all[k]->DispatchTask_epoch.agent_id.0) by {
            if k > 0 {
                assert(all[k] == rest[k - 1]);
                let m = rest[k - 1]->DispatchTask_epoch.agent_id.0;
                assert(idle_at(next.agents, m));
                assert(idle_at(pool.agents, m));
            }
        }
        assert forall|j: int, k: int|
            #![trigger all[j], all[k]]
            0 <= j < k < all.len() implies all[j]->DispatchTask_epoch.agent_id.0
            < all[k]->DispatchTask_epoch.agent_id.0 by {
            if j > 0 {
                assert(all[j] == rest[j - 1]);
                assert(all[k] == rest[k - 1]);
            }
        }
        assert(next.pending.skip(rest.len() as int) =~= pool.pending.skip(all.len() as int));
    } else {
        assert(pool.pending.skip(0) =~= pool.pending);
    }
}

/// The agents at work on the task.
pub open spec fn workers_on(pool: Pool, task_id: TaskId) -> Set<u32> {
    pool.agents.dom().filter(|n: u32| pool.agents[n].status == (AgentStatus::Busy { task_id }))
}

/// How many times the pool holds a task: in the queue, or with an agent.
pub open spec fn held(pool: Pool, task_id: TaskId) -> nat {
    pool.pending.to_multiset().count(task_id) + workers_on(pool, task_id).len()
}

/// How often a task is answered: completed or failed.
pub open spec fn answers(effects: Seq<Effect>, task_id: TaskId) -> nat
    decreases effects.len(),
{
    if effects.len() == 0 {
        0
    } else {
        answers(effects.drop_last(), task_id) + match effects.last() {
            Effect::TaskCompleted { agent_id, task_id: done } => if done == task_id {
                1nat
            } else {
                0nat
            },
            Effect::TaskFailed { task_id: failed } => if failed == task_id {
                1nat
            } else {
                0nat
            },
            _ => 0nat,
        }
    }
}

proof fn lemma_dispatch_holds(pool: Pool, id: TaskId)
    requires
        consistent(pool),
    ensures
        held(dispatched(pool), id) == held(pool, id),
    decreases pool.pending.len(),
{
    if can_dispatch(pool) {
        law_next_agent_is_lowest_idle(pool);
        let next = dispatched_once(pool);
        let n = next_agent(pool);
        assert(consistent(next));
        lemma_dispatch_holds(next, id);
        pool.pending.to_multiset_ensures();
        assert(pool.pending.skip(1) =~= pool.pending.remove(0));
        if pool.pending[0] == id {
            assert(workers_on(next, id) =~= workers_on(pool, id).insert(n));
            assert(pool.pending.contains(id));
        } else {
            assert(workers_on(next, id) =~= workers_on(pool, id));
        }
    }
}

proof fn lemma_dispatches_answer_nothing(pool: Pool, told: Seq<Effect>, id: TaskId)
    ensures
        answers(told + dispatches(pool), id) == answers(told, id),
    decreases pool.pending.len(),
{
    if can_dispatch(pool) {
        let next = dispatched_once(pool);
        let first = dispatches(pool)[0];
        let more = told.push(first);
        assert(told + dispatches(pool) =~= more + dispatches(next));
        lemma_dispatches_answer_nothing(next, more, id);
        assert(more.drop_last() =~= told);
    } else {
        assert(told + dispatches(pool) =~= told);
    }
}

proof fn lemma_filter_counts(s: Seq<TaskId>, gone: TaskId, id: TaskId)
    ensures
        s.filter(|other: TaskId| other != gone).to_multiset().count(id) == if id == gone {
            0nat
        } else {
            s.to_multiset().count(id)
        },
    decreases s.len(),
{
    let keep = |other: TaskId| other != gone;
    reveal(Seq::filter);
    s.to_multiset_ensures();
    s.filter(keep).to_multiset_ensures();
    if s.len() > 0 {
        let early = s.drop_last();
        lemma_filter_counts(early, gone, id);
        early.to_multiset_ensures();
        early.filter(keep).to_multiset_ensures();
        assert(early.push(s.last()) =~= s);
    }
}

/// No event loses a task or answers it twice: what the pool holds of a task
/// afterwards, with the answers given, is what it held before, with what came in and
/// without what was withdrawn from the queue.
pub proof fn law_step_conserves_tasks(pool: Pool, event: Event, id: TaskId)
    requires
        consistent(pool),
    ensures
        held(pool_after(pool, event), id) + answers(effects_of(pool, event), id) + (if event == (
        Event::TaskWithdrawn { task_id: id }) {
            pool.pending.to_multiset().count(id)
        } else {
            0nat
        }) == held(pool, id) + (if event == (Event::TaskSubmitted { task_id: id }) {
            1nat
        } else {
            0nat
        }),
{
    let next = changed(pool, event);
    assert(consistent(next));
    lemma_dispatch_holds(next, id);
    lemma_dispatches_answer_nothing(next, notices(pool, event), id);
    reveal_with_fuel(answers, 3);
    pool.pending.to_multiset_ensures();
    match event {
        Event::TaskSubmitted { task_id } => {
            assert(workers_on(next, id) =~= workers_on(pool, id));
        },
        Event::TaskWithdrawn { task_id } => {
            assert(workers_on(next, id) =~= workers_on(pool, id));
            lemma_filter_counts(pool.pending, task_id, id);
        },
        Event::AgentRegistered { agent_id } => {
            assert(workers_on(next, id) =~= workers_on(pool, id));
        },
        Event::AgentDeregistered { agent_id } => {
            assert(workers_on(next, id) =~= workers_on(pool, id).remove(agent_id.0));
        },
        Event::AgentResponded { agent_id } => {
            if works(pool, agent_id) {
                assert(workers_on(next, id) =~= workers_on(pool, id).remove(agent_id.0));
            }
        },
        Event::AgentTimedOut { epoch } => {
            if current(pool, epoch) {
                assert(workers_on(next, id) =~= workers_on(pool, id).remove(epoch.agent_id.0));
            }
        },
    }
}

} // verus!
