//! What holds of the pool of agents with directories, whatever comes.
use super::polling::{
    after_completion, after_dispatch, busy_agents, dispatched, distinct, first_ready, flight_of,
    given, known, lemma_filter_keeps, lemma_first_ready, lemma_flight, only_agents, task_file,
    with_agents, with_flight, without_stale, Agent, Output, ReplyTo, Roster, Sent,
};
use vstd::prelude::*;

verus! {

proof fn lemma_with_flight(agents: Seq<Agent>, name: Seq<char>, flight: Option<ReplyTo>)
    requires
        distinct(agents),
    ensures
        distinct(with_flight(agents, name, flight)),
        known(agents, name) ==> flight_of(with_flight(agents, name, flight), name) == flight,
        forall|other: Seq<char>|
            other != name ==> #[trigger] flight_of(with_flight(agents, name, flight), other)
                == flight_of(agents, other),
        forall|other: Seq<char>|
            #[trigger] known(with_flight(agents, name, flight), other) == known(agents, other),
    decreases agents.len(),
{
    let after = with_flight(agents, name, flight);
    assert forall|i: int, j: int| 0 <= i < j < after.len() implies (#[trigger] after[i]).name != (
    #[trigger] after[j]).name by {
        assert(after[i].name == agents[i].name && after[j].name == agents[j].name);
    }
    assert forall|other: Seq<char>| #[trigger] known(after, other) == known(agents, other) by {
        if known(after, other) {
            let i = choose|i: int| 0 <= i < after.len() && (#[trigger] after[i]).name == other;
            assert(agents[i].name == other);
        }
        if known(agents, other) {
            let i = choose|i: int| 0 <= i < agents.len() && (#[trigger] agents[i]).name == other;
            assert(after[i].name == other);
        }
    }
    if known(agents, name) {
        let i = choose|i: int| 0 <= i < agents.len() && (#[trigger] agents[i]).name == name;
        assert(after[i] == (Agent { name, in_flight: flight }));
        lemma_flight(after, name, i);
    }
    if agents.len() > 0 {
        let early = agents.drop_last();
        assert(distinct(early)) by {
            assert forall|i: int, j: int| 0 <= i < j < early.len() implies (#[trigger] early[i]).name
                != (#[trigger] early[j]).name by {
                assert(early[i] == agents[i] && early[j] == agents[j]);
            }
        }
        lemma_with_flight(early, name, flight);
        assert(after.drop_last() =~= with_flight(early, name, flight));
        assert forall|other: Seq<char>| other != name implies #[trigger] flight_of(after, other)
            == flight_of(agents, other) by {
            assert(flight_of(after.drop_last(), other) == flight_of(early, other));
        }
    }
}

proof fn lemma_busy_update(agents: Seq<Agent>, i: int, flight: Option<ReplyTo>)
    requires
        distinct(agents),
        0 <= i < agents.len(),
    ensures
        busy_agents(with_flight(agents, agents[i].name, flight)) == busy_agents(agents) + (
        if flight is Some {
            1int
        } else {
            0
        }) - (if agents[i].in_flight is Some {
            1int
        } else {
            0
        }),
    decreases agents.len(),
{
    let name = agents[i].name;
    let after = with_flight(agents, name, flight);
    let early = agents.drop_last();
    assert(distinct(early)) by {
        assert forall|a: int, b: int| 0 <= a < b < early.len() implies (#[trigger] early[a]).name
            != (#[trigger] early[b]).name by {
            assert(early[a] == agents[a] && early[b] == agents[b]);
        }
    }
    assert(after.drop_last() =~= with_flight(early, name, flight));
    if i == agents.len() - 1 {
        assert(with_flight(early, name, flight) =~= early) by {
            assert forall|k: int| 0 <= k < early.len() implies with_flight(early, name, flight)[k]
                == early[k] by {
                assert(agents[k].name != agents[i].name);
            }
        }
    } else {
        assert(early[i] == agents[i]);
        lemma_busy_update(early, i, flight);
        assert(agents[i].name != agents[agents.len() - 1].name);
        assert(after.last() == agents.last());
    }
}

proof fn lemma_busy_stale(agents: Seq<Agent>, present: Seq<Seq<char>>)
    ensures
        busy_agents(without_stale(agents, present)) == busy_agents(agents),
    decreases agents.len(),
{
    reveal(Seq::filter);
    let keep = |agent: Agent| agent.in_flight is Some || present.contains(agent.name);
    if agents.len() > 0 {
        let early = agents.drop_last();
        lemma_busy_stale(early, present);
        let before = early.filter(keep);
        if keep(agents.last()) {
            assert(agents.filter(keep) == before.push(agents.last()));
            assert(before.push(agents.last()).drop_last() =~= before);
        }
    }
}

proof fn lemma_stale_flight(agents: Seq<Agent>, present: Seq<Seq<char>>, name: Seq<char>)
    requires
        distinct(agents),
    ensures
        flight_of(without_stale(agents, present), name) == flight_of(agents, name),
{
    let keep = |agent: Agent| agent.in_flight is Some || present.contains(agent.name);
    let left = agents.filter(keep);
    lemma_filter_keeps(agents, keep);
    if known(agents, name) {
        let i = choose|i: int| 0 <= i < agents.len() && (#[trigger] agents[i]).name == name;
        lemma_flight(agents, name, i);
        if keep(agents[i]) {
            let k = choose|k: int| 0 <= k < left.len() && left[k] == agents[i];
            lemma_flight(left, name, k);
        } else if known(left, name) {
            let k = choose|k: int| 0 <= k < left.len() && (#[trigger] left[k]).name == name;
            assert(agents.contains(left[k]));
            let m = choose|m: int| 0 <= m < agents.len() && agents[m] == left[k];
            assert(m == i) by {
                if m < i {
                    assert(agents[m].name != agents[i].name);
                } else if i < m {
                    assert(agents[i].name != agents[m].name);
                }
            }
        } else {
            super::polling::lemma_no_flight(left, name);
        }
    } else {
        super::polling::lemma_no_flight(agents, name);
        if known(left, name) {
            let k = choose|k: int| 0 <= k < left.len() && (#[trigger] left[k]).name == name;
            assert(agents.contains(left[k]));
            let m = choose|m: int| 0 <= m < agents.len() && agents[m] == left[k];
            assert(agents[m].name == name);
        }
        super::polling::lemma_no_flight(left, name);
    }
}

proof fn lemma_stale_leaves_none_ready(agents: Seq<Agent>, present: Seq<Seq<char>>)
    requires
        first_ready(agents, present) is None,
        distinct(agents),
    ensures
        first_ready(without_stale(agents, present), present) is None,
{
    let keep = |agent: Agent| agent.in_flight is Some || present.contains(agent.name);
    let left = agents.filter(keep);
    lemma_filter_keeps(agents, keep);
    lemma_first_ready(agents, present);
    lemma_first_ready(left, present);
    match first_ready(left, present) {
        Some(name) => {
            let i = choose|i: int|
                0 <= i < left.len() && (#[trigger] left[i]).name == name && left[i].in_flight is None;
            assert(agents.contains(left[i]));
            let m = choose|m: int| 0 <= m < agents.len() && agents[m] == left[i];
            assert(agents[m].in_flight is None);
            assert(!present.contains(agents[m].name));
        },
        None => {},
    }
}

/// Tasks go out in the order in which they came, each to an agent that had none and whose
/// directory is there. Each agent that got a task has it in hand, whatever other tasks went
/// out, and agents that had a task before keep it. Afterwards no task waits while an agent is
/// free. No task is lost: as many agents more have a task as tasks went out.
pub proof fn law_dispatch(pool: Roster, present: Seq<Seq<char>>)
    requires
        distinct(pool.agents),
    ensures
        ({
            let sent = dispatched(pool, present);
            let after = after_dispatch(pool, present);
            &&& sent.len() <= pool.pending.len()
            &&& after.pending == pool.pending.skip(sent.len() as int)
            &&& forall|i: int|
                0 <= i < sent.len() ==> {
                    &&& (#[trigger] sent[i]).content == pool.pending[i].content
                    &&& sent[i].path == task_file(pool.agents_dir, sent[i].agent)
                    &&& present.contains(sent[i].agent)
                    &&& known(pool.agents, sent[i].agent)
                    &&& flight_of(pool.agents, sent[i].agent) is None
                    &&& flight_of(after.agents, sent[i].agent) == Some(pool.pending[i].respond_to)
                }
            &&& forall|name: Seq<char>|
                flight_of(pool.agents, name) is Some ==> #[trigger] flight_of(after.agents, name)
                    == flight_of(pool.agents, name)
            &&& after.pending.len() == 0 || first_ready(after.agents, present) is None
            &&& busy_agents(after.agents) == busy_agents(pool.agents) + sent.len()
        }),
    decreases pool.pending.len(),
{
    let sent = dispatched(pool, present);
    let after = after_dispatch(pool, present);
    lemma_first_ready(pool.agents, present);
    match first_ready(pool.agents, present) {
        None => {
            assert(pool.pending.skip(0) =~= pool.pending);
            lemma_stale_leaves_none_ready(pool.agents, present);
            lemma_busy_stale(pool.agents, present);
            assert forall|name: Seq<char>| flight_of(pool.agents, name) is Some implies #[trigger] flight_of(
                after.agents,
                name,
            ) == flight_of(pool.agents, name) by {
                lemma_stale_flight(pool.agents, present, name);
            }
        },
        Some(name) => {
            if pool.pending.len() == 0 {
                assert(pool.pending.skip(0) =~= pool.pending);
            } else {
                let next = given(pool, name);
                let target = pool.pending[0].respond_to;
                let i = choose|i: int|
                    0 <= i < pool.agents.len() && (#[trigger] pool.agents[i]).name == name
                        && pool.agents[i].in_flight is None;
                lemma_flight(pool.agents, name, i);
                lemma_with_flight(pool.agents, name, Some(target));
                lemma_busy_update(pool.agents, i, Some(target));
                law_dispatch(next, present);
                let rest = dispatched(next, present);
                assert(sent =~= seq![
                    Sent {
                        agent: name,
                        path: task_file(pool.agents_dir, name),
                        content: pool.pending[0].content,
                    },
                ] + rest);
                assert(next.pending.skip(rest.len() as int) =~= pool.pending.skip(
                    sent.len() as int,
                ));
                assert forall|k: int| 0 <= k < sent.len() implies {
                    &&& (#[trigger] sent[k]).content == pool.pending[k].content
                    &&& sent[k].path == task_file(pool.agents_dir, sent[k].agent)
                    &&& present.contains(sent[k].agent)
                    &&& known(pool.agents, sent[k].agent)
                    &&& flight_of(pool.agents, sent[k].agent) is None
                    &&& flight_of(after.agents, sent[k].agent) == Some(pool.pending[k].respond_to)
                } by {
                    if k == 0 {
                        assert(flight_of(next.agents, name) == Some(target));
                        assert(flight_of(after.agents, name) == Some(target));
                    } else {
                        assert(sent[k] == rest[k - 1]);
                        assert(next.pending[k - 1] == pool.pending[k]);
                        let other = rest[k - 1].agent;
                        assert(flight_of(next.agents, other) is None);
                        assert(other != name);
                        assert(flight_of(next.agents, other) == flight_of(pool.agents, other));
                        assert(known(next.agents, other) == known(pool.agents, other));
                    }
                }
                assert forall|other: Seq<char>| flight_of(pool.agents, other) is Some implies #[trigger] flight_of(
                    after.agents,
                    other,
                ) == flight_of(pool.agents, other) by {
                    assert(other != name);
                    assert(flight_of(next.agents, other) == flight_of(pool.agents, other));
                }
            }
        },
    }
}

/// No agent gets two tasks at once.
pub proof fn law_dispatch_once_each(pool: Roster, present: Seq<Seq<char>>, i: int, j: int)
    requires
        distinct(pool.agents),
        0 <= i < j < dispatched(pool, present).len(),
    ensures
        dispatched(pool, present)[i].agent != dispatched(pool, present)[j].agent,
    decreases pool.pending.len(),
{
    lemma_first_ready(pool.agents, present);
    let name = first_ready(pool.agents, present).unwrap();
    let next = given(pool, name);
    let target = pool.pending[0].respond_to;
    lemma_with_flight(pool.agents, name, Some(target));
    let rest = dispatched(next, present);
    assert(dispatched(pool, present)[j] == rest[j - 1]);
    if i == 0 {
        law_dispatch(next, present);
        assert(flight_of(next.agents, rest[j - 1].agent) is None);
        assert(flight_of(next.agents, name) == Some(target));
    } else {
        assert(dispatched(pool, present)[i] == rest[i - 1]);
        law_dispatch_once_each(next, present, i - 1, j - 1);
    }
}

/// An answer that was read frees its agent and no other, and one task less is out. An answer
/// that is not there changes nothing.
pub proof fn law_completion_frees_one(pool: Roster, name: Seq<char>, output: Output)
    requires
        distinct(pool.agents),
        flight_of(pool.agents, name) is Some,
    ensures
        ({
            let after = after_completion(pool, name, output);
            if output is Missing {
                after == pool
            } else {
                &&& flight_of(after.agents, name) is None
                &&& known(after.agents, name)
                &&& forall|other: Seq<char>|
                    other != name ==> #[trigger] flight_of(after.agents, other) == flight_of(
                        pool.agents,
                        other,
                    )
                &&& busy_agents(after.agents) + 1 == busy_agents(pool.agents)
                &&& after.pending == pool.pending
            }
        }),
{
    if !known(pool.agents, name) {
        super::polling::lemma_no_flight(pool.agents, name);
    }
    let i = choose|i: int| 0 <= i < pool.agents.len() && (#[trigger] pool.agents[i]).name == name;
    lemma_flight(pool.agents, name, i);
    lemma_with_flight(pool.agents, name, None);
    lemma_busy_update(pool.agents, i, None);
}

/// An agent that has no task cannot complete one: its answer changes nothing.
pub proof fn law_no_answer_without_task(pool: Roster, name: Seq<char>, output: Output)
    requires
        flight_of(pool.agents, name) is None,
    ensures
        after_completion(pool, name, output) == pool,
{
}

proof fn lemma_with_agents(agents: Seq<Agent>, names: Seq<Seq<char>>)
    requires
        distinct(agents),
    ensures
        distinct(with_agents(agents, names)),
        forall|name: Seq<char>|
            #[trigger] known(with_agents(agents, names), name) == (known(agents, name)
                || names.contains(name)),
        forall|i: int|
            0 <= i < agents.len() ==> #[trigger] with_agents(agents, names).contains(agents[i]),
    decreases names.len(),
{
    if names.len() > 0 {
        let early = names.drop_last();
        lemma_with_agents(agents, early);
        let before = with_agents(agents, early);
        let after = with_agents(agents, names);
        let last = names.last();
        assert(forall|i: int| 0 <= i < before.len() ==> after[i] == before[i]);
        assert forall|i: int, j: int| 0 <= i < j < after.len() implies (#[trigger] after[i]).name
            != (#[trigger] after[j]).name by {
            assert(after[i] == before[i]);
            if j < before.len() {
                assert(after[j] == before[j]);
            }
        }
        assert forall|name: Seq<char>| #[trigger] known(after, name) == (known(agents, name)
            || names.contains(name)) by {
            assert(known(before, name) == (known(agents, name) || early.contains(name)));
            if known(before, name) {
                let i = choose|i: int| 0 <= i < before.len() && (#[trigger] before[i]).name == name;
                assert(after[i].name == name);
            }
            if known(after, name) {
                let i = choose|i: int| 0 <= i < after.len() && (#[trigger] after[i]).name == name;
                if i < before.len() {
                    assert(before[i].name == name);
                } else {
                    assert(name == last);
                    assert(names[names.len() - 1] == name);
                }
            }
            if names.contains(name) {
                let i = choose|i: int| 0 <= i < names.len() && names[i] == name;
                if i < early.len() {
                    assert(early[i] == name);
                } else {
                    assert(name == last);
                    if !known(before, name) {
                        assert(after[after.len() - 1].name == name);
                    }
                }
            }
            if early.contains(name) {
                let i = choose|i: int| 0 <= i < early.len() && early[i] == name;
                assert(names[i] == name);
            }
        }
        assert forall|i: int| 0 <= i < agents.len() implies #[trigger] after.contains(agents[i]) by {
            assert(before.contains(agents[i]));
            let k = choose|k: int| 0 <= k < before.len() && before[k] == agents[i];
            assert(after[k] == agents[i]);
        }
    } else {
        assert forall|i: int| 0 <= i < agents.len() implies #[trigger] with_agents(
            agents,
            names,
        ).contains(agents[i]) by {}
    }
}

/// After the agents' directories were looked through, the agents are those that have one, and
/// each that was there before has the task that it had.
pub proof fn law_scan_follows_directories(agents: Seq<Agent>, directories: Seq<Seq<char>>)
    requires
        distinct(agents),
    ensures
        ({
            let after = only_agents(with_agents(agents, directories), directories);
            &&& distinct(after)
            &&& forall|name: Seq<char>| #[trigger] known(after, name) == directories.contains(name)
            &&& forall|i: int|
                0 <= i < agents.len() && directories.contains((#[trigger] agents[i]).name)
                    ==> after.contains(agents[i])
        }),
{
    let all = with_agents(agents, directories);
    let keep = |agent: Agent| directories.contains(agent.name);
    let after = all.filter(keep);
    lemma_with_agents(agents, directories);
    lemma_filter_keeps(all, keep);
    assert forall|name: Seq<char>| #[trigger] known(after, name) == directories.contains(name) by {
        if known(after, name) {
            let i = choose|i: int| 0 <= i < after.len() && (#[trigger] after[i]).name == name;
            assert(keep(after[i]));
        }
        if directories.contains(name) {
            assert(known(all, name));
            let i = choose|i: int| 0 <= i < all.len() && (#[trigger] all[i]).name == name;
            assert(keep(all[i]));
            let k = choose|k: int| 0 <= k < after.len() && after[k] == all[i];
            assert(after[k].name == name);
        }
    }
    assert forall|i: int| 0 <= i < agents.len() && directories.contains((#[trigger] agents[i]).name) implies after.contains(
        agents[i],
    ) by {
        assert(all.contains(agents[i]));
        let k = choose|k: int| 0 <= k < all.len() && all[k] == agents[i];
        assert(keep(all[k]));
    }
}

} // verus!
