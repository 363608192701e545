//! What a pool of agents with directories does for each agent and each task.
use super::polling::{
    after_dispatch, busy_names, completes, distinct, first_ready, flight_of, known,
    lemma_filter_keeps, lemma_flight, lemma_no_flight, relative, response_file, task_file,
    taken_from, with_agent, without_agent, without_stale, Agent, Completion, Order, Output,
    PendingEntry, ReplyTo, Roster,
};
use super::polling_laws::law_completion_frees_one;
use super::polling_loop::{after_event, step_after, DaemonSignals, LoopStep, SeenPath};
use crate::fs_events::EventKind;
use crate::path::{joined, parts, Parts};
use crate::response::Response;
use crate::time::Duration;
use vstd::prelude::*;

verus! {

/// The agent that gets the next task is the first, in order, that has none and whose directory is
/// there; there is none exactly where no agent is such.
pub proof fn law_first_free_agent(agents: Seq<Agent>, present: Seq<Seq<char>>, at: int)
    requires
        0 <= at <= agents.len(),
        forall|i: int|
            0 <= i < at ==> (#[trigger] agents[i]).in_flight is Some || !present.contains(
                agents[i].name,
            ),
        at < agents.len() ==> agents[at].in_flight is None && present.contains(agents[at].name),
    ensures
        first_ready(agents, present) == if at < agents.len() {
            Some(agents[at].name)
        } else {
            None
        },
    decreases at,
{
    if at > 0 {
        let later = agents.drop_first();
        if at < agents.len() {
            assert(later[at - 1] == agents[at]);
        }
        assert forall|i: int| 0 <= i < at - 1 implies (#[trigger] later[i]).in_flight is Some
            || !present.contains(later[i].name) by {
            assert(later[i] == agents[i + 1]);
        }
        assert(agents[0].in_flight is Some || !present.contains(agents[0].name));
        law_first_free_agent(later, present, at - 1);
    }
}

/// An agent that is taken in is known, without a task where it was not known before, and every
/// other agent is as it was.
pub proof fn law_agent_is_taken_in(agents: Seq<Agent>, name: Seq<char>, other: Seq<char>)
    requires
        distinct(agents),
    ensures
        ({
            let after = with_agent(agents, name);
            &&& distinct(after)
            &&& known(after, name)
            &&& flight_of(after, name) == flight_of(agents, name)
            &&& other != name ==> known(after, other) == known(agents, other) && flight_of(
                after,
                other,
            ) == flight_of(agents, other)
            &&& agents.len() <= after.len()
            &&& after.take(agents.len() as int) == agents
        }),
{
    let after = with_agent(agents, name);
    if !known(agents, name) {
        assert(after.drop_last() =~= agents);
        assert(after[agents.len() as int].name == name);
        lemma_no_flight(agents, name);
        assert(after.take(agents.len() as int) =~= agents);
        assert forall|i: int, j: int| 0 <= i < j < after.len() implies (#[trigger] after[i]).name
            != (#[trigger] after[j]).name by {
            assert(after[i] == agents[i]);
            if j < agents.len() {
                assert(after[j] == agents[j]);
            }
        }
        if known(agents, other) {
            let i = choose|i: int| 0 <= i < agents.len() && (#[trigger] agents[i]).name == other;
            assert(after[i].name == other);
        }
        if known(after, other) && other != name {
            let i = choose|i: int| 0 <= i < after.len() && (#[trigger] after[i]).name == other;
            assert(agents[i].name == other);
        }
    } else {
        assert(agents.take(agents.len() as int) =~= agents);
    }
}

/// An agent that is let go is not known any more, and every other agent is as it was.
pub proof fn law_agent_is_let_go(agents: Seq<Agent>, name: Seq<char>, other: Seq<char>)
    requires
        distinct(agents),
    ensures
        ({
            let after = without_agent(agents, name);
            &&& distinct(after)
            &&& !known(after, name)
            &&& other != name ==> known(after, other) == known(agents, other) && flight_of(
                after,
                other,
            ) == flight_of(agents, other)
        }),
{
    let keep = |agent: Agent| agent.name != name;
    lemma_filtered(agents, keep, other);
    lemma_filtered(agents, keep, name);
    let after = without_agent(agents, name);
    if known(after, name) {
        let i = choose|i: int| 0 <= i < after.len() && (#[trigger] after[i]).name == name;
        lemma_filter_keeps(agents, keep);
        assert(keep(after[i]));
    }
}

proof fn lemma_filtered(agents: Seq<Agent>, keep: spec_fn(Agent) -> bool, name: Seq<char>)
    requires
        distinct(agents),
    ensures
        distinct(agents.filter(keep)),
        (forall|i: int| 0 <= i < agents.len() && (#[trigger] agents[i]).name == name ==> keep(
            agents[i],
        )) ==> known(agents.filter(keep), name) == known(agents, name) && flight_of(
            agents.filter(keep),
            name,
        ) == flight_of(agents, name),
{
    let left = agents.filter(keep);
    lemma_filter_keeps(agents, keep);
    if forall|i: int| 0 <= i < agents.len() && (#[trigger] agents[i]).name == name ==> keep(
        agents[i],
    ) {
        if known(agents, name) {
            let i = choose|i: int| 0 <= i < agents.len() && (#[trigger] agents[i]).name == name;
            assert(keep(agents[i]));
            assert(left.contains(agents[i]));
            let k = choose|k: int| 0 <= k < left.len() && left[k] == agents[i];
            assert(left[k].name == name);
            lemma_flight(agents, name, i);
            lemma_flight(left, name, k);
        } else {
            lemma_no_flight(agents, name);
            if known(left, name) {
                let k = choose|k: int| 0 <= k < left.len() && (#[trigger] left[k]).name == name;
                assert(agents.contains(left[k]));
                let m = choose|m: int| 0 <= m < agents.len() && agents[m] == left[k];
                assert(agents[m].name == name);
            }
            lemma_no_flight(left, name);
        }
    }
}

/// Giving out tasks loses no agent that has a task or a directory.
pub proof fn law_dispatch_keeps_agents(pool: Roster, present: Seq<Seq<char>>, name: Seq<char>)
    requires
        distinct(pool.agents),
        known(pool.agents, name),
        present.contains(name) || flight_of(pool.agents, name) is Some,
    ensures
        known(after_dispatch(pool, present).agents, name),
    decreases pool.pending.len(),
{
    let keep = |agent: Agent| agent.in_flight is Some || present.contains(agent.name);
    match first_ready(pool.agents, present) {
        None => {
            let i = choose|i: int|
                0 <= i < pool.agents.len() && (#[trigger] pool.agents[i]).name == name;
            lemma_flight(pool.agents, name, i);
            lemma_filter_keeps(pool.agents, keep);
            assert(keep(pool.agents[i]));
            let left = pool.agents.filter(keep);
            assert(left == without_stale(pool.agents, present));
            assert(left.contains(pool.agents[i]));
            let k = choose|k: int| 0 <= k < left.len() && left[k] == pool.agents[i];
            assert(left[k].name == name);
        },
        Some(chosen) => {
            if pool.pending.len() > 0 {
                let next = super::polling::given(pool, chosen);
                let after = next.agents;
                let i = choose|i: int|
                    0 <= i < pool.agents.len() && (#[trigger] pool.agents[i]).name == name;
                assert(after[i].name == name);
                assert forall|a: int, b: int| 0 <= a < b < after.len() implies (
                #[trigger] after[a]).name != (#[trigger] after[b]).name by {
                    assert(after[a].name == pool.agents[a].name);
                    assert(after[b].name == pool.agents[b].name);
                }
                lemma_flight(pool.agents, name, i);
                lemma_flight(after, name, i);
                law_dispatch_keeps_agents(next, present, name);
            }
        },
    }
}

/// A task goes to the directory of the agent that it is for, and its answer is looked for there.
pub proof fn law_agent_files(agents_dir: Seq<char>, name: Seq<char>)
    ensures
        task_file(agents_dir, name) == joined(joined(agents_dir, name), "task.json"@),
        response_file(agents_dir, name) == joined(joined(agents_dir, name), "response.json"@),
{
}

/// The answers that are looked for are those of the agents that have a task, and of no other.
pub proof fn law_answers_are_looked_for(agents: Seq<Agent>, name: Seq<char>)
    ensures
        busy_names(agents).contains(name) <==> exists|i: int|
            0 <= i < agents.len() && (#[trigger] agents[i]).name == name
                && agents[i].in_flight is Some,
    decreases agents.len(),
{
    if agents.len() > 0 {
        let early = agents.drop_last();
        let all = busy_names(agents);
        let before = busy_names(early);
        law_answers_are_looked_for(early, name);
        assert(agents[agents.len() - 1] == agents.last());
        if before.contains(name) {
            let k = choose|k: int| 0 <= k < before.len() && before[k] == name;
            assert(all[k] == name);
            let i = choose|i: int|
                0 <= i < early.len() && (#[trigger] early[i]).name == name
                    && early[i].in_flight is Some;
            assert(agents[i] == early[i]);
        }
        if agents.last().in_flight is Some {
            assert(all[before.len() as int] == agents.last().name);
        }
        if all.contains(name) {
            let k = choose|k: int| 0 <= k < all.len() && all[k] == name;
            if k < before.len() {
                assert(before[k] == name);
            }
        }
        if exists|i: int|
            0 <= i < agents.len() && (#[trigger] agents[i]).name == name
                && agents[i].in_flight is Some {
            let i = choose|i: int|
                0 <= i < agents.len() && (#[trigger] agents[i]).name == name
                    && agents[i].in_flight is Some;
            if i < early.len() {
                assert(early[i] == agents[i]);
            }
        }
    }
}

/// Tasks that were left in directories are taken in order, each with its content and with its own
/// directory for its answer: what two lists of directories come to, one after the other, is what
/// the first comes to followed by what the second comes to, and one directory comes to its task
/// exactly where it is a directory with a task that could be taken and without an answer.
pub proof fn law_left_tasks_are_taken(first: Seq<PendingEntry>, second: Seq<PendingEntry>)
    ensures
        taken_from(first + second) == taken_from(first) + taken_from(second),
        first.len() == 1 ==> taken_from(first) == if first[0].is_dir && first[0].task_exists
            && !first[0].response_exists && first[0].taken is Some {
            seq![
                Order {
                    content: first[0].taken->0@,
                    respond_to: ReplyTo::File(joined(first[0].path@, "response.json"@)),
                },
            ]
        } else {
            Seq::empty()
        },
    decreases second.len(),
{
    if first.len() == 1 {
        assert(first.drop_last() =~= Seq::empty());
        assert(first.last() == first[0]);
        assert(taken_from(first.drop_last()) =~= Seq::empty());
        assert(taken_from(first) =~= if first[0].is_dir && first[0].task_exists
            && !first[0].response_exists && first[0].taken is Some {
            seq![
                Order {
                    content: first[0].taken->0@,
                    respond_to: ReplyTo::File(joined(first[0].path@, "response.json"@)),
                },
            ]
        } else {
            Seq::empty()
        });
    }
    if second.len() == 0 {
        assert(first + second =~= first);
        assert(taken_from(first) + taken_from(second) =~= taken_from(first));
    } else {
        let early = second.drop_last();
        law_left_tasks_are_taken(first, early);
        assert((first + second).drop_last() =~= first + early);
        assert((first + second).last() == second.last());
        assert(taken_from(first + second) =~= taken_from(first) + taken_from(second));
    }
}

/// The answer of an agent goes to whoever gave the task that it has, with what the agent wrote as
/// its output, word for word; both files of the task are removed.
pub proof fn law_answer_goes_to_its_submitter(
    pool: Roster,
    name: Seq<char>,
    response_path: Seq<char>,
    stdout: String,
    target: ReplyTo,
    r: Completion,
)
    requires
        flight_of(pool.agents, name) == Some(target),
        completes(pool, name, response_path, Output::Content(stdout), r),
    ensures
        r matches Completion::Done { task_path, response_path: removed, respond_to, response } && {
            &&& respond_to@ == target
            &&& response matches Response::Processed { stdout: told, stderr }
            &&& told@ == stdout@
            &&& stderr is None
            &&& task_path@ == joined(joined(pool.agents_dir, name), "task.json"@)
            &&& removed@ == response_path
        },
{
}

/// Whether a path is that of an agent's directory.
pub open spec fn is_agent_dir(path: Seq<char>, agents_dir: Seq<char>, name: Seq<char>) -> bool {
    parts(path) == crate::path::inner(parts(agents_dir), name)
}

proof fn lemma_relative_one(path: Parts, dir: Parts, name: Seq<char>)
    requires
        path == crate::path::inner(dir, name),
    ensures
        relative(path, dir) == Some(seq![name]),
{
    assert(path.names.take(dir.names.len() as int) =~= dir.names);
    assert(path.names.skip(dir.names.len() as int) =~= seq![name]);
}

/// An agent is let go when its directory is removed, with the task that it has, and no other is;
/// an agent whose directory changes and is there is known from then on.
pub proof fn law_agents_follow_their_directories(
    pool: Roster,
    kind: EventKind,
    seen: SeenPath,
    name: Seq<char>,
    other: Seq<char>,
)
    requires
        distinct(pool.agents),
        is_agent_dir(seen.path@, pool.agents_dir, name),
    ensures
        ({
            let after = after_event(pool, kind, seen);
            &&& kind is Remove ==> !known(after.agents, name)
            &&& !(kind is Remove) && seen.agent_dir_exists ==> known(after.agents, name)
                && flight_of(after.agents, name) == flight_of(pool.agents, name)
            &&& !(kind is Remove) && !seen.agent_dir_exists ==> after == pool
            &&& other != name ==> known(after.agents, other) == known(pool.agents, other)
                && flight_of(after.agents, other) == flight_of(pool.agents, other)
            &&& after.pending == pool.pending
        }),
{
    lemma_relative_one(parts(seen.path@), parts(pool.agents_dir), name);
    law_agent_is_taken_in(pool.agents, name, other);
    law_agent_is_let_go(pool.agents, name, other);
}

/// An agent's answer that was written and could be read frees that agent, and no other, whether
/// the answer's file was created or changed; where the agent has no task, nothing is freed.
pub proof fn law_written_answer_frees_its_agent(
    pool: Roster,
    kind: EventKind,
    seen: SeenPath,
    name: Seq<char>,
    other: Seq<char>,
)
    requires
        distinct(pool.agents),
        known(pool.agents, name),
        parts(seen.path@) == crate::path::inner(
            crate::path::inner(parts(pool.agents_dir), name),
            "response.json"@,
        ),
        kind is Create || kind is Modify,
        seen.exists,
        seen.output is Content,
    ensures
        ({
            let after = after_event(pool, kind, seen);
            &&& known(after.agents, name)
            &&& flight_of(after.agents, name) is None
            &&& other != name ==> flight_of(after.agents, other) == flight_of(pool.agents, other)
            &&& after.pending == pool.pending
        }),
{
    let path = parts(seen.path@);
    let dir = parts(pool.agents_dir);
    let below = seq![name, "response.json"@];
    assert(path.names.take(dir.names.len() as int) =~= dir.names);
    assert(path.names.skip(dir.names.len() as int) =~= below);
    assert(with_agent(pool.agents, name) == pool.agents);
    if flight_of(pool.agents, name) is Some {
        law_completion_frees_one(pool, name, seen.output);
    }
}

/// What changes outside the agents' directory, or deeper in it than an agent's own files, changes
/// nothing.
pub proof fn law_other_changes_change_nothing(pool: Roster, kind: EventKind, seen: SeenPath)
    requires
        match relative(parts(seen.path@), parts(pool.agents_dir)) {
            Some(names) => names.len() == 0 || names.len() > 2,
            None => true,
        },
    ensures
        after_event(pool, kind, seen) == pool,
{
}

/// A round goes from step to step: a pool that is not asked to stop sees whether a task came and
/// then listens; then it looks through the directories where that is due; and then, unless it is
/// paused, it gives out tasks. One that is asked to stop does so at the beginning of a round.
pub proof fn law_round_goes_step_by_step(signals: DaemonSignals, since_scan: Duration)
    ensures
        signals.shutdown <==> step_after(LoopStep::Begin, signals, since_scan) is Drain,
        !signals.shutdown ==> step_after(LoopStep::Begin, signals, since_scan) is Accept,
        step_after(LoopStep::Accept, signals, since_scan) is Listen,
        since_scan.millis >= 500 <==> step_after(LoopStep::Listen, signals, since_scan) is Scan,
        !signals.paused ==> step_after(LoopStep::Scan, signals, since_scan) is Dispatch,
        !signals.paused && since_scan.millis < 500 ==> step_after(
            LoopStep::Listen,
            signals,
            since_scan,
        ) is Dispatch,
        signals.paused ==> step_after(LoopStep::Scan, signals, since_scan) is Begin,
        step_after(LoopStep::Dispatch, signals, since_scan) is Begin,
{
}

} // verus!
