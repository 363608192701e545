//! The pool of agents that each have a directory: a task is written into the directory of
//! an agent that is free, and its answer is read from there.
use crate::constants::{AGENTS_DIR, RESPONSE_FILE, TASK_FILE};
use crate::error::{ErrorKind, PoolError};
use crate::path::{join, joined, Parts};
use crate::response::Response;
use crate::submit::{PENDING_DIR, PENDING_RESPONSE_FILE, PENDING_TASK_FILE};
use crate::text::{same, texts};
use std::collections::VecDeque;
use vstd::prelude::*;

verus! {

/// How long to listen for changes before anything else is looked at.
pub const POLL_TIMEOUT_MS: u64 = 100;

/// How often the directories are looked through for changes that were not reported.
pub const SCAN_INTERVAL_MS: u64 = 500;

/// Where the answer to a task goes.
#[derive(Debug, Clone, PartialEq, Eq)]
pub enum ResponseTarget {
    /// To the connection with this number.
    Socket(u64),
    /// Into this file.
    File(String),
}

/// Where the answer to a task goes.
#[verifier::ext_equal]
pub enum ReplyTo {
    /// To the connection with this number.
    Socket(u64),
    /// Into this file.
    File(Seq<char>),
}

impl View for ResponseTarget {
    type V = ReplyTo;

    open spec fn view(&self) -> ReplyTo {
        match self {
            ResponseTarget::Socket(connection) => ReplyTo::Socket(*connection),
            ResponseTarget::File(path) => ReplyTo::File(path@),
        }
    }
}

/// A task.
#[derive(Debug, PartialEq, Eq)]
pub struct Task {
    /// What is to be done.
    pub content: String,
    /// Where the answer goes.
    pub respond_to: ResponseTarget,
}

/// A task.
#[verifier::ext_equal]
pub struct Order {
    /// What is to be done.
    pub content: Seq<char>,
    /// Where the answer goes.
    pub respond_to: ReplyTo,
}

impl View for Task {
    type V = Order;

    open spec fn view(&self) -> Order {
        Order { content: self.content@, respond_to: self.respond_to@ }
    }
}

/// An agent.
#[derive(Debug, PartialEq, Eq)]
pub struct AgentState {
    /// Its name, which is that of its directory.
    pub name: String,
    /// Where the answer to its task goes, while it has one.
    pub in_flight: Option<ResponseTarget>,
}

/// An agent.
#[verifier::ext_equal]
pub struct Agent {
    /// Its name.
    pub name: Seq<char>,
    /// Where the answer to its task goes, while it has one.
    pub in_flight: Option<ReplyTo>,
}

impl View for AgentState {
    type V = Agent;

    open spec fn view(&self) -> Agent {
        Agent {
            name: self.name@,
            in_flight: match self.in_flight {
                Some(target) => Some(target@),
                None => None,
            },
        }
    }
}

impl AgentState {
    /// An agent without a task.
    pub fn new(name: &str) -> (r: AgentState)
        ensures
            r@ == (Agent { name: name@, in_flight: None }),
    {
        AgentState { name: name.to_owned(), in_flight: None }
    }

    /// Whether the agent has no task.
    pub fn is_available(&self) -> (r: bool)
        ensures
            r == (self@.in_flight is None),
    {
        match self.in_flight {
            Some(_) => false,
            None => true,
        }
    }
}

/// The agents and the tasks.
#[derive(Debug, PartialEq, Eq)]
pub struct PoolState {
    /// Where the agents' directories lie.
    pub agents_dir: String,
    /// Where tasks are left as files.
    pub pending_dir: String,
    /// The agents, in the order in which they came.
    pub agents: Vec<AgentState>,
    /// The tasks that no agent has yet, in the order in which they came.
    pub pending: VecDeque<Task>,
}

/// The agents and the tasks.
#[verifier::ext_equal]
pub struct Roster {
    /// Where the agents' directories lie.
    pub agents_dir: Seq<char>,
    /// Where tasks are left as files.
    pub pending_dir: Seq<char>,
    /// The agents, in the order in which they came.
    pub agents: Seq<Agent>,
    /// The tasks that no agent has yet, in the order in which they came.
    pub pending: Seq<Order>,
}

impl View for PoolState {
    type V = Roster;

    open spec fn view(&self) -> Roster {
        Roster {
            agents_dir: self.agents_dir@,
            pending_dir: self.pending_dir@,
            agents: agents_of(self.agents@),
            pending: orders_of(self.pending@),
        }
    }
}

/// The agents that a list holds.
pub open spec fn agents_of(list: Seq<AgentState>) -> Seq<Agent> {
    Seq::new(list.len(), |i: int| list[i]@)
}

/// The tasks that a list holds.
pub open spec fn orders_of(list: Seq<Task>) -> Seq<Order> {
    Seq::new(list.len(), |i: int| list[i]@)
}

/// Whether no two agents have the same name.
pub open spec fn distinct(agents: Seq<Agent>) -> bool {
    forall|i: int, j: int|
        0 <= i < j < agents.len() ==> (#[trigger] agents[i]).name != (#[trigger] agents[j]).name
}

/// Whether there is an agent of that name.
pub open spec fn known(agents: Seq<Agent>, name: Seq<char>) -> bool {
    exists|i: int| 0 <= i < agents.len() && (#[trigger] agents[i]).name == name
}

/// The agents with one of that name.
pub open spec fn with_agent(agents: Seq<Agent>, name: Seq<char>) -> Seq<Agent> {
    if known(agents, name) {
        agents
    } else {
        agents.push(Agent { name, in_flight: None })
    }
}

/// The agents with one of each of the names.
pub open spec fn with_agents(agents: Seq<Agent>, names: Seq<Seq<char>>) -> Seq<Agent>
    decreases names.len(),
{
    if names.len() == 0 {
        agents
    } else {
        with_agent(with_agents(agents, names.drop_last()), names.last())
    }
}

/// The agents without the one of that name.
pub open spec fn without_agent(agents: Seq<Agent>, name: Seq<char>) -> Seq<Agent> {
    agents.filter(|agent: Agent| agent.name != name)
}

/// The agents whose names are among these.
pub open spec fn only_agents(agents: Seq<Agent>, names: Seq<Seq<char>>) -> Seq<Agent> {
    agents.filter(|agent: Agent| names.contains(agent.name))
}

/// The agents without those that have neither a task nor, as the names of what is there
/// say, a directory.
pub open spec fn without_stale(agents: Seq<Agent>, present: Seq<Seq<char>>) -> Seq<Agent> {
    agents.filter(|agent: Agent| agent.in_flight is Some || present.contains(agent.name))
}

/// The agents where the one of that name has what is given in hand, or nothing.
pub open spec fn with_flight(agents: Seq<Agent>, name: Seq<char>, flight: Option<ReplyTo>) -> Seq<
    Agent,
> {
    Seq::new(
        agents.len(),
        |i: int|
            if agents[i].name == name {
                Agent { name, in_flight: flight }
            } else {
                agents[i]
            },
    )
}

/// Where the answer of the agent of that name goes, if there is one and it has a task.
pub open spec fn flight_of(agents: Seq<Agent>, name: Seq<char>) -> Option<ReplyTo>
    decreases agents.len(),
{
    if agents.len() == 0 {
        None
    } else if agents.last().name == name {
        agents.last().in_flight
    } else {
        flight_of(agents.drop_last(), name)
    }
}

/// How many agents have a task.
pub open spec fn busy_agents(agents: Seq<Agent>) -> nat
    decreases agents.len(),
{
    if agents.len() == 0 {
        0
    } else {
        busy_agents(agents.drop_last()) + if agents.last().in_flight is Some {
            1nat
        } else {
            0
        }
    }
}

/// The names of the agents that have a task.
pub open spec fn busy_names(agents: Seq<Agent>) -> Seq<Seq<char>>
    decreases agents.len(),
{
    if agents.len() == 0 {
        Seq::empty()
    } else if agents.last().in_flight is Some {
        busy_names(agents.drop_last()).push(agents.last().name)
    } else {
        busy_names(agents.drop_last())
    }
}

/// The first agent that has no task and whose directory is there.
pub open spec fn first_ready(agents: Seq<Agent>, present: Seq<Seq<char>>) -> Option<Seq<char>>
    decreases agents.len(),
{
    if agents.len() == 0 {
        None
    } else if agents[0].in_flight is None && present.contains(agents[0].name) {
        Some(agents[0].name)
    } else {
        first_ready(agents.drop_first(), present)
    }
}

/// A task that goes out to an agent.
#[derive(Debug, PartialEq, Eq)]
pub struct Dispatch {
    /// The agent.
    pub agent: String,
    /// The file that the task is written to.
    pub path: String,
    /// What is written.
    pub content: String,
}

/// A task that goes out to an agent.
#[verifier::ext_equal]
pub struct Sent {
    /// The agent.
    pub agent: Seq<char>,
    /// The file that the task is written to.
    pub path: Seq<char>,
    /// What is written.
    pub content: Seq<char>,
}

impl View for Dispatch {
    type V = Sent;

    open spec fn view(&self) -> Sent {
        Sent { agent: self.agent@, path: self.path@, content: self.content@ }
    }
}

/// What is sent.
pub open spec fn sent_of(list: Seq<Dispatch>) -> Seq<Sent> {
    Seq::new(list.len(), |i: int| list[i]@)
}

/// The file that a task for the agent of that name is written to.
pub open spec fn task_file(agents_dir: Seq<char>, name: Seq<char>) -> Seq<char> {
    joined(joined(agents_dir, name), TASK_FILE@)
}

/// The file that the agent of that name writes its answer to.
pub open spec fn response_file(agents_dir: Seq<char>, name: Seq<char>) -> Seq<char> {
    joined(joined(agents_dir, name), RESPONSE_FILE@)
}

/// The pool when every task went out that could.
pub open spec fn after_dispatch(pool: Roster, present: Seq<Seq<char>>) -> Roster
    decreases pool.pending.len(),
{
    match first_ready(pool.agents, present) {
        None => Roster { agents: without_stale(pool.agents, present), ..pool },
        Some(name) => if pool.pending.len() == 0 {
            pool
        } else {
            after_dispatch(given(pool, name), present)
        },
    }
}

/// What goes out where every task goes out that can.
pub open spec fn dispatched(pool: Roster, present: Seq<Seq<char>>) -> Seq<Sent>
    decreases pool.pending.len(),
{
    match first_ready(pool.agents, present) {
        None => Seq::empty(),
        Some(name) => if pool.pending.len() == 0 {
            Seq::empty()
        } else {
            seq![
                Sent {
                    agent: name,
                    path: task_file(pool.agents_dir, name),
                    content: pool.pending[0].content,
                },
            ] + dispatched(given(pool, name), present)
        },
    }
}

/// The pool when the first task went to the agent of that name.
pub open spec fn given(pool: Roster, name: Seq<char>) -> Roster {
    Roster {
        agents: with_flight(pool.agents, name, Some(pool.pending[0].respond_to)),
        pending: pool.pending.drop_first(),
        ..pool
    }
}

/// A directory in which a task was left as a file.
#[derive(Debug, PartialEq, Eq)]
pub struct PendingEntry {
    /// The directory.
    pub path: String,
    /// Whether it is one.
    pub is_dir: bool,
    /// Whether the task is there.
    pub task_exists: bool,
    /// Whether the answer is there.
    pub response_exists: bool,
    /// What the task says, if it could be read and its file removed.
    pub taken: Option<String>,
}

/// Whether the task in a directory is to be taken.
pub open spec fn is_left(entry: PendingEntry) -> bool {
    entry.is_dir && entry.task_exists && !entry.response_exists
}

/// The tasks that are taken from directories.
pub open spec fn taken_from(entries: Seq<PendingEntry>) -> Seq<Order>
    decreases entries.len(),
{
    if entries.len() == 0 {
        Seq::empty()
    } else {
        let before = taken_from(entries.drop_last());
        let entry = entries.last();
        match entry.taken {
            Some(content) => if is_left(entry) {
                before.push(
                    Order {
                        content: content@,
                        respond_to: ReplyTo::File(joined(entry.path@, PENDING_RESPONSE_FILE@)),
                    },
                )
            } else {
                before
            },
            None => before,
        }
    }
}

/// Whether the task in a directory is to be taken: read, and its file removed.
pub fn takes_pending(is_dir: bool, task_exists: bool, response_exists: bool) -> (r: bool)
    ensures
        r == (is_dir && task_exists && !response_exists),
{
    is_dir && task_exists && !response_exists
}

/// The files of a task that was left in a directory: the task and the answer.
pub fn pending_files(dir: &str) -> (r: (String, String))
    ensures
        r.0@ == joined(dir@, PENDING_TASK_FILE@),
        r.1@ == joined(dir@, PENDING_RESPONSE_FILE@),
{
    (join(dir, PENDING_TASK_FILE), join(dir, PENDING_RESPONSE_FILE))
}

/// What came of reading an answer.
#[derive(Debug, PartialEq, Eq)]
pub enum Output {
    /// What it says.
    Content(String),
    /// It is not there.
    Missing,
    /// It cannot be read.
    Failed(PoolError),
}

/// What is to be done about an answer.
#[derive(Debug, PartialEq, Eq)]
pub enum Completion {
    /// Nothing.
    Nothing,
    /// Remove the files, then send the answer.
    Done {
        /// The file of the task, which goes first, so that the agent does not take it again.
        task_path: String,
        /// The file of the answer.
        response_path: String,
        /// Where the answer goes.
        respond_to: ResponseTarget,
        /// The answer.
        response: Response,
    },
    /// Stop with this error.
    Failed(PoolError),
}

/// The pool when the answer of the agent of that name was looked for.
pub open spec fn after_completion(pool: Roster, name: Seq<char>, output: Output) -> Roster {
    if flight_of(pool.agents, name) is None || output is Missing {
        pool
    } else {
        Roster { agents: with_flight(pool.agents, name, None), ..pool }
    }
}

/// Whether `r` is what is to be done about the answer of the agent of that name: where the
/// agent has a task and the answer could be read, both files are removed and the answer goes
/// where the task's answer is to go.
pub open spec fn completes(
    pool: Roster,
    name: Seq<char>,
    response_path: Seq<char>,
    output: Output,
    r: Completion,
) -> bool {
    match (flight_of(pool.agents, name), output) {
        (None, _) => r is Nothing,
        (Some(target), Output::Missing) => r is Nothing,
        (Some(target), Output::Failed(error)) => r == Completion::Failed(error),
        (Some(target), Output::Content(stdout)) => match r {
            Completion::Done { task_path, response_path: removed, respond_to, response } => {
                &&& task_path@ == task_file(pool.agents_dir, name)
                &&& removed@ == response_path
                &&& respond_to@ == target
                &&& response == (Response::Processed { stdout, stderr: None })
            },
            _ => false,
        },
    }
}

/// What follows below a directory, if the path lies there.
pub open spec fn relative(path: Parts, dir: Parts) -> Option<Seq<Seq<char>>> {
    if path.absolute == dir.absolute && path.names.len() >= dir.names.len() && path.names.take(
        dir.names.len() as int,
    ) == dir.names {
        Some(path.names.skip(dir.names.len() as int))
    } else {
        None
    }
}

/// Whether the name is in the list.
fn listed(names: &Vec<String>, name: &str) -> (r: bool)
    ensures
        r == texts(names@).contains(name@),
{
    let mut i: usize = 0;
    while i < names.len()
        invariant
            i <= names@.len(),
            forall|k: int| 0 <= k < i ==> (#[trigger] names@[k])@ != name@,
        decreases names@.len() - i,
    {
        if same(&names[i], name) {
            assert(texts(names@)[i as int] == name@);
            return true;
        }
        i += 1;
    }
    assert forall|k: int| 0 <= k < texts(names@).len() implies texts(names@)[k] != name@ by {
        assert(names@[k]@ != name@);
    }
    false
}

/// An agent's answer goes where its entry says.
pub proof fn lemma_flight(agents: Seq<Agent>, name: Seq<char>, i: int)
    requires
        0 <= i < agents.len(),
        agents[i].name == name,
        distinct(agents),
    ensures
        flight_of(agents, name) == agents[i].in_flight,
    decreases agents.len(),
{
    if i < agents.len() - 1 {
        let early = agents.drop_last();
        assert forall|a: int, b: int| 0 <= a < b < early.len() implies (#[trigger] early[a]).name
            != (#[trigger] early[b]).name by {
            assert(early[a] == agents[a] && early[b] == agents[b]);
        }
        assert(early[i] == agents[i]);
        assert(agents[i].name != agents[agents.len() - 1].name);
        lemma_flight(early, name, i);
    }
}

/// The answer of an agent that is not known goes nowhere.
pub proof fn lemma_no_flight(agents: Seq<Agent>, name: Seq<char>)
    requires
        !known(agents, name),
    ensures
        flight_of(agents, name) is None,
    decreases agents.len(),
{
    if agents.len() > 0 {
        let early = agents.drop_last();
        assert(!known(early, name)) by {
            if known(early, name) {
                let i = choose|i: int| 0 <= i < early.len() && (#[trigger] early[i]).name == name;
                assert(agents[i].name == name);
            }
        }
        assert(agents[agents.len() - 1].name != name);
        lemma_no_flight(early, name);
    }
}

/// Agents that are picked out of a list are distinct where those in the list are; all of them
/// are in the list and meet the condition, and all in the list that meet it are among them.
pub proof fn lemma_filter_keeps(agents: Seq<Agent>, keep: spec_fn(Agent) -> bool)
    requires
        distinct(agents),
    ensures
        distinct(agents.filter(keep)),
        forall|i: int|
            0 <= i < agents.filter(keep).len() ==> agents.contains(
                #[trigger] agents.filter(keep)[i],
            ) && keep(agents.filter(keep)[i]),
        forall|i: int|
            0 <= i < agents.len() && keep(#[trigger] agents[i]) ==> agents.filter(keep).contains(
                agents[i],
            ),
    decreases agents.len(),
{
    reveal(Seq::filter);
    if agents.len() > 0 {
        let early = agents.drop_last();
        let last = agents.last();
        assert forall|a: int, b: int| 0 <= a < b < early.len() implies (#[trigger] early[a]).name
            != (#[trigger] early[b]).name by {
            assert(early[a] == agents[a] && early[b] == agents[b]);
        }
        lemma_filter_keeps(early, keep);
        let before = early.filter(keep);
        let after = agents.filter(keep);
        assert forall|i: int| 0 <= i < after.len() implies agents.contains(#[trigger] after[i])
            && keep(after[i]) by {
            if i < before.len() {
                assert(after[i] == before[i]);
                let k = choose|k: int| 0 <= k < early.len() && early[k] == before[i];
                assert(agents[k] == after[i]);
            } else {
                assert(agents[agents.len() - 1] == after[i]);
            }
        }
        assert forall|a: int, b: int| 0 <= a < b < after.len() implies (#[trigger] after[a]).name
            != (#[trigger] after[b]).name by {
            assert(after[a] == before[a]);
            if b < before.len() {
                assert(after[b] == before[b]);
            } else {
                let k = choose|k: int| 0 <= k < early.len() && early[k] == before[a];
                assert(agents[k] == after[a]);
                assert(agents[agents.len() - 1] == after[b]);
            }
        }
        assert forall|i: int| 0 <= i < agents.len() && keep(#[trigger] agents[i]) implies agents.filter(
            keep,
        ).contains(agents[i]) by {
            if i < early.len() {
                assert(early[i] == agents[i]);
                let k = choose|k: int| 0 <= k < before.len() && before[k] == agents[i];
                assert(after[k] == agents[i]);
            } else {
                assert(after[after.len() - 1] == agents[i]);
            }
        }
    }
}

impl PoolState {
    /// Whether no two agents have the same name.
    pub open spec fn well_formed(self) -> bool {
        distinct(self@.agents)
    }

    /// A pool without agents and tasks, with its directories below `root`.
    pub fn new(root: &str) -> (r: PoolState)
        ensures
            r@ == (Roster {
                agents_dir: joined(root@, AGENTS_DIR@),
                pending_dir: joined(root@, PENDING_DIR@),
                agents: Seq::empty(),
                pending: Seq::empty(),
            }),
            r.well_formed(),
    {
        let r = PoolState {
            agents_dir: join(root, AGENTS_DIR),
            pending_dir: join(root, PENDING_DIR),
            agents: Vec::new(),
            pending: VecDeque::new(),
        };
        assert(r@.agents =~= Seq::empty());
        assert(r@.pending =~= Seq::empty());
        r
    }

    /// Where the agent of that name stands among the agents.
    fn find(&self, name: &str) -> (r: Option<usize>)
        ensures
            match r {
                Some(i) => i < self.agents@.len() && self@.agents[i as int].name == name@,
                None => !known(self@.agents, name@),
            },
    {
        let mut i: usize = 0;
        while i < self.agents.len()
            invariant
                i <= self.agents@.len(),
                forall|k: int| 0 <= k < i ==> (#[trigger] self@.agents[k]).name != name@,
            decreases self.agents@.len() - i,
        {
            assert(self@.agents[i as int] == self.agents@[i as int]@);
            if same(&self.agents[i].name, name) {
                return Some(i);
            }
            i += 1;
        }
        None
    }

    /// Takes an agent in, unless it is known.
    pub fn register(&mut self, agent_id: &str)
        requires
            old(self).well_formed(),
        ensures
            final(self).well_formed(),
            final(self)@ == (Roster { agents: with_agent(old(self)@.agents, agent_id@), ..old(self)@
            }),
    {
        let ghost before = self@;
        match self.find(agent_id) {
            Some(i) => {
                assert(known(self@.agents, agent_id@));
            },
            None => {
                self.agents.push(AgentState::new(agent_id));
                assert(self@.agents =~= with_agent(before.agents, agent_id@));
                assert(distinct(self@.agents)) by {
                    assert forall|i: int, j: int| 0 <= i < j < self@.agents.len() implies (
                    #[trigger] self@.agents[i]).name != (#[trigger] self@.agents[j]).name by {
                        assert(self@.agents[i] == before.agents[i]);
                        if j < before.agents.len() {
                            assert(self@.agents[j] == before.agents[j]);
                        }
                    }
                }
            },
        }
    }

    /// Lets an agent go, with the task that it has.
    pub fn unregister(&mut self, agent_id: &str)
        requires
            old(self).well_formed(),
        ensures
            final(self).well_formed(),
            final(self)@ == (Roster {
                agents: without_agent(old(self)@.agents, agent_id@),
                ..old(self)@
            }),
    {
        let ghost before = self@.agents;
        let ghost keep = |agent: Agent| agent.name != agent_id@;
        let mut left: Vec<AgentState> = Vec::new();
        let mut rest: Vec<AgentState> = Vec::new();
        std::mem::swap(&mut rest, &mut self.agents);
        let ghost all = rest@;
        let total: usize = rest.len();
        let mut i: usize = 0;
        reveal(Seq::filter);
        assert(before.take(0).filter(keep) =~= agents_of(left@));
        while i < total
            invariant
                i <= total == all.len(),
                rest@ == all.skip(i as int),
                before == agents_of(all),
                keep == (|agent: Agent| agent.name != agent_id@),
                agents_of(left@) == before.take(i as int).filter(keep),
            decreases total - i,
        {
            reveal(Seq::filter);
            let agent = rest.remove(0);
            assert(all.skip(i as int)[0] == all[i as int]);
            assert(all.skip(i as int).remove(0) =~= all.skip(i + 1));
            assert(before.take(i + 1).drop_last() =~= before.take(i as int));
            assert(before.take(i + 1).last() == agent@);
            let ghost so_far = agents_of(left@);
            if !same(&agent.name, agent_id) {
                let ghost shown = agent@;
                left.push(agent);
                assert(agents_of(left@) =~= so_far.push(shown));
            }
            i += 1;
        }
        assert(before.take(i as int) =~= before);
        self.agents = left;
        proof {
            lemma_filter_keeps(before, keep);
        }
    }

    /// Lets every agent go whose name is not in the list, or, where `idle_only` says so, every
    /// such agent that has no task.
    fn retain(&mut self, names: &Vec<String>, idle_only: bool)
        requires
            old(self).well_formed(),
        ensures
            final(self).well_formed(),
            final(self)@ == (Roster {
                agents: if idle_only {
                    without_stale(old(self)@.agents, texts(names@))
                } else {
                    only_agents(old(self)@.agents, texts(names@))
                },
                ..old(self)@
            }),
    {
        let ghost before = self@.agents;
        let ghost keep = if idle_only {
            |agent: Agent| agent.in_flight is Some || texts(names@).contains(agent.name)
        } else {
            |agent: Agent| texts(names@).contains(agent.name)
        };
        let mut left: Vec<AgentState> = Vec::new();
        let mut rest: Vec<AgentState> = Vec::new();
        std::mem::swap(&mut rest, &mut self.agents);
        let ghost all = rest@;
        let total: usize = rest.len();
        let mut i: usize = 0;
        reveal(Seq::filter);
        assert(before.take(0).filter(keep) =~= agents_of(left@));
        while i < total
            invariant
                i <= total == all.len(),
                rest@ == all.skip(i as int),
                before == agents_of(all),
                keep == if idle_only {
                    |agent: Agent| agent.in_flight is Some || texts(names@).contains(agent.name)
                } else {
                    |agent: Agent| texts(names@).contains(agent.name)
                },
                agents_of(left@) == before.take(i as int).filter(keep),
            decreases total - i,
        {
            reveal(Seq::filter);
            let agent = rest.remove(0);
            assert(all.skip(i as int)[0] == all[i as int]);
            assert(all.skip(i as int).remove(0) =~= all.skip(i + 1));
            assert(before.take(i + 1).drop_last() =~= before.take(i as int));
            assert(before.take(i + 1).last() == agent@);
            let ghost so_far = agents_of(left@);
            if listed(names, &agent.name) || (idle_only && !agent.is_available()) {
                let ghost shown = agent@;
                left.push(agent);
                assert(agents_of(left@) =~= so_far.push(shown));
            }
            i += 1;
        }
        assert(before.take(i as int) =~= before);
        self.agents = left;
        proof {
            lemma_filter_keeps(before, keep);
        }
    }

    /// Brings the agents in line with the directories that are there: takes in those that are
    /// new, and lets those go that have none.
    pub fn scan_agents(&mut self, directories: &Vec<String>)
        requires
            old(self).well_formed(),
        ensures
            final(self).well_formed(),
            final(self)@ == (Roster {
                agents: only_agents(
                    with_agents(old(self)@.agents, texts(directories@)),
                    texts(directories@),
                ),
                ..old(self)@
            }),
    {
        let ghost names = texts(directories@);
        let ghost before = self@;
        let mut i: usize = 0;
        assert(names.take(0) =~= Seq::empty());
        while i < directories.len()
            invariant
                i <= directories@.len(),
                names == texts(directories@),
                self.well_formed(),
                self@ == (Roster {
                    agents: with_agents(before.agents, names.take(i as int)),
                    ..before
                }),
            decreases directories@.len() - i,
        {
            assert(names.take(i + 1).drop_last() =~= names.take(i as int));
            self.register(&directories[i]);
            i += 1;
        }
        assert(names.take(i as int) =~= names);
        self.retain(directories, false);
    }

    /// Takes the tasks that were left in directories.
    pub fn scan_pending(&mut self, entries: &Vec<PendingEntry>)
        requires
            old(self).well_formed(),
        ensures
            final(self).well_formed(),
            final(self)@ == (Roster { pending: old(self)@.pending + taken_from(entries@), ..old(self)@
            }),
    {
        let ghost before = self@;
        let mut i: usize = 0;
        assert(entries@.take(0) =~= Seq::empty());
        assert(before.pending + taken_from(entries@.take(0)) =~= before.pending);
        while i < entries.len()
            invariant
                i <= entries@.len(),
                self.well_formed(),
                self@ == (Roster {
                    pending: before.pending + taken_from(entries@.take(i as int)),
                    ..before
                }),
            decreases entries@.len() - i,
        {
            let entry = &entries[i];
            assert(entries@.take(i + 1).drop_last() =~= entries@.take(i as int));
            let ghost so_far = self@.pending;
            if takes_pending(entry.is_dir, entry.task_exists, entry.response_exists) {
                if let Some(content) = &entry.taken {
                    let (_, response_path) = pending_files(&entry.path);
                    let task = Task {
                        content: content.clone(),
                        respond_to: ResponseTarget::File(response_path),
                    };
                    self.enqueue(task);
                }
            }
            assert(self@.pending =~= before.pending + taken_from(entries@.take(i + 1)));
            i += 1;
        }
        assert(entries@.take(i as int) =~= entries@);
    }

    /// How many agents have a task.
    pub fn in_flight_count(&self) -> (r: usize)
        ensures
            r == busy_agents(self@.agents),
    {
        let mut n: usize = 0;
        let mut i: usize = 0;
        assert(self@.agents.take(0) =~= Seq::empty());
        while i < self.agents.len()
            invariant
                n <= i <= self.agents@.len(),
                n == busy_agents(self@.agents.take(i as int)),
            decreases self.agents@.len() - i,
        {
            assert(self@.agents.take(i + 1).drop_last() =~= self@.agents.take(i as int));
            assert(self@.agents.take(i + 1).last() == self.agents@[i as int]@);
            if !self.agents[i].is_available() {
                n += 1;
            }
            i += 1;
        }
        assert(self@.agents.take(i as int) =~= self@.agents);
        n
    }

    /// The agents that have a task, with the files that they write their answers to.
    pub fn scan_outputs(&self) -> (r: Vec<(String, String)>)
        ensures
            Seq::new(r@.len(), |i: int| r@[i].0@) == busy_names(self@.agents),
            forall|i: int|
                0 <= i < r@.len() ==> (#[trigger] r@[i]).1@ == response_file(
                    self@.agents_dir,
                    r@[i].0@,
                ),
    {
        let mut out: Vec<(String, String)> = Vec::new();
        let mut i: usize = 0;
        assert(self@.agents.take(0) =~= Seq::empty());
        assert(Seq::new(out@.len(), |i: int| out@[i].0@) =~= Seq::empty());
        while i < self.agents.len()
            invariant
                i <= self.agents@.len(),
                Seq::new(out@.len(), |i: int| out@[i].0@) == busy_names(self@.agents.take(i as int)),
                forall|k: int|
                    0 <= k < out@.len() ==> (#[trigger] out@[k]).1@ == response_file(
                        self@.agents_dir,
                        out@[k].0@,
                    ),
            decreases self.agents@.len() - i,
        {
            let agent = &self.agents[i];
            assert(self@.agents.take(i + 1).drop_last() =~= self@.agents.take(i as int));
            assert(self@.agents.take(i + 1).last() == agent@);
            if !agent.is_available() {
                let path = join(&join(&self.agents_dir, &agent.name), RESPONSE_FILE);
                let ghost so_far = Seq::new(out@.len(), |i: int| out@[i].0@);
                out.push((agent.name.clone(), path));
                assert(Seq::new(out@.len(), |i: int| out@[i].0@) =~= so_far.push(agent.name@));
            }
            i += 1;
        }
        assert(self@.agents.take(i as int) =~= self@.agents);
        out
    }

    /// Puts a task behind those that wait.
    pub fn enqueue(&mut self, task: Task)
        requires
            old(self).well_formed(),
        ensures
            final(self).well_formed(),
            final(self)@ == (Roster { pending: old(self)@.pending.push(task@), ..old(self)@ }),
    {
        let ghost before = self@.pending;
        let ghost shown = task@;
        self.pending.push_back(task);
        assert(self@.pending =~= before.push(shown));
    }

    /// The first agent that has no task and whose directory is there, as the names of what is
    /// there say. Where there is none, the agents without a task and a directory go.
    pub fn find_available_agent(&mut self, present: &Vec<String>) -> (r: Option<String>)
        requires
            old(self).well_formed(),
        ensures
            final(self).well_formed(),
            match first_ready(old(self)@.agents, texts(present@)) {
                Some(name) => r matches Some(id) && id@ == name && *final(self) == *old(self),
                None => r is None && final(self)@ == (Roster {
                    agents: without_stale(old(self)@.agents, texts(present@)),
                    ..old(self)@
                }),
            },
    {
        let ghost agents = self@.agents;
        let ghost names = texts(present@);
        let mut i: usize = 0;
        assert(agents.skip(0) =~= agents);
        while i < self.agents.len()
            invariant
                i <= self.agents@.len(),
                names == texts(present@),
                agents == self@.agents,
                *self == *old(self),
                self.well_formed(),
                first_ready(agents, names) == first_ready(agents.skip(i as int), names),
            decreases self.agents@.len() - i,
        {
            assert(agents.skip(i as int)[0] == self.agents@[i as int]@);
            assert(agents.skip(i as int).drop_first() =~= agents.skip(i + 1));
            if self.agents[i].is_available() && listed(present, &self.agents[i].name) {
                return Some(self.agents[i].name.clone());
            }
            i += 1;
        }
        self.retain(present, true);
        None
    }

    /// Gives a task to an agent: the agent's answer goes where the task's answer is to go.
    pub fn dispatch_to(&mut self, agent_id: &str, respond_to: ResponseTarget) -> (r: Result<
        (),
        PoolError,
    >)
        requires
            old(self).well_formed(),
        ensures
            final(self).well_formed(),
            if known(old(self)@.agents, agent_id@) {
                &&& r is Ok
                &&& final(self)@ == (Roster {
                    agents: with_flight(old(self)@.agents, agent_id@, Some(respond_to@)),
                    ..old(self)@
                })
            } else {
                &&& r matches Err(error)
                &&& error.says(ErrorKind::Other, "agent not found"@)
                &&& *final(self) == *old(self)
            },
    {
        match self.find(agent_id) {
            Some(i) => {
                let ghost before = self@.agents;
                let ghost target = respond_to@;
                self.set_flight(i, Some(respond_to));
                assert(known(before, agent_id@));
                assert(self@.agents =~= with_flight(before, agent_id@, Some(target)));
                Ok(())
            },
            None => Err(PoolError::new(ErrorKind::Other, "agent not found")),
        }
    }

    /// Puts down what the agent at this place has in hand, and gives back what it had.
    fn set_flight(&mut self, i: usize, flight: Option<ResponseTarget>) -> (r: Option<ResponseTarget>)
        requires
            i < old(self).agents@.len(),
            old(self).well_formed(),
        ensures
            final(self).well_formed(),
            r == old(self).agents@[i as int].in_flight,
            final(self)@ == (Roster {
                agents: old(self)@.agents.update(
                    i as int,
                    Agent {
                        name: old(self)@.agents[i as int].name,
                        in_flight: match flight {
                            Some(target) => Some(target@),
                            None => None,
                        },
                    },
                ),
                ..old(self)@
            }),
            distinct(old(self)@.agents) ==> final(self)@.agents == with_flight(
                old(self)@.agents,
                old(self)@.agents[i as int].name,
                match flight {
                    Some(target) => Some(target@),
                    None => None,
                },
            ),
    {
        let ghost before = self@.agents;
        let mut had = flight;
        let mut agent = AgentState { name: self.agents[i].name.clone(), in_flight: None };
        std::mem::swap(&mut agent.in_flight, &mut had);
        let ghost shown = agent@;
        let old_agent = self.agents.remove(i);
        self.agents.insert(i, agent);
        assert(self@.agents =~= before.update(i as int, shown));
        assert(distinct(self@.agents)) by {
            assert forall|a: int, b: int| 0 <= a < b < self@.agents.len() implies (
            #[trigger] self@.agents[a]).name != (#[trigger] self@.agents[b]).name by {
                assert(self@.agents[a].name == before[a].name);
                assert(self@.agents[b].name == before[b].name);
            }
        }
        assert(self@.agents =~= with_flight(before, before[i as int].name, shown.in_flight)) by {
            assert forall|k: int| 0 <= k < before.len() implies self@.agents[k] == with_flight(
                before,
                before[i as int].name,
                shown.in_flight,
            )[k] by {
                if k < i {
                    assert(before[k].name != before[i as int].name);
                } else if k > i {
                    assert(before[i as int].name != before[k].name);
                }
            }
        }
        old_agent.in_flight
    }

    /// Gives out the tasks that wait, the first to the first agent that is free and whose
    /// directory is there, until none waits or none is free.
    pub fn dispatch_pending(&mut self, present: &Vec<String>) -> (r: Vec<Dispatch>)
        requires
            old(self).well_formed(),
        ensures
            final(self).well_formed(),
            final(self)@ == after_dispatch(old(self)@, texts(present@)),
            sent_of(r@) == dispatched(old(self)@, texts(present@)),
    {
        let ghost names = texts(present@);
        let ghost start = self@;
        let mut out: Vec<Dispatch> = Vec::new();
        assert(sent_of(out@) + dispatched(start, names) =~= dispatched(start, names));
        loop
            invariant
                names == texts(present@),
                start == old(self)@,
                self.well_formed(),
                after_dispatch(self@, names) == after_dispatch(start, names),
                sent_of(out@) + dispatched(self@, names) == dispatched(start, names),
            decreases self@.pending.len(),
        {
            let ghost before = self@;
            let ghost so_far = sent_of(out@);
            match self.find_available_agent(present) {
                None => {
                    assert(sent_of(out@) + Seq::<Sent>::empty() =~= sent_of(out@));
                    return out;
                },
                Some(agent) => {
                    if self.pending.len() == 0 {
                        assert(sent_of(out@) + Seq::<Sent>::empty() =~= sent_of(out@));
                        return out;
                    }
                    assert(known(before.agents, agent@)) by {
                        lemma_first_ready(before.agents, names);
                    }
                    let task = match self.pending.pop_front() {
                        Some(task) => task,
                        None => {
                            return out;
                        },
                    };
                    assert(self@.pending =~= before.pending.drop_first());
                    assert(task@ == before.pending[0]);
                    let _ = self.dispatch_to(&agent, task.respond_to);
                    assert(self@ =~= given(before, agent@));
                    let path = join(&join(&self.agents_dir, &agent), TASK_FILE);
                    let sent = Dispatch { agent, path, content: task.content };
                    let ghost shown = sent@;
                    out.push(sent);
                    assert(sent_of(out@) =~= so_far.push(shown));
                    assert(so_far.push(shown) + dispatched(self@, names) =~= so_far + (seq![shown]
                        + dispatched(self@, names)));
                },
            }
        }
    }

    /// Takes an agent's answer. `output` is what came of reading it, which is asked for only
    /// where the agent has a task.
    pub fn complete_task(&mut self, agent_id: &str, response_path: &str, output: Output) -> (r:
        Completion)
        requires
            old(self).well_formed(),
        ensures
            final(self).well_formed(),
            final(self)@ == after_completion(old(self)@, agent_id@, output),
            completes(old(self)@, agent_id@, response_path@, output, r),
    {
        let ghost before = self@.agents;
        let i = match self.find(agent_id) {
            Some(i) => i,
            None => {
                proof {
                    lemma_no_flight(before, agent_id@);
                }
                return Completion::Nothing;
            },
        };
        proof {
            lemma_flight(before, agent_id@, i as int);
        }
        assert(before[i as int] == self.agents@[i as int]@);
        if self.agents[i].is_available() {
            return Completion::Nothing;
        }
        match output {
            Output::Missing => Completion::Nothing,
            Output::Failed(error) => {
                let _ = self.set_flight(i, None);
                Completion::Failed(error)
            },
            Output::Content(stdout) => {
                let had = self.set_flight(i, None);
                match had {
                    Some(respond_to) => Completion::Done {
                        task_path: join(&join(&self.agents_dir, agent_id), TASK_FILE),
                        response_path: response_path.to_owned(),
                        respond_to,
                        response: Response::processed(stdout),
                    },
                    None => Completion::Nothing,
                }
            },
        }
    }
}

/// The first agent that is ready has no task and its directory is there; where there is none,
/// no agent is like that.
pub proof fn lemma_first_ready(agents: Seq<Agent>, present: Seq<Seq<char>>)
    ensures
        match first_ready(agents, present) {
            Some(name) => {
                &&& present.contains(name)
                &&& exists|i: int|
                    0 <= i < agents.len() && (#[trigger] agents[i]).name == name
                        && agents[i].in_flight is None
            },
            None => forall|i: int|
                0 <= i < agents.len() && (#[trigger] agents[i]).in_flight is None
                    ==> !present.contains(agents[i].name),
        },
    decreases agents.len(),
{
    if agents.len() > 0 {
        let later = agents.drop_first();
        lemma_first_ready(later, present);
        if agents[0].in_flight is None && present.contains(agents[0].name) {
        } else {
            match first_ready(later, present) {
                Some(name) => {
                    let i = choose|i: int|
                        0 <= i < later.len() && (#[trigger] later[i]).name == name
                            && later[i].in_flight is None;
                    assert(agents[i + 1] == later[i]);
                },
                None => {
                    assert forall|i: int| 0 <= i < agents.len() && (#[trigger] agents[i]).in_flight
                        is None implies !present.contains(agents[i].name) by {
                        if i > 0 {
                            assert(later[i - 1] == agents[i]);
                        }
                    }
                },
            }
        }
    }
}

} // verus!
