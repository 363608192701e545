//! The agent state machine.
//!
//! `step(state, event)` gives the next state and the effects to carry out, with no
//! I/O, no configuration and no clock. An agent's epoch changes at every transition
//! between idle and busy. A timeout carries the epoch at which its timer was
//! started: where the agent's epoch is another, the timeout is stale.
use std::collections::{BTreeMap, VecDeque};
use vstd::prelude::*;
use vstd::std_specs::cmp::OrdSpec;

verus! {

broadcast use vstd::std_specs::btree::group_btree_axioms;

/// A task's number.
#[derive(Debug, Clone, Copy, PartialEq, Eq, Structural, PartialOrd, Ord, Hash)]
pub struct TaskId(pub u32);

/// An agent's number.
#[derive(Debug, Clone, Copy, PartialEq, Eq, Structural, PartialOrd, Ord, Hash)]
pub struct AgentId(pub u32);

/// A point in an agent's life.
#[derive(Debug, Clone, Copy, PartialEq, Eq, Structural, Hash)]
pub struct Epoch {
    /// The agent whose life it is.
    pub agent_id: AgentId,
    /// One more at every transition between idle and busy.
    pub sequence: u32,
}

/// What an agent is doing.
#[derive(Debug, Clone, Copy, PartialEq, Eq, Structural)]
pub enum AgentStatus {
    /// Ready for work.
    Idle,
    /// At work on a task.
    Busy {
        /// The task.
        task_id: TaskId,
    },
}

/// One agent.
#[derive(Debug, Clone, Copy, PartialEq, Eq, Structural)]
pub struct AgentState {
    /// What the agent is doing.
    pub status: AgentStatus,
    /// Where in its life it is.
    pub epoch: Epoch,
}

impl AgentState {
    /// The agent, idle, at the start of its life.
    pub open spec fn fresh(agent_id: AgentId) -> AgentState {
        AgentState { status: AgentStatus::Idle, epoch: Epoch { agent_id, sequence: 0 } }
    }

    /// The agent's next epoch.
    pub open spec fn next_epoch(self) -> Epoch {
        Epoch { agent_id: self.epoch.agent_id, sequence: (self.epoch.sequence + 1) as u32 }
    }

    /// The agent at work on a task, one epoch on.
    pub open spec fn at_work(self, task_id: TaskId) -> AgentState {
        AgentState { status: AgentStatus::Busy { task_id }, epoch: self.next_epoch() }
    }

    /// The agent idle, one epoch on.
    pub open spec fn at_rest(self) -> AgentState {
        AgentState { status: AgentStatus::Idle, epoch: self.next_epoch() }
    }

    /// An idle agent at the start of its life.
    pub fn new(agent_id: AgentId) -> (r: AgentState)
        ensures
            r == AgentState::fresh(agent_id),
    {
        AgentState { status: AgentStatus::Idle, epoch: Epoch { agent_id, sequence: 0 } }
    }

    /// Whether the agent is idle.
    pub fn is_idle(&self) -> (r: bool)
        ensures
            r == (self.status is Idle),
    {
        matches!(self.status, AgentStatus::Idle)
    }

    /// Puts an idle agent to work, and gives its new epoch.
    pub fn become_busy(&mut self, task_id: TaskId) -> (r: Epoch)
        requires
            old(self).status is Idle,
            old(self).epoch.sequence < u32::MAX,
        ensures
            *final(self) == old(self).at_work(task_id),
            r == final(self).epoch,
    {
        self.epoch.sequence = self.epoch.sequence + 1;
        self.status = AgentStatus::Busy { task_id };
        self.epoch
    }

    /// Puts a busy agent at rest, and gives its new epoch.
    pub fn become_idle(&mut self) -> (r: Epoch)
        requires
            old(self).status is Busy,
            old(self).epoch.sequence < u32::MAX,
        ensures
            *final(self) == old(self).at_rest(),
            r == final(self).epoch,
    {
        self.epoch.sequence = self.epoch.sequence + 1;
        self.status = AgentStatus::Idle;
        self.epoch
    }
}

/// The registered agents, in the order of their numbers.
#[derive(Debug, Clone, PartialEq, Eq)]
pub struct Agents {
    states: BTreeMap<u32, AgentState>,
}

impl View for Agents {
    type V = Map<u32, AgentState>;

    closed spec fn view(&self) -> Map<u32, AgentState> {
        self.states@
    }
}

/// Whether `agents` holds an idle agent under this number.
pub open spec fn idle_at(agents: Map<u32, AgentState>, number: u32) -> bool {
    agents.contains_key(number) && agents[number].status is Idle
}

/// Whether this is the lowest number of an idle agent.
pub open spec fn lowest_idle(agents: Map<u32, AgentState>, number: u32) -> bool {
    idle_at(agents, number) && forall|other: u32| #[trigger]
        idle_at(agents, other) ==> number <= other
}

/// The idle agent with the lowest number.
pub open spec fn first_idle(agents: Map<u32, AgentState>) -> Option<u32> {
    if exists|number: u32| idle_at(agents, number) {
        Some(choose|number: u32| lowest_idle(agents, number))
    } else {
        None
    }
}

/// The numbers of the agents that are idle, or of those that are busy.
pub open spec fn numbers_of(agents: Map<u32, AgentState>, idle: bool) -> Set<u32> {
    agents.dom().filter(|number: u32| (agents[number].status is Idle) == idle)
}

proof fn lemma_increasing(numbers: Seq<u32>, i: int, j: int)
    requires
        vstd::std_specs::btree::increasing_seq(numbers),
        0 <= i < j < numbers.len(),
    ensures
        numbers[i] < numbers[j],
{
    broadcast use vstd::std_specs::btree::axiom_increasing_seq_meaning;
    broadcast use vstd::laws_cmp::group_laws_cmp;

    assert(vstd::laws_cmp::obeys_cmp::<u32>());
    assert(numbers[i].cmp_spec(&numbers[j]) is Less);
}

impl Agents {
    /// No agents.
    pub fn new() -> (r: Agents)
        ensures
            r@ == Map::<u32, AgentState>::empty(),
    {
        Agents { states: BTreeMap::new() }
    }

    /// How many agents there are.
    pub fn len(&self) -> (r: usize)
        ensures
            r == self@.len(),
            self@.dom().finite(),
    {
        self.states.len()
    }

    /// Whether the agent is registered.
    pub fn contains_key(&self, agent_id: &AgentId) -> (r: bool)
        ensures
            r == self@.contains_key(agent_id.0),
    {
        self.states.contains_key(&agent_id.0)
    }

    /// The agent's state.
    pub fn get(&self, agent_id: &AgentId) -> (r: Option<&AgentState>)
        ensures
            match r {
                Some(agent) => self@.contains_key(agent_id.0) && *agent == self@[agent_id.0],
                None => !self@.contains_key(agent_id.0),
            },
    {
        self.states.get(&agent_id.0)
    }

    /// Puts the agent in, and hands back the state it had.
    pub fn insert(&mut self, agent_id: AgentId, agent: AgentState) -> (r: Option<AgentState>)
        ensures
            final(self)@ == old(self)@.insert(agent_id.0, agent),
            match r {
                Some(was) => old(self)@.contains_key(agent_id.0) && was == old(self)@[agent_id.0],
                None => !old(self)@.contains_key(agent_id.0),
            },
    {
        self.states.insert(agent_id.0, agent)
    }

    /// Takes the agent out, and hands back the state it had.
    pub fn remove(&mut self, agent_id: &AgentId) -> (r: Option<AgentState>)
        ensures
            final(self)@ == old(self)@.remove(agent_id.0),
            match r {
                Some(was) => old(self)@.contains_key(agent_id.0) && was == old(self)@[agent_id.0],
                None => !old(self)@.contains_key(agent_id.0) && final(self)@ == old(self)@,
            },
    {
        let was = self.states.remove(&agent_id.0);
        assert(was is None ==> self.states@ =~= old(self).states@);
        was
    }

    /// The agents' numbers, in increasing order.
    fn numbers(&self) -> (r: Vec<u32>)
        ensures
            forall|i: int, j: int| 0 <= i < j < r@.len() ==> r@[i] < r@[j],
            forall|i: int| 0 <= i < r@.len() ==> self@.contains_key(#[trigger] r@[i]),
            forall|n: u32| self@.contains_key(n) ==> r@.contains(n),
    {
        let mut out: Vec<u32> = Vec::new();
        let ghost agents = self.states@;
        for entry in it: self.states.iter()
            invariant
                agents == self.states@,
                out@.len() == it.index(),
                forall|k: int| 0 <= k < out@.len() ==> out@[k] == *(#[trigger] it.seq()[k]).0,
                forall|i: int, j: int| 0 <= i < j < out@.len() ==> out@[i] < out@[j],
                forall|i: int| 0 <= i < out@.len() ==> agents.contains_key(#[trigger] out@[i]),
                vstd::std_specs::btree::increasing_seq(
                    it.seq().map_values(|kv: (&u32, &AgentState)| *kv.0),
                ),
                forall|k: int|
                    0 <= k < it.seq().len() ==> agents.contains_key(*(#[trigger] it.seq()[k]).0),
                forall|n: u32| #[trigger]
                    agents.contains_key(n) ==> out@.contains(n) || exists|k: int|
                        it.index() <= k < it.seq().len() && *(#[trigger] it.seq()[k]).0 == n,
        {
            let ghost before = out@;
            let number: u32 = *entry.0;
            out.push(number);
            proof {
                let at = it.index() as int;
                assert(*it.seq()[at].0 == number);
                assert forall|i: int| 0 <= i < before.len() implies before[i] < number by {
                    let all = it.seq().map_values(|kv: (&u32, &AgentState)| *kv.0);
                    assert(all[i] == before[i]);
                    assert(all[at] == number);
                    lemma_increasing(all, i, at);
                }
                assert forall|n: u32| #[trigger] agents.contains_key(n) implies out@.contains(n)
                    || exists|k: int|
                    at + 1 <= k < it.seq().len() && *(#[trigger] it.seq()[k]).0 == n by {
                    if before.contains(n) {
                        let k = choose|k: int| 0 <= k < before.len() && before[k] == n;
                        assert(out@[k] == n);
                    } else {
                        let k = choose|k: int|
                            at <= k < it.seq().len() && *(#[trigger] it.seq()[k]).0 == n;
                        if k == at {
                            assert(out@[at] == n);
                        }
                    }
                }
            }
        }
        out
    }

    /// The idle agent with the lowest number.
    pub fn find_idle(&self) -> (r: Option<AgentId>)
        ensures
            match r {
                Some(agent_id) => first_idle(self@) == Some(agent_id.0) && lowest_idle(
                    self@,
                    agent_id.0,
                ),
                None => first_idle(self@) is None,
            },
    {
        let numbers = self.numbers();
        let mut i: usize = 0;
        while i < numbers.len()
            invariant
                i <= numbers@.len(),
                forall|a: int, b: int| 0 <= a < b < numbers@.len() ==> numbers@[a] < numbers@[b],
                forall|n: u32| self@.contains_key(n) ==> numbers@.contains(n),
                forall|k: int| 0 <= k < i ==> !idle_at(self@, #[trigger] numbers@[k]),
            decreases numbers@.len() - i,
        {
            match self.states.get(&numbers[i]) {
                Some(agent) => {
                    if agent.is_idle() {
                        assert(lowest_idle(self@, numbers@[i as int])) by {
                            assert forall|other: u32| #[trigger]
                                idle_at(self@, other) implies numbers@[i as int] <= other by {
                                assert(numbers@.contains(other));
                                let k = choose|k: int|
                                    0 <= k < numbers@.len() && numbers@[k] == other;
                                assert(numbers@[k] == other);
                            }
                        }
                        return Some(AgentId(numbers[i]));
                    }
                },
                None => {},
            }
            i += 1;
        }
        assert forall|number: u32| !idle_at(self@, number) by {
            if idle_at(self@, number) {
                assert(numbers@.contains(number));
                let k = choose|k: int| 0 <= k < numbers@.len() && numbers@[k] == number;
                assert(!idle_at(self@, numbers@[k]));
            }
        }
        None
    }

    /// How many agents are idle, or how many are busy.
    fn count(&self, idle: bool) -> (r: usize)
        ensures
            r == numbers_of(self@, idle).len(),
    {
        let numbers = self.numbers();
        let mut found: usize = 0;
        let ghost mut counted: Set<u32> = Set::empty();
        let mut i: usize = 0;
        while i < numbers.len()
            invariant
                i <= numbers@.len(),
                forall|a: int, b: int| 0 <= a < b < numbers@.len() ==> numbers@[a] < numbers@[b],
                forall|k: int| 0 <= k < numbers@.len() ==> self@.contains_key(#[trigger] numbers@[k]),
                counted.finite(),
                found == counted.len(),
                found <= i,
                forall|n: u32|
                    counted.contains(n) <==> exists|k: int|
                        0 <= k < i && #[trigger] numbers@[k] == n && (self@[n].status is Idle)
                            == idle,
            decreases numbers@.len() - i,
        {
            let ghost number = numbers@[i as int];
            let ghost before = counted;
            assert(!counted.contains(number));
            match self.states.get(&numbers[i]) {
                Some(agent) => {
                    if agent.is_idle() == idle {
                        found += 1;
                        proof {
                            counted = counted.insert(number);
                        }
                    }
                },
                None => {},
            }
            assert forall|n: u32| counted.contains(n) <==> exists|k: int|
                0 <= k < i + 1 && #[trigger] numbers@[k] == n && (self@[n].status is Idle)
                    == idle by {
                if counted.contains(n) {
                    if before.contains(n) {
                        let k = choose|k: int|
                            0 <= k < i && #[trigger] numbers@[k] == n && (self@[n].status is Idle)
                                == idle;
                        assert(numbers@[k] == n);
                    } else {
                        assert(numbers@[i as int] == n);
                    }
                }
            }
            i += 1;
        }
        assert(counted =~= numbers_of(self@, idle)) by {
            assert forall|n: u32| numbers_of(self@, idle).contains(n) implies counted.contains(n) by {
                assert(numbers@.contains(n));
                let k = choose|k: int| 0 <= k < numbers@.len() && numbers@[k] == n;
                assert(numbers@[k] == n);
            }
        }
        found
    }
}

/// The state of the agent pool.
#[derive(Debug, Clone, PartialEq, Eq)]
pub struct PoolState {
    /// The tasks that wait, first come first.
    pub pending_tasks: VecDeque<TaskId>,
    /// The registered agents.
    pub agents: Agents,
}

/// A pool as its queue and its agents.
#[verifier::ext_equal]
pub struct Pool {
    /// The tasks that wait, first come first.
    pub pending: Seq<TaskId>,
    /// The registered agents, by number.
    pub agents: Map<u32, AgentState>,
}

impl View for PoolState {
    type V = Pool;

    open spec fn view(&self) -> Pool {
        Pool { pending: self.pending_tasks@, agents: self.agents@ }
    }
}

impl Default for PoolState {
    /// An empty pool.
    fn default() -> (r: PoolState)
        ensures
            r@ == empty_pool(),
    {
        PoolState { pending_tasks: VecDeque::new(), agents: Agents::new() }
    }
}

/// The pool without tasks and without agents.
pub open spec fn empty_pool() -> Pool {
    Pool { pending: Seq::empty(), agents: Map::empty() }
}

impl PoolState {
    /// An empty pool.
    pub fn new() -> (r: PoolState)
        ensures
            r@ == empty_pool(),
    {
        PoolState::default()
    }

    /// How many tasks wait.
    pub fn pending_count(&self) -> (r: usize)
        ensures
            r == self@.pending.len(),
    {
        self.pending_tasks.len()
    }

    /// How many agents are registered.
    pub fn agent_count(&self) -> (r: usize)
        ensures
            r == self@.agents.len(),
    {
        self.agents.len()
    }

    /// How many agents are busy.
    pub fn busy_count(&self) -> (r: usize)
        ensures
            r == numbers_of(self@.agents, false).len(),
    {
        self.agents.count(false)
    }

    /// How many agents are idle.
    pub fn idle_count(&self) -> (r: usize)
        ensures
            r == numbers_of(self@.agents, true).len(),
    {
        self.agents.count(true)
    }

    /// Whether the agent is registered.
    pub fn has_agent(&self, agent_id: AgentId) -> (r: bool)
        ensures
            r == self@.agents.contains_key(agent_id.0),
    {
        self.agents.contains_key(&agent_id)
    }

    /// The agent's state.
    pub fn get_agent(&self, agent_id: AgentId) -> (r: Option<&AgentState>)
        ensures
            match r {
                Some(agent) => self@.agents.contains_key(agent_id.0) && *agent
                    == self@.agents[agent_id.0],
                None => !self@.agents.contains_key(agent_id.0),
            },
    {
        self.agents.get(&agent_id)
    }

    /// Whether the task waits.
    pub fn has_pending_task(&self, task_id: TaskId) -> (r: bool)
        ensures
            r == self@.pending.contains(task_id),
    {
        let mut i: usize = 0;
        while i < self.pending_tasks.len()
            invariant
                i <= self.pending_tasks@.len(),
                forall|k: int| 0 <= k < i ==> self.pending_tasks@[k] != task_id,
            decreases self.pending_tasks@.len() - i,
        {
            if self.pending_tasks[i] == task_id {
                assert(self@.pending[i as int] == task_id);
                return true;
            }
            i += 1;
        }
        false
    }
}

/// What can happen to a pool.
#[derive(Debug, Clone, Copy, PartialEq, Eq, Structural)]
pub enum Event {
    /// A task was submitted.
    TaskSubmitted {
        /// The task.
        task_id: TaskId,
    },
    /// A task was withdrawn.
    TaskWithdrawn {
        /// The task.
        task_id: TaskId,
    },
    /// An agent registered.
    AgentRegistered {
        /// The agent.
        agent_id: AgentId,
    },
    /// An agent left.
    AgentDeregistered {
        /// The agent.
        agent_id: AgentId,
    },
    /// An agent completed its work.
    AgentResponded {
        /// The agent.
        agent_id: AgentId,
    },
    /// A timer fired.
    AgentTimedOut {
        /// The epoch at which the timer was started.
        epoch: Epoch,
    },
}

/// What is to be done after an event.
#[derive(Debug, Clone, Copy, PartialEq, Eq, Structural)]
pub enum Effect {
    /// Hand the task to the agent of the epoch, and start a timer with it.
    DispatchTask {
        /// The task.
        task_id: TaskId,
        /// The agent's epoch.
        epoch: Epoch,
    },
    /// Start an idle timer with the agent's epoch.
    AgentBecameIdle {
        /// The agent's epoch.
        epoch: Epoch,
    },
    /// Take the agent's answer to the submitter.
    TaskCompleted {
        /// The agent.
        agent_id: AgentId,
        /// The task.
        task_id: TaskId,
    },
    /// Tell the submitter that the task failed.
    TaskFailed {
        /// The task.
        task_id: TaskId,
    },
    /// Clean up after the agent.
    DeregisterAgent {
        /// The agent.
        agent_id: AgentId,
    },
}

/// Whether a task waits while an agent is idle.
pub open spec fn can_dispatch(pool: Pool) -> bool {
    pool.pending.len() > 0 && first_idle(pool.agents) is Some
}

/// The number of the agent that gets the next task.
pub open spec fn next_agent(pool: Pool) -> u32 {
    first_idle(pool.agents)->0
}

/// The pool after the first task went to the first idle agent.
pub open spec fn dispatched_once(pool: Pool) -> Pool {
    let number = next_agent(pool);
    Pool {
        pending: pool.pending.skip(1),
        agents: pool.agents.insert(number, pool.agents[number].at_work(pool.pending[0])),
    }
}

/// The pool after tasks went to idle agents for as long as there are both.
pub open spec fn dispatched(pool: Pool) -> Pool
    decreases pool.pending.len(),
{
    if can_dispatch(pool) {
        dispatched(dispatched_once(pool))
    } else {
        pool
    }
}

/// The tasks that go out, in order, each with the epoch of its agent.
pub open spec fn dispatches(pool: Pool) -> Seq<Effect>
    decreases pool.pending.len(),
{
    if can_dispatch(pool) {
        seq![
            Effect::DispatchTask {
                task_id: pool.pending[0],
                epoch: pool.agents[next_agent(pool)].next_epoch(),
            },
        ] + dispatches(dispatched_once(pool))
    } else {
        Seq::empty()
    }
}

/// Whether each agent that gets a task still has a next epoch.
pub open spec fn dispatch_fits(pool: Pool) -> bool
    decreases pool.pending.len(),
{
    can_dispatch(pool) ==> pool.agents[next_agent(pool)].epoch.sequence < u32::MAX && dispatch_fits(
        dispatched_once(pool),
    )
}

/// The pool as an event leaves it, before tasks go to idle agents.
pub open spec fn changed(pool: Pool, event: Event) -> Pool {
    match event {
        Event::TaskSubmitted { task_id } => Pool { pending: pool.pending.push(task_id), ..pool },
        Event::TaskWithdrawn { task_id } => Pool {
            pending: pool.pending.filter(|other: TaskId| other != task_id),
            ..pool
        },
        Event::AgentRegistered { agent_id } => if pool.agents.contains_key(agent_id.0) {
            pool
        } else {
            Pool {
                agents: pool.agents.insert(agent_id.0, AgentState::fresh(agent_id)),
                ..pool
            }
        },
        Event::AgentDeregistered { agent_id } => Pool {
            agents: pool.agents.remove(agent_id.0),
            ..pool
        },
        Event::AgentResponded { agent_id } => if works(pool, agent_id) {
            Pool {
                agents: pool.agents.insert(agent_id.0, pool.agents[agent_id.0].at_rest()),
                ..pool
            }
        } else {
            pool
        },
        Event::AgentTimedOut { epoch } => if current(pool, epoch) {
            Pool { agents: pool.agents.remove(epoch.agent_id.0), ..pool }
        } else {
            pool
        },
    }
}

/// Whether the agent is at work.
pub open spec fn works(pool: Pool, agent_id: AgentId) -> bool {
    pool.agents.contains_key(agent_id.0) && pool.agents[agent_id.0].status is Busy
}

/// Whether the epoch is the one at which its agent is now.
pub open spec fn current(pool: Pool, epoch: Epoch) -> bool {
    pool.agents.contains_key(epoch.agent_id.0) && pool.agents[epoch.agent_id.0].epoch == epoch
}

/// Whether tasks may go out after the event: a task came in, or an agent became idle.
pub open spec fn frees(pool: Pool, event: Event) -> bool {
    match event {
        Event::TaskSubmitted { task_id } => true,
        Event::AgentRegistered { agent_id } => !pool.agents.contains_key(agent_id.0),
        Event::AgentResponded { agent_id } => works(pool, agent_id),
        _ => false,
    }
}

/// What an event asks for, before tasks go out.
pub open spec fn notices(pool: Pool, event: Event) -> Seq<Effect> {
    match event {
        Event::TaskSubmitted { task_id } => Seq::empty(),
        Event::TaskWithdrawn { task_id } => Seq::empty(),
        Event::AgentRegistered { agent_id } => if pool.agents.contains_key(agent_id.0) {
            Seq::empty()
        } else {
            seq![Effect::AgentBecameIdle { epoch: AgentState::fresh(agent_id).epoch }]
        },
        Event::AgentDeregistered { agent_id } => if works(pool, agent_id) {
            seq![Effect::TaskFailed { task_id: pool.agents[agent_id.0].status->task_id }]
        } else {
            Seq::empty()
        },
        Event::AgentResponded { agent_id } => if works(pool, agent_id) {
            seq![
                Effect::TaskCompleted { agent_id, task_id: pool.agents[agent_id.0].status->task_id },
                Effect::AgentBecameIdle { epoch: pool.agents[agent_id.0].next_epoch() },
            ]
        } else {
            Seq::empty()
        },
        Event::AgentTimedOut { epoch } => if !current(pool, epoch) {
            Seq::empty()
        } else if works(pool, epoch.agent_id) {
            seq![
                Effect::TaskFailed { task_id: pool.agents[epoch.agent_id.0].status->task_id },
                Effect::DeregisterAgent { agent_id: epoch.agent_id },
            ]
        } else {
            seq![Effect::DeregisterAgent { agent_id: epoch.agent_id }]
        },
    }
}

/// The pool after an event.
pub open spec fn pool_after(pool: Pool, event: Event) -> Pool {
    if frees(pool, event) {
        dispatched(changed(pool, event))
    } else {
        changed(pool, event)
    }
}

/// What an event asks for.
pub open spec fn effects_of(pool: Pool, event: Event) -> Seq<Effect> {
    if frees(pool, event) {
        notices(pool, event) + dispatches(changed(pool, event))
    } else {
        notices(pool, event)
    }
}

/// Whether every agent that changes between idle and busy still has a next epoch.
pub open spec fn step_fits(pool: Pool, event: Event) -> bool {
    &&& frees(pool, event) ==> dispatch_fits(changed(pool, event))
    &&& match event {
        Event::AgentResponded { agent_id } => works(pool, agent_id)
            ==> pool.agents[agent_id.0].epoch.sequence < u32::MAX,
        _ => true,
    }
}

/// The next state, and what is to be done. It takes any event in any state.
pub fn step(state: PoolState, event: Event) -> (r: (PoolState, Vec<Effect>))
    requires
        step_fits(state@, event),
    ensures
        r.0@ == pool_after(state@, event),
        r.1@ == effects_of(state@, event),
{
    match event {
        Event::TaskSubmitted { task_id } => handle_task_submitted(state, task_id),
        Event::TaskWithdrawn { task_id } => handle_task_withdrawn(state, task_id),
        Event::AgentRegistered { agent_id } => handle_agent_registered(state, agent_id),
        Event::AgentDeregistered { agent_id } => handle_agent_deregistered(state, agent_id),
        Event::AgentResponded { agent_id } => handle_agent_responded(state, agent_id),
        Event::AgentTimedOut { epoch } => handle_agent_timed_out(state, epoch),
    }
}

fn handle_task_submitted(state: PoolState, task_id: TaskId) -> (r: (PoolState, Vec<Effect>))
    requires
        step_fits(state@, Event::TaskSubmitted { task_id }),
    ensures
        r.0@ == pool_after(state@, Event::TaskSubmitted { task_id }),
        r.1@ == effects_of(state@, Event::TaskSubmitted { task_id }),
{
    let mut state = state;
    state.pending_tasks.push_back(task_id);
    let mut effects: Vec<Effect> = Vec::new();
    try_dispatch(&mut state, &mut effects);
    (state, effects)
}

fn handle_task_withdrawn(state: PoolState, task_id: TaskId) -> (r: (PoolState, Vec<Effect>))
    ensures
        r.0@ == pool_after(state@, Event::TaskWithdrawn { task_id }),
        r.1@ == effects_of(state@, Event::TaskWithdrawn { task_id }),
{
    let ghost keep = |other: TaskId| other != task_id;
    let mut kept: VecDeque<TaskId> = VecDeque::new();
    let mut i: usize = 0;
    proof {
        reveal(Seq::filter);
    }
    while i < state.pending_tasks.len()
        invariant
            i <= state.pending_tasks@.len(),
            keep == (|other: TaskId| other != task_id),
            kept@ == state.pending_tasks@.take(i as int).filter(keep),
        decreases state.pending_tasks@.len() - i,
    {
        let other = state.pending_tasks[i];
        proof {
            reveal(Seq::filter);
            assert(state.pending_tasks@.take(i + 1).drop_last() =~= state.pending_tasks@.take(
                i as int,
            ));
        }
        if other != task_id {
            kept.push_back(other);
        }
        i += 1;
    }
    assert(state.pending_tasks@.take(i as int) =~= state.pending_tasks@);
    (PoolState { pending_tasks: kept, agents: state.agents }, Vec::new())
}

/// Takes an agent in, unless it is known already, and gives it a task if one waits.
pub fn handle_agent_registered(state: PoolState, agent_id: AgentId) -> (r: (
    PoolState,
    Vec<Effect>,
))
    requires
        step_fits(state@, Event::AgentRegistered { agent_id }),
    ensures
        r.0@ == pool_after(state@, Event::AgentRegistered { agent_id }),
        r.1@ == effects_of(state@, Event::AgentRegistered { agent_id }),
{
    let mut state = state;
    if state.agents.contains_key(&agent_id) {
        return (state, Vec::new());
    }
    let agent = AgentState::new(agent_id);
    let epoch = agent.epoch;
    state.agents.insert(agent_id, agent);
    let mut effects = vec![Effect::AgentBecameIdle { epoch }];
    try_dispatch(&mut state, &mut effects);
    (state, effects)
}

fn handle_agent_deregistered(state: PoolState, agent_id: AgentId) -> (r: (PoolState, Vec<Effect>))
    ensures
        r.0@ == pool_after(state@, Event::AgentDeregistered { agent_id }),
        r.1@ == effects_of(state@, Event::AgentDeregistered { agent_id }),
{
    let mut state = state;
    let mut effects: Vec<Effect> = Vec::new();
    match state.agents.remove(&agent_id) {
        Some(agent) => {
            if let AgentStatus::Busy { task_id } = agent.status {
                effects.push(Effect::TaskFailed { task_id });
            }
        },
        None => {},
    }
    (state, effects)
}

fn handle_agent_responded(state: PoolState, agent_id: AgentId) -> (r: (PoolState, Vec<Effect>))
    requires
        step_fits(state@, Event::AgentResponded { agent_id }),
    ensures
        r.0@ == pool_after(state@, Event::AgentResponded { agent_id }),
        r.1@ == effects_of(state@, Event::AgentResponded { agent_id }),
{
    let mut state = state;
    let mut agent = match state.agents.get(&agent_id) {
        Some(agent) => *agent,
        None => {
            return (state, Vec::new());
        },
    };
    match agent.status {
        AgentStatus::Busy { task_id } => {
            let epoch = agent.become_idle();
            state.agents.insert(agent_id, agent);
            let mut effects = vec![
                Effect::TaskCompleted { agent_id, task_id },
                Effect::AgentBecameIdle { epoch },
            ];
            try_dispatch(&mut state, &mut effects);
            (state, effects)
        },
        AgentStatus::Idle => (state, Vec::new()),
    }
}

fn handle_agent_timed_out(state: PoolState, epoch: Epoch) -> (r: (PoolState, Vec<Effect>))
    ensures
        r.0@ == pool_after(state@, Event::AgentTimedOut { epoch }),
        r.1@ == effects_of(state@, Event::AgentTimedOut { epoch }),
{
    let mut state = state;
    let agent_id = epoch.agent_id;
    let agent = match state.agents.get(&agent_id) {
        Some(agent) => *agent,
        None => {
            return (state, Vec::new());
        },
    };
    if agent.epoch != epoch {
        return (state, Vec::new());
    }
    state.agents.remove(&agent_id);
    let mut effects: Vec<Effect> = Vec::new();
    if let AgentStatus::Busy { task_id } = agent.status {
        effects.push(Effect::TaskFailed { task_id });
    }
    effects.push(Effect::DeregisterAgent { agent_id });
    (state, effects)
}

/// Hands tasks to idle agents for as long as there are both, and adds what that
/// asks for to `effects`.
fn try_dispatch(state: &mut PoolState, effects: &mut Vec<Effect>)
    requires
        dispatch_fits(old(state)@),
    ensures
        final(state)@ == dispatched(old(state)@),
        final(effects)@ == old(effects)@ + dispatches(old(state)@),
{
    let ghost start = state@;
    let ghost first = effects@;
    assert(first + dispatches(start) =~= effects@ + dispatches(state@));
    loop
        invariant
            dispatch_fits(state@),
            dispatched(state@) == dispatched(start),
            effects@ + dispatches(state@) == first + dispatches(start),
        ensures
            state@ == dispatched(start),
            effects@ == first + dispatches(start),
        decreases state@.pending.len(),
    {
        let ghost before = state@;
        let agent_id = match state.agents.find_idle() {
            Some(agent_id) => agent_id,
            None => {
                assert(effects@ + dispatches(before) =~= effects@);
                break;
            },
        };
        let task_id = match state.pending_tasks.pop_front() {
            Some(task_id) => task_id,
            None => {
                assert(effects@ + dispatches(before) =~= effects@);
                assert(state@ == before);
                break;
            },
        };
        assert(before.pending.subrange(1, before.pending.len() as int) =~= before.pending.skip(1));
        let mut agent = *state.agents.get(&agent_id).unwrap();
        let epoch = agent.become_busy(task_id);
        state.agents.insert(agent_id, agent);
        let ghost told = effects@;
        effects.push(Effect::DispatchTask { task_id, epoch });
        assert(state@ == dispatched_once(before));
        assert(effects@ + dispatches(state@) =~= told + dispatches(before));
    }
}

} // verus!
