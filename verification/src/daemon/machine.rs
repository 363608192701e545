//! The worker state machine.
//!
//! `step(state, event)` gives the next state and the effects to carry out. It
//! knows nothing of files, sockets or time: workers and submissions are numbers,
//! and the layer above maps them to what they stand for.
//!
//! Workers are one-shot: a worker registers, receives one task, completes it and
//! is removed. Either tasks wait for workers, or workers wait for tasks, never both.
use std::collections::{HashMap, VecDeque};
use vstd::prelude::*;

verus! {

broadcast use vstd::std_specs::hash::group_hash_axioms;

/// A worker's number, given on registration.
#[derive(Debug, Clone, Copy, PartialEq, Eq, Structural, PartialOrd, Ord, Hash)]
pub struct WorkerId(pub u32);

/// A submission's number.
#[derive(Debug, Clone, Copy, PartialEq, Eq, Structural, PartialOrd, Ord, Hash)]
pub struct SubmissionId(pub u32);

impl From<u32> for WorkerId {
    fn from(id: u32) -> (r: WorkerId) {
        WorkerId(id)
    }
}

impl vstd::std_specs::convert::FromSpecImpl<u32> for WorkerId {
    open spec fn obeys_from_spec() -> bool {
        true
    }

    open spec fn from_spec(id: u32) -> WorkerId {
        WorkerId(id)
    }
}

impl From<u32> for SubmissionId {
    fn from(id: u32) -> (r: SubmissionId) {
        SubmissionId(id)
    }
}

impl vstd::std_specs::convert::FromSpecImpl<u32> for SubmissionId {
    open spec fn obeys_from_spec() -> bool {
        true
    }

    open spec fn from_spec(id: u32) -> SubmissionId {
        SubmissionId(id)
    }
}

/// What a worker is given: a submission, or a heartbeat.
#[derive(Debug, Clone, Copy, PartialEq, Eq, Structural, Hash)]
pub enum TaskId {
    External(SubmissionId),
    Heartbeat,
}

/// Tasks that wait for workers, or workers that wait for tasks, or neither.
/// A queue that is there is not empty.
#[derive(Debug, Clone, PartialEq, Eq)]
pub enum Waiting {
    Nothing,
    Tasks(VecDeque<SubmissionId>),
    Workers(VecDeque<WorkerId>),
}

/// The busy workers, each with its task.
#[derive(Debug, Clone, PartialEq, Eq)]
pub struct BusyWorkers {
    tasks: HashMap<u32, TaskId>,
}

impl View for BusyWorkers {
    type V = Map<u32, TaskId>;

    closed spec fn view(&self) -> Map<u32, TaskId> {
        self.tasks@
    }
}

impl BusyWorkers {
    /// No worker is busy.
    pub fn new() -> (r: BusyWorkers)
        ensures
            r@ == Map::<u32, TaskId>::empty(),
    {
        BusyWorkers { tasks: HashMap::new() }
    }

    /// How many workers are busy.
    pub fn len(&self) -> (r: usize)
        ensures
            r == self@.len(),
            self@.dom().finite(),
    {
        self.tasks.len()
    }

    /// Whether the worker is busy.
    pub fn contains_key(&self, worker_id: &WorkerId) -> (r: bool)
        ensures
            r == self@.contains_key(worker_id.0),
    {
        self.tasks.contains_key(&worker_id.0)
    }

    /// The worker's task.
    pub fn get(&self, worker_id: &WorkerId) -> (r: Option<&TaskId>)
        ensures
            match r {
                Some(task_id) => self@.contains_key(worker_id.0) && *task_id == self@[worker_id.0],
                None => !self@.contains_key(worker_id.0),
            },
    {
        self.tasks.get(&worker_id.0)
    }

    /// Gives the worker a task, and hands back the one it had.
    pub fn insert(&mut self, worker_id: WorkerId, task_id: TaskId) -> (r: Option<TaskId>)
        ensures
            final(self)@ == old(self)@.insert(worker_id.0, task_id),
            match r {
                Some(was) => old(self)@.contains_key(worker_id.0) && was == old(self)@[worker_id.0],
                None => !old(self)@.contains_key(worker_id.0),
            },
    {
        self.tasks.insert(worker_id.0, task_id)
    }

    /// Takes the worker out, and hands back its task.
    pub fn remove(&mut self, worker_id: &WorkerId) -> (r: Option<TaskId>)
        ensures
            final(self)@ == old(self)@.remove(worker_id.0),
            match r {
                Some(was) => old(self)@.contains_key(worker_id.0) && was == old(self)@[worker_id.0],
                None => !old(self)@.contains_key(worker_id.0) && final(self)@ == old(self)@,
            },
    {
        let was = self.tasks.remove(&worker_id.0);
        assert(was is None ==> self.tasks@ =~= old(self).tasks@);
        was
    }
}

/// The state of the worker pool.
#[derive(Debug, Clone, PartialEq, Eq)]
pub struct PoolState {
    /// What waits.
    pub waiting: Waiting,
    /// The workers that have a task.
    pub busy_workers: BusyWorkers,
}

/// A pool as its queues and its busy workers.
#[verifier::ext_equal]
pub struct Pool {
    /// The submissions that wait, first come first.
    pub tasks: Seq<SubmissionId>,
    /// The workers that wait, first come first.
    pub idle: Seq<WorkerId>,
    /// The busy workers, by number, each with its task.
    pub busy: Map<u32, TaskId>,
}

impl View for PoolState {
    type V = Pool;

    open spec fn view(&self) -> Pool {
        Pool {
            tasks: match self.waiting {
                Waiting::Tasks(tasks) => tasks@,
                _ => Seq::empty(),
            },
            idle: match self.waiting {
                Waiting::Workers(workers) => workers@,
                _ => Seq::empty(),
            },
            busy: self.busy_workers@,
        }
    }
}

impl PoolState {
    /// A queue that is there is not empty.
    pub open spec fn well_formed(self) -> bool {
        match self.waiting {
            Waiting::Nothing => true,
            Waiting::Tasks(tasks) => tasks@.len() > 0,
            Waiting::Workers(workers) => workers@.len() > 0,
        }
    }

    /// An empty pool.
    pub fn new() -> (r: PoolState)
        ensures
            r.well_formed(),
            r@ == empty_pool(),
    {
        PoolState { waiting: Waiting::Nothing, busy_workers: BusyWorkers::new() }
    }

    /// How many tasks wait.
    pub fn pending_count(&self) -> (r: usize)
        ensures
            r == self@.tasks.len(),
    {
        match &self.waiting {
            Waiting::Tasks(tasks) => tasks.len(),
            _ => 0,
        }
    }

    /// How many workers wait.
    pub fn idle_count(&self) -> (r: usize)
        ensures
            r == self@.idle.len(),
    {
        match &self.waiting {
            Waiting::Workers(workers) => workers.len(),
            _ => 0,
        }
    }

    /// How many workers are busy.
    pub fn busy_count(&self) -> (r: usize)
        ensures
            r == self@.busy.len(),
    {
        self.busy_workers.len()
    }

    /// How many workers there are, idle and busy.
    pub fn worker_count(&self) -> (r: usize)
        requires
            self@.idle.len() + self@.busy.len() <= usize::MAX,
        ensures
            r == self@.idle.len() + self@.busy.len(),
    {
        self.idle_count() + self.busy_count()
    }
}

/// The pool without tasks and without workers.
pub open spec fn empty_pool() -> Pool {
    Pool { tasks: Seq::empty(), idle: Seq::empty(), busy: Map::empty() }
}

/// What can happen to a pool.
#[derive(Debug, Clone, Copy, PartialEq, Eq, Structural)]
pub enum Event {
    /// A client submitted a task.
    TaskSubmitted { submission_id: SubmissionId },
    /// A client went away before its task was completed.
    TaskWithdrawn { submission_id: SubmissionId },
    /// A worker registered.
    WorkerReady { worker_id: WorkerId },
    /// A worker completed its task.
    WorkerResponded { worker_id: WorkerId },
    /// A worker took too long over its task.
    WorkerTimedOut { worker_id: WorkerId },
    /// A worker has been idle for long; it gets a heartbeat if it still is.
    AssignHeartbeatIfIdle { worker_id: WorkerId },
}

/// What is to be done after an event.
#[derive(Debug, Clone, Copy, PartialEq, Eq, Structural)]
pub enum Effect {
    /// Hand the task to the worker and start the task's timer.
    TaskAssigned { worker_id: WorkerId, task_id: TaskId },
    /// Start the worker's idle timer.
    WorkerWaiting { worker_id: WorkerId },
    /// Take the worker's answer to the submitter.
    TaskCompleted { worker_id: WorkerId, task_id: TaskId },
    /// Tell the submitter that the task failed.
    TaskFailed { submission_id: SubmissionId },
    /// Forget the worker.
    WorkerRemoved { worker_id: WorkerId },
}

/// `queue` without the first place at which `item` stands.
pub open spec fn without_first<T>(queue: Seq<T>, item: T) -> Seq<T> {
    match queue.index_of_first(item) {
        Some(i) => queue.remove(i),
        None => queue,
    }
}

/// The pool after an event.
pub open spec fn pool_after(pool: Pool, event: Event) -> Pool {
    match event {
        Event::TaskSubmitted { submission_id } => if pool.idle.len() > 0 {
            Pool {
                idle: pool.idle.skip(1),
                busy: pool.busy.insert(pool.idle[0].0, TaskId::External(submission_id)),
                ..pool
            }
        } else {
            Pool { tasks: pool.tasks.push(submission_id), ..pool }
        },
        Event::TaskWithdrawn { submission_id } => Pool {
            tasks: without_first(pool.tasks, submission_id),
            ..pool
        },
        Event::WorkerReady { worker_id } => if pool.tasks.len() > 0 {
            Pool {
                tasks: pool.tasks.skip(1),
                busy: pool.busy.insert(worker_id.0, TaskId::External(pool.tasks[0])),
                ..pool
            }
        } else {
            Pool { idle: pool.idle.push(worker_id), ..pool }
        },
        Event::WorkerResponded { worker_id } => Pool {
            busy: pool.busy.remove(worker_id.0),
            ..pool
        },
        Event::WorkerTimedOut { worker_id } => Pool {
            busy: pool.busy.remove(worker_id.0),
            ..pool
        },
        Event::AssignHeartbeatIfIdle { worker_id } => if pool.idle.contains(worker_id) {
            Pool {
                idle: without_first(pool.idle, worker_id),
                busy: pool.busy.insert(worker_id.0, TaskId::Heartbeat),
                ..pool
            }
        } else {
            pool
        },
    }
}

/// What an event asks for.
pub open spec fn effects_of(pool: Pool, event: Event) -> Seq<Effect> {
    match event {
        Event::TaskSubmitted { submission_id } => if pool.idle.len() > 0 {
            seq![
                Effect::TaskAssigned {
                    worker_id: pool.idle[0],
                    task_id: TaskId::External(submission_id),
                },
            ]
        } else {
            Seq::empty()
        },
        Event::TaskWithdrawn { submission_id } => Seq::empty(),
        Event::WorkerReady { worker_id } => if pool.tasks.len() > 0 {
            seq![Effect::TaskAssigned { worker_id, task_id: TaskId::External(pool.tasks[0]) }]
        } else {
            seq![Effect::WorkerWaiting { worker_id }]
        },
        Event::WorkerResponded { worker_id } => if pool.busy.contains_key(worker_id.0) {
            seq![
                Effect::TaskCompleted { worker_id, task_id: pool.busy[worker_id.0] },
                Effect::WorkerRemoved { worker_id },
            ]
        } else {
            Seq::empty()
        },
        Event::WorkerTimedOut { worker_id } => if !pool.busy.contains_key(worker_id.0) {
            Seq::empty()
        } else {
            match pool.busy[worker_id.0] {
                TaskId::External(submission_id) => seq![
                    Effect::WorkerRemoved { worker_id },
                    Effect::TaskFailed { submission_id },
                ],
                TaskId::Heartbeat => seq![Effect::WorkerRemoved { worker_id }],
            }
        },
        Event::AssignHeartbeatIfIdle { worker_id } => if pool.idle.contains(worker_id) {
            seq![Effect::TaskAssigned { worker_id, task_id: TaskId::Heartbeat }]
        } else {
            Seq::empty()
        },
    }
}

/// Whether an event may come: a worker registers once, so one that registers is
/// neither busy nor idle.
pub open spec fn may_come(pool: Pool, event: Event) -> bool {
    match event {
        Event::WorkerReady { worker_id } => !pool.busy.contains_key(worker_id.0)
            && !pool.idle.contains(worker_id),
        _ => true,
    }
}

/// Whether an event may come.
pub fn is_expected(state: &PoolState, event: Event) -> (r: bool)
    ensures
        r == may_come(state@, event),
{
    match event {
        Event::WorkerReady { worker_id } => {
            if state.busy_workers.contains_key(&worker_id) {
                return false;
            }
            match &state.waiting {
                Waiting::Workers(worker_ids) => position_of_worker(worker_ids, worker_id).is_none(),
                _ => true,
            }
        },
        _ => true,
    }
}

/// The next state, and what is to be done.
pub fn step(state: PoolState, event: Event) -> (r: (PoolState, Vec<Effect>))
    requires
        state.well_formed(),
        may_come(state@, event),
    ensures
        r.0.well_formed(),
        r.0@ == pool_after(state@, event),
        r.1@ == effects_of(state@, event),
{
    match event {
        Event::TaskSubmitted { submission_id } => handle_task_submitted(state, submission_id),
        Event::TaskWithdrawn { submission_id } => handle_task_withdrawn(state, submission_id),
        Event::WorkerReady { worker_id } => handle_worker_ready(state, worker_id),
        Event::WorkerResponded { worker_id } => handle_worker_responded(state, worker_id),
        Event::WorkerTimedOut { worker_id } => handle_worker_timed_out(state, worker_id),
        Event::AssignHeartbeatIfIdle { worker_id } => handle_assign_heartbeat_if_idle(
            state,
            worker_id,
        ),
    }
}

fn handle_task_submitted(state: PoolState, submission_id: SubmissionId) -> (r: (
    PoolState,
    Vec<Effect>,
))
    requires
        state.well_formed(),
    ensures
        r.0.well_formed(),
        r.0@ == pool_after(state@, Event::TaskSubmitted { submission_id }),
        r.1@ == effects_of(state@, Event::TaskSubmitted { submission_id }),
{
    let mut busy_workers = state.busy_workers;
    match state.waiting {
        Waiting::Workers(mut worker_ids) => {
            let ghost queue = worker_ids@;
            assert(queue.subrange(1, queue.len() as int) =~= queue.skip(1));
            let worker_id = worker_ids.pop_front().unwrap();
            let waiting = if worker_ids.len() == 0 {
                Waiting::Nothing
            } else {
                Waiting::Workers(worker_ids)
            };
            let task_id = TaskId::External(submission_id);
            busy_workers.insert(worker_id, task_id);
            (PoolState { waiting, busy_workers }, vec![Effect::TaskAssigned { worker_id, task_id }])
        },
        Waiting::Tasks(mut submission_ids) => {
            submission_ids.push_back(submission_id);
            (PoolState { waiting: Waiting::Tasks(submission_ids), busy_workers }, Vec::new())
        },
        Waiting::Nothing => {
            let mut submission_ids: VecDeque<SubmissionId> = VecDeque::new();
            submission_ids.push_back(submission_id);
            (PoolState { waiting: Waiting::Tasks(submission_ids), busy_workers }, Vec::new())
        },
    }
}

/// Where `item` first stands in the queue of submissions.
fn position_of_submission(queue: &VecDeque<SubmissionId>, item: SubmissionId) -> (r: Option<usize>)
    ensures
        match r {
            Some(i) => queue@.index_of_first(item) == Some(i as int) && i < queue@.len(),
            None => queue@.index_of_first(item) is None,
        },
{
    proof {
        queue@.index_of_first_ensures(item);
    }
    let mut i: usize = 0;
    while i < queue.len()
        invariant
            i <= queue@.len(),
            forall|k: int| 0 <= k < i ==> queue@[k] != item,
        decreases queue@.len() - i,
    {
        if queue[i] == item {
            assert(queue@.contains(item));
            proof {
                queue@.index_of_first_ensures(item);
            }
            return Some(i);
        }
        i += 1;
    }
    None
}

/// Where `item` first stands in the queue of workers.
fn position_of_worker(queue: &VecDeque<WorkerId>, item: WorkerId) -> (r: Option<usize>)
    ensures
        match r {
            Some(i) => queue@.index_of_first(item) == Some(i as int) && i < queue@.len(),
            None => queue@.index_of_first(item) is None,
        },
        r is Some <==> queue@.contains(item),
{
    proof {
        queue@.index_of_first_ensures(item);
    }
    let mut i: usize = 0;
    while i < queue.len()
        invariant
            i <= queue@.len(),
            forall|k: int| 0 <= k < i ==> queue@[k] != item,
        decreases queue@.len() - i,
    {
        if queue[i] == item {
            assert(queue@.contains(item));
            proof {
                queue@.index_of_first_ensures(item);
            }
            return Some(i);
        }
        i += 1;
    }
    None
}

fn handle_task_withdrawn(state: PoolState, submission_id: SubmissionId) -> (r: (
    PoolState,
    Vec<Effect>,
))
    requires
        state.well_formed(),
    ensures
        r.0.well_formed(),
        r.0@ == pool_after(state@, Event::TaskWithdrawn { submission_id }),
        r.1@ == effects_of(state@, Event::TaskWithdrawn { submission_id }),
{
    let busy_workers = state.busy_workers;
    proof {
        state@.tasks.index_of_first_ensures(submission_id);
    }
    let waiting = match state.waiting {
        Waiting::Tasks(mut submission_ids) => {
            match position_of_submission(&submission_ids, submission_id) {
                Some(at) => {
                    submission_ids.remove(at);
                },
                None => {},
            }
            if submission_ids.len() == 0 {
                Waiting::Nothing
            } else {
                Waiting::Tasks(submission_ids)
            }
        },
        other => other,
    };
    (PoolState { waiting, busy_workers }, Vec::new())
}

fn handle_worker_ready(state: PoolState, worker_id: WorkerId) -> (r: (PoolState, Vec<Effect>))
    requires
        state.well_formed(),
        may_come(state@, Event::WorkerReady { worker_id }),
    ensures
        r.0.well_formed(),
        r.0@ == pool_after(state@, Event::WorkerReady { worker_id }),
        r.1@ == effects_of(state@, Event::WorkerReady { worker_id }),
{
    let mut busy_workers = state.busy_workers;
    match state.waiting {
        Waiting::Tasks(mut submission_ids) => {
            let ghost queue = submission_ids@;
            assert(queue.subrange(1, queue.len() as int) =~= queue.skip(1));
            let submission_id = submission_ids.pop_front().unwrap();
            let waiting = if submission_ids.len() == 0 {
                Waiting::Nothing
            } else {
                Waiting::Tasks(submission_ids)
            };
            let task_id = TaskId::External(submission_id);
            busy_workers.insert(worker_id, task_id);
            (PoolState { waiting, busy_workers }, vec![Effect::TaskAssigned { worker_id, task_id }])
        },
        Waiting::Workers(mut worker_ids) => {
            worker_ids.push_back(worker_id);
            (
                PoolState { waiting: Waiting::Workers(worker_ids), busy_workers },
                vec![Effect::WorkerWaiting { worker_id }],
            )
        },
        Waiting::Nothing => {
            let mut worker_ids: VecDeque<WorkerId> = VecDeque::new();
            worker_ids.push_back(worker_id);
            (
                PoolState { waiting: Waiting::Workers(worker_ids), busy_workers },
                vec![Effect::WorkerWaiting { worker_id }],
            )
        },
    }
}

fn handle_worker_responded(state: PoolState, worker_id: WorkerId) -> (r: (PoolState, Vec<Effect>))
    requires
        state.well_formed(),
    ensures
        r.0.well_formed(),
        r.0@ == pool_after(state@, Event::WorkerResponded { worker_id }),
        r.1@ == effects_of(state@, Event::WorkerResponded { worker_id }),
{
    let mut state = state;
    match state.busy_workers.remove(&worker_id) {
        Some(task_id) => (
            state,
            vec![Effect::TaskCompleted { worker_id, task_id }, Effect::WorkerRemoved { worker_id }],
        ),
        None => (state, Vec::new()),
    }
}

fn handle_worker_timed_out(state: PoolState, worker_id: WorkerId) -> (r: (PoolState, Vec<Effect>))
    requires
        state.well_formed(),
    ensures
        r.0.well_formed(),
        r.0@ == pool_after(state@, Event::WorkerTimedOut { worker_id }),
        r.1@ == effects_of(state@, Event::WorkerTimedOut { worker_id }),
{
    let mut state = state;
    match state.busy_workers.remove(&worker_id) {
        Some(task_id) => {
            let mut effects = vec![Effect::WorkerRemoved { worker_id }];
            if let TaskId::External(submission_id) = task_id {
                effects.push(Effect::TaskFailed { submission_id });
            }
            (state, effects)
        },
        None => (state, Vec::new()),
    }
}

fn handle_assign_heartbeat_if_idle(state: PoolState, worker_id: WorkerId) -> (r: (
    PoolState,
    Vec<Effect>,
))
    requires
        state.well_formed(),
    ensures
        r.0.well_formed(),
        r.0@ == pool_after(state@, Event::AssignHeartbeatIfIdle { worker_id }),
        r.1@ == effects_of(state@, Event::AssignHeartbeatIfIdle { worker_id }),
{
    let mut busy_workers = state.busy_workers;
    match state.waiting {
        Waiting::Workers(mut worker_ids) => {
            match position_of_worker(&worker_ids, worker_id) {
                Some(at) => {
                    worker_ids.remove(at);
                    let waiting = if worker_ids.len() == 0 {
                        Waiting::Nothing
                    } else {
                        Waiting::Workers(worker_ids)
                    };
                    let task_id = TaskId::Heartbeat;
                    busy_workers.insert(worker_id, task_id);
                    (
                        PoolState { waiting, busy_workers },
                        vec![Effect::TaskAssigned { worker_id, task_id }],
                    )
                },
                None => (
                    PoolState { waiting: Waiting::Workers(worker_ids), busy_workers },
                    Vec::new(),
                ),
            }
        },
        other => (PoolState { waiting: other, busy_workers }, Vec::new()),
    }
}

} // verus!
