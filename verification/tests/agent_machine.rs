use agent_pool::v2::{
    step, AgentId, AgentState, AgentStatus, Effect, Epoch, Event, PoolState, TaskId,
};

#[test]
fn task_submitted_queues_when_no_agents() {
    let state = PoolState::new();
    let (state, effects) = step(state, Event::TaskSubmitted { task_id: TaskId(1) });

    assert_eq!(state.pending_count(), 1);
    assert!(state.has_pending_task(TaskId(1)));
    assert!(effects.is_empty(), "No agents, so no dispatch");
}

#[test]
fn task_submitted_dispatches_to_idle_agent() {
    let mut state = PoolState::new();
    state.agents.insert(AgentId(1), AgentState::new(AgentId(1)));

    let (state, effects) = step(state, Event::TaskSubmitted { task_id: TaskId(42) });

    assert_eq!(state.pending_count(), 0, "Task should be dispatched");
    assert_eq!(state.busy_count(), 1);

    let agent = state.get_agent(AgentId(1)).unwrap();
    assert_eq!(agent.status, AgentStatus::Busy { task_id: TaskId(42) });
    assert_eq!(agent.epoch.sequence, 1, "Epoch should increment on dispatch");

    assert_eq!(effects.len(), 1);
    assert!(matches!(
        &effects[0],
        Effect::DispatchTask { task_id: TaskId(42), epoch }
            if epoch.agent_id == AgentId(1) && epoch.sequence == 1
    ));
}

#[test]
fn task_submitted_queues_when_all_agents_busy() {
    let mut state = PoolState::new();
    let mut agent = AgentState::new(AgentId(1));
    agent.become_busy(TaskId(99));
    state.agents.insert(AgentId(1), agent);

    let (state, effects) = step(state, Event::TaskSubmitted { task_id: TaskId(42) });

    assert_eq!(state.pending_count(), 1);
    assert!(state.has_pending_task(TaskId(42)));
    assert!(effects.is_empty());
}

#[test]
fn multiple_tasks_dispatch_to_multiple_agents() {
    let mut state = PoolState::new();
    state.agents.insert(AgentId(1), AgentState::new(AgentId(1)));
    state.agents.insert(AgentId(2), AgentState::new(AgentId(2)));
    state.pending_tasks.push_back(TaskId(1));
    state.pending_tasks.push_back(TaskId(2));
    state.pending_tasks.push_back(TaskId(3));

    // Trigger dispatch by submitting another task
    let (state, effects) = step(state, Event::TaskSubmitted { task_id: TaskId(4) });

    // 2 agents, 4 tasks -> 2 dispatched, 2 pending
    assert_eq!(state.busy_count(), 2);
    assert_eq!(state.pending_count(), 2);
    assert_eq!(effects.len(), 2);
}

#[test]
fn task_withdrawn_removes_from_pending() {
    let mut state = PoolState::new();
    state.pending_tasks.push_back(TaskId(1));
    state.pending_tasks.push_back(TaskId(2));
    state.pending_tasks.push_back(TaskId(3));

    let (state, effects) = step(state, Event::TaskWithdrawn { task_id: TaskId(2) });

    assert_eq!(state.pending_count(), 2);
    assert!(!state.has_pending_task(TaskId(2)));
    assert!(state.has_pending_task(TaskId(1)));
    assert!(state.has_pending_task(TaskId(3)));
    assert!(effects.is_empty());
}

#[test]
fn task_withdrawn_noop_for_unknown_task() {
    let state = PoolState::new();
    let (state, effects) = step(state, Event::TaskWithdrawn { task_id: TaskId(999) });

    assert_eq!(state.pending_count(), 0);
    assert!(effects.is_empty());
}

#[test]
fn task_withdrawn_noop_for_dispatched_task() {
    let mut state = PoolState::new();
    let mut agent = AgentState::new(AgentId(1));
    agent.become_busy(TaskId(42));
    state.agents.insert(AgentId(1), agent);

    // Try to withdraw a task that's already dispatched
    let (state, effects) = step(state, Event::TaskWithdrawn { task_id: TaskId(42) });

    // Task is still being processed - can't recall it
    assert_eq!(state.busy_count(), 1);
    assert!(effects.is_empty());
}

#[test]
fn agent_registered_adds_to_pool() {
    let state = PoolState::new();
    let (state, effects) = step(state, Event::AgentRegistered { agent_id: AgentId(1) });

    assert!(state.has_agent(AgentId(1)));
    assert_eq!(state.idle_count(), 1);

    assert_eq!(effects.len(), 1);
    assert!(matches!(
        &effects[0],
        Effect::AgentBecameIdle { epoch }
            if epoch.agent_id == AgentId(1) && epoch.sequence == 0
    ));
}

#[test]
fn agent_registered_dispatches_pending_task() {
    let mut state = PoolState::new();
    state.pending_tasks.push_back(TaskId(42));

    let (state, effects) = step(state, Event::AgentRegistered { agent_id: AgentId(1) });

    assert_eq!(state.pending_count(), 0);
    assert_eq!(state.busy_count(), 1);

    // Should have AgentBecameIdle (initial) + DispatchTask
    assert_eq!(effects.len(), 2);
    assert!(matches!(&effects[0], Effect::AgentBecameIdle { .. }));
    assert!(matches!(&effects[1], Effect::DispatchTask { task_id: TaskId(42), .. }));
}

#[test]
fn agent_registered_idempotent() {
    let mut state = PoolState::new();
    state.agents.insert(AgentId(1), AgentState::new(AgentId(1)));

    let (state, effects) = step(state, Event::AgentRegistered { agent_id: AgentId(1) });

    assert_eq!(state.agent_count(), 1);
    assert!(effects.is_empty(), "Duplicate registration should be no-op");
}

#[test]
fn agent_deregistered_removes_idle_agent() {
    let mut state = PoolState::new();
    state.agents.insert(AgentId(1), AgentState::new(AgentId(1)));

    let (state, effects) = step(state, Event::AgentDeregistered { agent_id: AgentId(1) });

    assert!(!state.has_agent(AgentId(1)));
    assert!(effects.is_empty(), "Idle agent deregister has no effects");
}

#[test]
fn agent_deregistered_fails_in_flight_task() {
    let mut state = PoolState::new();
    let mut agent = AgentState::new(AgentId(1));
    agent.become_busy(TaskId(42));
    state.agents.insert(AgentId(1), agent);

    let (state, effects) = step(state, Event::AgentDeregistered { agent_id: AgentId(1) });

    assert!(!state.has_agent(AgentId(1)));
    assert_eq!(effects.len(), 1);
    assert!(matches!(&effects[0], Effect::TaskFailed { task_id: TaskId(42) }));
}

#[test]
fn agent_deregistered_noop_for_unknown() {
    let state = PoolState::new();
    let (state, effects) = step(state, Event::AgentDeregistered { agent_id: AgentId(999) });

    assert_eq!(state.agent_count(), 0);
    assert!(effects.is_empty());
}

#[test]
fn agent_responded_completes_task() {
    let mut state = PoolState::new();
    let mut agent = AgentState::new(AgentId(1));
    agent.become_busy(TaskId(42));
    state.agents.insert(AgentId(1), agent);

    let (state, effects) = step(state, Event::AgentResponded { agent_id: AgentId(1) });

    let agent = state.get_agent(AgentId(1)).unwrap();
    assert!(agent.is_idle());
    assert_eq!(agent.epoch.sequence, 2, "Epoch should be 2 (busy + idle)");

    assert_eq!(effects.len(), 2);
    assert!(matches!(
        &effects[0],
        Effect::TaskCompleted { agent_id: AgentId(1), task_id: TaskId(42) }
    ));
    assert!(matches!(
        &effects[1],
        Effect::AgentBecameIdle { epoch } if epoch.sequence == 2
    ));
}

#[test]
fn agent_responded_dispatches_next_task() {
    let mut state = PoolState::new();
    let mut agent = AgentState::new(AgentId(1));
    agent.become_busy(TaskId(1));
    state.agents.insert(AgentId(1), agent);
    state.pending_tasks.push_back(TaskId(2));

    let (state, effects) = step(state, Event::AgentResponded { agent_id: AgentId(1) });

    let agent = state.get_agent(AgentId(1)).unwrap();
    assert_eq!(agent.status, AgentStatus::Busy { task_id: TaskId(2) });
    assert_eq!(agent.epoch.sequence, 3, "Epoch: 1 (busy) + 2 (idle) + 3 (busy)");

    assert_eq!(effects.len(), 3);
    assert!(matches!(&effects[0], Effect::TaskCompleted { .. }));
    assert!(matches!(&effects[1], Effect::AgentBecameIdle { .. }));
    assert!(matches!(&effects[2], Effect::DispatchTask { task_id: TaskId(2), .. }));
}

#[test]
fn agent_responded_noop_for_unknown_agent() {
    let state = PoolState::new();
    let (state, effects) = step(state, Event::AgentResponded { agent_id: AgentId(999) });

    assert!(effects.is_empty());
    assert_eq!(state.agent_count(), 0);
}

#[test]
fn agent_responded_noop_for_idle_agent() {
    let mut state = PoolState::new();
    state.agents.insert(AgentId(1), AgentState::new(AgentId(1)));

    let (state, effects) = step(state, Event::AgentResponded { agent_id: AgentId(1) });

    assert!(state.get_agent(AgentId(1)).unwrap().is_idle());
    assert_eq!(state.get_agent(AgentId(1)).unwrap().epoch.sequence, 0);
    assert!(effects.is_empty());
}

#[test]
fn timeout_deregisters_idle_agent() {
    let mut state = PoolState::new();
    state.agents.insert(AgentId(1), AgentState::new(AgentId(1)));
    let epoch = state.get_agent(AgentId(1)).unwrap().epoch;

    let (state, effects) = step(state, Event::AgentTimedOut { epoch });

    assert!(!state.has_agent(AgentId(1)));
    assert_eq!(effects.len(), 1);
    assert!(matches!(&effects[0], Effect::DeregisterAgent { agent_id: AgentId(1) }));
}

#[test]
fn timeout_deregisters_busy_agent_and_fails_task() {
    let mut state = PoolState::new();
    let mut agent = AgentState::new(AgentId(1));
    let epoch = agent.become_busy(TaskId(42));
    state.agents.insert(AgentId(1), agent);

    let (state, effects) = step(state, Event::AgentTimedOut { epoch });

    assert!(!state.has_agent(AgentId(1)));
    assert_eq!(effects.len(), 2);
    // TaskFailed should come first (logical ordering)
    assert!(matches!(&effects[0], Effect::TaskFailed { task_id: TaskId(42) }));
    assert!(matches!(&effects[1], Effect::DeregisterAgent { agent_id: AgentId(1) }));
}

#[test]
fn stale_timeout_ignored_epoch_mismatch() {
    let mut state = PoolState::new();
    let mut agent = AgentState::new(AgentId(1));
    let old_epoch = agent.epoch;
    agent.become_busy(TaskId(42)); // Epoch is now 1
    state.agents.insert(AgentId(1), agent);

    // Fire timeout with old epoch (sequence 0)
    let (state, effects) = step(state, Event::AgentTimedOut { epoch: old_epoch });

    // Agent should still exist
    assert!(state.has_agent(AgentId(1)));
    assert!(effects.is_empty());
}

#[test]
fn stale_timeout_ignored_agent_gone() {
    let state = PoolState::new();
    let epoch = Epoch {
        agent_id: AgentId(999),
        sequence: 0,
    };

    let (state, effects) = step(state, Event::AgentTimedOut { epoch });

    assert!(effects.is_empty());
    assert_eq!(state.agent_count(), 0);
}

#[test]
fn epoch_increments_correctly_through_lifecycle() {
    let state = PoolState::new();

    // Register agent - epoch 0
    let (mut state, effects) = step(state, Event::AgentRegistered { agent_id: AgentId(1) });
    let epoch0 = match &effects[0] {
        Effect::AgentBecameIdle { epoch } => *epoch,
        _ => panic!("Expected AgentBecameIdle"),
    };
    assert_eq!(epoch0.sequence, 0);

    // Submit task - agent becomes busy, epoch 1
    state.pending_tasks.push_back(TaskId(1));
    let (state, effects) = step(state, Event::TaskSubmitted { task_id: TaskId(2) });
    // First dispatch is task 1
    let epoch1 = match &effects[0] {
        Effect::DispatchTask { epoch, .. } => *epoch,
        _ => panic!("Expected DispatchTask"),
    };
    assert_eq!(epoch1.sequence, 1);

    // Agent responds - becomes idle, epoch 2
    let (_state, effects) = step(state, Event::AgentResponded { agent_id: AgentId(1) });
    let epoch2 = match &effects[1] {
        Effect::AgentBecameIdle { epoch } => *epoch,
        _ => panic!("Expected AgentBecameIdle"),
    };
    assert_eq!(epoch2.sequence, 2);

    // Dispatched task 2 - becomes busy, epoch 3
    let epoch3 = match &effects[2] {
        Effect::DispatchTask { epoch, .. } => *epoch,
        _ => panic!("Expected DispatchTask"),
    };
    assert_eq!(epoch3.sequence, 3);
}

#[test]
fn dispatch_order_is_deterministic() {
    // Create state with multiple agents and tasks
    let mut state = PoolState::new();
    state.agents.insert(AgentId(3), AgentState::new(AgentId(3)));
    state.agents.insert(AgentId(1), AgentState::new(AgentId(1)));
    state.agents.insert(AgentId(2), AgentState::new(AgentId(2)));
    state.pending_tasks.push_back(TaskId(10));
    state.pending_tasks.push_back(TaskId(20));

    let (_state, effects) = step(state, Event::TaskSubmitted { task_id: TaskId(30) });

    // BTreeMap ensures agents are iterated in ID order: 1, 2, 3
    // VecDeque ensures tasks are dispatched FIFO: 10, 20, 30
    let dispatches: Vec<_> = effects
        .iter()
        .filter_map(|e| match e {
            Effect::DispatchTask { task_id, epoch } => Some((*task_id, epoch.agent_id)),
            _ => None,
        })
        .collect();

    assert_eq!(
        dispatches,
        vec![
            (TaskId(10), AgentId(1)),
            (TaskId(20), AgentId(2)),
            (TaskId(30), AgentId(3)),
        ]
    );
}

#[test]
fn work_makes_an_idle_timeout_stale() {
    let (state, effects) = step(
        PoolState::new(),
        Event::AgentRegistered { agent_id: AgentId(1) },
    );
    let epoch = match &effects[0] {
        Effect::AgentBecameIdle { epoch } => *epoch,
        _ => panic!("Expected AgentBecameIdle"),
    };
    let (state, _) = step(state, Event::TaskSubmitted { task_id: TaskId(1) });
    let (state, _) = step(state, Event::AgentResponded { agent_id: AgentId(1) });
    let before = state.clone();
    let (state, effects) = step(state, Event::AgentTimedOut { epoch });
    assert_eq!(state, before);
    assert!(effects.is_empty());
}

#[test]
fn idle_and_busy_agents_add_up() {
    let mut state = PoolState::new();
    for id in [4u32, 9, 2] {
        state = step(state, Event::AgentRegistered { agent_id: AgentId(id) }).0;
    }
    state = step(state, Event::TaskSubmitted { task_id: TaskId(1) }).0;
    assert_eq!(state.idle_count(), 2);
    assert_eq!(state.busy_count(), 1);
    assert_eq!(state.agent_count(), 3);
}

#[test]
fn withdrawal_keeps_the_others_in_order() {
    let mut state = PoolState::new();
    for id in [1u32, 2, 3, 2] {
        state = step(state, Event::TaskSubmitted { task_id: TaskId(id) }).0;
    }
    let (state, effects) = step(state, Event::TaskWithdrawn { task_id: TaskId(2) });
    assert!(effects.is_empty());
    let left: Vec<TaskId> = state.pending_tasks.iter().copied().collect();
    assert_eq!(left, vec![TaskId(1), TaskId(3)]);
}
