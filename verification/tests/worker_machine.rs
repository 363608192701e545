use agent_pool::daemon::machine::{
    is_expected, step, Effect, Event, PoolState, SubmissionId, TaskId, Waiting, WorkerId,
};
use agent_pool::daemon::wiring::run_event_loop;
use std::collections::VecDeque;

fn sub(id: u32) -> SubmissionId {
    SubmissionId(id)
}

fn worker(id: u32) -> WorkerId {
    WorkerId(id)
}

fn ext(id: u32) -> TaskId {
    TaskId::External(SubmissionId(id))
}

#[test]
fn task_submitted_queues_when_no_workers() {
    let state = PoolState::new();
    let (state, effects) = step(
        state,
        Event::TaskSubmitted {
            submission_id: sub(1),
        },
    );

    assert_eq!(state.pending_count(), 1);
    assert!(effects.is_empty());
}

#[test]
fn task_submitted_dispatches_to_idle_worker() {
    let mut state = PoolState::new();
    state.waiting = Waiting::Workers(VecDeque::from([worker(1)]));

    let (state, effects) = step(
        state,
        Event::TaskSubmitted {
            submission_id: sub(42),
        },
    );

    assert_eq!(state.pending_count(), 0);
    assert_eq!(state.busy_count(), 1);
    assert!(state.busy_workers.contains_key(&worker(1)));

    assert_eq!(effects.len(), 1);
    assert!(matches!(
        &effects[0],
        Effect::TaskAssigned { worker_id, task_id }
            if *worker_id == worker(1) && *task_id == ext(42)
    ));
}

#[test]
fn task_submitted_queues_when_all_workers_busy() {
    let mut state = PoolState::new();
    state.busy_workers.insert(worker(1), ext(99));

    let (state, effects) = step(
        state,
        Event::TaskSubmitted {
            submission_id: sub(42),
        },
    );

    assert_eq!(state.pending_count(), 1);
    assert!(effects.is_empty());
}

#[test]
fn core_task_withdrawn_removes_from_pending() {
    let mut state = PoolState::new();
    state.waiting = Waiting::Tasks(VecDeque::from([sub(1), sub(2), sub(3)]));

    let (state, effects) = step(
        state,
        Event::TaskWithdrawn {
            submission_id: sub(2),
        },
    );

    assert_eq!(state.pending_count(), 2);
    assert!(effects.is_empty());
}

#[test]
fn core_task_withdrawn_noop_for_unknown_task() {
    let state = PoolState::new();
    let (state, effects) = step(
        state,
        Event::TaskWithdrawn {
            submission_id: sub(999),
        },
    );

    assert_eq!(state.pending_count(), 0);
    assert!(effects.is_empty());
}

#[test]
fn worker_ready_with_no_tasks_waits() {
    let state = PoolState::new();
    let (state, effects) = step(
        state,
        Event::WorkerReady {
            worker_id: worker(1),
        },
    );

    assert_eq!(state.idle_count(), 1);
    assert_eq!(state.busy_count(), 0);

    assert_eq!(effects.len(), 1);
    assert!(matches!(
        &effects[0],
        Effect::WorkerWaiting { worker_id } if *worker_id == worker(1)
    ));
}

#[test]
fn worker_ready_dispatches_pending_task() {
    let mut state = PoolState::new();
    state.waiting = Waiting::Tasks(VecDeque::from([sub(42)]));

    let (state, effects) = step(
        state,
        Event::WorkerReady {
            worker_id: worker(1),
        },
    );

    assert_eq!(state.pending_count(), 0);
    assert_eq!(state.busy_count(), 1);

    assert_eq!(effects.len(), 1);
    assert!(matches!(
        &effects[0],
        Effect::TaskAssigned { worker_id, task_id }
            if *worker_id == worker(1) && *task_id == ext(42)
    ));
}

#[test]
fn worker_responded_completes_and_removes() {
    let mut state = PoolState::new();
    state.busy_workers.insert(worker(1), ext(42));

    let (state, effects) = step(
        state,
        Event::WorkerResponded {
            worker_id: worker(1),
        },
    );

    assert_eq!(state.busy_count(), 0);
    assert_eq!(state.worker_count(), 0);

    assert_eq!(effects.len(), 2);
    assert!(matches!(
        &effects[0],
        Effect::TaskCompleted { worker_id, task_id }
            if *worker_id == worker(1) && *task_id == ext(42)
    ));
    assert!(matches!(
        &effects[1],
        Effect::WorkerRemoved { worker_id } if *worker_id == worker(1)
    ));
}

#[test]
fn worker_responded_noop_for_unknown() {
    let state = PoolState::new();
    let (state, effects) = step(
        state,
        Event::WorkerResponded {
            worker_id: worker(999),
        },
    );

    assert!(effects.is_empty());
    assert_eq!(state.worker_count(), 0);
}

#[test]
fn worker_timeout_removes_and_fails_task() {
    let mut state = PoolState::new();
    state.busy_workers.insert(worker(1), ext(42));

    let (state, effects) = step(
        state,
        Event::WorkerTimedOut {
            worker_id: worker(1),
        },
    );

    assert_eq!(state.busy_count(), 0);

    assert_eq!(effects.len(), 2);
    assert!(matches!(
        &effects[0],
        Effect::WorkerRemoved { worker_id } if *worker_id == worker(1)
    ));
    assert!(matches!(
        &effects[1],
        Effect::TaskFailed { submission_id } if *submission_id == sub(42)
    ));
}

#[test]
fn worker_timeout_noop_if_already_responded() {
    let state = PoolState::new();
    let (state, effects) = step(
        state,
        Event::WorkerTimedOut {
            worker_id: worker(1),
        },
    );

    assert!(effects.is_empty());
    assert_eq!(state.worker_count(), 0);
}

#[test]
fn heartbeat_assigns_to_idle_worker() {
    let mut state = PoolState::new();
    state.waiting = Waiting::Workers(VecDeque::from([worker(1)]));

    let (state, effects) = step(
        state,
        Event::AssignHeartbeatIfIdle {
            worker_id: worker(1),
        },
    );

    assert_eq!(state.idle_count(), 0);
    assert_eq!(state.busy_count(), 1);
    assert_eq!(state.busy_workers.get(&worker(1)), Some(&TaskId::Heartbeat));

    assert_eq!(effects.len(), 1);
    assert!(matches!(
        &effects[0],
        Effect::TaskAssigned { worker_id, task_id }
            if *worker_id == worker(1) && *task_id == TaskId::Heartbeat
    ));
}

#[test]
fn heartbeat_noop_if_worker_busy() {
    let mut state = PoolState::new();
    state.busy_workers.insert(worker(1), ext(42));

    let (state, effects) = step(
        state,
        Event::AssignHeartbeatIfIdle {
            worker_id: worker(1),
        },
    );

    assert_eq!(state.busy_workers.get(&worker(1)), Some(&ext(42)));
    assert!(effects.is_empty());
}

#[test]
fn heartbeat_noop_if_worker_gone() {
    let state = PoolState::new();
    let (state, effects) = step(
        state,
        Event::AssignHeartbeatIfIdle {
            worker_id: worker(1),
        },
    );

    assert!(effects.is_empty());
    assert_eq!(state.worker_count(), 0);
}

#[test]
fn task_dispatches_to_first_idle_worker() {
    let mut state = PoolState::new();
    state.waiting = Waiting::Workers(VecDeque::from([worker(3), worker(1), worker(2)]));

    let (state, effects) = step(
        state,
        Event::TaskSubmitted {
            submission_id: sub(1),
        },
    );

    assert_eq!(state.idle_count(), 2);
    assert!(state.busy_workers.contains_key(&worker(3)));

    assert!(matches!(
        &effects[0],
        Effect::TaskAssigned { worker_id, .. } if *worker_id == worker(3)
    ));
}

#[test]
fn event_loop_processes_events_and_emits_effects() {
    let events = vec![
        Event::WorkerReady {
            worker_id: worker(1),
        },
        Event::TaskSubmitted {
            submission_id: sub(42),
        },
    ];
    let (final_state, effects) = run_event_loop(&events);

    assert!(matches!(effects[0], Effect::WorkerWaiting { .. }));
    assert!(matches!(
        effects[1],
        Effect::TaskAssigned { task_id: TaskId::External(sub_id), .. } if sub_id == sub(42)
    ));
    assert_eq!(final_state.worker_count(), 1);
    assert_eq!(final_state.pending_count(), 0);
}

#[test]
fn event_loop_uses_initial_state() {
    let state = PoolState::new();
    let (final_state, effects) = step(
        state,
        Event::WorkerReady {
            worker_id: worker(1),
        },
    );
    assert_eq!(effects.len(), 1);
    assert_eq!(final_state.worker_count(), 1);
}

#[test]
fn event_loop_without_events_asks_for_nothing() {
    let (state, effects) = run_event_loop(&Vec::new());
    assert_eq!(state, PoolState::new());
    assert!(effects.is_empty());
}

#[test]
fn last_item_of_a_queue_leaves_nothing_waiting() {
    let mut state = PoolState::new();
    state.waiting = Waiting::Tasks(VecDeque::from([sub(1)]));
    let (state, _) = step(
        state,
        Event::TaskWithdrawn {
            submission_id: sub(1),
        },
    );
    assert_eq!(state.waiting, Waiting::Nothing);

    let mut state = PoolState::new();
    state.waiting = Waiting::Workers(VecDeque::from([worker(1)]));
    let (state, _) = step(
        state,
        Event::AssignHeartbeatIfIdle {
            worker_id: worker(1),
        },
    );
    assert_eq!(state.waiting, Waiting::Nothing);
}

#[test]
fn heartbeat_timeout_removes_the_worker_and_fails_nothing() {
    let mut state = PoolState::new();
    state.busy_workers.insert(worker(1), TaskId::Heartbeat);
    let (_, effects) = step(
        state,
        Event::WorkerTimedOut {
            worker_id: worker(1),
        },
    );
    assert_eq!(
        effects,
        vec![Effect::WorkerRemoved {
            worker_id: worker(1)
        }]
    );
}

#[test]
fn a_worker_that_is_known_is_not_expected_to_register() {
    let mut state = PoolState::new();
    state.waiting = Waiting::Workers(VecDeque::from([worker(1)]));
    state.busy_workers.insert(worker(2), ext(9));
    let ready = |id: u32| Event::WorkerReady {
        worker_id: worker(id),
    };
    assert!(!is_expected(&state, ready(1)));
    assert!(!is_expected(&state, ready(2)));
    assert!(is_expected(&state, ready(3)));
    assert!(is_expected(
        &state,
        Event::TaskSubmitted {
            submission_id: sub(9)
        }
    ));
}

#[test]
fn tasks_go_out_in_the_order_in_which_they_came() {
    let mut events = Vec::new();
    for id in [5u32, 3, 8] {
        events.push(Event::TaskSubmitted {
            submission_id: sub(id),
        });
    }
    for id in [1u32, 2, 3] {
        events.push(Event::WorkerReady {
            worker_id: worker(id),
        });
    }
    let (state, effects) = run_event_loop(&events);
    assert_eq!(
        effects,
        vec![
            Effect::TaskAssigned {
                worker_id: worker(1),
                task_id: ext(5)
            },
            Effect::TaskAssigned {
                worker_id: worker(2),
                task_id: ext(3)
            },
            Effect::TaskAssigned {
                worker_id: worker(3),
                task_id: ext(8)
            },
        ]
    );
    assert_eq!(state.busy_count(), 3);
    assert_eq!(state.idle_count(), 0);
}

#[test]
fn a_submission_is_answered_once() {
    let events = vec![
        Event::TaskSubmitted {
            submission_id: sub(7),
        },
        Event::WorkerReady {
            worker_id: worker(1),
        },
        Event::WorkerTimedOut {
            worker_id: worker(1),
        },
        Event::WorkerResponded {
            worker_id: worker(1),
        },
        Event::WorkerTimedOut {
            worker_id: worker(1),
        },
    ];
    let (state, effects) = run_event_loop(&events);
    let answers = effects
        .iter()
        .filter(|effect| {
            matches!(
                effect,
                Effect::TaskFailed { .. } | Effect::TaskCompleted { .. }
            )
        })
        .count();
    assert_eq!(answers, 1);
    assert_eq!(state, PoolState::new());
}

#[test]
fn a_completion_is_of_the_task_that_was_assigned() {
    let events = vec![
        Event::WorkerReady {
            worker_id: worker(4),
        },
        Event::TaskSubmitted {
            submission_id: sub(11),
        },
        Event::WorkerResponded {
            worker_id: worker(4),
        },
    ];
    let (_, effects) = run_event_loop(&events);
    assert_eq!(
        effects,
        vec![
            Effect::WorkerWaiting {
                worker_id: worker(4)
            },
            Effect::TaskAssigned {
                worker_id: worker(4),
                task_id: ext(11)
            },
            Effect::TaskCompleted {
                worker_id: worker(4),
                task_id: ext(11)
            },
            Effect::WorkerRemoved {
                worker_id: worker(4)
            },
        ]
    );
}

#[test]
fn numbers_become_ids() {
    assert_eq!(WorkerId::from(3), worker(3));
    assert_eq!(SubmissionId::from(4), sub(4));
}
