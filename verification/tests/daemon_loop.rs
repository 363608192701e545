use agent_pool::daemon::cleanup::{cleanup_pool_state, Entry, PoolContents, Removal};
use agent_pool::daemon::io::{Action, Delivery, IoConfig, Plan};
use agent_pool::daemon::machine::{step, Effect, Event, PoolState, SubmissionId, TaskId, WorkerId};
use agent_pool::daemon::wiring::{
    accept_socket_task, payload_file_error, resolve_payload, Channel, ContentSource, DaemonConfig,
    IoInput, IoOutput, IoState, Observed, PoolPaths,
};
use agent_pool::error::ErrorKind;
use agent_pool::fs_events::{AccessKind, AccessMode, EventKind, Platform};
use agent_pool::payload::Payload;
use agent_pool::time::Duration;

fn written() -> EventKind {
    EventKind::Access(AccessKind::Close(AccessMode::Write))
}

fn there(path: &str) -> Observed {
    Observed {
        path: path.to_string(),
        exists: true,
        status: None,
        content: None,
    }
}

fn files(observed: Vec<Observed>) -> IoInput {
    IoInput::Files {
        kind: written(),
        observed,
    }
}

fn asked(effect: Effect) -> IoInput {
    IoInput::Effect {
        effect,
        output: Ok("done".to_string()),
    }
}

fn give(state: &mut IoState, input: IoInput) -> IoOutput {
    assert!(state.can_take(&input));
    state.io_loop_step(
        &input,
        Platform::Linux,
        &PoolPaths::new("/p"),
        &IoConfig::default(),
    )
}

#[test]
fn daemon_config_converts_to_io_config() {
    let daemon_config = DaemonConfig {
        idle_timeout: Duration::from_secs(120),
        default_task_timeout: Duration::from_secs(600),
        heartbeat_enabled: false,
    };

    let io_config: IoConfig = daemon_config.into();

    assert_eq!(io_config.idle_timeout, Duration::from_secs(120));
    assert_eq!(io_config.default_task_timeout, Duration::from_secs(600));
    assert!(!io_config.heartbeat_enabled);
}

#[test]
fn settings_start_with_three_and_five_minutes() {
    let config = DaemonConfig::default();
    assert_eq!(config.idle_timeout, Duration::from_secs(180));
    assert_eq!(config.default_task_timeout, Duration::from_secs(300));
    assert!(config.heartbeat_enabled);
    let config = IoConfig::default();
    assert_eq!(config.idle_timeout.as_secs(), 180);
}

#[test]
fn register_submission_registers_new_task() {
    let submissions_dir = "/p/submissions";
    let id = "task-1";
    let mut state = IoState::new();
    let io_config = IoConfig::default();

    let event = state
        .register_submission(id, "test task", submissions_dir, &io_config)
        .unwrap();

    assert!(
        matches!(event, Event::TaskSubmitted { submission_id } if submission_id == SubmissionId(0))
    );
    let request_path = format!("{submissions_dir}/{id}.request.json");
    assert!(state.submission_map.get_id_by_path(&request_path).is_some());
}

#[test]
fn a_pools_files_lie_below_its_root() {
    let paths = PoolPaths::new("/p");
    assert_eq!(paths.lock, "/p/daemon.lock");
    assert_eq!(paths.socket, "/p/daemon.sock");
    assert_eq!(paths.agents_dir, "/p/agents");
    assert_eq!(paths.submissions_dir, "/p/submissions");
    assert_eq!(paths.scratch_dir, "/p/scratch");
    assert_eq!(paths.status, "/p/status");
}

#[test]
fn a_ready_file_counts_once() {
    let mut state = IoState::new();
    let ready = vec![there("/p/agents/u.ready.json")];
    let worker_id = WorkerId(0);
    assert_eq!(
        give(&mut state, files(ready.clone())),
        IoOutput::Report(vec![Event::WorkerReady { worker_id }])
    );
    assert_eq!(give(&mut state, files(ready)), IoOutput::Report(vec![]));
}

#[test]
fn a_file_that_is_gone_says_nothing() {
    let mut state = IoState::new();
    let mut gone = there("/p/agents/u.ready.json");
    gone.exists = false;
    assert_eq!(give(&mut state, files(vec![gone])), IoOutput::Report(vec![]));
}

#[test]
fn an_answer_counts_once_until_it_is_taken() {
    let mut state = IoState::new();
    let worker_id = WorkerId(0);
    give(&mut state, files(vec![there("/p/agents/u.ready.json")]));
    let answer = vec![there("/p/agents/u.response.json")];
    let responded = IoOutput::Report(vec![Event::WorkerResponded { worker_id }]);
    assert_eq!(give(&mut state, files(answer.clone())), responded);
    assert_eq!(
        give(&mut state, files(answer.clone())),
        IoOutput::Report(vec![])
    );
    give(
        &mut state,
        asked(Effect::TaskCompleted {
            worker_id,
            task_id: TaskId::Heartbeat,
        }),
    );
    assert_eq!(give(&mut state, files(answer)), responded);
}

#[test]
fn an_answer_of_an_unknown_worker_says_nothing() {
    let mut state = IoState::new();
    assert_eq!(
        give(&mut state, files(vec![there("/p/agents/u.response.json")])),
        IoOutput::Report(vec![])
    );
}

#[test]
fn a_request_counts_once_and_takes_the_content_that_was_read() {
    let mut state = IoState::new();
    let mut request = there("/p/submissions/s.request.json");
    assert_eq!(
        give(&mut state, files(vec![request.clone()])),
        IoOutput::Report(vec![])
    );
    request.content = Some("do it".to_string());
    let submission_id = SubmissionId(0);
    assert_eq!(
        give(&mut state, files(vec![request.clone()])),
        IoOutput::Report(vec![Event::TaskSubmitted { submission_id }])
    );
    assert_eq!(
        state.submission_map.get_data(submission_id).unwrap().content,
        "do it"
    );
    assert_eq!(give(&mut state, files(vec![request])), IoOutput::Report(vec![]));
}

#[test]
fn a_stop_ends_the_loop_before_the_files_behind_it() {
    let mut state = IoState::new();
    let mut status = there("/p/status");
    status.status = Some("stop".to_string());
    let output = give(
        &mut state,
        files(vec![
            there("/p/agents/a.ready.json"),
            status,
            there("/p/agents/b.ready.json"),
        ]),
    );
    assert_eq!(
        output,
        IoOutput::Stop(vec![Event::WorkerReady {
            worker_id: WorkerId(0)
        }])
    );
    assert!(state
        .worker_map
        .get_id_by_path("/p/agents/b.ready.json")
        .is_none());
}

#[test]
fn a_task_over_the_socket_is_kept_under_the_number_that_is_reported() {
    let mut state = IoState::new();
    for number in 0..3u32 {
        let output = give(
            &mut state,
            IoInput::Task {
                content: Some(format!("task {number}")),
                connection: 100 + number as u64,
            },
        );
        let submission_id = SubmissionId(number);
        assert_eq!(
            output,
            IoOutput::Report(vec![Event::TaskSubmitted { submission_id }])
        );
        assert_eq!(
            state.submission_map.get_data(submission_id).unwrap().content,
            format!("task {number}")
        );
    }
    let nothing = IoInput::Task {
        content: None,
        connection: 1,
    };
    assert_eq!(give(&mut state, nothing), IoOutput::Report(vec![]));
}

#[test]
fn the_loop_ends_when_all_channels_are_closed() {
    let mut state = IoState::new();
    let mut closed = |channel| give(&mut state, IoInput::Closed(channel));
    assert_eq!(closed(Channel::Tasks), IoOutput::Report(vec![]));
    assert_eq!(closed(Channel::Tasks), IoOutput::Report(vec![]));
    assert_eq!(closed(Channel::Files), IoOutput::Report(vec![]));
    assert_eq!(closed(Channel::Effects), IoOutput::Stop(vec![]));
    assert!(!state.open.files && !state.open.tasks && !state.open.effects);
}

#[test]
fn an_effect_for_an_unknown_worker_cannot_be_taken() {
    let state = IoState::new();
    assert!(!state.can_take(&asked(Effect::WorkerRemoved {
        worker_id: WorkerId(3)
    })));
    assert!(!state.can_take(&asked(Effect::TaskFailed {
        submission_id: SubmissionId(3)
    })));
}

#[test]
fn a_task_goes_through_the_daemon_and_its_answer_comes_back() {
    let mut io = IoState::new();
    let mut pool = PoolState::new();
    let mut request = there("/p/submissions/s.request.json");
    request.content = Some("do it".to_string());
    let inputs = vec![
        vec![request],
        vec![there("/p/agents/u.ready.json")],
        vec![there("/p/agents/u.response.json")],
    ];
    let mut performed: Vec<Plan> = Vec::new();
    for observed in inputs {
        let events = match give(&mut io, files(observed)) {
            IoOutput::Report(events) => events,
            _ => panic!("Expected events"),
        };
        for event in events {
            let (next, effects) = step(pool, event);
            pool = next;
            for effect in effects {
                match give(&mut io, asked(effect)) {
                    IoOutput::Perform(plan) => performed.push(plan),
                    _ => panic!("Expected a plan"),
                }
            }
        }
    }
    assert_eq!(pool, PoolState::new());
    assert!(
        matches!(&performed[0].actions[0], Action::WriteFile(write) if write.content == "do it")
    );
    let answers: Vec<&Delivery> = performed
        .iter()
        .filter_map(|plan| plan.answer.as_ref())
        .map(|answer| answer.as_ref().unwrap())
        .collect();
    assert_eq!(answers.len(), 1);
    match answers[0] {
        Delivery::File(write) => {
            assert_eq!(write.target, "/p/submissions/s.response.json");
            assert_eq!(write.content, r#"{"kind":"Processed","stdout":"done"}"#);
        }
        _ => panic!("Expected a file"),
    }
    assert!(io.submission_map.get_data(SubmissionId(0)).is_none());
    let ready = files(vec![there("/p/agents/u.ready.json")]);
    assert_eq!(give(&mut io, ready), IoOutput::Report(vec![]));
}

#[test]
fn what_comes_over_the_socket_is_read_by_its_length() {
    assert_eq!(
        accept_socket_task(&b"5\nhello and more".to_vec()).unwrap(),
        Some("hello".to_string())
    );
    assert_eq!(accept_socket_task(&b"five\nhello".to_vec()).unwrap(), None);
    assert_eq!(accept_socket_task(&b"2\n\xff\xff".to_vec()).unwrap(), None);
    let error = accept_socket_task(&b"9\nhello".to_vec()).unwrap_err();
    assert_eq!(error.kind, ErrorKind::UnexpectedEof);
    assert_eq!(error.message, "failed to fill whole buffer");
    let error = accept_socket_task(&b"\xff\nhello".to_vec()).unwrap_err();
    assert_eq!(error.kind, ErrorKind::InvalidData);
    assert_eq!(error.message, "stream did not contain valid UTF-8");
}

#[test]
fn a_payload_says_where_its_content_is() {
    assert_eq!(
        resolve_payload(Ok(Payload::inline("x"))).unwrap(),
        ContentSource::Here("x".to_string())
    );
    assert_eq!(
        resolve_payload(Ok(Payload::file_ref("/f"))).unwrap(),
        ContentSource::File("/f".to_string())
    );
    let error = resolve_payload(Err("expected value".to_string())).unwrap_err();
    assert_eq!(error.kind, ErrorKind::InvalidData);
    assert_eq!(
        error.message,
        "[E032] failed to parse payload JSON: expected value"
    );
    assert_eq!(
        payload_file_error("/f"),
        "[E033] failed to read payload file /f: "
    );
}

#[test]
fn cleaning_up_removes_what_a_daemon_left() {
    let entry = |name: &str, is_file: bool, is_dir: bool| Entry {
        name: name.to_string(),
        is_file,
        is_dir,
    };
    let found = PoolContents {
        has_status: true,
        submissions: vec![entry("a.request.json", true, false), entry("d", false, true)],
        agents: vec![entry("w", false, true), entry("u.ready.json", true, false)],
        root: vec![
            entry("x.canary", true, false),
            entry("keep.txt", true, false),
            entry("y.canary", false, true),
        ],
        has_canary: true,
        has_client_canary: false,
    };
    assert_eq!(
        cleanup_pool_state("/p", &found),
        vec![
            Removal::File("/p/status".to_string()),
            Removal::File("/p/submissions/a.request.json".to_string()),
            Removal::Tree("/p/agents/w".to_string()),
            Removal::File("/p/agents/u.ready.json".to_string()),
            Removal::File("/p/x.canary".to_string()),
            Removal::File("/p/canary".to_string()),
        ]
    );
}
