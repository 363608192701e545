use agent_pool::daemon::io::{
    answer_with, effect_is_known, effect_reads, execute_effect, execute_effect_with,
    heartbeat_message, idle_timer_event, kicked_message, task_timer_event, Action, Delivery,
    IdAllocator, IoConfig, Plan, StopNotifier, HEARTBEAT_INSTRUCTIONS,
};
use agent_pool::daemon::machine::{Effect, Event, SubmissionId, TaskId, WorkerId};
use agent_pool::daemon::transports::{SubmissionData, SubmissionMap, WorkerMap};
use agent_pool::error::{ErrorKind, PoolError};
use agent_pool::path_map::PathSet;
use agent_pool::time::Duration;
use agent_pool::transport::Transport;
use std::collections::HashSet;

fn data(content: &str) -> SubmissionData {
    SubmissionData {
        content: content.to_string(),
        timeout: Duration::from_secs(60),
    }
}

#[test]
fn worker_map_register_and_lookup() {
    let mut map = WorkerMap::new();
    let path = "/tmp/test/agents/worker-1".to_string();

    let id = map.register_directory(path.clone(), ()).unwrap();
    assert_eq!(id, WorkerId(0));

    assert!(map.get_transport(id).is_some());

    assert_eq!(map.get_id_by_path(&path), Some(id));

    assert!(map.register_directory(path, ()).is_none());
}

#[test]
fn worker_map_remove() {
    let mut map = WorkerMap::new();
    let path = "/tmp/test/agents/worker-1".to_string();

    let id = map.register_directory(path.clone(), ()).unwrap();
    let (transport, ()) = map.remove(id).unwrap();

    assert!(matches!(transport, Transport::Directory(_)));
    assert!(map.get_transport(id).is_none());
    assert!(map.get_id_by_path(&path).is_none());
}

#[test]
fn submission_map_register_and_finish() {
    let request_path = "/pool/submissions/submission-1.request.json".to_string();

    let mut map = SubmissionMap::new();
    let id = map
        .register_directory(
            request_path,
            SubmissionData {
                content: "test content".to_string(),
                timeout: Duration::from_secs(60),
            },
        )
        .unwrap();

    assert_eq!(id, SubmissionId(0));
    assert_eq!(map.get_data(id).unwrap().content, "test content");

    let (delivery, _) = map.finish(id, r#"{"result": "ok"}"#).unwrap();

    assert!(map.get_data(id).is_none());

    match delivery {
        Delivery::File(write) => {
            assert_eq!(
                write.target,
                "/pool/submissions/submission-1.response.json"
            );
            assert_eq!(write.content, r#"{"result": "ok"}"#);
        }
        Delivery::Frame { .. } => panic!("Expected a file"),
    }
}

#[test]
fn removal_undoes_registration_but_for_the_number() {
    let mut map = WorkerMap::new();
    let id = map.register_directory("/a/w".to_string(), ()).unwrap();
    map.remove(id);
    let again = map.register_directory("/a//w/".to_string(), ()).unwrap();
    assert_eq!(again, WorkerId(1));
    assert_eq!(map.get_id_by_path("/a/w"), Some(again));
    assert!(map.remove(id).is_none());
}

#[test]
fn refused_directory_still_uses_up_a_number_but_flat_files_do_not() {
    let mut map = WorkerMap::new();
    map.register_directory("/a/w".to_string(), ()).unwrap();
    assert!(map.register_directory("/a/w".to_string(), ()).is_none());
    let flat = |map: &mut WorkerMap, key: &str| {
        map.register_flat_file(key.to_string(), "/a".to_string(), "u".to_string(), ())
    };
    assert_eq!(flat(&mut map, "/a/u.ready.json"), Some(WorkerId(2)));
    assert_eq!(flat(&mut map, "/a/u.ready.json"), None);
    assert_eq!(flat(&mut map, "/a/v.ready.json"), Some(WorkerId(3)));
    assert_eq!(map.numbers_left(), u32::MAX - 4);
}

#[test]
fn flat_files_keep_their_path_when_they_are_removed() {
    let mut map = WorkerMap::new();
    let id = map
        .register_flat_file(
            "/a/u.ready.json".to_string(),
            "/a".to_string(),
            "u".to_string(),
            (),
        )
        .unwrap();
    map.remove(id);
    assert_eq!(map.get_id_by_path("/a/u.ready.json"), Some(id));
    assert!(map.get_path(id).is_none());
}

#[test]
fn pre_allocated_numbers_can_be_registered() {
    let mut map = SubmissionMap::new();
    let id = map.allocate_id();
    assert_eq!(id, SubmissionId(0));
    assert!(map.register(id, "/s/x.request.json".to_string(), data("t")));
    assert!(!map.register(
        SubmissionId(9),
        "/s/x.request.json".to_string(),
        data("t")
    ));
    assert_eq!(map.register_socket(7, data("u")), SubmissionId(1));
    map.register_socket_as(SubmissionId(5), 8, data("v"));
    assert_eq!(map.get_data(SubmissionId(5)).unwrap().content, "v");
}

#[test]
fn files_are_read_and_written_by_way_of_the_transport() {
    let mut map = WorkerMap::new();
    let dir = map.register_directory("/a/w".to_string(), ()).unwrap();
    let write = map.write_to_with(dir, "task.json", "{}", "u1").unwrap();
    assert_eq!(write.target, "/a/w/task.json");
    assert_eq!(write.temp, "/a/w/.task.json.u1.tmp");
    assert_eq!(write.content, "{}");
    assert_eq!(map.read_from(dir, "task.json").unwrap(), write.target);
    assert_eq!(map.get_path(dir), Some("/a/w"));
    let fresh = map.write_to(dir, "task.json", "{}").unwrap();
    assert_eq!(fresh.target, write.target);
    assert_eq!(fresh.temp.len(), "/a/w/.task.json..tmp".len() + 36);
    let again = map.write_to(dir, "task.json", "{}").unwrap();
    assert_ne!(fresh.temp, again.temp);

    let socket = map.register_socket(3, ());
    let error = map.write_to_with(socket, "task.json", "{}", "u").unwrap_err();
    assert_eq!(error.kind, ErrorKind::Unsupported);
    assert_eq!(error.message, "[E028] socket write not yet implemented");
    let error = map.read_from(socket, "task.json").unwrap_err();
    assert_eq!(error.message, "[E027] socket read not yet implemented");

    let error = map
        .write_to_with(WorkerId(9), "task.json", "{}", "u")
        .unwrap_err();
    assert_eq!(error.kind, ErrorKind::NotFound);
    assert_eq!(error.message, "[E009] transport not found for id WorkerId(9)");
    let error = map.read_from(WorkerId(9), "task.json").unwrap_err();
    assert_eq!(error.message, "[E010] transport not found for id WorkerId(9)");
}

#[test]
fn answers_over_a_socket_have_their_length_before_them() {
    let mut map = SubmissionMap::new();
    let id = map.register_socket(41, data("t"));
    assert!(map.is_answerable(id));
    let (delivery, kept) = map.finish_with(id, "h\u{e9}", "u").unwrap();
    assert_eq!(
        delivery,
        Delivery::Frame {
            connection: 41,
            bytes: b"3\nh\xc3\xa9".to_vec()
        }
    );
    assert_eq!(kept, data("t"));
}

#[test]
fn answer_files_say_what_failed() {
    let mut map = SubmissionMap::new();
    let id = map
        .register_directory("/s/x.request.json".to_string(), data("t"))
        .unwrap();
    let (delivery, _) = map.finish_with(id, "{}", "u").unwrap();
    match delivery {
        Delivery::File(write) => {
            assert_eq!(write.temp, "/s/.response-u.tmp");
            assert_eq!(write.target, "/s/x.response.json");
            assert_eq!(
                write.write_error,
                "[E012] failed to write response temp file /s/.response-u.tmp: "
            );
            assert_eq!(
                write.rename_error,
                "[E013] failed to rename response /s/.response-u.tmp to /s/x.response.json: "
            );
        }
        Delivery::Frame { .. } => panic!("Expected a file"),
    }
}

#[test]
fn unknown_and_flat_submissions_cannot_be_finished() {
    let mut map = SubmissionMap::new();
    let error = map.finish(SubmissionId(4), "{}").unwrap_err();
    assert_eq!(error.kind, ErrorKind::NotFound);
    assert_eq!(error.message, "[E011] submission not found for id 4");
    let id = map
        .register_flat_file(
            "/s/k".to_string(),
            "/s".to_string(),
            "u".to_string(),
            data("t"),
        )
        .unwrap();
    let error = map.finish(id, "{}").unwrap_err();
    assert_eq!(error.kind, ErrorKind::InvalidInput);
    assert_eq!(
        error.message,
        "FlatFile transport not supported for submissions"
    );
    assert!(map.get_data(id).is_none());
}

#[test]
fn only_request_files_can_be_answered_beside() {
    let mut map = SubmissionMap::new();
    let good = map
        .register_directory("/s/x.request.json".to_string(), data("t"))
        .unwrap();
    let bad = map
        .register_directory("/s/x.other.json".to_string(), data("t"))
        .unwrap();
    assert!(map.is_answerable(good));
    assert!(!map.is_answerable(bad));
    assert!(map.is_answerable(SubmissionId(77)));
}

fn one_worker() -> (WorkerMap, WorkerId) {
    let mut workers = WorkerMap::new();
    let id = workers
        .register_flat_file(
            "/p/agents/u.ready.json".to_string(),
            "/p/agents".to_string(),
            "u".to_string(),
            (),
        )
        .unwrap();
    (workers, id)
}

struct Desk {
    workers: WorkerMap,
    submissions: SubmissionMap,
    kicked: PathSet,
    done: HashSet<u32>,
    config: IoConfig,
}

impl Desk {
    fn new(workers: WorkerMap) -> Desk {
        Desk {
            workers,
            submissions: SubmissionMap::new(),
            kicked: PathSet::new(),
            done: HashSet::new(),
            config: IoConfig::default(),
        }
    }

    fn carry_out(&mut self, effect: Effect, output: &str) -> Result<Plan, PoolError> {
        assert!(effect_is_known(effect, &self.workers, &self.submissions));
        execute_effect_with(
            effect,
            &mut self.workers,
            &mut self.submissions,
            &mut self.kicked,
            &mut self.done,
            &self.config,
            &Ok(output.to_string()),
            "x",
        )
    }
}

#[test]
fn an_assignment_writes_the_task_and_starts_its_timer() {
    let (workers, worker_id) = one_worker();
    let mut desk = Desk::new(workers);
    let submission_id = desk.submissions.register_socket(1, data("do it"));
    let effect = Effect::TaskAssigned {
        worker_id,
        task_id: TaskId::External(submission_id),
    };
    let plan = desk.carry_out(effect, "").unwrap();
    assert_eq!(plan.answer, None);
    assert_eq!(plan.actions.len(), 2);
    match &plan.actions[0] {
        Action::WriteFile(write) => {
            assert_eq!(write.target, "/p/agents/u.task.json");
            assert_eq!(write.temp, "/p/agents/.u.task.json.x.tmp");
            assert_eq!(write.content, "do it");
        }
        _ => panic!("Expected a write"),
    }
    assert_eq!(
        plan.actions[1],
        Action::StartTaskTimer {
            worker_id,
            timeout: Duration::from_secs(60)
        }
    );
    assert!(desk.submissions.get_data(submission_id).is_some());
}

#[test]
fn a_heartbeat_has_the_idle_time_to_be_answered() {
    let (mut workers, worker_id) = one_worker();
    let plan = execute_effect(
        Effect::TaskAssigned {
            worker_id,
            task_id: TaskId::Heartbeat,
        },
        &mut workers,
        &mut SubmissionMap::new(),
        &mut PathSet::new(),
        &mut HashSet::new(),
        &IoConfig::default(),
        &Ok(String::new()),
    )
    .unwrap();
    match &plan.actions[0] {
        Action::WriteFile(write) => {
            assert_eq!(write.content, heartbeat_message());
            assert_eq!(write.temp.len(), "/p/agents/.u.task.json..tmp".len() + 36);
        }
        _ => panic!("Expected a write"),
    }
    assert_eq!(
        plan.actions[1],
        Action::StartTaskTimer {
            worker_id,
            timeout: Duration::from_secs(180)
        }
    );
}

#[test]
fn an_idle_worker_gets_a_timer_only_where_there_are_heartbeats() {
    let (workers, worker_id) = one_worker();
    let mut desk = Desk::new(workers);
    let effect = Effect::WorkerWaiting { worker_id };
    assert_eq!(
        desk.carry_out(effect, "").unwrap().actions,
        vec![Action::StartIdleTimer {
            worker_id,
            timeout: Duration::from_secs(180)
        }]
    );
    desk.config.heartbeat_enabled = false;
    assert!(desk.carry_out(effect, "").unwrap().actions.is_empty());
}

#[test]
fn a_completion_cleans_up_and_answers_with_what_was_read() {
    let mut workers = WorkerMap::new();
    let worker_id = workers
        .register_directory("/p/agents/w".to_string(), ())
        .unwrap();
    let mut desk = Desk::new(workers);
    let submission_id = desk
        .submissions
        .register_directory("/p/submissions/s.request.json".to_string(), data("x"))
        .unwrap();
    let effect = Effect::TaskCompleted {
        worker_id,
        task_id: TaskId::External(submission_id),
    };
    assert_eq!(
        effect_reads(effect, &desk.workers),
        Some("/p/agents/w/response.json".to_string())
    );
    let plan = desk.carry_out(effect, "hello world").unwrap();
    assert_eq!(
        plan.actions,
        vec![
            Action::RemoveFile("/p/agents/w/task.json".to_string()),
            Action::RemoveFile("/p/agents/w/response.json".to_string()),
        ]
    );
    match plan.answer {
        Some(Ok(Delivery::File(write))) => {
            assert_eq!(write.target, "/p/submissions/s.response.json");
            assert_eq!(
                write.content,
                r#"{"kind":"Processed","stdout":"hello world"}"#
            );
        }
        _ => panic!("Expected a file"),
    }
    assert!(desk.submissions.get_data(submission_id).is_none());
    assert!(desk.workers.get_transport(worker_id).is_some());
    assert!(!desk.kicked.contains("/p/agents/w"));
    assert!(!effect_is_known(effect, &desk.workers, &desk.submissions));
}

#[test]
fn a_completed_heartbeat_answers_nobody() {
    let (workers, worker_id) = one_worker();
    let mut desk = Desk::new(workers);
    let effect = Effect::TaskCompleted {
        worker_id,
        task_id: TaskId::Heartbeat,
    };
    assert_eq!(effect_reads(effect, &desk.workers), None);
    let plan = desk.carry_out(effect, "").unwrap();
    assert_eq!(
        plan.actions,
        vec![
            Action::RemoveFile("/p/agents/u.task.json".to_string()),
            Action::RemoveFile("/p/agents/u.response.json".to_string()),
            Action::RemoveFile("/p/agents/u.ready.json".to_string()),
        ]
    );
    assert_eq!(plan.answer, None);
}

#[test]
fn a_completion_fails_where_nothing_can_be_read() {
    let (mut workers, worker_id) = one_worker();
    let mut submissions = SubmissionMap::new();
    let submission_id = submissions.register_socket(4, data("x"));
    let error = execute_effect(
        Effect::TaskCompleted {
            worker_id,
            task_id: TaskId::External(submission_id),
        },
        &mut workers,
        &mut submissions,
        &mut PathSet::new(),
        &mut HashSet::new(),
        &IoConfig::default(),
        &Err(PoolError::new(ErrorKind::NotFound, "gone")),
    )
    .unwrap_err();
    assert_eq!(error, PoolError::new(ErrorKind::NotFound, "gone"));
    assert!(submissions.get_data(submission_id).is_some());
}

#[test]
fn a_failure_answers_that_time_is_up() {
    let (workers, worker_id) = one_worker();
    let mut desk = Desk::new(workers);
    let submission_id = desk
        .submissions
        .register_directory("/p/submissions/s.request.json".to_string(), data("x"))
        .unwrap();
    let effect = Effect::TaskFailed { submission_id };
    let plan = desk.carry_out(effect, "").unwrap();
    assert!(plan.actions.is_empty());
    match plan.answer {
        Some(Ok(Delivery::File(write))) => {
            assert_eq!(write.target, "/p/submissions/s.response.json");
            assert_eq!(
                write.content,
                r#"{"kind":"NotProcessed","reason":"timeout"}"#
            );
        }
        _ => panic!("Expected a file"),
    }
    assert!(desk.submissions.get_data(submission_id).is_none());
    assert!(desk.workers.get_transport(worker_id).is_some());
    assert!(!effect_is_known(effect, &desk.workers, &desk.submissions));

    let over_socket = desk.submissions.register_socket(7, data("y"));
    let effect = Effect::TaskFailed {
        submission_id: over_socket,
    };
    let answer = answer_with(effect, &mut desk.submissions, "", "x");
    let json = r#"{"kind":"NotProcessed","reason":"timeout"}"#;
    assert_eq!(
        answer,
        Some(Ok(Delivery::Frame {
            connection: 7,
            bytes: format!("{}\n{json}", json.len()).into_bytes()
        }))
    );
}

#[test]
fn a_submission_by_flat_files_cannot_be_answered() {
    let (workers, _) = one_worker();
    let mut desk = Desk::new(workers);
    let submission_id = desk
        .submissions
        .register_flat_file(
            "/s/k".to_string(),
            "/s".to_string(),
            "v".to_string(),
            data("x"),
        )
        .unwrap();
    let plan = desk
        .carry_out(Effect::TaskFailed { submission_id }, "")
        .unwrap();
    let error = plan.answer.unwrap().unwrap_err();
    assert_eq!(error.kind, ErrorKind::InvalidInput);
    assert_eq!(
        error.message,
        "FlatFile transport not supported for submissions"
    );
    assert!(desk.submissions.get_data(submission_id).is_none());
}

#[test]
fn a_removed_worker_is_told_and_forgotten() {
    let (workers, worker_id) = one_worker();
    let mut desk = Desk::new(workers);
    let effect = Effect::WorkerRemoved { worker_id };
    let plan = desk.carry_out(effect, "").unwrap();
    assert_eq!(
        plan.actions[..2],
        [
            Action::RemoveFile("/p/agents/u.response.json".to_string()),
            Action::RemoveFile("/p/agents/u.ready.json".to_string()),
        ]
    );
    match &plan.actions[2] {
        Action::TryWriteFile(write) => {
            assert_eq!(write.target, "/p/agents/u.task.json");
            assert_eq!(write.content, kicked_message());
        }
        _ => panic!("Expected a write"),
    }
    assert!(desk.kicked.contains("/p/agents/u.ready.json"));
    assert!(desk.workers.get_transport(worker_id).is_none());
    assert!(!effect_is_known(effect, &desk.workers, &desk.submissions));
}

#[test]
fn a_worker_that_is_removed_after_its_task_leaves_no_file() {
    let (workers, worker_id) = one_worker();
    let mut desk = Desk::new(workers);
    let task_id = TaskId::Heartbeat;
    let completed = desk
        .carry_out(Effect::TaskCompleted { worker_id, task_id }, "")
        .unwrap();
    let removed = desk
        .carry_out(Effect::WorkerRemoved { worker_id }, "")
        .unwrap();
    assert_eq!(removed.actions, completed.actions);
    assert!(desk.done.is_empty());
}

#[test]
fn a_task_cannot_be_handed_to_a_worker_on_a_socket() {
    let mut workers = WorkerMap::new();
    let worker_id = workers.register_socket(1, ());
    let error = Desk::new(workers)
        .carry_out(
            Effect::TaskAssigned {
                worker_id,
                task_id: TaskId::Heartbeat,
            },
            "",
        )
        .unwrap_err();
    assert_eq!(error.kind, ErrorKind::Unsupported);
    assert_eq!(error.message, "[E028] socket write not yet implemented");
}

#[test]
fn messages_to_workers_are_json() {
    assert_eq!(
        kicked_message(),
        r#"{"kind":"Kicked","reason":"Timeout"}"#
    );
    assert_eq!(
        heartbeat_message(),
        format!(
            "{{\"kind\":\"Heartbeat\",\"task\":{{\"data\":null,\"instructions\":\"{}\"}}}}",
            HEARTBEAT_INSTRUCTIONS
        )
    );
    let read: serde_json::Value = serde_json::from_str(&heartbeat_message()).unwrap();
    assert_eq!(read["kind"], "Heartbeat");
    assert!(read["task"]["data"].is_null());
}

#[test]
fn numbers_for_submissions_count_up() {
    let mut ids = IdAllocator::new();
    assert_eq!(ids.allocate_submission(), SubmissionId(0));
    assert_eq!(ids.allocate_submission(), SubmissionId(1));
    assert_eq!(ids.numbers_left(), u32::MAX - 2);
}

#[test]
fn a_stop_ends_every_wait() {
    let mut notifier = StopNotifier::new();
    assert_eq!(notifier.wait_timeout(false), None);
    assert_eq!(notifier.wait_timeout(true), Some(false));
    notifier.stop();
    assert_eq!(notifier.wait_timeout(false), Some(true));
    assert_eq!(notifier.wait_timeout(true), Some(true));
}

#[test]
fn timers_say_nothing_once_the_daemon_stops() {
    let worker_id = WorkerId(6);
    assert_eq!(
        task_timer_event(false, worker_id),
        Some(Event::WorkerTimedOut { worker_id })
    );
    assert_eq!(
        idle_timer_event(false, worker_id),
        Some(Event::AssignHeartbeatIfIdle { worker_id })
    );
    assert_eq!(task_timer_event(true, worker_id), None);
    assert_eq!(idle_timer_event(true, worker_id), None);
}
