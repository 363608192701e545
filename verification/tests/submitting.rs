use agent_pool::cli::{choose_payload, daemon_config, pool_line, start_step, StartStep};
use agent_pool::daemon::cleanup::Entry;
use agent_pool::error::ErrorKind;
use agent_pool::framing::{frame, parse_length, read_frame, FrameError};
use agent_pool::lock::{
    acquire_lock, is_daemon_running, lock_owner, lock_path, stop, terminate_process,
};
use agent_pool::payload::Payload;
use agent_pool::pool::{
    default_pool_root, generate_id, id_to_path, list_pools, resolve_pool, validate_pool_id,
    PoolInfo,
};
use agent_pool::response::{NotProcessedReason, Response, ResponseKind};
use agent_pool::submit::{
    cleanup_submission, poll_answer, read_answer, submit, submit_fault, submit_file,
    submit_file_as, submit_file_with_timeout, wait_for_pool_ready, PendingSubmission, Poll,
    SubmitFault, SubmitStep,
};
use agent_pool::time::Duration;
use agent_pool::worker::{task_request, wait_for_task, write_response};

#[test]
fn write_response_creates_file() {
    let uuid = "test-uuid-123";
    let write = write_response("/p", uuid, r#"{"result": "ok"}"#);
    assert_eq!(
        write.path,
        agent_pool::constants::response_path("/p/agents", uuid)
    );
    assert_eq!(write.content, r#"{"result": "ok"}"#);
    assert_eq!(
        write.write_error,
        "[E060] failed to write response file /p/agents/test-uuid-123.response.json: "
    );
}

#[test]
fn a_worker_asks_under_its_uuid() {
    let request = task_request("/p", Some("c1"), "u");
    assert_eq!(request.ready.path, "/p/agents/u.ready.json");
    assert_eq!(request.ready.content, r#"{"name":"c1"}"#);
    assert_eq!(request.task_path, "/p/agents/u.task.json");
    assert_eq!(
        request.ready.write_error,
        "[E058] failed to write ready file /p/agents/u.ready.json: "
    );
    assert_eq!(
        request.read_error,
        "[E059] failed to read task file /p/agents/u.task.json: "
    );
    assert_eq!(task_request("/p", None, "u").ready.content, "{}");
    let one = wait_for_task("/p", None);
    let two = wait_for_task("/p", None);
    assert_eq!(one.uuid.len(), 36);
    assert_eq!(&one.uuid[14..15], "4");
    assert_ne!(one.uuid, two.uuid);
}

#[test]
fn processed_serializes_correctly() {
    let response = Response::processed("hello world".to_string());
    let json = response.to_json();
    assert!(json.contains(r#""kind":"Processed""#));
    assert!(json.contains(r#""stdout":"hello world""#));
    assert!(!json.contains("reason"));
}

#[test]
fn not_processed_serializes_correctly() {
    let response = Response::not_processed(NotProcessedReason::Stopped);
    let json = response.to_json();
    assert!(json.contains(r#""kind":"NotProcessed""#));
    assert!(json.contains(r#""reason":"stopped""#));
    assert!(!json.contains("stdout"));
}

#[test]
fn roundtrip_processed() {
    let response = Response::processed("test output".to_string());
    let json = response.to_json();
    let parsed = Response::from_json(&json).expect("deserialize failed");
    assert_eq!(parsed.kind(), ResponseKind::Processed);
    assert!(matches!(parsed, Response::Processed { stdout, .. } if stdout == "test output"));
}

#[test]
fn roundtrip_not_processed() {
    let response = Response::not_processed(NotProcessedReason::Timeout);
    let json = response.to_json();
    let parsed = Response::from_json(&json).expect("deserialize failed");
    assert_eq!(parsed.kind(), ResponseKind::NotProcessed);
    assert!(
        matches!(parsed, Response::NotProcessed { reason } if reason == NotProcessedReason::Timeout)
    );
}

#[test]
fn every_answer_is_read_back() {
    let answers = vec![
        Response::processed("a\"\\\u{1}\u{8}\u{c}\n\r\t\u{7f}\u{1f980}".to_string()),
        Response::Processed {
            stdout: String::new(),
            stderr: Some("null".to_string()),
        },
        Response::not_processed(NotProcessedReason::Stopped),
    ];
    for answer in answers {
        assert_eq!(Response::from_json(&answer.to_json()), Some(answer));
    }
    let both = Response::Processed {
        stdout: "o\u{1f}".to_string(),
        stderr: Some("e".to_string()),
    };
    assert_eq!(
        both.to_json(),
        "{\"kind\":\"Processed\",\"stdout\":\"o\\u001f\",\"stderr\":\"e\"}"
    );
}

#[test]
fn only_answers_are_read_as_answers() {
    assert_eq!(
        Response::from_json(r#"{"kind":"Processed","stdout":"o","stderr":null,"more":1}"#),
        Some(Response::processed("o".to_string()))
    );
    for text in [
        "",
        "[]",
        r#"{"kind":"Processed"}"#,
        r#"{"kind":"Processed","stdout":1}"#,
        r#"{"kind":"Processed","stdout":"o","stderr":1}"#,
        r#"{"kind":"NotProcessed","reason":"other"}"#,
        r#"{"kind":"NotProcessed"}"#,
        r#"{"kind":"Other","stdout":"o"}"#,
        r#"{"stdout":"o"}"#,
    ] {
        assert_eq!(Response::from_json(text), None);
    }
}

#[test]
fn answers_are_whole_json_texts() {
    assert_eq!(
        Response::processed("a\"b\n".to_string()).to_json(),
        r#"{"kind":"Processed","stdout":"a\"b\n"}"#
    );
    let both = Response::Processed {
        stdout: "o".to_string(),
        stderr: Some("e".to_string()),
    };
    let read: serde_json::Value = serde_json::from_str(&both.to_json()).unwrap();
    assert_eq!(read["stderr"], "e");
    assert_eq!(both.kind(), ResponseKind::Processed);
    assert_eq!(
        Response::not_processed(NotProcessedReason::Timeout).to_json(),
        r#"{"kind":"NotProcessed","reason":"timeout"}"#
    );
}

#[test]
fn a_message_is_read_back_from_its_frame() {
    for content in ["", "x", "line\nline", "\u{1f980} crab"] {
        let mut bytes = frame(content);
        bytes.extend_from_slice(b"more");
        assert_eq!(read_frame(&bytes), Ok(content.to_string()));
    }
    assert_eq!(frame("ab"), b"2\nab".to_vec());
    assert_eq!(parse_length(" 12 \n"), Some(12));
    assert_eq!(parse_length("-1"), None);
    assert_eq!(parse_length("99999999999999999999"), None);
    assert_eq!(read_frame(&b"3\nab".to_vec()), Err(FrameError::Short));
    assert_eq!(read_frame(&b"x\nab".to_vec()), Err(FrameError::BadLength));
    assert_eq!(read_frame(&b"1\n\xff".to_vec()), Err(FrameError::NotText));
    assert_eq!(read_frame(&b"\xff\n".to_vec()), Err(FrameError::LineNotText));
}

#[test]
fn a_task_goes_over_the_socket_once_the_pool_is_ready() {
    assert_eq!(
        submit("/p", "do it"),
        vec![
            SubmitStep::WaitFor {
                path: "/p/status".to_string(),
                timeout: Duration::from_secs(10)
            },
            SubmitStep::Connect("/p/daemon.sock".to_string()),
            SubmitStep::Send(b"5\ndo it".to_vec()),
            SubmitStep::Receive,
        ]
    );
}

#[test]
fn a_task_goes_by_files_and_cleans_up() {
    let timeout = Duration::from_millis(1500);
    let steps = submit_file_as("/p", "do it", timeout, "s", "u");
    assert_eq!(steps.len(), 6);
    match &steps[1] {
        SubmitStep::WriteRequest(write) => {
            assert_eq!(write.temp, "/p/scratch/u.tmp");
            assert_eq!(write.target, "/p/submissions/s.request.json");
            assert_eq!(write.content, "do it");
        }
        _ => panic!("Expected a write"),
    }
    let answer = "/p/submissions/s.response.json".to_string();
    assert_eq!(
        steps[2],
        SubmitStep::WaitFor {
            path: answer.clone(),
            timeout
        }
    );
    assert_eq!(steps[3], SubmitStep::ReadAnswer(answer.clone()));
    assert_eq!(
        steps[4],
        SubmitStep::Remove("/p/submissions/s.request.json".to_string())
    );
    assert_eq!(steps[5], SubmitStep::Remove(answer.clone()));
    assert_eq!(
        cleanup_submission("/p", "s"),
        ("/p/submissions/s.request.json".to_string(), answer)
    );
}

#[test]
fn submissions_by_files_have_uuids_and_five_minutes() {
    let steps = submit_file("/p", "x");
    match &steps[2] {
        SubmitStep::WaitFor { path, timeout } => {
            assert_eq!(*timeout, Duration::from_secs(300));
            assert_eq!(path.len(), "/p/submissions/.response.json".len() + 36);
        }
        _ => panic!("Expected a wait"),
    }
    let other = submit_file_with_timeout("/p", "x", Duration::from_secs(300));
    assert_ne!(steps[3], other[3]);
}

#[test]
fn a_submission_can_have_a_directory_of_its_own() {
    let pending = PendingSubmission::named("/p", "s");
    assert_eq!(pending.dir, "/p/pending/s");
    assert_eq!(pending.task_path, "/p/pending/s/task.json");
    assert_eq!(pending.response_path, "/p/pending/s/response.json");
    assert_ne!(
        PendingSubmission::new("/p").dir,
        PendingSubmission::new("/p").dir
    );
}

#[test]
fn an_answer_is_looked_for_until_time_is_up() {
    assert_eq!(poll_answer(true, true, "5m"), Poll::Read);
    assert_eq!(
        poll_answer(false, false, "5m"),
        Poll::Sleep(Duration::from_millis(100))
    );
    match poll_answer(false, true, "5m") {
        Poll::GiveUp(error) => {
            assert_eq!(error.kind, ErrorKind::TimedOut);
            assert_eq!(error.message, "file-based submit timed out after 5m");
        }
        _ => panic!("Expected to give up"),
    }
}

#[test]
fn a_pool_is_waited_for() {
    assert_eq!(wait_for_pool_ready("/p", true, true), Ok(None));
    assert_eq!(
        wait_for_pool_ready("/p", false, false),
        Ok(Some(Duration::from_millis(10)))
    );
    let error = wait_for_pool_ready("/p", false, true).unwrap_err();
    assert_eq!(error.kind, ErrorKind::NotFound);
    assert_eq!(error.message, "pool directory does not exist: /p");
}

#[test]
fn an_answer_over_the_socket_is_read() {
    assert_eq!(read_answer(&frame("{}"), "d"), Ok("{}".to_string()));
    let cases: Vec<(&[u8], ErrorKind, &str)> = vec![
        (
            b"x\n",
            ErrorKind::InvalidData,
            "[E041] invalid response length from daemon: d",
        ),
        (
            b"1\n\xff",
            ErrorKind::InvalidData,
            "[E042] invalid UTF-8 in daemon response: d",
        ),
        (
            b"5\nab",
            ErrorKind::UnexpectedEof,
            "failed to fill whole buffer",
        ),
        (
            b"\xff\n",
            ErrorKind::InvalidData,
            "stream did not contain valid UTF-8",
        ),
    ];
    for (bytes, kind, message) in cases {
        let error = read_answer(&bytes.to_vec(), "d").unwrap_err();
        assert_eq!(error.kind, kind);
        assert_eq!(error.message, message);
    }
}

#[test]
fn faults_of_a_submission_are_told_apart() {
    let cases = vec![
        (
            SubmitFault::FileRoot,
            ErrorKind::NotFound,
            "[E005] failed to canonicalize pool root /p: d",
        ),
        (
            SubmitFault::FilePayload,
            ErrorKind::InvalidData,
            "[E006] failed to serialize payload: d",
        ),
        (
            SubmitFault::FileAnswer,
            ErrorKind::NotFound,
            "[E007] failed to read response file /p: d",
        ),
        (
            SubmitFault::FileParse,
            ErrorKind::InvalidData,
            "[E008] failed to parse response JSON: d",
        ),
        (
            SubmitFault::SocketRoot,
            ErrorKind::NotFound,
            "[E037] failed to canonicalize pool root /p: d",
        ),
        (
            SubmitFault::SocketPath,
            ErrorKind::InvalidInput,
            "[E038] invalid socket path /p: d",
        ),
        (
            SubmitFault::SocketPayload,
            ErrorKind::InvalidData,
            "[E039] failed to serialize payload: d",
        ),
        (
            SubmitFault::SocketConnect,
            ErrorKind::ConnectionRefused,
            "[E040] failed to connect to daemon socket /p: d",
        ),
        (
            SubmitFault::SocketParse,
            ErrorKind::InvalidData,
            "[E043] failed to parse daemon response JSON: d",
        ),
    ];
    for (fault, kind, message) in cases {
        let error = submit_fault(fault, "/p", ErrorKind::NotFound, "d");
        assert_eq!(error.kind, kind);
        assert_eq!(error.message, message);
    }
}

#[test]
fn a_lock_is_taken_unless_its_owner_runs() {
    assert_eq!(lock_path("/p"), "/p/daemon.lock");
    assert_eq!(lock_owner(Some(" 42\n")), Some(42));
    assert_eq!(lock_owner(Some("4294967296")), None);
    assert_eq!(lock_owner(Some("me")), None);
    assert_eq!(lock_owner(None), None);
    let plan = acquire_lock("/l", false, None, false, 7).unwrap();
    assert!(!plan.remove_stale);
    assert_eq!(plan.content, "7");
    assert_eq!(plan.guard.path, "/l");
    assert_eq!(plan.remove_error, "[E067] failed to remove stale lock /l: ");
    assert_eq!(plan.write_error, "[E068] failed to write lock file /l: ");
    assert_eq!(lock_owner(Some(&plan.content)), Some(7));
    assert!(acquire_lock("/l", true, Some(9), false, 7).unwrap().remove_stale);
    assert!(acquire_lock("/l", true, None, true, 7).unwrap().remove_stale);
    let error = acquire_lock("/l", true, Some(9), true, 7).unwrap_err();
    assert_eq!(error.kind, ErrorKind::AlreadyExists);
    assert_eq!(
        error.message,
        "[E029] daemon already running (PID 9, lock file /l)"
    );
    assert!(is_daemon_running(Some(9), true));
    assert!(!is_daemon_running(Some(9), false));
    assert!(!is_daemon_running(None, true));
}

#[test]
fn a_daemon_is_stopped_by_its_status_file() {
    let plan = stop("/p", true, Some(9), "bad").unwrap();
    assert_eq!(plan.status_path, "/p/status");
    assert_eq!(plan.content, "stop");
    assert_eq!(plan.pid, 9);
    let error = stop("/p", false, Some(9), "bad").unwrap_err();
    assert_eq!(error.kind, ErrorKind::NotFound);
    assert_eq!(error.message, "no daemon running (lock file not found)");
    let error = stop("/p", true, None, "bad").unwrap_err();
    assert_eq!(error.kind, ErrorKind::InvalidData);
    assert_eq!(error.message, "bad");
    assert!(terminate_process(9, true).is_ok());
    assert_eq!(
        terminate_process(9, false).unwrap_err().message,
        "failed to terminate process 9"
    );
}

#[test]
fn pools_have_short_plain_names() {
    let id = generate_id(1_700_000_000_123_456_789, 4242);
    assert_eq!(id.len(), 8);
    assert!(id
        .chars()
        .all(|c| "abcdefghjkmnpqrstuvwxyz23456789".contains(c)));
    assert_eq!(id, generate_id(1_700_000_000_123_456_789, 4242));
    assert_ne!(id, generate_id(1_700_000_000_123_456_790, 4242));
    assert_eq!(resolve_pool("/tmp/agent_pool", &id), format!("/tmp/agent_pool/{id}"));
    assert_eq!(generate_id(1, 0), generate_id(0, 1));
    assert_eq!(generate_id(0, 0), "aaaaaaaa");
}

#[test]
fn pools_are_found_by_name_or_path() {
    assert_eq!(id_to_path("/r", "abc"), "/r/abc");
    assert_eq!(resolve_pool("/r", "abc"), "/r/abc");
    assert_eq!(resolve_pool("/r", "./abc"), "./abc");
    assert_eq!(resolve_pool("/r", "/x/abc"), "/x/abc");
    assert_eq!(default_pool_root(true, "/t"), "/tmp/agent_pool");
    assert_eq!(default_pool_root(false, "/t"), "/t/agent_pool");
    assert!(validate_pool_id("abc").is_ok());
    for bad in ["a/b", "a\\b"] {
        assert_eq!(
            validate_pool_id(bad).unwrap_err(),
            format!(
                "Pool ID cannot contain path separators. Got: '{bad}'. Use --pool-root to specify the base directory."
            )
        );
    }
}

#[test]
fn pools_are_the_directories_below_the_root() {
    let entry = |name: &str, is_dir: bool| Entry {
        name: name.to_string(),
        is_file: !is_dir,
        is_dir,
    };
    let pools = list_pools(
        "/r",
        &vec![entry("a", true), entry("f", false), entry("b", true)],
        &vec![true, true, false],
    );
    assert_eq!(
        pools,
        vec![
            PoolInfo {
                id: "a".to_string(),
                path: "/r/a".to_string(),
                running: true
            },
            PoolInfo {
                id: "b".to_string(),
                path: "/r/b".to_string(),
                running: false
            },
        ]
    );
    assert_eq!(pool_line(&pools[0]), "a            running  /r/a");
    assert_eq!(
        pool_line(&PoolInfo {
            id: "a-very-long-name".to_string(),
            path: "/r/b".to_string(),
            running: false
        }),
        "a-very-long-name stopped  /r/b"
    );
}

#[test]
fn a_running_daemon_is_stopped_only_on_demand() {
    assert_eq!(start_step(false, false, false), StartStep::Start);
    assert_eq!(start_step(true, false, false), StartStep::Clear);
    assert_eq!(start_step(true, true, true), StartStep::StopAndClear);
    assert_eq!(start_step(true, true, false), StartStep::Refuse);
}

#[test]
fn the_command_line_sets_the_times() {
    let config = daemon_config(60, 30, true);
    assert_eq!(config.idle_timeout, Duration::from_secs(60));
    assert_eq!(config.default_task_timeout, Duration::from_secs(30));
    assert!(!config.heartbeat_enabled);
}

#[test]
fn data_come_before_a_file() {
    assert_eq!(choose_payload(Some("d"), Some("f")), Ok(Payload::inline("d")));
    assert_eq!(choose_payload(None, Some("f")), Ok(Payload::file_ref("f")));
    assert_eq!(
        choose_payload(None, None),
        Err("Either --data or --file must be provided")
    );
}
