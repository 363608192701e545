use agent_pool::daemon::polling::{
    pending_files, takes_pending, Completion, Dispatch, Output, PendingEntry, PoolState,
    ResponseTarget, Task, POLL_TIMEOUT_MS, SCAN_INTERVAL_MS,
};
use agent_pool::daemon::polling_loop::{
    loop_fault, next_step, read_task, send_response, DaemonSignals, DrainHeard, DrainStep,
    LoopFault, LoopStep, Reply, SeenPath,
};
use agent_pool::error::{ErrorKind, PoolError};
use agent_pool::fs_events::{CreateKind, EventKind, ModifyKind};
use agent_pool::response::Response;
use agent_pool::time::Duration;

fn names(list: &[&str]) -> Vec<String> {
    list.iter().map(|name| name.to_string()).collect()
}

fn task(content: &str, connection: u64) -> Task {
    Task {
        content: content.to_string(),
        respond_to: ResponseTarget::Socket(connection),
    }
}

fn agents(pool: &PoolState) -> Vec<&str> {
    pool.agents.iter().map(|agent| agent.name.as_str()).collect()
}

fn pool_with(list: &[&str]) -> PoolState {
    let mut pool = PoolState::new("/p");
    for name in list {
        pool.register(name);
    }
    pool
}

fn sent(agent: &str, content: &str) -> Dispatch {
    Dispatch {
        agent: agent.to_string(),
        path: format!("/p/agents/{agent}/task.json"),
        content: content.to_string(),
    }
}

#[test]
fn a_pool_starts_empty_below_its_root() {
    let pool = PoolState::new("/p");
    assert_eq!(pool.agents_dir, "/p/agents");
    assert_eq!(pool.pending_dir, "/p/pending");
    assert!(pool.agents.is_empty());
    assert!(pool.pending.is_empty());
    assert_eq!(pool.in_flight_count(), 0);
}

#[test]
fn an_agent_registers_once() {
    let mut pool = pool_with(&["a", "b", "a"]);
    assert_eq!(agents(&pool), vec!["a", "b"]);
    pool.unregister("a");
    pool.unregister("nobody");
    assert_eq!(agents(&pool), vec!["b"]);
}

#[test]
fn agents_follow_their_directories() {
    let mut pool = pool_with(&["gone", "stays"]);
    pool.enqueue(task("t", 1));
    pool.dispatch_pending(&names(&["stays"]));
    pool.scan_agents(&names(&["new", "stays"]));
    assert_eq!(agents(&pool), vec!["stays", "new"]);
    assert_eq!(pool.in_flight_count(), 1);
}

#[test]
fn tasks_go_to_free_agents_in_order() {
    let mut pool = pool_with(&["a", "b", "c"]);
    for (content, connection) in [("one", 1u64), ("two", 2), ("three", 3)] {
        pool.enqueue(task(content, connection));
    }
    let out = pool.dispatch_pending(&names(&["c", "a"]));
    assert_eq!(out, vec![sent("a", "one"), sent("c", "two")]);
    assert_eq!(pool.pending.len(), 1);
    assert_eq!(pool.in_flight_count(), 2);
    assert_eq!(agents(&pool), vec!["a", "c"]);
    assert!(pool.dispatch_pending(&names(&["c", "a"])).is_empty());
}

#[test]
fn agents_without_directories_stay_while_another_is_free() {
    let mut pool = pool_with(&["gone", "here"]);
    assert!(pool.dispatch_pending(&names(&["here"])).is_empty());
    assert_eq!(agents(&pool), vec!["gone", "here"]);
    assert_eq!(
        pool.find_available_agent(&names(&["here"])),
        Some("here".to_string())
    );
    assert_eq!(pool.find_available_agent(&names(&[])), None);
    assert!(pool.agents.is_empty());
}

#[test]
fn a_task_can_only_be_given_to_an_agent_that_is_known() {
    let mut pool = pool_with(&["a"]);
    assert!(pool.dispatch_to("a", ResponseTarget::Socket(1)).is_ok());
    assert!(!pool.agents[0].is_available());
    let error = pool.dispatch_to("b", ResponseTarget::Socket(1)).unwrap_err();
    assert_eq!(error.kind, ErrorKind::Other);
    assert_eq!(error.message, "agent not found");
}

#[test]
fn an_answer_goes_to_whoever_asked() {
    let mut pool = pool_with(&["a", "b"]);
    pool.enqueue(task("one", 1));
    pool.enqueue(task("two", 2));
    pool.dispatch_pending(&names(&["a", "b"]));
    assert_eq!(
        pool.scan_outputs(),
        vec![
            ("a".to_string(), "/p/agents/a/response.json".to_string()),
            ("b".to_string(), "/p/agents/b/response.json".to_string()),
        ]
    );
    let path = "/p/agents/b/response.json";
    assert_eq!(
        pool.complete_task("b", path, Output::Missing),
        Completion::Nothing
    );
    assert_eq!(pool.in_flight_count(), 2);
    let done = pool.complete_task("b", path, Output::Content("out".to_string()));
    assert_eq!(
        done,
        Completion::Done {
            task_path: "/p/agents/b/task.json".to_string(),
            response_path: path.to_string(),
            respond_to: ResponseTarget::Socket(2),
            response: Response::processed("out".to_string()),
        }
    );
    assert_eq!(pool.in_flight_count(), 1);
    let again = pool.complete_task("b", path, Output::Content("out".to_string()));
    assert_eq!(again, Completion::Nothing);
    let stranger = pool.complete_task("x", path, Output::Content("out".to_string()));
    assert_eq!(stranger, Completion::Nothing);
}

#[test]
fn an_answer_that_cannot_be_read_frees_the_agent() {
    let mut pool = pool_with(&["a"]);
    pool.enqueue(task("one", 1));
    pool.dispatch_pending(&names(&["a"]));
    let error = PoolError::new(ErrorKind::Other, "denied");
    assert_eq!(
        pool.complete_task("a", "/x", Output::Failed(error.clone())),
        Completion::Failed(error)
    );
    assert_eq!(pool.in_flight_count(), 0);
}

#[test]
fn tasks_that_were_left_as_files_are_taken_once() {
    assert!(takes_pending(true, true, false));
    assert!(!takes_pending(true, true, true));
    assert!(!takes_pending(true, false, false));
    assert!(!takes_pending(false, true, false));
    assert_eq!(
        pending_files("/p/pending/s"),
        (
            "/p/pending/s/task.json".to_string(),
            "/p/pending/s/response.json".to_string()
        )
    );
    let entry = |path: &str, response_exists: bool, taken: Option<&str>| PendingEntry {
        path: path.to_string(),
        is_dir: true,
        task_exists: true,
        response_exists,
        taken: taken.map(|text| text.to_string()),
    };
    let mut pool = PoolState::new("/p");
    pool.scan_pending(&vec![
        entry("/p/pending/s", false, Some("one")),
        entry("/p/pending/t", true, Some("two")),
        entry("/p/pending/u", false, None),
    ]);
    assert_eq!(pool.pending.len(), 1);
    assert_eq!(
        pool.pending[0],
        Task {
            content: "one".to_string(),
            respond_to: ResponseTarget::File("/p/pending/s/response.json".to_string()),
        }
    );
}

fn seen(path: &str, agent_dir_exists: bool, exists: bool, output: Output) -> SeenPath {
    SeenPath {
        path: path.to_string(),
        agent_dir_exists,
        exists,
        output,
    }
}

#[test]
fn directories_bring_agents_and_take_them_away() {
    let mut pool = PoolState::new("/p");
    let created = EventKind::Create(CreateKind::Folder);
    pool.handle_fs_event(created, seen("/p/agents/a", true, true, Output::Missing));
    pool.handle_fs_event(created, seen("/p/agents/b", false, false, Output::Missing));
    pool.handle_fs_event(created, seen("/p/other/c", true, true, Output::Missing));
    pool.handle_fs_event(created, seen("/p/agents", true, true, Output::Missing));
    pool.handle_fs_event(
        created,
        seen("/p/agents/d/task.json", true, true, Output::Missing),
    );
    pool.handle_fs_event(
        created,
        seen("/p/agents/e/deep/task.json", true, true, Output::Missing),
    );
    assert_eq!(agents(&pool), vec!["a", "d"]);
    pool.handle_fs_event(
        EventKind::Remove,
        seen("/p/agents/a", false, false, Output::Missing),
    );
    assert_eq!(agents(&pool), vec!["d"]);
}

#[test]
fn an_answer_file_completes_the_task() {
    let mut pool = pool_with(&["a"]);
    pool.enqueue(task("one", 5));
    pool.dispatch_pending(&names(&["a"]));
    let path = "/p/agents/a/response.json";
    let output = || Output::Content("out".to_string());
    assert_eq!(
        pool.handle_fs_event(EventKind::Remove, seen(path, true, true, output())),
        Completion::Nothing
    );
    assert_eq!(
        pool.handle_fs_event(
            EventKind::Modify(ModifyKind::Data),
            seen(path, true, false, output())
        ),
        Completion::Nothing
    );
    let done = pool.handle_fs_event(
        EventKind::Modify(ModifyKind::Data),
        seen(path, true, true, output()),
    );
    assert!(matches!(
        done,
        Completion::Done { respond_to: ResponseTarget::Socket(5), .. }
    ));
    assert_eq!(pool.in_flight_count(), 0);
}

#[test]
fn rounds_go_by_the_signals() {
    let mut signals = DaemonSignals::new();
    let soon = Duration::from_millis(SCAN_INTERVAL_MS - 1);
    let late = Duration::from_millis(SCAN_INTERVAL_MS);
    assert_eq!(POLL_TIMEOUT_MS, 100);
    assert_eq!(next_step(LoopStep::Begin, signals, soon), LoopStep::Accept);
    assert_eq!(next_step(LoopStep::Accept, signals, soon), LoopStep::Listen);
    assert_eq!(next_step(LoopStep::Listen, signals, soon), LoopStep::Dispatch);
    assert_eq!(next_step(LoopStep::Listen, signals, late), LoopStep::Scan);
    assert_eq!(next_step(LoopStep::Scan, signals, late), LoopStep::Dispatch);
    assert_eq!(next_step(LoopStep::Dispatch, signals, soon), LoopStep::Begin);
    signals.set_paused(true);
    assert_eq!(next_step(LoopStep::Listen, signals, soon), LoopStep::Begin);
    assert_eq!(next_step(LoopStep::Scan, signals, soon), LoopStep::Begin);
    signals.set_paused(false);
    signals.trigger_shutdown();
    assert_eq!(next_step(LoopStep::Begin, signals, soon), LoopStep::Drain);
    assert_eq!(next_step(LoopStep::Drain, signals, soon), LoopStep::Drain);
}

#[test]
fn draining_waits_for_the_tasks_that_are_out() {
    let mut pool = pool_with(&["a"]);
    assert_eq!(pool.drain_step(DrainHeard::Handled), DrainStep::Finish);
    pool.enqueue(task("one", 5));
    pool.dispatch_pending(&names(&["a"]));
    assert_eq!(pool.drain_step(DrainHeard::Handled), DrainStep::Listen);
    assert_eq!(pool.drain_step(DrainHeard::TimedOut), DrainStep::ScanOutputs);
    assert_eq!(pool.drain_step(DrainHeard::Disconnected), DrainStep::Finish);
}

#[test]
fn tasks_come_by_connections() {
    assert_eq!(
        read_task(9, &b"3\nabc".to_vec()).unwrap(),
        Some(task("abc", 9))
    );
    assert_eq!(read_task(9, &b"x\nabc".to_vec()).unwrap(), None);
    assert_eq!(
        read_task(9, &b"9\nabc".to_vec()).unwrap_err().kind,
        ErrorKind::UnexpectedEof
    );
}

#[test]
fn answers_go_where_they_are_awaited() {
    assert_eq!(
        send_response(ResponseTarget::Socket(4), "{}", false),
        Reply::Send {
            connection: 4,
            bytes: b"2\n{}".to_vec()
        }
    );
    let file = || ResponseTarget::File("/f".to_string());
    assert_eq!(
        send_response(file(), "{}", true),
        Reply::Write {
            path: "/f".to_string(),
            content: "{}".to_string()
        }
    );
    assert_eq!(send_response(file(), "{}", false), Reply::Drop);
}

#[test]
fn faults_keep_their_kind_and_say_where_they_came_from() {
    let cause = PoolError::new(ErrorKind::NotFound, "gone");
    let cases = vec![
        (LoopFault::Accept, "socket accept failed: gone"),
        (LoopFault::Event, "fs event handling failed: gone"),
        (LoopFault::ScanAgents, "scan_agents failed: gone"),
        (LoopFault::ScanOutputs, "scan_outputs failed: gone"),
        (LoopFault::ScanPending, "scan_pending failed: gone"),
        (LoopFault::Dispatch, "dispatch_pending failed: gone"),
        (
            LoopFault::Check("/f".to_string()),
            "failed to check response file /f: gone",
        ),
        (
            LoopFault::Complete("a".to_string()),
            "complete_task for a failed: gone",
        ),
        (
            LoopFault::Respond("/f".to_string()),
            "failed to write response to /f: gone",
        ),
    ];
    for (fault, message) in cases {
        let error = loop_fault(fault, &cause);
        assert_eq!(error.kind, ErrorKind::NotFound);
        assert_eq!(error.message, message);
    }
}
