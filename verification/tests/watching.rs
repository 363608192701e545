use agent_pool::error::ErrorKind;
use agent_pool::executor::{
    is_task_ready, task_files, tells_agent, tells_agent_of_close, wait_for_task, AgentEvent,
    Received, SyncStep, TaskWait, WatchSync, CANARY_FILE, CANARY_START,
};
use agent_pool::fs_events::{AccessKind, AccessMode, CreateKind, EventKind, Platform};
use agent_pool::transport::{AtomicWrite, Transport};
use agent_pool::watcher::{
    atomic_write_str, atomic_write_with, is_stop_requested, CanaryGuard, CanaryWatcher, FirstLook, Heard,
    VerifiedWatcher, WaitError, WaitStep,
};
use std::collections::BTreeMap;

fn perform(files: &mut BTreeMap<String, String>, write: &AtomicWrite) {
    files.insert(write.temp.clone(), write.content.clone());
    let content = files.remove(&write.temp).unwrap();
    files.insert(write.target.clone(), content);
}

fn creates_file() {
    let mut files = BTreeMap::new();
    let write = atomic_write_str("/p", "/p/test.txt", "hello world");
    perform(&mut files, &write);
    assert_eq!(files["/p/test.txt"], "hello world");
}

fn overwrites_existing() {
    let mut files = BTreeMap::new();
    files.insert("/p/test.txt".to_string(), "old content".to_string());
    let write = atomic_write_str("/p", "/p/test.txt", "new content");
    perform(&mut files, &write);
    assert_eq!(files["/p/test.txt"], "new content");
}

fn cleans_up() {
    let mut files = BTreeMap::new();
    let write = atomic_write_str("/p", "/p/test.txt", "content");
    assert!(write.temp.starts_with("/p/scratch/"));
    perform(&mut files, &write);
    assert!(files.keys().all(|path| !path.starts_with("/p/scratch/")));
}

#[test]
fn fs_atomic_write_creates_file() {
    creates_file();
}

#[test]
fn fs_atomic_write_overwrites_existing() {
    overwrites_existing();
}

#[test]
fn fs_temp_file_cleaned_up() {
    cleans_up();
}

#[test]
fn fs_util_atomic_write_creates_file() {
    creates_file();
}

#[test]
fn fs_util_atomic_write_overwrites_existing() {
    overwrites_existing();
}

#[test]
fn fs_util_temp_file_cleaned_up() {
    cleans_up();
}

#[test]
fn verified_watcher_atomic_write_creates_file() {
    creates_file();
}

#[test]
fn verified_watcher_atomic_write_overwrites_existing() {
    overwrites_existing();
}

#[test]
fn verified_watcher_temp_file_cleaned_up() {
    cleans_up();
}

#[test]
fn temporary_files_have_names_of_their_own() {
    let one = atomic_write_str("/p", "/p/t", "x");
    let two = atomic_write_str("/p", "/p/t", "x");
    assert_ne!(one.temp, two.temp);
    assert_ne!(one.temp, one.target);
}

#[test]
fn a_write_says_what_failed() {
    let write = atomic_write_with("/p", "/p/t", "x", "u");
    assert_eq!(write.temp, "/p/scratch/u.tmp");
    assert_eq!(
        write.write_error,
        "[E001] failed to write temp file /p/scratch/u.tmp: "
    );
    assert_eq!(
        write.rename_error,
        "[E002] failed to rename /p/scratch/u.tmp to /p/t: "
    );
}

fn directory() -> Transport {
    Transport::Directory("/p/agents/w".to_string())
}

#[test]
fn agent_is_task_ready_no_files() {
    assert!(!is_task_ready(&directory(), false, false));
}

#[test]
fn agent_is_task_ready_task_only() {
    assert!(is_task_ready(&directory(), true, false));
}

#[test]
fn agent_is_task_ready_both_files() {
    assert!(!is_task_ready(&directory(), true, true));
}

#[test]
fn agent_is_task_ready_response_only() {
    assert!(!is_task_ready(&directory(), false, true));
}

#[test]
fn executor_is_task_ready_no_files() {
    assert!(!is_task_ready(&directory(), false, false));
}

#[test]
fn executor_is_task_ready_task_only() {
    assert!(is_task_ready(&directory(), true, false));
}

#[test]
fn executor_is_task_ready_both_files() {
    assert!(!is_task_ready(&directory(), true, true));
}

#[test]
fn executor_is_task_ready_response_only() {
    assert!(!is_task_ready(&directory(), false, true));
}

#[test]
fn a_socket_has_no_task_files() {
    let socket = Transport::Socket(1);
    assert!(!is_task_ready(&socket, true, false));
    assert_eq!(task_files(&socket), None);
    assert_eq!(
        task_files(&directory()),
        Some((
            "/p/agents/w/task.json".to_string(),
            "/p/agents/w/response.json".to_string()
        ))
    );
}

#[test]
fn a_wait_for_a_task_goes_by_what_was_heard() {
    let changed = Received::Event(AgentEvent::FileChanged);
    assert_eq!(wait_for_task(&changed, true), TaskWait::Ready);
    assert_eq!(wait_for_task(&changed, false), TaskWait::Listen);
    assert_eq!(wait_for_task(&Received::TimedOut, true), TaskWait::NotReady);
    let broken = Received::Event(AgentEvent::WatchError("no more".to_string()));
    match wait_for_task(&broken, true) {
        TaskWait::Failed(error) => {
            assert_eq!(error.kind, ErrorKind::Other);
            assert_eq!(error.message, "no more");
        }
        _ => panic!("Expected a failure"),
    }
    match wait_for_task(&Received::Closed, true) {
        TaskWait::Failed(error) => {
            assert_eq!(error.kind, ErrorKind::BrokenPipe);
            assert_eq!(error.message, "watcher channel closed");
        }
        _ => panic!("Expected a failure"),
    }
}

#[test]
fn agents_hear_of_whole_files_only() {
    let closed = EventKind::Access(AccessKind::Close(AccessMode::Write));
    let created = EventKind::Create(CreateKind::File);
    assert!(tells_agent(closed, Platform::Linux));
    assert!(!tells_agent(created, Platform::Linux));
    assert!(tells_agent(created, Platform::MacOs));
    assert!(tells_agent_of_close(closed));
    assert!(!tells_agent_of_close(created));
}

#[test]
fn a_watch_is_tried_until_something_is_heard() {
    assert_eq!(CANARY_FILE, "canary");
    assert_eq!(CANARY_START, "sync");
    let mut sync = WatchSync::new();
    assert_eq!(
        sync.verify_watcher_sync(&Received::TimedOut, false),
        SyncStep::Rewrite("1".to_string())
    );
    assert_eq!(
        sync.verify_watcher_sync(&Received::TimedOut, false),
        SyncStep::Rewrite("2".to_string())
    );
    assert_eq!(
        sync.verify_watcher_sync(&Received::Event(AgentEvent::FileChanged), true),
        SyncStep::Verified
    );
    let messages = vec![
        (
            Received::TimedOut,
            ErrorKind::TimedOut,
            "watcher sync timed out - no events received",
        ),
        (
            Received::Event(AgentEvent::WatchError("e".to_string())),
            ErrorKind::Other,
            "watcher error during sync: e",
        ),
        (
            Received::Closed,
            ErrorKind::BrokenPipe,
            "watcher channel disconnected during sync",
        ),
    ];
    for (received, kind, message) in messages {
        match sync.verify_watcher_sync(&received, true) {
            SyncStep::Failed(error) => {
                assert_eq!(error.kind, kind);
                assert_eq!(error.message, message);
            }
            _ => panic!("Expected a failure"),
        }
    }
    assert_eq!(sync.retry_count, 2);
}

#[test]
fn a_canary_counts_its_writes() {
    let (mut guard, first) = CanaryGuard::new_with("/p/agents", "u");
    assert_eq!(guard.dir(), "/p/agents");
    assert_eq!(guard.path(), "/p/agents/u.canary");
    assert_eq!(first.path, guard.path());
    assert_eq!(first.content, "0");
    assert_eq!(
        first.write_error,
        "[E048] failed to write canary file /p/agents/u.canary: "
    );
    assert_eq!(guard.retry().content, "1");
    let third = guard.retry();
    assert_eq!(third.content, "2");
    assert_eq!(
        third.write_error,
        "[E049] failed to write canary file /p/agents/u.canary (retry 2): "
    );
    let (fresh, _) = CanaryGuard::new("/p");
    assert_eq!(fresh.path().len(), "/p/.canary".len() + 36);
}

fn watcher() -> VerifiedWatcher {
    let (one, _) = CanaryGuard::new_with("/p", "a");
    let (two, _) = CanaryGuard::new_with("/p/agents", "b");
    VerifiedWatcher::new("/p", vec![one, two])
}

fn heard(paths: &[&str]) -> Heard {
    Heard::Paths(paths.iter().map(|path| path.to_string()).collect())
}

#[test]
fn a_wait_ends_at_once_where_the_file_is_there_or_the_pool_stops() {
    assert_eq!(VerifiedWatcher::begin_wait(true, Some("stop")), Some(Ok(())));
    assert_eq!(
        VerifiedWatcher::begin_wait(false, Some(" stop ")),
        Some(Err(WaitError::Stopped))
    );
    assert_eq!(VerifiedWatcher::begin_wait(false, Some("ready")), None);
    assert_eq!(VerifiedWatcher::begin_wait(false, None), None);
}

#[test]
fn listening_takes_a_tenth_of_a_second_or_what_is_left() {
    assert_eq!(VerifiedWatcher::listen_time(None, "/t"), Ok(100));
    assert_eq!(VerifiedWatcher::listen_time(Some(5000), "/t"), Ok(100));
    assert_eq!(VerifiedWatcher::listen_time(Some(30), "/t"), Ok(30));
    match VerifiedWatcher::listen_time(Some(0), "/t") {
        Err(WaitError::Io(error)) => {
            assert_eq!(error.kind, ErrorKind::TimedOut);
            assert_eq!(error.message, "[E046] timed out waiting for /t");
        }
        _ => panic!("Expected an error"),
    }
}

#[test]
fn a_wait_for_a_file_ends_when_it_is_heard_of() {
    let mut watch = watcher();
    let step = watch.wait_for_file(
        "/p/agents/x",
        &heard(&["/p/agents/y", "/p/agents/./x", "/p/z"]),
        None,
        false,
    );
    assert_eq!(step, WaitStep::Found);
    assert_eq!(watch.remaining_canaries.len(), 1);
    assert_eq!(watch.remaining_canaries[0].dir(), "/p");
}

#[test]
fn a_wait_for_a_file_goes_on_until_it_is_there() {
    let mut watch = watcher();
    let other = heard(&["/p/other"]);
    assert_eq!(
        watch.wait_for_file("/p/agents/x", &other, None, false),
        WaitStep::Listen
    );
    assert!(!watch.is_verified());
    assert_eq!(
        watch.wait_for_file("/p/agents/x", &Heard::Nothing, None, false),
        WaitStep::RewriteCanaries
    );
    assert_eq!(
        watch.wait_for_file("/p/agents/x", &Heard::Nothing, None, true),
        WaitStep::Found
    );
    assert_eq!(
        watch.wait_for_file("/p/agents/x", &other, None, true),
        WaitStep::Found
    );
}

#[test]
fn a_wait_for_a_file_ends_when_the_pool_stops_or_the_watch_breaks() {
    let mut watch = watcher();
    let status = heard(&["/p/status"]);
    assert_eq!(
        watch.wait_for_file("/p/agents/x", &status, Some("stop"), false),
        WaitStep::Failed(WaitError::Stopped)
    );
    assert_eq!(
        watch.wait_for_file("/p/agents/x", &status, Some("ready"), false),
        WaitStep::Listen
    );
    match watch.wait_for_file("/p/agents/x", &Heard::Closed, None, true) {
        WaitStep::Failed(WaitError::Io(error)) => {
            assert_eq!(error.kind, ErrorKind::BrokenPipe);
            assert_eq!(
                error.message,
                "[E003] watcher disconnected while waiting for /p/agents/x"
            );
        }
        _ => panic!("Expected a failure"),
    }
}

#[test]
fn a_watch_is_verified_once_every_directory_was_heard_from() {
    let mut watch = watcher();
    assert_eq!(
        watch.into_receiver(&heard(&["/p/a.canary"]), false, "5s"),
        WaitStep::Listen
    );
    assert_eq!(
        watch.into_receiver(&Heard::Nothing, false, "5s"),
        WaitStep::RewriteCanaries
    );
    match watch.into_receiver(&Heard::Nothing, true, "5s") {
        WaitStep::Failed(WaitError::Io(error)) => {
            assert_eq!(error.kind, ErrorKind::TimedOut);
            assert_eq!(
                error.message,
                "[E047] watcher canary verification timed out after 5s"
            );
        }
        _ => panic!("Expected a failure"),
    }
    match watch.into_receiver(&Heard::Closed, false, "5s") {
        WaitStep::Failed(WaitError::Io(error)) => assert_eq!(
            error.message,
            "[E004] watcher disconnected during canary verification"
        ),
        _ => panic!("Expected a failure"),
    }
    assert_eq!(
        watch.into_receiver(&heard(&["/p/agents/q"]), false, "5s"),
        WaitStep::Found
    );
    assert!(watch.is_verified());
    assert_eq!(
        watch.into_receiver(&Heard::Closed, true, "5s"),
        WaitStep::Found
    );
}

#[test]
fn a_plain_wait_looks_three_times_before_it_listens() {
    assert_eq!(CanaryWatcher::first_look(1, false), FirstLook::LookAgain);
    assert_eq!(CanaryWatcher::first_look(2, false), FirstLook::LookAgain);
    assert_eq!(CanaryWatcher::first_look(3, false), FirstLook::Listen);
    assert_eq!(CanaryWatcher::first_look(2, true), FirstLook::Found);
}

#[test]
fn one_canary_is_enough_for_a_plain_wait() {
    let (guard, _) = CanaryGuard::new_with("/p", "u");
    let mut watch = CanaryWatcher {
        canary: Some(guard),
    };
    assert_eq!(
        watch.wait_for("/p/x", None, false),
        WaitStep::RewriteCanaries
    );
    assert_eq!(
        watch.wait_for("/p/x", Some("/p/y"), false),
        WaitStep::Listen
    );
    assert!(watch.canary.is_none());
    assert_eq!(watch.wait_for("/p/x", None, false), WaitStep::Listen);
    assert_eq!(watch.wait_for("/p/x", Some("/p/x"), false), WaitStep::Found);
    assert_eq!(watch.wait_for("/p/x", None, true), WaitStep::Found);
    assert!(CanaryWatcher::time_is_up("/p/x", true).is_ok());
    let error = CanaryWatcher::time_is_up("/p/x", false).unwrap_err();
    assert_eq!(error.kind, ErrorKind::TimedOut);
    assert_eq!(error.message, "timed out waiting for /p/x");
}

#[test]
fn a_stop_interrupts() {
    assert!(is_stop_requested(Some("stopped\n")));
    assert!(!is_stop_requested(Some("no stop")));
    let error = WaitError::Stopped.into_error();
    assert_eq!(error.kind, ErrorKind::Interrupted);
    assert_eq!(error.message, "pool stopped");
}
