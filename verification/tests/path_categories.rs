use agent_pool::daemon::path_category::{categorize, PathCategory};
use agent_pool::fs_events::{
    is_write_complete, AccessKind, AccessMode, CreateKind, EventKind, ModifyKind, Platform,
};

const TEST_UUID: &str = "550e8400-e29b-41d4-a716-446655440000";

fn file_written() -> EventKind {
    EventKind::Access(AccessKind::Close(AccessMode::Write))
}

fn folder_created() -> EventKind {
    EventKind::Create(CreateKind::Folder)
}

fn found(path: &str, kind: EventKind) -> Option<PathCategory> {
    categorize(
        path,
        kind,
        Platform::Linux,
        "/pool",
        "/pool/agents",
        "/pool/submissions",
        None,
    )
}

// Worker ready file

#[test]
fn worker_ready_on_file_written() {
    let path = format!("/pool/agents/{TEST_UUID}.ready.json");
    assert_eq!(
        found(&path, file_written()),
        Some(PathCategory::WorkerReady {
            id: TEST_UUID.to_string()
        })
    );
}

#[test]
fn worker_ready_ignored_on_folder_events() {
    // Folder events don't trigger WorkerReady
    let path = "/pool/agents/abc123.ready.json".to_string();
    assert_eq!(
        found(&path, folder_created()),
        None
    );
}

#[test]
fn worker_response_on_file_written() {
    let path = format!("/pool/agents/{TEST_UUID}.response.json");
    assert_eq!(
        found(&path, file_written()),
        Some(PathCategory::WorkerResponse {
            id: TEST_UUID.to_string()
        })
    );
}

#[test]
fn worker_response_ignored_on_folder_events() {
    // Folder events don't trigger WorkerResponse
    let path = "/pool/agents/abc123.response.json".to_string();
    assert_eq!(
        found(&path, folder_created()),
        None
    );
}

#[test]
fn unknown_file_in_agents_not_categorized() {
    let path = "/pool/agents/abc123.task.json".to_string();
    assert_eq!(
        found(&path, file_written()),
        None
    );
}

#[test]
fn nested_files_under_agents_not_categorized() {
    // Subdirectories under agents are not categorized (flat structure)
    let path = "/pool/agents/subdir/abc123.ready.json".to_string();
    assert_eq!(
        found(&path, file_written()),
        None
    );
}

#[test]
fn submission_request_on_file_written() {
    let path = "/pool/submissions/abc123.request.json".to_string();
    assert_eq!(
        found(&path, file_written()),
        Some(PathCategory::SubmissionRequest {
            id: "abc123".to_string()
        })
    );
}

#[test]
fn submission_request_ignored_on_folder_events() {
    // Folder events should not trigger SubmissionRequest
    let path = "/pool/submissions/abc123.request.json".to_string();
    assert_eq!(
        found(&path, folder_created()),
        None
    );
}

#[test]
fn submission_request_uuid_format() {
    let path = format!("/pool/submissions/{TEST_UUID}.request.json");
    assert_eq!(
        found(&path, file_written()),
        Some(PathCategory::SubmissionRequest {
            id: TEST_UUID.to_string()
        })
    );
}

#[test]
fn submission_response_not_categorized() {
    // We don't need to react to our own response files
    let path = "/pool/submissions/abc123.response.json".to_string();
    assert_eq!(
        found(&path, file_written()),
        None
    );
}

#[test]
fn submission_other_file_not_categorized() {
    let path = "/pool/submissions/abc123.metadata.json".to_string();
    assert_eq!(
        found(&path, file_written()),
        None
    );
}

#[test]
fn submission_nested_file_not_categorized() {
    // Subdirectories under submissions are not categorized
    let path = "/pool/submissions/abc123/task.json".to_string();
    assert_eq!(
        found(&path, file_written()),
        None
    );
}

#[test]
fn unrelated_path() {
    let path = "/other/path".to_string();
    assert_eq!(
        found(&path, file_written()),
        None
    );
}

#[test]
fn agents_dir_itself_not_categorized() {
    let path = "/pool/agents".to_string();
    assert_eq!(
        found(&path, file_written()),
        None
    );
}

#[test]
fn submissions_dir_itself_not_categorized() {
    let path = "/pool/submissions".to_string();
    assert_eq!(
        found(&path, file_written()),
        None
    );
}

#[test]
fn sibling_of_agents_not_categorized() {
    let path = "/pool/logs/something".to_string();
    assert_eq!(
        found(&path, file_written()),
        None
    );
}

#[test]
fn relative_path_does_not_match_absolute() {
    let path = "agents/abc123.ready.json".to_string();
    assert_eq!(
        found(&path, file_written()),
        None
    );
}

#[test]
fn different_root_does_not_match() {
    let path = "/other/pool/agents/abc123.ready.json".to_string();
    assert_eq!(
        found(&path, file_written()),
        None
    );
}

fn status(path: &str, text: Option<&str>) -> Option<PathCategory> {
    categorize(
        path,
        file_written(),
        Platform::Linux,
        "/pool",
        "/pool/agents",
        "/pool/submissions",
        text,
    )
}

#[test]
fn status_file_that_says_stop_is_a_stop() {
    assert_eq!(
        status("/pool/status", Some("stop")),
        Some(PathCategory::Stop)
    );
    assert_eq!(
        status("/pool//status", Some(" stop\n")),
        Some(PathCategory::Stop)
    );
    assert_eq!(status("/pool/status", Some("ready")), None);
    assert_eq!(status("/pool/status", None), None);
    assert_eq!(status("/pool/other", Some("stop")), None);
}

#[test]
fn systems_differ_in_what_a_whole_file_is() {
    let closed = file_written();
    let created = EventKind::Create(CreateKind::File);
    let renamed = EventKind::Modify(ModifyKind::Name);
    let changed = EventKind::Modify(ModifyKind::Data);
    assert!(is_write_complete(closed, Platform::Linux));
    assert!(!is_write_complete(created, Platform::Linux));
    assert!(!is_write_complete(changed, Platform::Linux));
    assert!(is_write_complete(renamed, Platform::Linux));
    assert!(!is_write_complete(closed, Platform::MacOs));
    assert!(is_write_complete(created, Platform::MacOs));
    assert!(is_write_complete(changed, Platform::MacOs));
    assert!(is_write_complete(renamed, Platform::MacOs));
    for kind in [closed, created, renamed, changed] {
        assert!(is_write_complete(kind, Platform::Other));
    }
    for kind in [
        EventKind::Any,
        EventKind::Remove,
        EventKind::Other,
        folder_created(),
        EventKind::Modify(ModifyKind::Metadata),
        EventKind::Access(AccessKind::Open(AccessMode::Write)),
        EventKind::Access(AccessKind::Close(AccessMode::Read)),
    ] {
        for platform in [Platform::Linux, Platform::MacOs, Platform::Other] {
            assert!(!is_write_complete(kind, platform));
        }
    }
}

#[test]
fn paths_are_compared_by_their_components() {
    assert_eq!(
        found("/pool/./agents//u1.ready.json", file_written()),
        Some(PathCategory::WorkerReady {
            id: "u1".to_string()
        })
    );
}
