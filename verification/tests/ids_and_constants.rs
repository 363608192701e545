use agent_pool::constants::{
    ready_path, response_path, task_path, AGENTS_DIR, LOCK_FILE, RESPONSE_FILE, SCRATCH_DIR,
    SOCKET_NAME, STATUS_FILE, SUBMISSIONS_DIR, TASK_FILE,
};
use agent_pool::submit::{PENDING_DIR, PENDING_RESPONSE_FILE, PENDING_TASK_FILE};
use agent_pool::types::{AgentId, PoolId};

#[test]
fn submit_file_submissions_dir_constant() {
    assert_eq!(SUBMISSIONS_DIR, "submissions");
}

#[test]
fn file_submissions_dir_constant() {
    assert_eq!(SUBMISSIONS_DIR, "submissions");
}

#[test]
fn pending_dir_constant() {
    assert_eq!(PENDING_DIR, "pending");
}

#[test]
fn pending_files_have_the_protocols_names() {
    assert_eq!(PENDING_TASK_FILE, "task.json");
    assert_eq!(PENDING_RESPONSE_FILE, "response.json");
}

#[test]
fn directories_and_files_have_the_protocols_names() {
    assert_eq!(AGENTS_DIR, "agents");
    assert_eq!(SCRATCH_DIR, "scratch");
    assert_eq!(LOCK_FILE, "daemon.lock");
    assert_eq!(SOCKET_NAME, "daemon.sock");
    assert_eq!(TASK_FILE, "task.json");
    assert_eq!(RESPONSE_FILE, "response.json");
    assert_eq!(STATUS_FILE, "status");
}

#[test]
fn worker_files_lie_beside_each_other() {
    assert_eq!(ready_path("/p/agents", "u1"), "/p/agents/u1.ready.json");
    assert_eq!(task_path("/p/agents/", "u1"), "/p/agents/u1.task.json");
    assert_eq!(response_path("agents", "u1"), "agents/u1.response.json");
}

#[test]
fn agent_id_equality() {
    let id = AgentId::new("agent-1");
    assert_eq!(id, "agent-1");
    assert_eq!(id.as_str(), "agent-1");
}

#[test]
fn pool_id_equality() {
    let id = PoolId::new("abc12345");
    assert_eq!(id, "abc12345");
    assert_eq!(id.as_str(), "abc12345");
}

#[test]
fn ids_are_distinct_types() {
    let agent = AgentId::new("test");
    let pool = PoolId::new("test");
    assert_eq!(agent.as_str(), pool.as_str());
}

#[test]
fn ids_compare_with_texts_and_each_other() {
    let id = AgentId::from("a".to_string());
    assert_eq!(id, AgentId::new("a"));
    assert_ne!(id, AgentId::new("b"));
    assert_ne!(id, "b");
    assert_eq!(id, "a".to_string());
    let pool = PoolId::from("p".to_string());
    assert_eq!(pool, PoolId::new("p"));
    assert_ne!(pool, PoolId::new("q"));
    assert_eq!(pool, "p".to_string());
}
