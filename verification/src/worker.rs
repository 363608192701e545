//! The worker's side: asking for a task, and answering it.
use crate::constants::{
    AGENTS_DIR, READY_SUFFIX, TASK_SUFFIX, WORKER_RESPONSE_SUFFIX, ready_path, response_path,
    task_path,
};
use crate::ids::{fresh_uuid, is_uuid};
use crate::path::{join, joined};
use crate::text::concat3;
use crate::watcher::PlainWrite;
use vstd::prelude::*;

verus! {

/// A task that a worker was given.
#[derive(Debug, Clone, PartialEq, Eq)]
pub struct TaskAssignment {
    /// The UUID under which the worker asked, and under which it answers.
    pub uuid: String,
    /// The task, as the daemon wrote it.
    pub content: String,
}

/// How a worker asks for a task.
#[derive(Debug, Clone, PartialEq, Eq)]
pub struct TaskRequest {
    /// The UUID under which the worker asks.
    pub uuid: String,
    /// The ready file.
    pub ready: PlainWrite,
    /// The task file to wait for. Where the wait fails, the ready file is removed.
    pub task_path: String,
    /// What is said, before the cause, when the task file cannot be read.
    pub read_error: String,
}

/// What a ready file says: the worker's name, if it has one.
pub open spec fn ready_text(name: Option<Seq<char>>) -> Seq<char> {
    match name {
        Some(name) => "{\"name\":\""@ + name + "\"}"@,
        None => "{}"@,
    }
}

/// Whether a worker asks so, under a UUID, in the pool at `pool_root`.
pub open spec fn asks(
    request: TaskRequest,
    pool_root: Seq<char>,
    name: Option<Seq<char>>,
    uuid: Seq<char>,
) -> bool {
    let agents_dir = joined(pool_root, AGENTS_DIR@);
    &&& request.uuid@ == uuid
    &&& request.ready.path@ == joined(agents_dir, uuid + READY_SUFFIX@)
    &&& request.ready.content@ == ready_text(name)
    &&& request.ready.write_error@ == "[E058] failed to write ready file "@ + request.ready.path@
        + ": "@
    &&& request.task_path@ == joined(agents_dir, uuid + TASK_SUFFIX@)
    &&& request.read_error@ == "[E059] failed to read task file "@ + request.task_path@ + ": "@
}

/// The text that `name` points to.
pub open spec fn name_text(name: Option<&str>) -> Option<Seq<char>> {
    match name {
        Some(name) => Some(name@),
        None => None,
    }
}

/// How a worker asks for a task under a UUID.
pub fn task_request(pool_root: &str, name: Option<&str>, uuid: &str) -> (r: TaskRequest)
    ensures
        asks(r, pool_root@, name_text(name), uuid@),
{
    let agents_dir = join(pool_root, AGENTS_DIR);
    let ready = ready_path(&agents_dir, uuid);
    let task = task_path(&agents_dir, uuid);
    let metadata = match name {
        Some(name) => concat3("{\"name\":\"", name, "\"}"),
        None => "{}".to_owned(),
    };
    TaskRequest {
        uuid: uuid.to_owned(),
        ready: PlainWrite {
            path: ready.clone(),
            content: metadata,
            write_error: concat3("[E058] failed to write ready file ", &ready, ": "),
        },
        task_path: task.clone(),
        read_error: concat3("[E059] failed to read task file ", &task, ": "),
    }
}

/// How a worker asks for a task under a fresh UUID.
pub fn wait_for_task(pool_root: &str, name: Option<&str>) -> (r: TaskRequest)
    ensures
        exists|uuid: Seq<char>|
            is_uuid(uuid) && #[trigger] asks(r, pool_root@, name_text(name), uuid),
{
    let uuid = fresh_uuid();
    task_request(pool_root, name, &uuid)
}

/// How a worker answers.
pub fn write_response(pool_root: &str, uuid: &str, content: &str) -> (r: PlainWrite)
    ensures
        r.path@ == joined(joined(pool_root@, AGENTS_DIR@), uuid@ + WORKER_RESPONSE_SUFFIX@),
        r.content@ == content@,
        r.write_error@ == "[E060] failed to write response file "@ + r.path@ + ": "@,
{
    let path = response_path(&join(pool_root, AGENTS_DIR), uuid);
    let write_error = concat3("[E060] failed to write response file ", &path, ": ");
    PlainWrite { path, content: content.to_owned(), write_error }
}

} // verus!
