//! The names of the agent pool protocol: directories, files and suffixes.
use crate::path::{join, joined};
use crate::text::concat2;
use vstd::prelude::*;

verus! {

/// Directory of the workers' files.
pub const AGENTS_DIR: &'static str = "agents";

/// Directory of the submissions' files.
pub const SUBMISSIONS_DIR: &'static str = "submissions";

/// Directory of temporary files, which nobody watches.
pub const SCRATCH_DIR: &'static str = "scratch";

/// The lock file that lets only one daemon run.
pub const LOCK_FILE: &'static str = "daemon.lock";

/// The socket's name.
pub const SOCKET_NAME: &'static str = "daemon.sock";

/// The file that holds a task.
pub const TASK_FILE: &'static str = "task.json";

/// The file that holds a worker's answer.
pub const RESPONSE_FILE: &'static str = "response.json";

/// The file by which a worker reports ready.
pub const READY_FILE: &'static str = "ready.json";

/// How the name of a request ends.
pub const REQUEST_SUFFIX: &'static str = ".request.json";

/// How the name of the answer to a request ends.
pub const RESPONSE_SUFFIX: &'static str = ".response.json";

/// The file by which the daemon says that it is ready, and by which it is stopped.
pub const STATUS_FILE: &'static str = "status";

/// What the status file says while the daemon accepts tasks.
pub const STATUS_READY: &'static str = "ready";

/// What the status file begins with to stop the daemon. More may follow, such as
/// `stop|pid:123`.
pub const STATUS_STOP: &'static str = "stop";

/// How the name of a worker's ready file ends.
pub const READY_SUFFIX: &'static str = ".ready.json";

/// How the name of a worker's task file ends.
pub const TASK_SUFFIX: &'static str = ".task.json";

/// How the name of a worker's answer ends.
pub const WORKER_RESPONSE_SUFFIX: &'static str = ".response.json";

/// The path of a worker's ready file.
pub fn ready_path(agents_dir: &str, uuid: &str) -> (r: String)
    ensures
        r@ == joined(agents_dir@, uuid@ + READY_SUFFIX@),
{
    join(agents_dir, &concat2(uuid, READY_SUFFIX))
}

/// The path of a worker's task file.
pub fn task_path(agents_dir: &str, uuid: &str) -> (r: String)
    ensures
        r@ == joined(agents_dir@, uuid@ + TASK_SUFFIX@),
{
    join(agents_dir, &concat2(uuid, TASK_SUFFIX))
}

/// The path of a worker's answer.
pub fn response_path(agents_dir: &str, uuid: &str) -> (r: String)
    ensures
        r@ == joined(agents_dir@, uuid@ + WORKER_RESPONSE_SUFFIX@),
{
    join(agents_dir, &concat2(uuid, WORKER_RESPONSE_SUFFIX))
}

} // verus!
