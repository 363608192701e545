//! The agent's side: waiting until a task is there.
use crate::constants::{RESPONSE_FILE, TASK_FILE};
use crate::decimal::{decimal, format_unsigned};
use crate::error::{ErrorKind, PoolError};
use crate::fs_events::{AccessKind, AccessMode, EventKind, Platform, is_write_complete, write_complete};
use crate::path::{join, joined};
use crate::text::concat2;
use crate::transport::{Transport, dir_of};
use vstd::prelude::*;

verus! {

/// What an agent hears of its directory.
#[derive(Debug, Clone, PartialEq, Eq)]
pub enum AgentEvent {
    /// A file changed.
    FileChanged,
    /// The watch reports an error, in these words.
    WatchError(String),
}

/// What came of listening.
#[derive(Debug, Clone, PartialEq, Eq)]
pub enum Received {
    /// An event.
    Event(AgentEvent),
    /// Nothing in time.
    TimedOut,
    /// Nothing can come any more.
    Closed,
}

/// Whether a watch on a tree of directories tells its agent of an event: where a file was
/// written whole.
pub fn tells_agent(kind: EventKind, platform: Platform) -> (r: bool)
    ensures
        r == write_complete(kind, platform),
{
    is_write_complete(kind, platform)
}

/// Whether a watch on one directory tells its agent of an event: where a file that was open
/// for writing was closed. Others may come before the content is written.
pub fn tells_agent_of_close(kind: EventKind) -> (r: bool)
    ensures
        r == (kind == EventKind::Access(AccessKind::Close(AccessMode::Write))),
{
    matches!(kind, EventKind::Access(AccessKind::Close(AccessMode::Write)))
}

/// The task file and the answer file of a transport; a socket has none.
pub fn task_files(transport: &Transport) -> (r: Option<(String, String)>)
    ensures
        match r {
            Some(files) => dir_of(transport@) matches Some(dir) && files.0@ == joined(dir, TASK_FILE@)
                && files.1@ == joined(dir, RESPONSE_FILE@),
            None => dir_of(transport@) is None,
        },
{
    match transport.path() {
        Some(dir) => Some((join(dir, TASK_FILE), join(dir, RESPONSE_FILE))),
        None => None,
    }
}

/// Whether a task is ready: its file is there, and the answer is not. On a socket it never
/// is, for there one waits by reading.
pub fn is_task_ready(transport: &Transport, task_exists: bool, response_exists: bool) -> (r: bool)
    ensures
        r == (dir_of(transport@) is Some && task_exists && !response_exists),
{
    match transport.path() {
        Some(dir) => task_exists && !response_exists,
        None => false,
    }
}

/// What a wait for a task comes to.
#[derive(Debug, Clone, PartialEq, Eq)]
pub enum TaskWait {
    /// A task is ready.
    Ready,
    /// Time is up, and no task is ready.
    NotReady,
    /// Listen on.
    Listen,
    /// The watch failed.
    Failed(PoolError),
}

/// What to do after listening in a wait for a task, where `ready` says whether one is ready
/// now.
pub fn wait_for_task(received: &Received, ready: bool) -> (r: TaskWait)
    ensures
        match received {
            Received::Event(AgentEvent::FileChanged) => r == if ready {
                TaskWait::Ready
            } else {
                TaskWait::Listen
            },
            Received::Event(AgentEvent::WatchError(text)) => r matches TaskWait::Failed(error)
                && error.says(ErrorKind::Other, text@),
            Received::TimedOut => r == TaskWait::NotReady,
            Received::Closed => r matches TaskWait::Failed(error) && error.says(
                ErrorKind::BrokenPipe,
                "watcher channel closed"@,
            ),
        },
{
    match received {
        Received::Event(AgentEvent::FileChanged) => {
            if ready {
                TaskWait::Ready
            } else {
                TaskWait::Listen
            }
        },
        Received::Event(AgentEvent::WatchError(text)) => TaskWait::Failed(
            PoolError::new(ErrorKind::Other, text),
        ),
        Received::TimedOut => TaskWait::NotReady,
        Received::Closed => TaskWait::Failed(
            PoolError::new(ErrorKind::BrokenPipe, "watcher channel closed"),
        ),
    }
}

/// What to do while it is made sure that a watch works.
#[derive(Debug, Clone, PartialEq, Eq)]
pub enum SyncStep {
    /// The watch works; remove the canary.
    Verified,
    /// The watch does not work; remove the canary.
    Failed(PoolError),
    /// Write this to the canary and listen on.
    Rewrite(String),
}

/// What the canary holds at first.
pub const CANARY_START: &'static str = "sync";

/// The name of the canary.
pub const CANARY_FILE: &'static str = "canary";

/// Makes sure that a watch works: how often the canary was rewritten.
#[derive(Debug, Clone, PartialEq, Eq)]
pub struct WatchSync {
    /// How often the canary was rewritten.
    pub retry_count: u32,
}

impl WatchSync {
    /// The canary was not rewritten yet.
    pub fn new() -> (r: WatchSync)
        ensures
            r.retry_count == 0,
    {
        WatchSync { retry_count: 0 }
    }

    /// What to do after listening. `overdue` says whether time is up.
    pub fn verify_watcher_sync(&mut self, received: &Received, overdue: bool) -> (r: SyncStep)
        requires
            old(self).retry_count < u32::MAX,
        ensures
            match received {
                Received::Event(AgentEvent::FileChanged) => r == SyncStep::Verified,
                Received::Event(AgentEvent::WatchError(text)) => r matches SyncStep::Failed(error)
                    && error.says(ErrorKind::Other, "watcher error during sync: "@ + text@),
                Received::TimedOut => if overdue {
                    r matches SyncStep::Failed(error) && error.says(
                        ErrorKind::TimedOut,
                        "watcher sync timed out - no events received"@,
                    )
                } else {
                    r matches SyncStep::Rewrite(content) && content@ == decimal(
                        (old(self).retry_count + 1) as nat,
                    )
                },
                Received::Closed => r matches SyncStep::Failed(error) && error.says(
                    ErrorKind::BrokenPipe,
                    "watcher channel disconnected during sync"@,
                ),
            },
            final(self).retry_count == if r is Rewrite {
                old(self).retry_count + 1
            } else {
                old(self).retry_count as int
            },
    {
        match received {
            Received::Event(AgentEvent::FileChanged) => SyncStep::Verified,
            Received::Event(AgentEvent::WatchError(text)) => SyncStep::Failed(
                PoolError {
                    kind: ErrorKind::Other,
                    message: concat2("watcher error during sync: ", text),
                },
            ),
            Received::TimedOut => {
                if overdue {
                    SyncStep::Failed(
                        PoolError::new(
                            ErrorKind::TimedOut,
                            "watcher sync timed out - no events received",
                        ),
                    )
                } else {
                    self.retry_count = self.retry_count + 1;
                    SyncStep::Rewrite(format_unsigned(self.retry_count as u64))
                }
            },
            Received::Closed => SyncStep::Failed(
                PoolError::new(ErrorKind::BrokenPipe, "watcher channel disconnected during sync"),
            ),
        }
    }
}

} // verus!
