//! How the pool of agents with directories is run: what changes in the directories mean, and
//! what is done in which order.
use super::polling::{
    after_completion, busy_agents, completes, relative, with_agent, without_agent, Completion,
    Output, PoolState, ReplyTo, ResponseTarget, Roster, Task, SCAN_INTERVAL_MS,
};
use super::wiring::accept_socket_task;
use crate::constants::RESPONSE_FILE;
use crate::error::{ErrorKind, PoolError};
use crate::framing::{frame, framed, message_in, FrameError};
use crate::fs_events::EventKind;
use crate::path::{components, parts};
use crate::text::{concat2, concat3, same, texts};
use crate::time::Duration;
use vstd::prelude::*;

verus! {

/// What follows below a directory, if the path lies there.
fn relative_names(path: &str, dir: &str) -> (r: Option<Vec<String>>)
    ensures
        match r {
            Some(names) => relative(parts(path@), parts(dir@)) == Some(texts(names@)),
            None => relative(parts(path@), parts(dir@)) is None,
        },
{
    let whole = components(path);
    let outer = components(dir);
    let ghost all = texts(whole.names@);
    let ghost front = texts(outer.names@);
    if whole.absolute != outer.absolute || whole.names.len() < outer.names.len() {
        return None;
    }
    let mut i: usize = 0;
    while i < outer.names.len()
        invariant
            i <= outer.names@.len() <= whole.names@.len(),
            all == texts(whole.names@),
            front == texts(outer.names@),
            parts(path@) == whole@,
            parts(dir@) == outer@,
            forall|k: int| 0 <= k < i ==> all[k] == front[k],
        decreases outer.names@.len() - i,
    {
        if !same(&whole.names[i], &outer.names[i]) {
            assert(all.take(front.len() as int)[i as int] != front[i as int]);
            return None;
        }
        i += 1;
    }
    assert(all.take(front.len() as int) =~= front);
    let mut names: Vec<String> = Vec::new();
    let mut k: usize = outer.names.len();
    assert(texts(names@) =~= all.subrange(front.len() as int, k as int));
    while k < whole.names.len()
        invariant
            front.len() <= k <= whole.names@.len(),
            all == texts(whole.names@),
            texts(names@) == all.subrange(front.len() as int, k as int),
        decreases whole.names@.len() - k,
    {
        let ghost so_far = texts(names@);
        names.push(whole.names[k].clone());
        assert(texts(names@) =~= so_far.push(all[k as int]));
        assert(so_far.push(all[k as int]) =~= all.subrange(front.len() as int, k + 1));
        k += 1;
    }
    assert(all.subrange(front.len() as int, k as int) =~= all.skip(front.len() as int));
    Some(names)
}

/// What was seen of a path that changed.
#[derive(Debug, PartialEq, Eq)]
pub struct SeenPath {
    /// The path.
    pub path: String,
    /// Whether the agent's directory that it lies in, or is, is there.
    pub agent_dir_exists: bool,
    /// Whether the path is there.
    pub exists: bool,
    /// What came of reading it, where it is an agent's answer.
    pub output: Output,
}

/// Whether a change means that a file may have been written.
pub open spec fn wrote(kind: EventKind) -> bool {
    kind is Create || kind is Modify
}

/// Whether a change means that an agent's answer is there.
pub open spec fn brings_answer(names: Seq<Seq<char>>, kind: EventKind, seen: SeenPath) -> bool {
    names.len() == 2 && names[1] == RESPONSE_FILE@ && wrote(kind) && seen.exists
}

/// The pool when it has heard of an agent through a change below the agents' directory: an
/// agent whose directory was removed goes, and one whose directory is there is taken in.
pub open spec fn after_hearing(
    pool: Roster,
    names: Seq<Seq<char>>,
    kind: EventKind,
    seen: SeenPath,
) -> Roster {
    if names.len() == 1 && kind is Remove {
        Roster { agents: without_agent(pool.agents, names[0]), ..pool }
    } else if (names.len() == 1 || names.len() == 2) && seen.agent_dir_exists {
        Roster { agents: with_agent(pool.agents, names[0]), ..pool }
    } else {
        pool
    }
}

/// The pool after a change.
pub open spec fn after_event(pool: Roster, kind: EventKind, seen: SeenPath) -> Roster {
    match relative(parts(seen.path@), parts(pool.agents_dir)) {
        Some(names) => {
            let heard = after_hearing(pool, names, kind, seen);
            if brings_answer(names, kind, seen) {
                after_completion(heard, names[0], seen.output)
            } else {
                heard
            }
        },
        None => pool,
    }
}

impl PoolState {
    /// Takes notice of a change.
    pub fn handle_fs_event(&mut self, kind: EventKind, seen: SeenPath) -> (r: Completion)
        requires
            old(self).well_formed(),
        ensures
            final(self).well_formed(),
            final(self)@ == after_event(old(self)@, kind, seen),
            match relative(parts(seen.path@), parts(old(self)@.agents_dir)) {
                Some(names) => if brings_answer(names, kind, seen) {
                    completes(
                        after_hearing(old(self)@, names, kind, seen),
                        names[0],
                        seen.path@,
                        seen.output,
                        r,
                    )
                } else {
                    r is Nothing
                },
                None => r is Nothing,
            },
    {
        let names = match relative_names(&seen.path, &self.agents_dir) {
            Some(names) => names,
            None => {
                return Completion::Nothing;
            },
        };
        let removed = matches!(kind, EventKind::Remove);
        let written = matches!(kind, EventKind::Create(_) | EventKind::Modify(_));
        if names.len() == 1 {
            if removed {
                self.unregister(&names[0]);
            } else if seen.agent_dir_exists {
                self.register(&names[0]);
            }
            Completion::Nothing
        } else if names.len() == 2 {
            if seen.agent_dir_exists {
                self.register(&names[0]);
            }
            if same(&names[1], RESPONSE_FILE) && written && seen.exists {
                self.complete_task(&names[0], &seen.path, seen.output)
            } else {
                Completion::Nothing
            }
        } else {
            Completion::Nothing
        }
    }
}

/// What the pool is asked from outside.
#[derive(Debug, Clone, Copy, PartialEq, Eq, Structural)]
pub struct DaemonSignals {
    /// Whether it is to stop.
    pub shutdown: bool,
    /// Whether it is to give out no tasks for now.
    pub paused: bool,
}

impl DaemonSignals {
    /// Nothing is asked.
    pub fn new() -> (r: DaemonSignals)
        ensures
            r == (DaemonSignals { shutdown: false, paused: false }),
    {
        DaemonSignals { shutdown: false, paused: false }
    }

    /// Asks the pool to stop.
    pub fn trigger_shutdown(&mut self)
        ensures
            *final(self) == (DaemonSignals { shutdown: true, ..*old(self) }),
    {
        self.shutdown = true;
    }

    /// Asks the pool to give out no tasks for now, or to give them out again.
    pub fn set_paused(&mut self, paused: bool)
        ensures
            *final(self) == (DaemonSignals { paused, ..*old(self) }),
    {
        self.paused = paused;
    }
}

/// What the pool does, one after the other.
#[derive(Debug, Clone, Copy, PartialEq, Eq, Structural)]
pub enum LoopStep {
    /// Begin a round.
    Begin,
    /// See whether a task came by a connection.
    Accept,
    /// Listen for changes.
    Listen,
    /// Look through the directories.
    Scan,
    /// Give out the tasks that wait.
    Dispatch,
    /// Wait for the tasks that are out, and stop.
    Drain,
}

/// What comes after a step: `since_scan` is how long ago the directories were looked through.
pub open spec fn step_after(done: LoopStep, signals: DaemonSignals, since_scan: Duration) -> LoopStep {
    let last = if signals.paused {
        LoopStep::Begin
    } else {
        LoopStep::Dispatch
    };
    match done {
        LoopStep::Begin => if signals.shutdown {
            LoopStep::Drain
        } else {
            LoopStep::Accept
        },
        LoopStep::Accept => LoopStep::Listen,
        LoopStep::Listen => if since_scan.millis >= SCAN_INTERVAL_MS {
            LoopStep::Scan
        } else {
            last
        },
        LoopStep::Scan => last,
        LoopStep::Dispatch => LoopStep::Begin,
        LoopStep::Drain => LoopStep::Drain,
    }
}

/// What comes after a step: `since_scan` is how long ago the directories were looked through.
pub fn next_step(done: LoopStep, signals: DaemonSignals, since_scan: Duration) -> (r: LoopStep)
    ensures
        r == step_after(done, signals, since_scan),
{
    let last = if signals.paused {
        LoopStep::Begin
    } else {
        LoopStep::Dispatch
    };
    match done {
        LoopStep::Begin => {
            if signals.shutdown {
                LoopStep::Drain
            } else {
                LoopStep::Accept
            }
        },
        LoopStep::Accept => LoopStep::Listen,
        LoopStep::Listen => {
            if since_scan.millis >= SCAN_INTERVAL_MS as u128 {
                LoopStep::Scan
            } else {
                last
            }
        },
        LoopStep::Scan => last,
        LoopStep::Dispatch => LoopStep::Begin,
        LoopStep::Drain => LoopStep::Drain,
    }
}

/// While the pool is paused no task is given out.
pub proof fn law_paused_gives_out_nothing(done: LoopStep, signals: DaemonSignals, since_scan: Duration)
    requires
        signals.paused,
    ensures
        !(step_after(done, signals, since_scan) is Dispatch),
{
}

/// The steps of a round, where the signals stay as they are.
pub open spec fn rounds(
    done: LoopStep,
    signals: DaemonSignals,
    since_scan: Seq<Duration>,
) -> LoopStep
    decreases since_scan.len(),
{
    if since_scan.len() == 0 {
        done
    } else {
        step_after(
            rounds(done, signals, since_scan.drop_last()),
            signals,
            since_scan.last(),
        )
    }
}

/// A pool that is asked to stop begins to wait for the tasks that are out at the end of the
/// round at the latest, and stays at it.
pub proof fn law_shutdown_drains(done: LoopStep, signals: DaemonSignals, since_scan: Seq<Duration>)
    requires
        signals.shutdown,
        since_scan.len() >= 6,
    ensures
        rounds(done, signals, since_scan) is Drain,
    decreases since_scan.len(),
{
    let s = since_scan;
    if s.len() == 6 {
        reveal_with_fuel(rounds, 7);
    } else {
        law_shutdown_drains(done, signals, s.drop_last());
    }
}

/// What was last done while the pool waits for the tasks that are out.
#[derive(Debug, Clone, Copy, PartialEq, Eq, Structural)]
pub enum DrainHeard {
    /// A change was taken notice of, or the answers were looked for, or nothing yet.
    Handled,
    /// No change came for a while.
    TimedOut,
    /// No change can come any more.
    Disconnected,
}

/// What is done next while the pool waits for the tasks that are out.
#[derive(Debug, Clone, Copy, PartialEq, Eq, Structural)]
pub enum DrainStep {
    /// Listen for changes.
    Listen,
    /// Look for answers that were not reported.
    ScanOutputs,
    /// Stop.
    Finish,
}

impl PoolState {
    /// What is done next while the pool waits for the tasks that are out: it ends where none
    /// is out, or where no change can come any more.
    pub fn drain_step(&self, heard: DrainHeard) -> (r: DrainStep)
        ensures
            r == match heard {
                DrainHeard::Handled => if busy_agents(self@.agents) > 0 {
                    DrainStep::Listen
                } else {
                    DrainStep::Finish
                },
                DrainHeard::TimedOut => DrainStep::ScanOutputs,
                DrainHeard::Disconnected => DrainStep::Finish,
            },
    {
        match heard {
            DrainHeard::Handled => {
                if self.in_flight_count() > 0 {
                    DrainStep::Listen
                } else {
                    DrainStep::Finish
                }
            },
            DrainHeard::TimedOut => DrainStep::ScanOutputs,
            DrainHeard::Disconnected => DrainStep::Finish,
        }
    }
}

/// The task that came by a connection, if what came is one.
pub fn read_task(connection: u64, bytes: &Vec<u8>) -> (r: Result<Option<Task>, PoolError>)
    ensures
        match message_in(bytes@) {
            Ok(content) => r matches Ok(Some(task)) && task.content@ == content && task.respond_to
                == ResponseTarget::Socket(connection),
            Err(FrameError::BadLength) => r == Ok::<Option<Task>, PoolError>(None),
            Err(FrameError::NotText) => r == Ok::<Option<Task>, PoolError>(None),
            Err(FrameError::LineNotText) => r matches Err(error) && error.says(
                ErrorKind::InvalidData,
                "stream did not contain valid UTF-8"@,
            ),
            Err(FrameError::Short) => r matches Err(error) && error.says(
                ErrorKind::UnexpectedEof,
                "failed to fill whole buffer"@,
            ),
        },
{
    match accept_socket_task(bytes) {
        Ok(Some(content)) => Ok(
            Some(Task { content, respond_to: ResponseTarget::Socket(connection) }),
        ),
        Ok(None) => Ok(None),
        Err(error) => Err(error),
    }
}

/// How an answer is sent.
#[derive(Debug, PartialEq, Eq)]
pub enum Reply {
    /// These bytes go to the connection with this number.
    Send {
        /// The connection.
        connection: u64,
        /// The bytes.
        bytes: Vec<u8>,
    },
    /// This is written to a file.
    Write {
        /// The file.
        path: String,
        /// What is written.
        content: String,
    },
    /// Not at all: whoever waited for it is gone.
    Drop,
}

/// How an answer, as JSON, is sent: to a connection with its length before it, or into a file,
/// if the directory of that file is still there.
pub fn send_response(target: ResponseTarget, json: &str, parent_exists: bool) -> (r: Reply)
    ensures
        match target@ {
            ReplyTo::Socket(number) => r matches Reply::Send { connection, bytes } && connection
                == number && bytes@ == framed(json@),
            ReplyTo::File(file) => if parent_exists {
                r matches Reply::Write { path, content } && path@ == file && content@ == json@
            } else {
                r is Drop
            },
        },
{
    match target {
        ResponseTarget::Socket(connection) => Reply::Send { connection, bytes: frame(json) },
        ResponseTarget::File(path) => {
            if parent_exists {
                Reply::Write { path, content: json.to_owned() }
            } else {
                Reply::Drop
            }
        },
    }
}

/// What went wrong in a round.
#[derive(Debug, Clone, PartialEq, Eq)]
pub enum LoopFault {
    /// Accepting a connection.
    Accept,
    /// Taking notice of a change.
    Event,
    /// Looking for agents.
    ScanAgents,
    /// Looking for answers.
    ScanOutputs,
    /// Looking for tasks.
    ScanPending,
    /// Giving out tasks.
    Dispatch,
    /// Seeing whether this answer is there.
    Check(String),
    /// Taking the answer of this agent.
    Complete(String),
    /// Writing the answer to this file.
    Respond(String),
}

/// What is said before the cause of a fault.
pub open spec fn fault_text(fault: LoopFault) -> Seq<char> {
    match fault {
        LoopFault::Accept => "socket accept failed: "@,
        LoopFault::Event => "fs event handling failed: "@,
        LoopFault::ScanAgents => "scan_agents failed: "@,
        LoopFault::ScanOutputs => "scan_outputs failed: "@,
        LoopFault::ScanPending => "scan_pending failed: "@,
        LoopFault::Dispatch => "dispatch_pending failed: "@,
        LoopFault::Check(path) => "failed to check response file "@ + path@ + ": "@,
        LoopFault::Complete(agent) => "complete_task for "@ + agent@ + " failed: "@,
        LoopFault::Respond(path) => "failed to write response to "@ + path@ + ": "@,
    }
}

/// The error that a fault is reported as: of the kind of its cause, with a word on where it came
/// from before it.
pub fn loop_fault(fault: LoopFault, cause: &PoolError) -> (r: PoolError)
    ensures
        r.says(cause.kind, fault_text(fault) + cause.message@),
{
    let place = match fault {
        LoopFault::Accept => "socket accept failed: ".to_owned(),
        LoopFault::Event => "fs event handling failed: ".to_owned(),
        LoopFault::ScanAgents => "scan_agents failed: ".to_owned(),
        LoopFault::ScanOutputs => "scan_outputs failed: ".to_owned(),
        LoopFault::ScanPending => "scan_pending failed: ".to_owned(),
        LoopFault::Dispatch => "dispatch_pending failed: ".to_owned(),
        LoopFault::Check(path) => concat3("failed to check response file ", &path, ": "),
        LoopFault::Complete(agent) => concat3("complete_task for ", &agent, " failed: "),
        LoopFault::Respond(path) => concat3("failed to write response to ", &path, ": "),
    };
    PoolError { kind: cause.kind, message: concat2(&place, &cause.message) }
}

} // verus!
