//! What the daemon does for each effect of the state machine, written down as actions
//! on files, timers and answers.
use super::machine::{Effect, Event, SubmissionId, TaskId, WorkerId};
use super::transports::{Job, SubmissionData, SubmissionMap, Table, TransportMap, WorkerMap};
use crate::constants::{
    READY_FILE, READY_SUFFIX, REQUEST_SUFFIX, RESPONSE_FILE, RESPONSE_SUFFIX, TASK_FILE,
    TASK_SUFFIX, WORKER_RESPONSE_SUFFIX,
};
use crate::decimal::{decimal, format_unsigned};
use crate::error::{ErrorKind, PoolError};
use crate::framing::{frame, framed, message_in};
use crate::ids::{fresh_uuid, is_uuid};
use crate::json::{
    comes_before, compact, differ_first, json_member, json_parsed, json_quoted, keys_rise,
    member_texts, null_value, object_text, object_value, string_value, value_under,
};
use crate::path::{
    Parts, file_name, inner, join, joined, last_name, law_join_adds_one_component, outer, parent,
    parts, plain_name,
};
use crate::path_map::PathSet;
use crate::response::{NotProcessedReason, Reply, Response, text_under};
use crate::text::{before_suffix, concat2, concat3, strip_suffix};
use crate::time::Duration;
use crate::transport::{
    AtomicWrite, Transport, Way, WriteText, file_over, law_flat_files_are_the_protocols, write_over,
};
use std::collections::HashSet;
use vstd::prelude::*;

verus! {

broadcast use vstd::std_specs::hash::group_hash_axioms;

/// Whether the daemon is stopping. Timers look at it when they wake.
#[derive(Debug, Clone, Copy, PartialEq, Eq, Structural)]
pub struct StopNotifier {
    stopped: bool,
}

impl StopNotifier {
    /// Whether stop was signalled.
    pub closed spec fn signalled(self) -> bool {
        self.stopped
    }

    /// The daemon is not stopping.
    pub fn new() -> (r: StopNotifier)
        ensures
            !r.signalled(),
    {
        StopNotifier { stopped: false }
    }

    /// What a timer that wakes does, where `elapsed` says whether its time is over:
    /// `Some(true)` where stop was signalled before the wait or during it, `Some(false)`
    /// where the time is over without a stop, and nothing where it is to wait on.
    pub fn wait_timeout(&self, elapsed: bool) -> (r: Option<bool>)
        ensures
            r == if self.signalled() {
                Some(true)
            } else if elapsed {
                Some(false)
            } else {
                None
            },
    {
        if self.stopped {
            Some(true)
        } else if elapsed {
            Some(false)
        } else {
            None
        }
    }

    /// Signals stop.
    pub fn stop(&mut self)
        ensures
            final(self).signalled(),
    {
        self.stopped = true;
    }
}

/// What a task's timer sends when its wait is over: nothing where the daemon stops.
pub fn task_timer_event(stopped: bool, worker_id: WorkerId) -> (r: Option<Event>)
    ensures
        r == if stopped {
            None
        } else {
            Some(Event::WorkerTimedOut { worker_id })
        },
{
    if stopped {
        None
    } else {
        Some(Event::WorkerTimedOut { worker_id })
    }
}

/// What a worker's idle timer sends when its wait is over: nothing where the daemon stops.
pub fn idle_timer_event(stopped: bool, worker_id: WorkerId) -> (r: Option<Event>)
    ensures
        r == if stopped {
            None
        } else {
            Some(Event::AssignHeartbeatIfIdle { worker_id })
        },
{
    if stopped {
        None
    } else {
        Some(Event::AssignHeartbeatIfIdle { worker_id })
    }
}

/// The daemon's settings.
#[derive(Debug, Clone, Copy, PartialEq, Eq, Structural)]
pub struct IoConfig {
    /// How long a worker may be idle before it gets a heartbeat.
    pub idle_timeout: Duration,
    /// How long a worker has for a task that says nothing of its own.
    pub default_task_timeout: Duration,
    /// Whether idle workers get heartbeats.
    pub heartbeat_enabled: bool,
}

impl Default for IoConfig {
    /// Three minutes idle, five minutes for a task, with heartbeats.
    fn default() -> (r: IoConfig)
        ensures
            r.idle_timeout.millis == 180_000,
            r.default_task_timeout.millis == 300_000,
            r.heartbeat_enabled,
    {
        IoConfig {
            idle_timeout: Duration::from_secs(180),
            default_task_timeout: Duration::from_secs(300),
            heartbeat_enabled: true,
        }
    }
}

/// Gives submissions their numbers.
#[derive(Debug, Clone, PartialEq, Eq)]
pub struct IdAllocator {
    next_submission_id: u32,
}

impl View for IdAllocator {
    type V = u32;

    closed spec fn view(&self) -> u32 {
        self.next_submission_id
    }
}

impl IdAllocator {
    /// The first number is zero.
    pub fn new() -> (r: IdAllocator)
        ensures
            r@ == 0,
    {
        IdAllocator { next_submission_id: 0 }
    }

    /// Gives the next number; no number is given twice.
    pub fn allocate_submission(&mut self) -> (r: SubmissionId)
        requires
            old(self)@ < u32::MAX,
        ensures
            r == SubmissionId(old(self)@),
            final(self)@ == old(self)@ + 1,
    {
        let id = SubmissionId(self.next_submission_id);
        self.next_submission_id = self.next_submission_id + 1;
        id
    }

    /// How many numbers are left to be given.
    pub fn numbers_left(&self) -> (r: u32)
        ensures
            r == u32::MAX - self@,
    {
        u32::MAX - self.next_submission_id
    }
}

/// What is sent to a submitter.
#[derive(Debug, Clone, PartialEq, Eq)]
pub enum Delivery {
    /// A file beside the request.
    File(AtomicWrite),
    /// Bytes on a connection.
    Frame {
        /// The connection's number.
        connection: u64,
        /// The bytes.
        bytes: Vec<u8>,
    },
}

/// What a request's name holds before its suffix.
pub open spec fn request_id(request: Seq<char>) -> Option<Seq<char>> {
    match last_name(parts(request)) {
        Some(name) => before_suffix(name, REQUEST_SUFFIX@),
        None => None,
    }
}

/// Whether the write puts `response` beside the request, under the name of the answer.
pub open spec fn answers_request(
    write: WriteText,
    request: Seq<char>,
    response: Seq<char>,
    unique: Seq<char>,
) -> bool {
    let dir = outer(parts(request));
    &&& parts(write.target) == inner(dir, request_id(request)->0 + RESPONSE_SUFFIX@)
    &&& parts(write.temp) == inner(dir, ".response-"@ + unique + ".tmp"@)
    &&& write.content == response
    &&& write.write_error == "[E012] failed to write response temp file "@ + write.temp + ": "@
    &&& write.rename_error == "[E013] failed to rename response "@ + write.temp + " to "@
        + write.target + ": "@
}

/// How an answer is written beside its request.
fn plan_answer(request: &str, response: &str, unique: &str) -> (r: AtomicWrite)
    requires
        request_id(request@) is Some,
        !unique@.contains('/'),
    ensures
        answers_request(r@, request@, response@, unique@),
{
    let dir = match parent(request) {
        Some(dir) => dir,
        None => String::new(),
    };
    let name = match file_name(request) {
        Some(name) => name,
        None => String::new(),
    };
    let id = match strip_suffix(&name, REQUEST_SUFFIX) {
        Some(id) => id,
        None => String::new(),
    };
    let answer = concat2(&id, RESPONSE_SUFFIX);
    let hidden = concat3(".response-", unique, ".tmp");
    proof {
        lemma_answer_names(request@, id@, unique@);
        law_join_adds_one_component(dir@, answer@);
        law_join_adds_one_component(dir@, hidden@);
    }
    let target = join(&dir, &answer);
    let temp = join(&dir, &hidden);
    let write_error = concat3("[E012] failed to write response temp file ", &temp, ": ");
    let mut rename_error = concat3("[E013] failed to rename response ", &temp, " to ");
    rename_error.append(&target);
    rename_error.append(": ");
    AtomicWrite { temp, target, content: response.to_owned(), write_error, rename_error }
}

proof fn lemma_answer_names(request: Seq<char>, id: Seq<char>, unique: Seq<char>)
    requires
        request_id(request) == Some(id),
        !unique.contains('/'),
    ensures
        plain_name(id + RESPONSE_SUFFIX@),
        plain_name(".response-"@ + unique + ".tmp"@),
{
    reveal_strlit(".response.json");
    reveal_strlit(".response-");
    reveal_strlit(".tmp");
    let name = last_name(parts(request))->0;
    crate::path::lemma_names(request);
    assert(!name.contains('/'));
    let answer = id + RESPONSE_SUFFIX@;
    assert forall|i: int| 0 <= i < answer.len() implies answer[i] != '/' by {
        if i < id.len() {
            assert(id[i] == name[i]);
            assert(name.contains(name[i]));
        } else {
            assert(answer[i] == RESPONSE_SUFFIX@[i - id.len()]);
        }
    }
    assert(answer.len() > 1);
    assert(seq!['.'].len() == 1);
    let hidden = ".response-"@ + unique + ".tmp"@;
    assert forall|i: int| 0 <= i < hidden.len() implies hidden[i] != '/' by {
        if i < 10 {
            assert(hidden[i] == ".response-"@[i]);
        } else if i < 10 + unique.len() {
            assert(hidden[i] == unique[i - 10]);
            assert(unique.contains(unique[i - 10]));
        } else {
            assert(hidden[i] == ".tmp"@[i - 10 - unique.len()]);
        }
    }
}

/// What is sent for an answer, by the way to the submitter.
pub open spec fn delivers(
    delivery: Delivery,
    way: Way,
    response: Seq<char>,
    unique: Seq<char>,
) -> bool {
    match way {
        Way::Directory(request) => delivery matches Delivery::File(write) && answers_request(
            write@,
            request,
            response,
            unique,
        ),
        Way::Socket(number) => delivery matches Delivery::Frame { connection, bytes } && connection
            == number && bytes@ == framed(response),
        Way::FlatFile { dir, uuid } => false,
    }
}

/// Whether a way to a submitter is one that an answer can go by: where the submission was a
/// request file, that has the name of one.
pub open spec fn can_answer(submissions: Table<Job>, id: u32) -> bool {
    submissions.entries.contains_key(id) ==> match submissions.entries[id].0 {
        Way::Directory(request) => request_id(request) is Some,
        _ => true,
    }
}

impl TransportMap<SubmissionId> {
    /// Whether the answer to a submission can be sent, if the submission is kept.
    pub fn is_answerable(&self, id: SubmissionId) -> (r: bool)
        ensures
            r == can_answer(self@, id.0),
    {
        match self.get_transport(id) {
            Some(Transport::Directory(request)) => match file_name(request) {
                Some(name) => strip_suffix(&name, REQUEST_SUFFIX).is_some(),
                None => false,
            },
            _ => true,
        }
    }

    /// Takes a submission out and says how its answer is sent, with `unique` in the name
    /// of a temporary file.
    pub fn finish_with(&mut self, id: SubmissionId, response: &str, unique: &str) -> (r: Result<
        (Delivery, SubmissionData),
        PoolError,
    >)
        requires
            old(self)@.well_formed(),
            !unique@.contains('/'),
            can_answer(old(self)@, id.0),
        ensures
            match r {
                Ok(done) => {
                    &&& old(self)@.entries.contains_key(id.0)
                    &&& delivers(done.0, old(self)@.entries[id.0].0, response@, unique@)
                    &&& sent(done.0) == Some(response@)
                    &&& done.1@ == old(self)@.entries[id.0].1
                },
                Err(error) => {
                    ||| !old(self)@.entries.contains_key(id.0) && error.says(
                        ErrorKind::NotFound,
                        "[E011] submission not found for id "@ + decimal(id.0 as nat),
                    )
                    ||| old(self)@.entries.contains_key(id.0)
                        && old(self)@.entries[id.0].0 is FlatFile && error.says(
                        ErrorKind::InvalidInput,
                        "FlatFile transport not supported for submissions"@,
                    )
                },
            },
            final(self)@ == old(self)@.without(id.0),
            final(self)@.well_formed(),
    {
        let (transport, data) = match self.remove(id) {
            Some(entry) => entry,
            None => {
                return Err(
                    PoolError {
                        kind: ErrorKind::NotFound,
                        message: concat2(
                            "[E011] submission not found for id ",
                            &format_unsigned(id.0 as u64),
                        ),
                    },
                );
            },
        };
        match &transport {
            Transport::Directory(request) => Ok(
                (Delivery::File(plan_answer(request, response, unique)), data),
            ),
            Transport::Socket(number) => Ok(
                (Delivery::Frame { connection: *number, bytes: frame(response) }, data),
            ),
            Transport::FlatFile { dir, uuid } => Err(
                PoolError::new(
                    ErrorKind::InvalidInput,
                    "FlatFile transport not supported for submissions",
                ),
            ),
        }
    }

    /// Takes a submission out and says how its answer is sent, with a fresh UUID in the
    /// name of a temporary file.
    pub fn finish(&mut self, id: SubmissionId, response: &str) -> (r: Result<
        (Delivery, SubmissionData),
        PoolError,
    >)
        requires
            old(self)@.well_formed(),
            can_answer(old(self)@, id.0),
        ensures
            match r {
                Ok(done) => {
                    &&& old(self)@.entries.contains_key(id.0)
                    &&& exists|unique: Seq<char>|
                        is_uuid(unique) && #[trigger] delivers(
                            done.0,
                            old(self)@.entries[id.0].0,
                            response@,
                            unique,
                        )
                    &&& sent(done.0) == Some(response@)
                    &&& done.1@ == old(self)@.entries[id.0].1
                },
                Err(error) => {
                    ||| !old(self)@.entries.contains_key(id.0) && error.says(
                        ErrorKind::NotFound,
                        "[E011] submission not found for id "@ + decimal(id.0 as nat),
                    )
                    ||| old(self)@.entries.contains_key(id.0)
                        && old(self)@.entries[id.0].0 is FlatFile && error.says(
                        ErrorKind::InvalidInput,
                        "FlatFile transport not supported for submissions"@,
                    )
                },
            },
            final(self)@ == old(self)@.without(id.0),
            final(self)@.well_formed(),
    {
        let unique = fresh_uuid();
        proof {
            crate::ids::law_uuid_is_a_plain_name(unique@);
        }
        self.finish_with(id, response, &unique)
    }
}

/// Something to be done for an effect.
#[derive(Debug, Clone, PartialEq, Eq)]
pub enum Action {
    /// Write the file; a failure is an error.
    WriteFile(AtomicWrite),
    /// Write the file; a failure does not matter.
    TryWriteFile(AtomicWrite),
    /// Start the timer of the worker's task.
    StartTaskTimer {
        /// The worker.
        worker_id: WorkerId,
        /// How long it has.
        timeout: Duration,
    },
    /// Start the worker's idle timer.
    StartIdleTimer {
        /// The worker.
        worker_id: WorkerId,
        /// How long it may be idle.
        timeout: Duration,
    },
    /// Remove the file; a failure does not matter.
    RemoveFile(String),
}

/// What is to be done for an effect.
#[derive(Debug, PartialEq, Eq)]
pub struct Plan {
    /// What is done first, one after the other.
    pub actions: Vec<Action>,
    /// How the submission that the effect answers is answered then, if it answers one; or the
    /// error that it ends with.
    pub answer: Option<Result<Delivery, PoolError>>,
}

/// An action's texts.
pub enum Deed {
    /// See [`Action::WriteFile`].
    WriteFile(WriteText),
    /// See [`Action::TryWriteFile`].
    TryWriteFile(WriteText),
    /// See [`Action::StartTaskTimer`].
    StartTaskTimer { worker_id: WorkerId, timeout: Duration },
    /// See [`Action::StartIdleTimer`].
    StartIdleTimer { worker_id: WorkerId, timeout: Duration },
    /// See [`Action::RemoveFile`].
    RemoveFile(Seq<char>),
}

impl View for Action {
    type V = Deed;

    open spec fn view(&self) -> Deed {
        match self {
            Action::WriteFile(write) => Deed::WriteFile(write@),
            Action::TryWriteFile(write) => Deed::TryWriteFile(write@),
            Action::StartTaskTimer { worker_id, timeout } => Deed::StartTaskTimer {
                worker_id: *worker_id,
                timeout: *timeout,
            },
            Action::StartIdleTimer { worker_id, timeout } => Deed::StartIdleTimer {
                worker_id: *worker_id,
                timeout: *timeout,
            },
            Action::RemoveFile(path) => Deed::RemoveFile(path@),
        }
    }
}

/// The texts of a list of actions.
pub open spec fn deeds(actions: Seq<Action>) -> Seq<Deed> {
    Seq::new(actions.len(), |i: int| actions[i]@)
}

/// What a heartbeat tells the worker.
pub const HEARTBEAT_INSTRUCTIONS: &'static str =
    "Respond with any valid JSON to confirm you're alive. The daemon discards your response - this exists to detect stuck workers.";

/// What a heartbeat asks of the worker.
pub open spec fn heartbeat_task() -> Seq<(Seq<char>, Seq<char>)> {
    seq![("data"@, "null"@), ("instructions"@, json_quoted(HEARTBEAT_INSTRUCTIONS@))]
}

/// The text of a heartbeat.
pub open spec fn heartbeat_text() -> Seq<char> {
    object_text(
        seq![
            ("kind"@, json_quoted("Heartbeat"@)),
            ("task"@, object_text(heartbeat_task())),
        ],
    )
}

/// The text that tells a worker that it was removed.
pub open spec fn kicked_text() -> Seq<char> {
    object_text(
        seq![("kind"@, json_quoted("Kicked"@)), ("reason"@, json_quoted("Timeout"@))],
    )
}

proof fn lemma_keys_rise(members: Seq<(Seq<char>, Seq<char>)>)
    requires
        members.len() == 2,
        members[0].0.len() > 0,
        members[1].0.len() > 0,
        (members[0].0[0] as int) < members[1].0[0] as int,
    ensures
        keys_rise(members),
{
    assert(differ_first(members[0].0, members[1].0, 0));
    assert(comes_before(members[0].0, members[1].0));
}

/// The text of a heartbeat.
pub fn heartbeat_message() -> (r: String)
    ensures
        r@ == heartbeat_text(),
        text_under(r@, "kind"@) == Some("Heartbeat"@),
{
    let mut task: Vec<(String, serde_json::Value)> = Vec::new();
    task.push(("data".to_owned(), null_value()));
    task.push(("instructions".to_owned(), string_value(HEARTBEAT_INSTRUCTIONS)));
    assert(member_texts(task@) =~= heartbeat_task());
    proof {
        reveal_strlit("data");
        reveal_strlit("instructions");
        assert("data"@[0] == 'd' && "instructions"@[0] == 'i');
        lemma_keys_rise(heartbeat_task());
    }
    let mut envelope: Vec<(String, serde_json::Value)> = Vec::new();
    envelope.push(("kind".to_owned(), string_value("Heartbeat")));
    envelope.push(("task".to_owned(), object_value(task)));
    let ghost all = member_texts(envelope@);
    assert(all =~= seq![
        ("kind"@, json_quoted("Heartbeat"@)),
        ("task"@, object_text(heartbeat_task())),
    ]);
    proof {
        reveal_strlit("kind");
        reveal_strlit("task");
        assert("kind"@[0] == 'k' && "task"@[0] == 't');
        lemma_keys_rise(all);
        reveal_with_fuel(value_under, 3);
        assert(all.drop_last() =~= seq![all[0]]);
    }
    compact(&object_value(envelope))
}

/// The text that tells a worker that it was removed.
pub fn kicked_message() -> (r: String)
    ensures
        r@ == kicked_text(),
        text_under(r@, "kind"@) == Some("Kicked"@),
        text_under(r@, "reason"@) == Some("Timeout"@),
{
    let mut envelope: Vec<(String, serde_json::Value)> = Vec::new();
    envelope.push(("kind".to_owned(), string_value("Kicked")));
    envelope.push(("reason".to_owned(), string_value("Timeout")));
    let ghost all = member_texts(envelope@);
    assert(all =~= seq![
        ("kind"@, json_quoted("Kicked"@)),
        ("reason"@, json_quoted("Timeout"@)),
    ]);
    proof {
        reveal_strlit("kind");
        reveal_strlit("reason");
        assert("kind"@[0] == 'k' && "reason"@[0] == 'r');
        lemma_keys_rise(all);
        reveal_with_fuel(value_under, 3);
        assert(all.drop_last() =~= seq![all[0]]);
    }
    compact(&object_value(envelope))
}

/// The files of a worker that are removed once its answer was taken.
pub open spec fn worker_files(way: Way) -> Seq<Deed> {
    match way {
        Way::Directory(path) => seq![
            Deed::RemoveFile(file_over(way, TASK_FILE@)->0),
            Deed::RemoveFile(file_over(way, RESPONSE_FILE@)->0),
        ],
        Way::FlatFile { dir, uuid } => seq![
            Deed::RemoveFile(file_over(way, TASK_FILE@)->0),
            Deed::RemoveFile(file_over(way, RESPONSE_FILE@)->0),
            Deed::RemoveFile(file_over(way, READY_FILE@)->0),
        ],
        Way::Socket(number) => Seq::empty(),
    }
}

/// The files of a worker that are removed when it is removed without an answer, all but the
/// task file, in which it is told so.
pub open spec fn worker_leftovers(way: Way) -> Seq<Deed> {
    match way {
        Way::Directory(path) => seq![Deed::RemoveFile(file_over(way, RESPONSE_FILE@)->0)],
        Way::FlatFile { dir, uuid } => seq![
            Deed::RemoveFile(file_over(way, RESPONSE_FILE@)->0),
            Deed::RemoveFile(file_over(way, READY_FILE@)->0),
        ],
        Way::Socket(number) => Seq::empty(),
    }
}

/// The submission that an effect answers, if it does.
pub open spec fn answered(effect: Effect) -> Option<SubmissionId> {
    match effect {
        Effect::TaskCompleted { worker_id, task_id: TaskId::External(submission_id) } => Some(
            submission_id,
        ),
        Effect::TaskFailed { submission_id } => Some(submission_id),
        _ => None,
    }
}

/// Whether an effect can be carried out: it names only workers and submissions that are kept,
/// and whoever it answers can be answered.
pub open spec fn is_known(effect: Effect, workers: Table<()>, submissions: Table<Job>) -> bool {
    match effect {
        Effect::TaskAssigned { worker_id, task_id } => {
            &&& workers.entries.contains_key(worker_id.0)
            &&& match task_id {
                TaskId::External(submission_id) => submissions.entries.contains_key(
                    submission_id.0,
                ),
                TaskId::Heartbeat => true,
            }
        },
        Effect::WorkerWaiting { worker_id } => true,
        Effect::TaskCompleted { worker_id, task_id } => {
            &&& workers.entries.contains_key(worker_id.0)
            &&& !(workers.entries[worker_id.0].0 is Socket)
            &&& match task_id {
                TaskId::External(submission_id) => submissions.entries.contains_key(
                    submission_id.0,
                ) && can_answer(submissions, submission_id.0),
                TaskId::Heartbeat => true,
            }
        },
        Effect::TaskFailed { submission_id } => submissions.entries.contains_key(submission_id.0)
            && can_answer(submissions, submission_id.0),
        Effect::WorkerRemoved { worker_id } => workers.entries.contains_key(worker_id.0),
    }
}

/// The file that is read for an effect, if one is: what the worker put out.
pub open spec fn output_path(effect: Effect, workers: Table<()>) -> Option<Seq<char>> {
    match effect {
        Effect::TaskCompleted { worker_id, task_id: TaskId::External(submission_id) } => file_over(
            workers.entries[worker_id.0].0,
            RESPONSE_FILE@,
        ),
        _ => None,
    }
}

/// What an effect fails with where something was to be read for it and could not.
pub open spec fn read_failure(effect: Effect, output: Result<String, PoolError>) -> Option<
    PoolError,
> {
    match (effect, output) {
        (
            Effect::TaskCompleted { worker_id, task_id: TaskId::External(submission_id) },
            Err(error),
        ) => Some(error),
        _ => None,
    }
}

/// What is done for an effect, before anyone is answered. Nothing can be done to hand a task to
/// a worker on a socket. A worker that is removed after it completed its task leaves no file;
/// another is told of it.
pub open spec fn planned(
    effect: Effect,
    workers: Table<()>,
    submissions: Table<Job>,
    done: Set<u32>,
    config: IoConfig,
    unique: Seq<char>,
) -> Option<Seq<Deed>> {
    match effect {
        Effect::TaskAssigned { worker_id, task_id } => {
            let way = workers.entries[worker_id.0].0;
            let (content, timeout) = match task_id {
                TaskId::External(submission_id) => {
                    let job = submissions.entries[submission_id.0].1;
                    (job.content, job.timeout)
                },
                TaskId::Heartbeat => (heartbeat_text(), config.idle_timeout),
            };
            match write_over(way, TASK_FILE@, content, unique) {
                Some(write) => Some(
                    seq![Deed::WriteFile(write), Deed::StartTaskTimer { worker_id, timeout }],
                ),
                None => None,
            }
        },
        Effect::WorkerWaiting { worker_id } => if config.heartbeat_enabled {
            Some(seq![Deed::StartIdleTimer { worker_id, timeout: config.idle_timeout }])
        } else {
            Some(Seq::empty())
        },
        Effect::TaskCompleted { worker_id, task_id } => Some(
            worker_files(workers.entries[worker_id.0].0),
        ),
        Effect::TaskFailed { submission_id } => Some(Seq::empty()),
        Effect::WorkerRemoved { worker_id } => {
            let way = workers.entries[worker_id.0].0;
            if done.contains(worker_id.0) {
                Some(worker_files(way))
            } else {
                match write_over(way, TASK_FILE@, kicked_text(), unique) {
                    Some(write) => Some(worker_leftovers(way).push(Deed::TryWriteFile(write))),
                    None => Some(Seq::empty()),
                }
            }
        },
    }
}

/// What a submitter is told for an effect: what the worker put out, or that time was up.
pub open spec fn reply_for(effect: Effect, output: Seq<char>) -> Reply {
    match effect {
        Effect::TaskFailed { submission_id } => Reply::NotProcessed {
            reason: NotProcessedReason::Timeout,
        },
        _ => Reply::Processed { stdout: output, stderr: None },
    }
}

/// Whether this is how the submission that an effect answers is answered, if it answers one.
/// By flat files none can be.
pub open spec fn answers(
    answer: Option<Result<Delivery, PoolError>>,
    effect: Effect,
    submissions: Table<Job>,
    output: Seq<char>,
    unique: Seq<char>,
) -> bool {
    match answered(effect) {
        Some(submission_id) => {
            let way = submissions.entries[submission_id.0].0;
            match answer {
                Some(Ok(delivery)) => delivers(
                    delivery,
                    way,
                    reply_for(effect, output).json(),
                    unique,
                ),
                Some(Err(error)) => way is FlatFile && error.says(
                    ErrorKind::InvalidInput,
                    "FlatFile transport not supported for submissions"@,
                ),
                None => false,
            }
        },
        None => answer is None,
    }
}

/// The text that a submitter finds in what it is sent: what the file holds, or the message in
/// the bytes.
pub open spec fn sent(delivery: Delivery) -> Option<Seq<char>> {
    match delivery {
        Delivery::File(write) => Some(write.content@),
        Delivery::Frame { connection, bytes } => match message_in(bytes@) {
            Ok(text) => Some(text),
            Err(error) => None,
        },
    }
}

/// Whether what is sent tells the submitter that its task was processed, and that the worker put
/// out `stdout`, word for word, and no errors.
pub open spec fn tells_output(delivery: Delivery, stdout: Seq<char>) -> bool {
    &&& sent(delivery) matches Some(text)
    &&& json_parsed(text) matches Some(value)
    &&& text_under(value, "kind"@) == Some("Processed"@)
    &&& text_under(value, "stdout"@) == Some(stdout)
    &&& json_member(value, "stderr"@) is None
    &&& json_member(value, "reason"@) is None
}

/// Whether what is sent tells the submitter that time was up, and nothing of an output.
pub open spec fn tells_timeout(delivery: Delivery) -> bool {
    &&& sent(delivery) matches Some(text)
    &&& json_parsed(text) matches Some(value)
    &&& text_under(value, "kind"@) == Some("NotProcessed"@)
    &&& text_under(value, "reason"@) == Some("timeout"@)
    &&& json_member(value, "stdout"@) is None
    &&& json_member(value, "stderr"@) is None
}

/// Whether the submitter of the task that an effect ends learns what became of it, and nobody
/// learns anything of another: what the worker put out, as it was read, where the worker
/// completed the task, and that time was up where the task failed.
pub open spec fn is_told(
    answer: Option<Result<Delivery, PoolError>>,
    effect: Effect,
    submissions: Table<Job>,
    output: Seq<char>,
) -> bool {
    match effect {
        Effect::TaskCompleted { worker_id, task_id: TaskId::External(submission_id) } => match answer {
            Some(Ok(delivery)) => tells_output(delivery, output),
            Some(Err(error)) => submissions.entries[submission_id.0].0 is FlatFile,
            None => false,
        },
        Effect::TaskFailed { submission_id } => match answer {
            Some(Ok(delivery)) => tells_timeout(delivery),
            Some(Err(error)) => submissions.entries[submission_id.0].0 is FlatFile,
            None => false,
        },
        _ => answer is None,
    }
}

/// Whether an effect that could be carried out tells its submitter what was read for it.
pub open spec fn tells_what_was_read(
    r: Result<Plan, PoolError>,
    effect: Effect,
    submissions: Table<Job>,
    output: Result<String, PoolError>,
) -> bool {
    match (r, output) {
        (Ok(plan), Ok(text)) => is_told(plan.answer, effect, submissions, text@),
        (Ok(plan), Err(error)) => !(effect matches Effect::TaskCompleted {
            worker_id,
            task_id: TaskId::External(submission_id),
        }) && is_told(plan.answer, effect, submissions, Seq::empty()),
        (Err(error), Ok(text)) => effect is TaskAssigned,
        (Err(error), Err(cause)) => effect is TaskAssigned || effect matches Effect::TaskCompleted {
            worker_id,
            task_id: TaskId::External(submission_id),
        },
    }
}

/// Whether this is what an effect comes to, where `output` is what came of reading for it.
pub open spec fn comes_to(
    r: Result<Plan, PoolError>,
    effect: Effect,
    workers: Table<()>,
    submissions: Table<Job>,
    done: Set<u32>,
    config: IoConfig,
    output: Result<String, PoolError>,
    unique: Seq<char>,
) -> bool {
    match read_failure(effect, output) {
        Some(cause) => r matches Err(error) && error.says(cause.kind, cause.message@),
        None => match planned(effect, workers, submissions, done, config, unique) {
            Some(want) => {
                &&& r matches Ok(plan)
                &&& deeds(plan.actions@) == want
                &&& answers(
                    plan.answer,
                    effect,
                    submissions,
                    match output {
                        Ok(output) => output@,
                        Err(error) => Seq::empty(),
                    },
                    unique,
                )
            },
            None => r matches Err(error) && error.says(
                ErrorKind::Unsupported,
                "[E028] socket write not yet implemented"@,
            ),
        },
    }
}

/// The workers after an effect: one that was removed is forgotten.
pub open spec fn workers_after(effect: Effect, workers: Table<()>) -> Table<()> {
    match effect {
        Effect::WorkerRemoved { worker_id } => workers.without(worker_id.0),
        _ => workers,
    }
}

/// The submissions after an effect: one that is answered is forgotten.
pub open spec fn submissions_after(effect: Effect, submissions: Table<Job>) -> Table<Job> {
    match answered(effect) {
        Some(submission_id) => submissions.without(submission_id.0),
        None => submissions,
    }
}

/// The workers that completed their task and were not yet removed, after an effect.
pub open spec fn done_after(effect: Effect, done: Set<u32>) -> Set<u32> {
    match effect {
        Effect::TaskCompleted { worker_id, task_id } => done.insert(worker_id.0),
        Effect::WorkerRemoved { worker_id } => done.remove(worker_id.0),
        _ => done,
    }
}

/// The path that a worker registers with, if it has one: its directory, or its ready file.
pub open spec fn registered_at(way: Way) -> Option<Seq<char>> {
    match way {
        Way::Directory(path) => Some(path),
        Way::FlatFile { dir, uuid } => file_over(way, READY_FILE@),
        Way::Socket(number) => None,
    }
}

/// The paths that workers were removed from, after an effect.
pub open spec fn kicked_after(effect: Effect, workers: Table<()>, kicked: Set<Parts>) -> Set<
    Parts,
> {
    match effect {
        Effect::WorkerRemoved { worker_id } => match registered_at(
            workers.entries[worker_id.0].0,
        ) {
            Some(path) => kicked.insert(parts(path)),
            None => kicked,
        },
        _ => kicked,
    }
}

/// Adds the removal of the files of a worker to the actions.
fn remove_worker_files(transport: &Transport, actions: &mut Vec<Action>)
    ensures
        deeds(final(actions)@) == deeds(old(actions)@) + worker_files(transport@),
{
    let ghost before = deeds(actions@);
    let ghost way = transport@;
    if let Ok(path) = transport.read(TASK_FILE) {
        actions.push(Action::RemoveFile(path));
    }
    if let Ok(path) = transport.read(RESPONSE_FILE) {
        actions.push(Action::RemoveFile(path));
    }
    if let Transport::FlatFile { dir, uuid } = transport {
        if let Ok(path) = transport.read(READY_FILE) {
            actions.push(Action::RemoveFile(path));
        }
    }
    assert(deeds(actions@) =~= before + worker_files(way));
}

/// What is done for a worker that is removed without an answer.
fn tell_worker(transport: &Transport, unique: &str) -> (r: Vec<Action>)
    ensures
        match write_over(transport@, TASK_FILE@, kicked_text(), unique@) {
            Some(write) => deeds(r@) == worker_leftovers(transport@).push(
                Deed::TryWriteFile(write),
            ),
            None => r@.len() == 0,
        },
{
    let mut actions: Vec<Action> = Vec::new();
    match transport.write_with(TASK_FILE, &kicked_message(), unique) {
        Ok(write) => {
            if let Ok(path) = transport.read(RESPONSE_FILE) {
                actions.push(Action::RemoveFile(path));
            }
            if let Transport::FlatFile { dir, uuid } = transport {
                if let Ok(path) = transport.read(READY_FILE) {
                    actions.push(Action::RemoveFile(path));
                }
            }
            let ghost text = write@;
            actions.push(Action::TryWriteFile(write));
            assert(deeds(actions@) =~= worker_leftovers(transport@).push(
                Deed::TryWriteFile(text),
            ));
        },
        Err(_) => {},
    }
    actions
}

/// The path that a worker registers with, if it has one.
fn registration(transport: &Transport) -> (r: Option<String>)
    ensures
        match r {
            Some(path) => registered_at(transport@) == Some(path@),
            None => registered_at(transport@) is None,
        },
{
    match transport {
        Transport::Directory(path) => Some(path.clone()),
        Transport::FlatFile { dir, uuid } => match transport.read(READY_FILE) {
            Ok(path) => Some(path),
            Err(_) => None,
        },
        Transport::Socket(_) => None,
    }
}

/// Whether an effect can be carried out.
pub fn effect_is_known(
    effect: Effect,
    worker_map: &WorkerMap,
    submission_map: &SubmissionMap,
) -> (r: bool)
    ensures
        r == is_known(effect, worker_map@, submission_map@),
{
    match effect {
        Effect::TaskAssigned { worker_id, task_id } => worker_map.get_transport(
            worker_id,
        ).is_some() && match task_id {
            TaskId::External(submission_id) => submission_map.get_data(submission_id).is_some(),
            TaskId::Heartbeat => true,
        },
        Effect::WorkerWaiting { worker_id } => true,
        Effect::TaskCompleted { worker_id, task_id } => worker_map.get_path(worker_id).is_some()
            && match task_id {
            TaskId::External(submission_id) => submission_map.get_data(submission_id).is_some()
                && submission_map.is_answerable(submission_id),
            TaskId::Heartbeat => true,
        },
        Effect::TaskFailed { submission_id } => submission_map.get_data(submission_id).is_some()
            && submission_map.is_answerable(submission_id),
        Effect::WorkerRemoved { worker_id } => worker_map.get_transport(worker_id).is_some(),
    }
}

/// The file that is to be read for an effect, if one is: what the worker put out.
pub fn effect_reads(effect: Effect, worker_map: &WorkerMap) -> (r: Option<String>)
    requires
        effect matches Effect::TaskCompleted { worker_id, task_id }
            ==> worker_map@.entries.contains_key(worker_id.0),
    ensures
        match r {
            Some(path) => output_path(effect, worker_map@) == Some(path@),
            None => output_path(effect, worker_map@) is None,
        },
{
    match effect {
        Effect::TaskCompleted { worker_id, task_id: TaskId::External(submission_id) } => {
            match worker_map.read_from(worker_id, RESPONSE_FILE) {
                Ok(path) => Some(path),
                Err(_) => None,
            }
        },
        _ => None,
    }
}

/// Takes out the submission that an effect answers, and says how it is answered: with what the
/// worker put out, or that time was up. `unique` stands in the name of a temporary file.
pub fn answer_with(
    effect: Effect,
    submission_map: &mut SubmissionMap,
    output: &str,
    unique: &str,
) -> (r: Option<Result<Delivery, PoolError>>)
    requires
        old(submission_map)@.well_formed(),
        !unique@.contains('/'),
        answered(effect) matches Some(submission_id) ==> {
            &&& old(submission_map)@.entries.contains_key(submission_id.0)
            &&& can_answer(old(submission_map)@, submission_id.0)
        },
    ensures
        answers(r, effect, old(submission_map)@, output@, unique@),
        is_told(r, effect, old(submission_map)@, output@),
        final(submission_map)@ == submissions_after(effect, old(submission_map)@),
        final(submission_map)@.well_formed(),
{
    let (submission_id, response) = match effect {
        Effect::TaskCompleted { worker_id, task_id: TaskId::External(submission_id) } => (
            submission_id,
            Response::processed(output.to_owned()),
        ),
        Effect::TaskFailed { submission_id } => (
            submission_id,
            Response::not_processed(NotProcessedReason::Timeout),
        ),
        _ => {
            return None;
        },
    };
    assert(response@ == reply_for(effect, output@));
    match submission_map.finish_with(submission_id, &response.to_json(), unique) {
        Ok((delivery, _)) => Some(Ok(delivery)),
        Err(error) => Some(Err(error)),
    }
}

/// Carries out an effect, where `output` is what came of reading the file that is read for it,
/// if one is: takes out what the effect ends, and says what is to be done. `unique` stands in
/// the name of a temporary file.
pub fn execute_effect_with(
    effect: Effect,
    worker_map: &mut WorkerMap,
    submission_map: &mut SubmissionMap,
    kicked_paths: &mut PathSet,
    done: &mut HashSet<u32>,
    config: &IoConfig,
    output: &Result<String, PoolError>,
    unique: &str,
) -> (r: Result<Plan, PoolError>)
    requires
        old(worker_map)@.well_formed(),
        old(submission_map)@.well_formed(),
        is_known(effect, old(worker_map)@, old(submission_map)@),
        !unique@.contains('/'),
    ensures
        comes_to(
            r,
            effect,
            old(worker_map)@,
            old(submission_map)@,
            old(done)@,
            *config,
            *output,
            unique@,
        ),
        tells_what_was_read(r, effect, old(submission_map)@, *output),
        final(worker_map)@.well_formed(),
        final(submission_map)@.well_formed(),
        if read_failure(effect, *output) is Some {
            &&& final(worker_map)@ == old(worker_map)@
            &&& final(submission_map)@ == old(submission_map)@
            &&& final(kicked_paths)@ == old(kicked_paths)@
            &&& final(done)@ == old(done)@
        } else {
            &&& final(worker_map)@ == workers_after(effect, old(worker_map)@)
            &&& final(submission_map)@ == submissions_after(effect, old(submission_map)@)
            &&& final(kicked_paths)@ == kicked_after(effect, old(worker_map)@, old(kicked_paths)@)
            &&& final(done)@ == done_after(effect, old(done)@)
        },
{
    let mut actions: Vec<Action> = Vec::new();
    let ghost want = planned(
        effect,
        worker_map@,
        submission_map@,
        done@,
        *config,
        unique@,
    );
    let text: &str = match output {
        Ok(output) => output.as_str(),
        Err(_) => "",
    };
    proof {
        reveal_strlit("");
        assert(""@ =~= Seq::empty());
    }
    match effect {
        Effect::TaskAssigned { worker_id, task_id } => {
            let (write, timeout) = match task_id {
                TaskId::External(submission_id) => {
                    let job = submission_map.get_data(submission_id).unwrap();
                    (
                        worker_map.write_to_with(worker_id, TASK_FILE, &job.content, unique),
                        job.timeout,
                    )
                },
                TaskId::Heartbeat => (
                    worker_map.write_to_with(worker_id, TASK_FILE, &heartbeat_message(), unique),
                    config.idle_timeout,
                ),
            };
            match write {
                Ok(write) => {
                    actions.push(Action::WriteFile(write));
                    actions.push(Action::StartTaskTimer { worker_id, timeout });
                    assert(deeds(actions@) =~= want->0);
                },
                Err(error) => {
                    return Err(error);
                },
            }
        },
        Effect::WorkerWaiting { worker_id } => {
            if config.heartbeat_enabled {
                actions.push(Action::StartIdleTimer { worker_id, timeout: config.idle_timeout });
            }
            assert(deeds(actions@) =~= want->0);
        },
        Effect::TaskCompleted { worker_id, task_id } => {
            if let TaskId::External(submission_id) = task_id {
                if let Err(error) = output {
                    return Err(PoolError::new(error.kind, &error.message));
                }
            }
            let transport = worker_map.get_transport(worker_id).unwrap();
            remove_worker_files(transport, &mut actions);
            assert(deeds(actions@) =~= want->0);
            done.insert(worker_id.0);
        },
        Effect::TaskFailed { submission_id } => {
            assert(deeds(actions@) =~= want->0);
        },
        Effect::WorkerRemoved { worker_id } => {
            let (transport, nothing) = worker_map.remove(worker_id).unwrap();
            if done.contains(&worker_id.0) {
                remove_worker_files(&transport, &mut actions);
            } else {
                actions = tell_worker(&transport, unique);
            }
            assert(deeds(actions@) =~= want->0);
            done.remove(&worker_id.0);
            if let Some(path) = registration(&transport) {
                kicked_paths.insert(&path);
            }
        },
    }
    let answer = answer_with(effect, submission_map, text, unique);
    Ok(Plan { actions, answer })
}

/// Carries out an effect, with a fresh UUID in the name of a temporary file. See
/// [`execute_effect_with`].
pub fn execute_effect(
    effect: Effect,
    worker_map: &mut WorkerMap,
    submission_map: &mut SubmissionMap,
    kicked_paths: &mut PathSet,
    done: &mut HashSet<u32>,
    config: &IoConfig,
    output: &Result<String, PoolError>,
) -> (r: Result<Plan, PoolError>)
    requires
        old(worker_map)@.well_formed(),
        old(submission_map)@.well_formed(),
        is_known(effect, old(worker_map)@, old(submission_map)@),
    ensures
        exists|unique: Seq<char>|
            is_uuid(unique) && #[trigger] comes_to(
                r,
                effect,
                old(worker_map)@,
                old(submission_map)@,
                old(done)@,
                *config,
                *output,
                unique,
            ),
        tells_what_was_read(r, effect, old(submission_map)@, *output),
        final(worker_map)@.well_formed(),
        final(submission_map)@.well_formed(),
        if read_failure(effect, *output) is Some {
            &&& final(worker_map)@ == old(worker_map)@
            &&& final(submission_map)@ == old(submission_map)@
            &&& final(kicked_paths)@ == old(kicked_paths)@
            &&& final(done)@ == old(done)@
        } else {
            &&& final(worker_map)@ == workers_after(effect, old(worker_map)@)
            &&& final(submission_map)@ == submissions_after(effect, old(submission_map)@)
            &&& final(kicked_paths)@ == kicked_after(effect, old(worker_map)@, old(kicked_paths)@)
            &&& final(done)@ == done_after(effect, old(done)@)
        },
{
    let unique = fresh_uuid();
    proof {
        crate::ids::law_uuid_is_a_plain_name(unique@);
    }
    execute_effect_with(
        effect,
        worker_map,
        submission_map,
        kicked_paths,
        done,
        config,
        output,
        &unique,
    )
}

/// All files of a worker's UUID are cleaned up once its answer was taken, and its removal puts
/// none of them back.
pub proof fn law_worker_leaves_no_file(
    workers: Table<()>,
    submissions: Table<Job>,
    done: Set<u32>,
    config: IoConfig,
    unique: Seq<char>,
    worker_id: WorkerId,
    task_id: TaskId,
    dir: Seq<char>,
    uuid: Seq<char>,
)
    requires
        workers.entries.contains_key(worker_id.0),
        workers.entries[worker_id.0].0 == (Way::FlatFile { dir, uuid }),
    ensures
        ({
            let gone = Some(
                seq![
                    Deed::RemoveFile(joined(dir, uuid + TASK_SUFFIX@)),
                    Deed::RemoveFile(joined(dir, uuid + WORKER_RESPONSE_SUFFIX@)),
                    Deed::RemoveFile(joined(dir, uuid + READY_SUFFIX@)),
                ],
            );
            let completed = Effect::TaskCompleted { worker_id, task_id };
            let after = done_after(completed, done);
            let removed = Effect::WorkerRemoved { worker_id };
            &&& planned(completed, workers, submissions, done, config, unique) == gone
            &&& planned(
                removed,
                workers_after(completed, workers),
                submissions_after(completed, submissions),
                after,
                config,
                unique,
            ) == gone
        }),
{
    law_flat_files_are_the_protocols(dir, uuid);
}

} // verus!
