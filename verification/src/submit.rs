//! The submitter's side: handing a task to a pool, and getting its answer.
use crate::constants::{
    REQUEST_SUFFIX, RESPONSE_SUFFIX, SOCKET_NAME, STATUS_FILE, SUBMISSIONS_DIR,
};
use crate::error::{ErrorKind, PoolError};
use crate::framing::{FrameError, frame, framed, message_in, read_frame};
use crate::ids::{fresh_uuid, is_uuid};
use crate::daemon::io::{answers_request, request_id};
use crate::path::{inner, join, joined, law_join_adds_one_component, outer, parts};
use crate::text::{concat2, concat3, law_suffix_comes_off};
use crate::time::Duration;
use crate::transport::{AtomicWrite, WriteText};
use crate::watcher::{atomic_write_with, scratch_write};
use vstd::prelude::*;

verus! {

/// How long an answer to a file may take, unless it is said otherwise: five minutes.
pub const DEFAULT_TIMEOUT_MILLIS: u64 = 300_000;

/// How long a pool may take to become ready: ten seconds.
pub const POOL_READY_TIMEOUT_MILLIS: u64 = 10_000;

/// How long to sleep between two looks for an answer: a tenth of a second.
pub const POLL_INTERVAL_MILLIS: u64 = 100;

/// The directory of submissions that have a directory of their own.
pub const PENDING_DIR: &'static str = "pending";

/// The task in such a directory.
pub const PENDING_TASK_FILE: &'static str = "task.json";

/// The answer in such a directory.
pub const PENDING_RESPONSE_FILE: &'static str = "response.json";

/// What a submitter does, one step after the other. The first that fails ends it.
#[derive(Debug, Clone, PartialEq, Eq)]
pub enum SubmitStep {
    /// Wait until the file is there, for so long.
    WaitFor {
        /// The file.
        path: String,
        /// How long.
        timeout: Duration,
    },
    /// Connect to the socket.
    Connect(String),
    /// Send the bytes.
    Send(Vec<u8>),
    /// Receive the answer.
    Receive,
    /// Write the request.
    WriteRequest(AtomicWrite),
    /// Read the answer.
    ReadAnswer(String),
    /// Remove the file; a failure does not matter.
    Remove(String),
}

/// A step's texts and bytes.
pub enum SubmitDeed {
    /// See [`SubmitStep::WaitFor`].
    WaitFor { path: Seq<char>, timeout: Duration },
    /// See [`SubmitStep::Connect`].
    Connect(Seq<char>),
    /// See [`SubmitStep::Send`].
    Send(Seq<u8>),
    /// See [`SubmitStep::Receive`].
    Receive,
    /// See [`SubmitStep::WriteRequest`].
    WriteRequest(WriteText),
    /// See [`SubmitStep::ReadAnswer`].
    ReadAnswer(Seq<char>),
    /// See [`SubmitStep::Remove`].
    Remove(Seq<char>),
}

impl View for SubmitStep {
    type V = SubmitDeed;

    open spec fn view(&self) -> SubmitDeed {
        match self {
            SubmitStep::WaitFor { path, timeout } => SubmitDeed::WaitFor {
                path: path@,
                timeout: *timeout,
            },
            SubmitStep::Connect(path) => SubmitDeed::Connect(path@),
            SubmitStep::Send(bytes) => SubmitDeed::Send(bytes@),
            SubmitStep::Receive => SubmitDeed::Receive,
            SubmitStep::WriteRequest(write) => SubmitDeed::WriteRequest(write@),
            SubmitStep::ReadAnswer(path) => SubmitDeed::ReadAnswer(path@),
            SubmitStep::Remove(path) => SubmitDeed::Remove(path@),
        }
    }
}

/// The texts and bytes of a list of steps.
pub open spec fn submit_deeds(steps: Seq<SubmitStep>) -> Seq<SubmitDeed> {
    Seq::new(steps.len(), |i: int| steps[i]@)
}

/// How a task goes over the socket: once the pool is ready, its payload is sent as one
/// message, and the answer comes as one message.
pub open spec fn socket_submission(root: Seq<char>, input: Seq<char>) -> Seq<SubmitDeed> {
    seq![
        SubmitDeed::WaitFor {
            path: joined(root, STATUS_FILE@),
            timeout: Duration::of_millis(POOL_READY_TIMEOUT_MILLIS),
        },
        SubmitDeed::Connect(joined(root, SOCKET_NAME@)),
        SubmitDeed::Send(framed(input)),
        SubmitDeed::Receive,
    ]
}

/// How a task goes over the socket, with `input` for its payload.
pub fn submit(root: &str, input: &str) -> (r: Vec<SubmitStep>)
    ensures
        submit_deeds(r@) == socket_submission(root@, input@),
{
    let mut steps: Vec<SubmitStep> = Vec::new();
    steps.push(
        SubmitStep::WaitFor {
            path: join(root, STATUS_FILE),
            timeout: Duration::from_millis(POOL_READY_TIMEOUT_MILLIS),
        },
    );
    steps.push(SubmitStep::Connect(join(root, SOCKET_NAME)));
    steps.push(SubmitStep::Send(frame(input)));
    steps.push(SubmitStep::Receive);
    assert(submit_deeds(steps@) =~= socket_submission(root@, input@));
    steps
}

/// The request file of a submission.
pub open spec fn request_file(root: Seq<char>, id: Seq<char>) -> Seq<char> {
    joined(joined(root, SUBMISSIONS_DIR@), id + REQUEST_SUFFIX@)
}

/// The answer file of a submission.
pub open spec fn answer_file(root: Seq<char>, id: Seq<char>) -> Seq<char> {
    joined(joined(root, SUBMISSIONS_DIR@), id + RESPONSE_SUFFIX@)
}

/// How a task goes by files: once the pool is ready, its payload is written as a request
/// under the submission's name; the answer beside it is waited for and read, and both are
/// removed.
pub open spec fn file_submission(
    root: Seq<char>,
    input: Seq<char>,
    timeout: Duration,
    id: Seq<char>,
    unique: Seq<char>,
) -> Seq<SubmitDeed> {
    seq![
        SubmitDeed::WaitFor {
            path: joined(root, STATUS_FILE@),
            timeout: Duration::of_millis(POOL_READY_TIMEOUT_MILLIS),
        },
        SubmitDeed::WriteRequest(scratch_write(root, request_file(root, id), input, unique)),
        SubmitDeed::WaitFor { path: answer_file(root, id), timeout },
        SubmitDeed::ReadAnswer(answer_file(root, id)),
        SubmitDeed::Remove(request_file(root, id)),
        SubmitDeed::Remove(answer_file(root, id)),
    ]
}

/// How a task goes by files, under the name `id`, with `unique` in the name of the temporary
/// file.
pub fn submit_file_as(root: &str, input: &str, timeout: Duration, id: &str, unique: &str) -> (r: Vec<
    SubmitStep,
>)
    ensures
        submit_deeds(r@) == file_submission(root@, input@, timeout, id@, unique@),
{
    let dir = join(root, SUBMISSIONS_DIR);
    let request = join(&dir, &concat2(id, REQUEST_SUFFIX));
    let answer = join(&dir, &concat2(id, RESPONSE_SUFFIX));
    let mut steps: Vec<SubmitStep> = Vec::new();
    steps.push(
        SubmitStep::WaitFor {
            path: join(root, STATUS_FILE),
            timeout: Duration::from_millis(POOL_READY_TIMEOUT_MILLIS),
        },
    );
    steps.push(SubmitStep::WriteRequest(atomic_write_with(root, &request, input, unique)));
    steps.push(SubmitStep::WaitFor { path: answer.clone(), timeout });
    steps.push(SubmitStep::ReadAnswer(answer.clone()));
    steps.push(SubmitStep::Remove(request));
    steps.push(SubmitStep::Remove(answer));
    assert(submit_deeds(steps@) =~= file_submission(root@, input@, timeout, id@, unique@));
    steps
}

/// How a task goes by files, under a fresh UUID.
pub fn submit_file_with_timeout(root: &str, input: &str, timeout: Duration) -> (r: Vec<SubmitStep>)
    ensures
        exists|id: Seq<char>, unique: Seq<char>|
            is_uuid(id) && is_uuid(unique) && submit_deeds(r@) == #[trigger] file_submission(
                root@,
                input@,
                timeout,
                id,
                unique,
            ),
{
    let id = fresh_uuid();
    let unique = fresh_uuid();
    submit_file_as(root, input, timeout, &id, &unique)
}

/// How a task goes by files, under a fresh UUID, with five minutes for the answer.
pub fn submit_file(root: &str, input: &str) -> (r: Vec<SubmitStep>)
    ensures
        exists|id: Seq<char>, unique: Seq<char>|
            is_uuid(id) && is_uuid(unique) && submit_deeds(r@) == #[trigger] file_submission(
                root@,
                input@,
                Duration::of_millis(DEFAULT_TIMEOUT_MILLIS),
                id,
                unique,
            ),
{
    submit_file_with_timeout(root, input, Duration::from_millis(DEFAULT_TIMEOUT_MILLIS))
}

/// The files of a submission, which are removed where it is given up.
pub fn cleanup_submission(root: &str, submission_id: &str) -> (r: (String, String))
    ensures
        r.0@ == request_file(root@, submission_id@),
        r.1@ == answer_file(root@, submission_id@),
{
    let dir = join(root, SUBMISSIONS_DIR);
    (
        join(&dir, &concat2(submission_id, REQUEST_SUFFIX)),
        join(&dir, &concat2(submission_id, RESPONSE_SUFFIX)),
    )
}

/// A submission with a directory of its own.
#[derive(Debug, Clone, PartialEq, Eq)]
pub struct PendingSubmission {
    /// The directory.
    pub dir: String,
    /// The task in it.
    pub task_path: String,
    /// The answer in it.
    pub response_path: String,
}

impl PendingSubmission {
    /// Whether these are the paths of the submission with this name.
    pub open spec fn is_for(self, root: Seq<char>, id: Seq<char>) -> bool {
        &&& self.dir@ == joined(joined(root, PENDING_DIR@), id)
        &&& self.task_path@ == joined(self.dir@, PENDING_TASK_FILE@)
        &&& self.response_path@ == joined(self.dir@, PENDING_RESPONSE_FILE@)
    }

    /// The submission with this name.
    pub fn named(root: &str, id: &str) -> (r: PendingSubmission)
        ensures
            r.is_for(root@, id@),
    {
        let dir = join(&join(root, PENDING_DIR), id);
        PendingSubmission {
            task_path: join(&dir, PENDING_TASK_FILE),
            response_path: join(&dir, PENDING_RESPONSE_FILE),
            dir,
        }
    }

    /// A submission with a fresh UUID for its name.
    pub fn new(root: &str) -> (r: PendingSubmission)
        ensures
            exists|id: Seq<char>| is_uuid(id) && #[trigger] r.is_for(root@, id),
    {
        let id = fresh_uuid();
        PendingSubmission::named(root, &id)
    }
}

/// What to do when looking for an answer. The files of the submission are removed both
/// after reading the answer and when time is up.
#[derive(Debug, Clone, PartialEq, Eq)]
pub enum Poll {
    /// Read the answer.
    Read,
    /// Sleep, then look again.
    Sleep(Duration),
    /// Give up.
    GiveUp(PoolError),
}

/// What to do when looking for an answer. `overdue` says whether time is up, and `timeout`
/// how long that was.
pub fn poll_answer(answer_exists: bool, overdue: bool, timeout: &str) -> (r: Poll)
    ensures
        if answer_exists {
            r == Poll::Read
        } else if overdue {
            r matches Poll::GiveUp(error) && error.says(
                ErrorKind::TimedOut,
                "file-based submit timed out after "@ + timeout@,
            )
        } else {
            r == Poll::Sleep(Duration::of_millis(POLL_INTERVAL_MILLIS))
        },
{
    if answer_exists {
        Poll::Read
    } else if overdue {
        Poll::GiveUp(
            PoolError {
                kind: ErrorKind::TimedOut,
                message: concat2("file-based submit timed out after ", timeout),
            },
        )
    } else {
        Poll::Sleep(Duration::from_millis(POLL_INTERVAL_MILLIS))
    }
}

/// What to do while the directory of a pool is waited for: it is there, or sleep for ten
/// milliseconds, or give up.
pub fn wait_for_pool_ready(root: &str, root_exists: bool, overdue: bool) -> (r: Result<
    Option<Duration>,
    PoolError,
>)
    ensures
        if root_exists {
            r == Ok::<Option<Duration>, PoolError>(None)
        } else if overdue {
            r matches Err(error) && error.says(
                ErrorKind::NotFound,
                "pool directory does not exist: "@ + root@,
            )
        } else {
            r == Ok::<Option<Duration>, PoolError>(Some(Duration::of_millis(10)))
        },
{
    if root_exists {
        Ok(None)
    } else if overdue {
        Err(
            PoolError {
                kind: ErrorKind::NotFound,
                message: concat2("pool directory does not exist: ", root),
            },
        )
    } else {
        Ok(Some(Duration::from_millis(10)))
    }
}

/// The text of an answer that came over the socket; `detail` is what is said of a length or
/// a text that is none.
pub fn read_answer(bytes: &Vec<u8>, detail: &str) -> (r: Result<String, PoolError>)
    ensures
        match message_in(bytes@) {
            Ok(content) => r matches Ok(text) && text@ == content,
            Err(FrameError::LineNotText) => r matches Err(error) && error.says(
                ErrorKind::InvalidData,
                "stream did not contain valid UTF-8"@,
            ),
            Err(FrameError::BadLength) => r matches Err(error) && error.says(
                ErrorKind::InvalidData,
                "[E041] invalid response length from daemon: "@ + detail@,
            ),
            Err(FrameError::Short) => r matches Err(error) && error.says(
                ErrorKind::UnexpectedEof,
                "failed to fill whole buffer"@,
            ),
            Err(FrameError::NotText) => r matches Err(error) && error.says(
                ErrorKind::InvalidData,
                "[E042] invalid UTF-8 in daemon response: "@ + detail@,
            ),
        },
{
    match read_frame(bytes) {
        Ok(content) => Ok(content),
        Err(FrameError::LineNotText) => Err(
            PoolError::new(ErrorKind::InvalidData, "stream did not contain valid UTF-8"),
        ),
        Err(FrameError::BadLength) => Err(
            PoolError {
                kind: ErrorKind::InvalidData,
                message: concat2("[E041] invalid response length from daemon: ", detail),
            },
        ),
        Err(FrameError::Short) => Err(
            PoolError::new(ErrorKind::UnexpectedEof, "failed to fill whole buffer"),
        ),
        Err(FrameError::NotText) => Err(
            PoolError {
                kind: ErrorKind::InvalidData,
                message: concat2("[E042] invalid UTF-8 in daemon response: ", detail),
            },
        ),
    }
}

/// What can go wrong outside when a task is submitted.
#[derive(Debug, Clone, Copy, PartialEq, Eq, Structural)]
pub enum SubmitFault {
    /// The path of the pool, for a file, cannot be made canonical.
    FileRoot,
    /// The payload, for a file, cannot be written as JSON.
    FilePayload,
    /// The answer file cannot be read.
    FileAnswer,
    /// The answer file is no answer.
    FileParse,
    /// The path of the pool, for the socket, cannot be made canonical.
    SocketRoot,
    /// The path of the socket is none.
    SocketPath,
    /// The payload, for the socket, cannot be written as JSON.
    SocketPayload,
    /// The socket cannot be connected to.
    SocketConnect,
    /// The answer over the socket is none.
    SocketParse,
}

/// What is said of a fault, before its cause.
pub open spec fn fault_text(fault: SubmitFault, path: Seq<char>) -> Seq<char> {
    match fault {
        SubmitFault::FileRoot => "[E005] failed to canonicalize pool root "@ + path + ": "@,
        SubmitFault::FilePayload => "[E006] failed to serialize payload: "@,
        SubmitFault::FileAnswer => "[E007] failed to read response file "@ + path + ": "@,
        SubmitFault::FileParse => "[E008] failed to parse response JSON: "@,
        SubmitFault::SocketRoot => "[E037] failed to canonicalize pool root "@ + path + ": "@,
        SubmitFault::SocketPath => "[E038] invalid socket path "@ + path + ": "@,
        SubmitFault::SocketPayload => "[E039] failed to serialize payload: "@,
        SubmitFault::SocketConnect => "[E040] failed to connect to daemon socket "@ + path + ": "@,
        SubmitFault::SocketParse => "[E043] failed to parse daemon response JSON: "@,
    }
}

/// The kind of a fault, where its cause is of the kind `cause`.
pub open spec fn fault_kind(fault: SubmitFault, cause: ErrorKind) -> ErrorKind {
    match fault {
        SubmitFault::FileRoot | SubmitFault::FileAnswer | SubmitFault::SocketRoot => cause,
        SubmitFault::SocketPath => ErrorKind::InvalidInput,
        SubmitFault::SocketConnect => ErrorKind::ConnectionRefused,
        _ => ErrorKind::InvalidData,
    }
}

/// The error that a fault is reported as: `path` is the path it concerns, and `cause` and
/// `detail` are the kind of its cause and what that says.
pub fn submit_fault(fault: SubmitFault, path: &str, cause: ErrorKind, detail: &str) -> (r: PoolError)
    ensures
        r.says(fault_kind(fault, cause), fault_text(fault, path@) + detail@),
{
    let mut message = match fault {
        SubmitFault::FileRoot => concat3("[E005] failed to canonicalize pool root ", path, ": "),
        SubmitFault::FilePayload => "[E006] failed to serialize payload: ".to_owned(),
        SubmitFault::FileAnswer => concat3("[E007] failed to read response file ", path, ": "),
        SubmitFault::FileParse => "[E008] failed to parse response JSON: ".to_owned(),
        SubmitFault::SocketRoot => concat3("[E037] failed to canonicalize pool root ", path, ": "),
        SubmitFault::SocketPath => concat3("[E038] invalid socket path ", path, ": "),
        SubmitFault::SocketPayload => "[E039] failed to serialize payload: ".to_owned(),
        SubmitFault::SocketConnect => concat3(
            "[E040] failed to connect to daemon socket ",
            path,
            ": ",
        ),
        SubmitFault::SocketParse => "[E043] failed to parse daemon response JSON: ".to_owned(),
    };
    message.append(detail);
    let kind = match fault {
        SubmitFault::FileRoot | SubmitFault::FileAnswer | SubmitFault::SocketRoot => cause,
        SubmitFault::SocketPath => ErrorKind::InvalidInput,
        SubmitFault::SocketConnect => ErrorKind::ConnectionRefused,
        _ => ErrorKind::InvalidData,
    };
    PoolError { kind, message }
}

/// What one side sends over the socket, the other side reads: the message of a submission is
/// the payload that was given.
pub proof fn law_socket_submission_is_read(root: Seq<char>, input: Seq<char>)
    requires
        vstd::utf8::encode_utf8(input).len() <= usize::MAX,
    ensures
        socket_submission(root, input)[2] matches SubmitDeed::Send(bytes) && message_in(bytes)
            == Ok::<Seq<char>, FrameError>(input),
{
    crate::framing::law_frame_reads_back(input, Seq::empty());
    assert(framed(input) + Seq::<u8>::empty() =~= framed(input));
}

/// The daemon answers a request where its submitter waits for the answer, with the text that
/// it was given.
pub proof fn law_answer_goes_where_it_is_awaited(
    root: Seq<char>,
    id: Seq<char>,
    write: WriteText,
    response: Seq<char>,
    unique: Seq<char>,
)
    requires
        !id.contains('/'),
        answers_request(write, request_file(root, id), response, unique),
    ensures
        request_id(request_file(root, id)) == Some(id),
        parts(write.target) == parts(answer_file(root, id)),
        write.content == response,
{
    reveal_strlit(".request.json");
    reveal_strlit(".response.json");
    let dir = joined(root, SUBMISSIONS_DIR@);
    let request = id + REQUEST_SUFFIX@;
    let answer = id + RESPONSE_SUFFIX@;
    assert forall|i: int| 0 <= i < request.len() implies request[i] != '/' by {
        if i < id.len() {
            assert(id.contains(id[i]));
        } else {
            assert(request[i] == REQUEST_SUFFIX@[i - id.len()]);
        }
    }
    assert forall|i: int| 0 <= i < answer.len() implies answer[i] != '/' by {
        if i < id.len() {
            assert(id.contains(id[i]));
        } else {
            assert(answer[i] == RESPONSE_SUFFIX@[i - id.len()]);
        }
    }
    assert(request.len() > 2 && answer.len() > 2);
    assert(seq!['.'].len() == 1);
    assert(seq!['.', '.'].len() == 2);
    law_join_adds_one_component(dir, request);
    law_join_adds_one_component(dir, answer);
    law_suffix_comes_off(id, REQUEST_SUFFIX@);
    assert(outer(inner(parts(dir), request)).names =~= parts(dir).names);
}

} // verus!
