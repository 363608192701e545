//! That submitters and workers keep to the daemon's protocol.
use crate::constants::{
    READY_SUFFIX, REQUEST_SUFFIX, RESPONSE_SUFFIX, TASK_SUFFIX, WORKER_RESPONSE_SUFFIX,
};
use crate::daemon::path_category::{
    category, law_ready_file_is_known, law_request_file_is_known, Category,
};
use crate::framing::{message_in, FrameError};
use crate::fs_events::{write_complete, EventKind, Platform};
use crate::path::{joined, outer, parts};
use crate::submit::{file_submission, law_socket_submission_is_read, socket_submission, SubmitDeed};
use crate::time::Duration;
use crate::watcher_laws::law_scratch_write_is_for_its_target;
use crate::worker::{asks, TaskRequest};
use vstd::prelude::*;

verus! {

/// A submission by files goes step by step: the pool is waited for by its status file; then the
/// request is written, whole, with the payload as it was given; then its answer is waited for, as
/// long as was said, and read from the file that was waited for; only then are the request and
/// the answer removed, and nothing else.
pub proof fn law_file_submission_step_by_step(
    root: Seq<char>,
    input: Seq<char>,
    timeout: Duration,
    id: Seq<char>,
    unique: Seq<char>,
)
    requires
        !unique.contains('/'),
    ensures
        ({
            let steps = file_submission(root, input, timeout, id, unique);
            let dir = joined(root, "submissions"@);
            let request = joined(dir, id + ".request.json"@);
            let answer = joined(dir, id + ".response.json"@);
            &&& steps.len() == 6
            &&& steps[0] matches SubmitDeed::WaitFor { path: status, timeout: patience }
            &&& status == joined(root, "status"@)
            &&& patience.millis == 10_000
            &&& steps[1] matches SubmitDeed::WriteRequest(write)
            &&& write.target == request
            &&& write.content == input
            &&& outer(parts(write.temp)) == parts(joined(root, "scratch"@))
            &&& steps[2] == (SubmitDeed::WaitFor { path: answer, timeout })
            &&& steps[3] == SubmitDeed::ReadAnswer(answer)
            &&& steps[4] == SubmitDeed::Remove(request)
            &&& steps[5] == SubmitDeed::Remove(answer)
        }),
{
    let dir = joined(root, "submissions"@);
    law_scratch_write_is_for_its_target(root, joined(dir, id + ".request.json"@), input, unique);
}

/// A submission over the socket goes step by step: the pool is waited for by its status file; then
/// its socket is connected to; then a message is sent, in which the daemon reads the payload as it
/// was given; then the answer is received.
pub proof fn law_socket_submission_step_by_step(root: Seq<char>, input: Seq<char>)
    requires
        vstd::utf8::encode_utf8(input).len() <= usize::MAX,
    ensures
        ({
            let steps = socket_submission(root, input);
            &&& steps.len() == 4
            &&& steps[0] matches SubmitDeed::WaitFor { path: status, timeout: patience }
            &&& status == joined(root, "status"@)
            &&& patience.millis == 10_000
            &&& steps[1] == SubmitDeed::Connect(joined(root, "daemon.sock"@))
            &&& steps[2] matches SubmitDeed::Send(bytes)
            &&& message_in(bytes) == Ok::<Seq<char>, FrameError>(input)
            &&& steps[3] is Receive
        }),
{
    law_socket_submission_is_read(root, input);
}

/// The request that a submitter writes is what the daemon takes for the request of that name.
pub proof fn law_daemon_knows_the_request(
    root: Seq<char>,
    input: Seq<char>,
    timeout: Duration,
    id: Seq<char>,
    unique: Seq<char>,
    kind: EventKind,
    platform: Platform,
    status: Option<Seq<char>>,
)
    requires
        !id.contains('/'),
        write_complete(kind, platform),
    ensures
        file_submission(root, input, timeout, id, unique)[1] matches SubmitDeed::WriteRequest(write)
            && category(
            write.target,
            kind,
            platform,
            root,
            joined(root, "agents"@),
            joined(root, "submissions"@),
            status,
        ) == Some(Category::SubmissionRequest(id)),
{
    law_request_file_is_known(
        id,
        kind,
        platform,
        root,
        joined(root, "agents"@),
        joined(root, "submissions"@),
        status,
    );
}

/// A worker that asks for a task writes the ready file that the daemon takes for that of its
/// UUID, and waits for the task file of the same UUID.
pub proof fn law_daemon_knows_the_worker(
    request: TaskRequest,
    root: Seq<char>,
    name: Option<Seq<char>>,
    uuid: Seq<char>,
    kind: EventKind,
    platform: Platform,
    status: Option<Seq<char>>,
)
    requires
        asks(request, root, name, uuid),
        !uuid.contains('/'),
        write_complete(kind, platform),
    ensures
        request.uuid@ == uuid,
        category(
            request.ready.path@,
            kind,
            platform,
            root,
            joined(root, "agents"@),
            joined(root, "submissions"@),
            status,
        ) == Some(Category::WorkerReady(uuid)),
        request.task_path@ == joined(joined(root, "agents"@), uuid + ".task.json"@),
        request.ready.content@ == match name {
            Some(name) => "{\"name\":\""@ + name + "\"}"@,
            None => "{}"@,
        },
{
    law_ready_file_is_known(
        uuid,
        kind,
        platform,
        root,
        joined(root, "agents"@),
        joined(root, "submissions"@),
        status,
    );
}

/// The names of the protocol's files and directories.
pub proof fn law_protocol_names()
    ensures
        READY_SUFFIX@ == ".ready.json"@,
        TASK_SUFFIX@ == ".task.json"@,
        WORKER_RESPONSE_SUFFIX@ == ".response.json"@,
        REQUEST_SUFFIX@ == ".request.json"@,
        RESPONSE_SUFFIX@ == ".response.json"@,
        crate::constants::AGENTS_DIR@ == "agents"@,
        crate::constants::SUBMISSIONS_DIR@ == "submissions"@,
        crate::constants::STATUS_FILE@ == "status"@,
        crate::constants::STATUS_STOP@ == "stop"@,
        crate::constants::STATUS_READY@ == "ready"@,
        crate::constants::LOCK_FILE@ == "daemon.lock"@,
        crate::constants::SOCKET_NAME@ == "daemon.sock"@,
{
}

/// How long things may take: five minutes for an answer by file, ten seconds for a pool to become
/// ready, a tenth of a second between two looks, half a second between two scans.
pub proof fn law_times()
    ensures
        crate::submit::DEFAULT_TIMEOUT_MILLIS == 300_000,
        crate::submit::POOL_READY_TIMEOUT_MILLIS == 10_000,
        crate::submit::POLL_INTERVAL_MILLIS == 100,
        crate::daemon::polling::SCAN_INTERVAL_MS == 500,
        Duration::of_millis(crate::submit::DEFAULT_TIMEOUT_MILLIS).millis == 300_000,
        Duration::of_secs(300) == Duration::of_millis(300_000),
{
}

/// A submission with a directory of its own has its task and its answer in that directory, below
/// the pool's directory of such submissions.
pub proof fn law_pending_submission_files(
    pending: crate::submit::PendingSubmission,
    root: Seq<char>,
    id: Seq<char>,
)
    requires
        pending.is_for(root, id),
    ensures
        pending.dir@ == joined(joined(root, "pending"@), id),
        pending.task_path@ == joined(pending.dir@, "task.json"@),
        pending.response_path@ == joined(pending.dir@, "response.json"@),
{
}

} // verus!
