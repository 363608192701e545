//! What becomes of a request, from the file that brings it to the answer beside it, whatever
//! else happens in the daemon meanwhile.
use super::io::{answers, output_path, planned, Deed, Delivery, IoConfig};
use super::io_laws::{
    law_answer_goes_where_the_task_came_from, law_answer_holds_the_output,
    law_assigned_task_is_handed_over, law_failure_says_timeout, law_output_is_the_workers,
};
use super::machine::{Effect, Event, SubmissionId, TaskId, WorkerId};
use super::path_category::Category;
use super::transports::Job;
use super::whole::{
    after_all, law_daemon_never_meets_the_unknown, may_happen, may_move, moved, Daemon, Move,
    Setting,
};
use super::wiring::{seen, sight_category, Sight};
use crate::constants::{
    READY_SUFFIX, REQUEST_SUFFIX, RESPONSE_SUFFIX, TASK_SUFFIX, WORKER_RESPONSE_SUFFIX,
};
use crate::error::PoolError;
use crate::fs_events::EventKind;
use crate::json::json_quoted;
use crate::path::{inner, joined, law_join_adds_one_component, lemma_names, parts, plain_name};
use crate::transport::Way;
use vstd::prelude::*;

verus! {

/// Whether what is kept under a submission's number, if anything is, is this.
pub open spec fn keeps_submission(daemon: Daemon, s: u32, way: Way, job: Job) -> bool {
    &&& s < daemon.book.next_submission
    &&& daemon.book.submissions.entries.contains_key(s)
        ==> daemon.book.submissions.entries[s] == (way, job)
}

/// Whether what is kept under a worker's number, if anything is, is this.
pub open spec fn keeps_worker(daemon: Daemon, w: u32, way: Way) -> bool {
    &&& w < daemon.book.workers.next_id
    &&& daemon.book.workers.entries.contains_key(w) ==> daemon.book.workers.entries[w].0 == way
}

/// What the daemon keeps of a submission or a worker, nothing changes until it is forgotten.
pub proof fn law_what_is_kept_stays(daemon: Daemon, happens: Move, setting: Setting, n: u32)
    requires
        may_move(daemon, happens),
    ensures
        forall|way: Way, job: Job| #[trigger]
            keeps_submission(daemon, n, way, job) ==> keeps_submission(
                moved(daemon, happens, setting),
                n,
                way,
                job,
            ),
        forall|way: Way| #[trigger]
            keeps_worker(daemon, n, way) ==> keeps_worker(moved(daemon, happens, setting), n, way),
{
}

proof fn lemma_kept_through(happened: Seq<Move>, at: int, setting: Setting, n: u32)
    requires
        may_happen(happened, setting),
        0 <= at <= happened.len(),
    ensures
        forall|way: Way, job: Job| #[trigger]
            keeps_submission(after_all(happened.take(at), setting), n, way, job)
                ==> keeps_submission(after_all(happened, setting), n, way, job),
        forall|way: Way| #[trigger]
            keeps_worker(after_all(happened.take(at), setting), n, way) ==> keeps_worker(
                after_all(happened, setting),
                n,
                way,
            ),
    decreases happened.len(),
{
    if at == happened.len() {
        assert(happened.take(at) =~= happened);
    } else {
        let early = happened.drop_last();
        lemma_kept_through(early, at, setting, n);
        assert(early.take(at) =~= happened.take(at));
        law_what_is_kept_stays(after_all(early, setting), happened.last(), setting, n);
    }
}

proof fn lemma_may_happen_front(happened: Seq<Move>, at: int, setting: Setting)
    requires
        may_happen(happened, setting),
        0 <= at <= happened.len(),
    ensures
        may_happen(happened.take(at), setting),
    decreases happened.len(),
{
    if at == happened.len() {
        assert(happened.take(at) =~= happened);
    } else {
        lemma_may_happen_front(happened.drop_last(), at, setting);
        assert(happened.drop_last().take(at) =~= happened.take(at));
    }
}

/// Whether a move of the run is the sight of a file that brings an event.
pub open spec fn sight_brings(
    happened: Seq<Move>,
    at: int,
    sight: Sight,
    kind: EventKind,
    setting: Setting,
    event: Event,
) -> bool {
    &&& 0 <= at < happened.len()
    &&& happened[at] == Move::See(sight, kind)
    &&& seen(
        after_all(happened.take(at), setting).book,
        sight,
        kind,
        setting.platform,
        setting.paths,
        setting.config,
    ).1 == Some(event)
}

/// Whether a path is `<dir>/<name><suffix>`.
pub open spec fn is_file(path: Seq<char>, dir: Seq<char>, name: Seq<char>, suffix: Seq<char>) -> bool {
    parts(path) == inner(parts(dir), name + suffix)
}

proof fn lemma_submission_seen(
    happened: Seq<Move>,
    at: int,
    sight: Sight,
    kind: EventKind,
    setting: Setting,
    s: u32,
) -> (name: Seq<char>)
    requires
        may_happen(happened, setting),
        sight_brings(
            happened,
            at,
            sight,
            kind,
            setting,
            Event::TaskSubmitted { submission_id: SubmissionId(s) },
        ),
    ensures
        sight.content is Some,
        !name.contains('/'),
        is_file(sight.path, setting.paths.submissions_dir@, name, REQUEST_SUFFIX@),
        keeps_submission(
            after_all(happened, setting),
            s,
            Way::Directory(joined(setting.paths.submissions_dir@, name + REQUEST_SUFFIX@)),
            Job { content: sight.content->0, timeout: setting.config.default_task_timeout },
        ),
{
    let before = after_all(happened.take(at), setting);
    let front = happened.take(at + 1);
    lemma_may_happen_front(happened, at + 1, setting);
    assert(front.drop_last() =~= happened.take(at));
    assert(front.last() == happened[at]);
    let next = after_all(front, setting);
    let dir = setting.paths.submissions_dir@;
    let found = sight_category(sight, kind, setting.platform, setting.paths);
    match found {
        Some(Category::SubmissionRequest(name)) => {
            lemma_names(sight.path);
            let names = parts(sight.path).names;
            let last = names.last();
            assert(names[names.len() - 1] == last);
            crate::text::law_suffix_goes_back(last, REQUEST_SUFFIX@);
            assert(name + REQUEST_SUFFIX@ == last);
            assert forall|i: int| 0 <= i < name.len() implies name[i] != '/' by {
                assert(name[i] == last[i]);
                assert(last.contains(last[i]));
            }
            assert(inner(parts(dir), last).names =~= names);
            assert(keeps_submission(
                next,
                s,
                Way::Directory(joined(dir, name + REQUEST_SUFFIX@)),
                Job { content: sight.content->0, timeout: setting.config.default_task_timeout },
            ));
            lemma_kept_through(happened, at + 1, setting, s);
            name
        },
        _ => {
            assert(false);
            Seq::empty()
        },
    }
}

proof fn lemma_worker_seen(
    happened: Seq<Move>,
    at: int,
    sight: Sight,
    kind: EventKind,
    setting: Setting,
    w: u32,
) -> (uuid: Seq<char>)
    requires
        may_happen(happened, setting),
        sight_brings(
            happened,
            at,
            sight,
            kind,
            setting,
            Event::WorkerReady { worker_id: WorkerId(w) },
        ),
    ensures
        !uuid.contains('/'),
        is_file(sight.path, setting.paths.agents_dir@, uuid, READY_SUFFIX@),
        keeps_worker(
            after_all(happened, setting),
            w,
            Way::FlatFile { dir: setting.paths.agents_dir@, uuid },
        ),
{
    let before = after_all(happened.take(at), setting);
    let front = happened.take(at + 1);
    lemma_may_happen_front(happened, at + 1, setting);
    assert(front.drop_last() =~= happened.take(at));
    assert(front.last() == happened[at]);
    let next = after_all(front, setting);
    let dir = setting.paths.agents_dir@;
    let found = sight_category(sight, kind, setting.platform, setting.paths);
    match found {
        Some(Category::WorkerReady(uuid)) => {
            lemma_names(sight.path);
            let names = parts(sight.path).names;
            let last = names.last();
            assert(names[names.len() - 1] == last);
            crate::text::law_suffix_goes_back(last, READY_SUFFIX@);
            assert(uuid + READY_SUFFIX@ == last);
            assert forall|i: int| 0 <= i < uuid.len() implies uuid[i] != '/' by {
                assert(uuid[i] == last[i]);
                assert(last.contains(last[i]));
            }
            assert(inner(parts(dir), last).names =~= names);
            assert(keeps_worker(next, w, Way::FlatFile { dir, uuid }));
            lemma_kept_through(happened, at + 1, setting, w);
            uuid
        },
        _ => {
            assert(false);
            Seq::empty()
        },
    }
}

proof fn lemma_named(name: Seq<char>, suffix: Seq<char>)
    requires
        !name.contains('/'),
        !suffix.contains('/'),
        suffix.len() > 2,
    ensures
        plain_name(name + suffix),
{
    let whole = name + suffix;
    assert forall|i: int| 0 <= i < whole.len() implies whole[i] != '/' by {
        if i < name.len() {
            assert(name.contains(name[i]));
        } else {
            assert(suffix.contains(suffix[i - name.len()]));
        }
    }
    assert(seq!['.'].len() == 1);
}

/// A task that was submitted by a request file, and that a worker which reported by its ready
/// file is then given, whatever happened before, between and since: the worker's task file holds
/// the content of the request, word for word, and the worker has exactly the time that the
/// daemon was told to give to tasks.
pub proof fn law_request_reaches_the_worker(
    happened: Seq<Move>,
    setting: Setting,
    requested: int,
    request: Sight,
    request_kind: EventKind,
    s: u32,
    reported: int,
    ready: Sight,
    ready_kind: EventKind,
    w: u32,
    unique: Seq<char>,
)
    requires
        may_happen(happened, setting),
        sight_brings(
            happened,
            requested,
            request,
            request_kind,
            setting,
            Event::TaskSubmitted { submission_id: SubmissionId(s) },
        ),
        sight_brings(
            happened,
            reported,
            ready,
            ready_kind,
            setting,
            Event::WorkerReady { worker_id: WorkerId(w) },
        ),
        after_all(happened, setting).effects.len() > 0,
        after_all(happened, setting).effects[0] == (Effect::TaskAssigned {
            worker_id: WorkerId(w),
            task_id: TaskId::External(SubmissionId(s)),
        }),
    ensures
        ({
            let book = after_all(happened, setting).book;
            let effect = after_all(happened, setting).effects[0];
            &&& planned(
                effect,
                book.workers,
                book.submissions,
                book.done,
                setting.config,
                unique,
            ) matches Some(deeds)
            &&& deeds.len() == 2
            &&& deeds[0] matches Deed::WriteFile(write)
            &&& request.content == Some(write.content)
            &&& exists|uuid: Seq<char>|
                is_file(ready.path, setting.paths.agents_dir@, uuid, READY_SUFFIX@)
                    && #[trigger] is_file(
                    write.target,
                    setting.paths.agents_dir@,
                    uuid,
                    TASK_SUFFIX@,
                )
            &&& deeds[1] == (Deed::StartTaskTimer {
                worker_id: WorkerId(w),
                timeout: setting.config.default_task_timeout,
            })
        }),
{
    let daemon = after_all(happened, setting);
    let name = lemma_submission_seen(happened, requested, request, request_kind, setting, s);
    let uuid = lemma_worker_seen(happened, reported, ready, ready_kind, setting, w);
    law_daemon_never_meets_the_unknown(happened, setting);
    let dir = setting.paths.agents_dir@;
    law_assigned_task_is_handed_over(
        daemon.book.workers,
        daemon.book.submissions,
        daemon.book.done,
        setting.config,
        unique,
        WorkerId(w),
        SubmissionId(s),
        dir,
        uuid,
    );
    reveal_strlit(".task.json");
    assert(!TASK_SUFFIX@.contains('/'));
    lemma_named(uuid, TASK_SUFFIX@);
    law_join_adds_one_component(dir, uuid + TASK_SUFFIX@);
    assert(is_file(joined(dir, uuid + TASK_SUFFIX@), dir, uuid, TASK_SUFFIX@));
}

/// What the worker puts out in its response file comes back to whoever wrote the request: the
/// daemon reads that file, and the answer beside the request holds what was read, word for word.
pub proof fn law_answer_reaches_the_submitter(
    happened: Seq<Move>,
    setting: Setting,
    requested: int,
    request: Sight,
    request_kind: EventKind,
    s: u32,
    reported: int,
    ready: Sight,
    ready_kind: EventKind,
    w: u32,
    delivery: Delivery,
    output: Seq<char>,
    unique: Seq<char>,
)
    requires
        may_happen(happened, setting),
        sight_brings(
            happened,
            requested,
            request,
            request_kind,
            setting,
            Event::TaskSubmitted { submission_id: SubmissionId(s) },
        ),
        sight_brings(
            happened,
            reported,
            ready,
            ready_kind,
            setting,
            Event::WorkerReady { worker_id: WorkerId(w) },
        ),
        after_all(happened, setting).effects.len() > 0,
        after_all(happened, setting).effects[0] == (Effect::TaskCompleted {
            worker_id: WorkerId(w),
            task_id: TaskId::External(SubmissionId(s)),
        }),
        answers(
            Some(Ok::<Delivery, PoolError>(delivery)),
            after_all(happened, setting).effects[0],
            after_all(happened, setting).book.submissions,
            output,
            unique,
        ),
    ensures
        ({
            let book = after_all(happened, setting).book;
            let effect = after_all(happened, setting).effects[0];
            &&& output_path(effect, book.workers) matches Some(read)
            &&& exists|uuid: Seq<char>|
                is_file(ready.path, setting.paths.agents_dir@, uuid, READY_SUFFIX@)
                    && #[trigger] is_file(
                    read,
                    setting.paths.agents_dir@,
                    uuid,
                    WORKER_RESPONSE_SUFFIX@,
                )
            &&& delivery matches Delivery::File(write)
            &&& exists|name: Seq<char>|
                is_file(request.path, setting.paths.submissions_dir@, name, REQUEST_SUFFIX@)
                    && #[trigger] is_file(
                    write.target@,
                    setting.paths.submissions_dir@,
                    name,
                    RESPONSE_SUFFIX@,
                )
            &&& write.content@ == "{\"kind\":\"Processed\",\"stdout\":"@ + json_quoted(output)
                + "}"@
        }),
{
    let daemon = after_all(happened, setting);
    let effect = daemon.effects[0];
    let name = lemma_submission_seen(happened, requested, request, request_kind, setting, s);
    let uuid = lemma_worker_seen(happened, reported, ready, ready_kind, setting, w);
    law_daemon_never_meets_the_unknown(happened, setting);
    let agents = setting.paths.agents_dir@;
    let dir = setting.paths.submissions_dir@;
    let submissions = daemon.book.submissions;
    let cause = PoolError { kind: crate::error::ErrorKind::NotFound, message: arbitrary() };
    law_output_is_the_workers(effect, daemon.book.workers, cause, WorkerId(w), agents, uuid);
    law_answer_holds_the_output(delivery, WorkerId(w), SubmissionId(s), submissions, output, unique);
    law_answer_goes_where_the_task_came_from(
        delivery,
        effect,
        SubmissionId(s),
        submissions,
        output,
        unique,
        dir,
        name,
    );
    reveal_strlit(".response.json");
    assert(!RESPONSE_SUFFIX@.contains('/'));
    lemma_named(uuid, WORKER_RESPONSE_SUFFIX@);
    lemma_named(name, RESPONSE_SUFFIX@);
    law_join_adds_one_component(agents, uuid + WORKER_RESPONSE_SUFFIX@);
    law_join_adds_one_component(dir, name + RESPONSE_SUFFIX@);
    let read = output_path(effect, daemon.book.workers)->0;
    assert(is_file(read, agents, uuid, WORKER_RESPONSE_SUFFIX@));
    let write = delivery->File_0;
    assert(is_file(write.target@, dir, name, RESPONSE_SUFFIX@));
}

/// Whoever wrote a request whose worker took too long finds beside it that time was up.
pub proof fn law_failure_reaches_the_submitter(
    happened: Seq<Move>,
    setting: Setting,
    requested: int,
    request: Sight,
    request_kind: EventKind,
    s: u32,
    delivery: Delivery,
    output: Seq<char>,
    unique: Seq<char>,
)
    requires
        may_happen(happened, setting),
        sight_brings(
            happened,
            requested,
            request,
            request_kind,
            setting,
            Event::TaskSubmitted { submission_id: SubmissionId(s) },
        ),
        after_all(happened, setting).effects.len() > 0,
        after_all(happened, setting).effects[0] == (Effect::TaskFailed {
            submission_id: SubmissionId(s),
        }),
        answers(
            Some(Ok::<Delivery, PoolError>(delivery)),
            after_all(happened, setting).effects[0],
            after_all(happened, setting).book.submissions,
            output,
            unique,
        ),
    ensures
        ({
            &&& delivery matches Delivery::File(write)
            &&& exists|name: Seq<char>|
                is_file(request.path, setting.paths.submissions_dir@, name, REQUEST_SUFFIX@)
                    && #[trigger] is_file(
                    write.target@,
                    setting.paths.submissions_dir@,
                    name,
                    RESPONSE_SUFFIX@,
                )
            &&& write.content@ == "{\"kind\":\"NotProcessed\",\"reason\":\"timeout\"}"@
        }),
{
    let daemon = after_all(happened, setting);
    let effect = daemon.effects[0];
    let name = lemma_submission_seen(happened, requested, request, request_kind, setting, s);
    law_daemon_never_meets_the_unknown(happened, setting);
    let dir = setting.paths.submissions_dir@;
    let submissions = daemon.book.submissions;
    law_failure_says_timeout(delivery, SubmissionId(s), submissions, output, unique);
    law_answer_goes_where_the_task_came_from(
        delivery,
        effect,
        SubmissionId(s),
        submissions,
        output,
        unique,
        dir,
        name,
    );
    reveal_strlit(".response.json");
    assert(!RESPONSE_SUFFIX@.contains('/'));
    lemma_named(name, RESPONSE_SUFFIX@);
    law_join_adds_one_component(dir, name + RESPONSE_SUFFIX@);
    let write = delivery->File_0;
    assert(is_file(write.target@, dir, name, RESPONSE_SUFFIX@));
}

/// A task that came by a connection, and that a worker is then given: the worker's task file
/// holds what came, and the worker has exactly the time that the daemon was told to give to
/// tasks. Its answer goes back by that connection.
pub proof fn law_connection_task_reaches_the_worker(
    happened: Seq<Move>,
    setting: Setting,
    came: int,
    content: Seq<char>,
    connection: u64,
    reported: int,
    ready: Sight,
    ready_kind: EventKind,
    w: u32,
    unique: Seq<char>,
)
    requires
        may_happen(happened, setting),
        0 <= came < happened.len(),
        happened[came] == Move::Take(content, connection),
        sight_brings(
            happened,
            reported,
            ready,
            ready_kind,
            setting,
            Event::WorkerReady { worker_id: WorkerId(w) },
        ),
        after_all(happened, setting).effects.len() > 0,
        after_all(happened, setting).effects[0] == (Effect::TaskAssigned {
            worker_id: WorkerId(w),
            task_id: TaskId::External(
                SubmissionId(after_all(happened.take(came), setting).book.next_submission),
            ),
        }),
    ensures
        ({
            let book = after_all(happened, setting).book;
            let effect = after_all(happened, setting).effects[0];
            let s = after_all(happened.take(came), setting).book.next_submission;
            &&& planned(
                effect,
                book.workers,
                book.submissions,
                book.done,
                setting.config,
                unique,
            ) matches Some(deeds)
            &&& deeds.len() == 2
            &&& deeds[0] matches Deed::WriteFile(write)
            &&& write.content == content
            &&& deeds[1] == (Deed::StartTaskTimer {
                worker_id: WorkerId(w),
                timeout: setting.config.default_task_timeout,
            })
            &&& book.submissions.entries.contains_key(s)
            &&& book.submissions.entries[s].0 == Way::Socket(connection)
        }),
{
    let daemon = after_all(happened, setting);
    let before = after_all(happened.take(came), setting);
    let s = before.book.next_submission;
    let front = happened.take(came + 1);
    lemma_may_happen_front(happened, came + 1, setting);
    assert(front.drop_last() =~= happened.take(came));
    assert(front.last() == happened[came]);
    let next = after_all(front, setting);
    let job = Job { content, timeout: setting.config.default_task_timeout };
    assert(keeps_submission(next, s, Way::Socket(connection), job));
    lemma_kept_through(happened, came + 1, setting, s);
    let uuid = lemma_worker_seen(happened, reported, ready, ready_kind, setting, w);
    law_daemon_never_meets_the_unknown(happened, setting);
    law_assigned_task_is_handed_over(
        daemon.book.workers,
        daemon.book.submissions,
        daemon.book.done,
        setting.config,
        unique,
        WorkerId(w),
        SubmissionId(s),
        setting.paths.agents_dir@,
        uuid,
    );
}

/// The settings that the daemon is given are those that it works with.
pub proof fn law_settings_are_kept(config: super::wiring::DaemonConfig)
    ensures
        ({
            let kept = <IoConfig as vstd::std_specs::convert::FromSpec<
                super::wiring::DaemonConfig,
            >>::from_spec(config);
            &&& kept.default_task_timeout == config.default_task_timeout
            &&& kept.idle_timeout == config.idle_timeout
            &&& kept.heartbeat_enabled == config.heartbeat_enabled
        }),
{
}

} // verus!
