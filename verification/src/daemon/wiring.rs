//! How the daemon's parts hang together: what it makes of files that appear, of tasks that
//! come over the socket, and of the effects of the state machine.
use super::io::{
    IdAllocator, IoConfig, Plan, comes_to, done_after, effect_is_known, execute_effect, is_known,
    kicked_after, read_failure, submissions_after, tells_what_was_read, workers_after,
};
use super::machine::{Effect, Event, PoolState, SubmissionId, WorkerId, step};
use super::path_category::{Category, PathCategory, categorize, category};
use super::transports::{Job, SubmissionData, SubmissionMap, Table, WorkerMap};
use crate::constants::{
    AGENTS_DIR, LOCK_FILE, READY_SUFFIX, REQUEST_SUFFIX, RESPONSE_SUFFIX, SCRATCH_DIR, SOCKET_NAME,
    STATUS_FILE, SUBMISSIONS_DIR,
};
use crate::error::{ErrorKind, PoolError};
use crate::framing::{FrameError, message_in, read_frame};
use crate::fs_events::{EventKind, Platform};
use crate::ids::is_uuid;
use crate::path::{
    Parts, inner, join, joined, law_join_adds_one_component, outer, parent, parts, plain_name,
};
use crate::path_map::PathSet;
use crate::payload::Payload;
use crate::text::{concat2, concat3};
use crate::time::Duration;
use crate::transport::Way;
use std::collections::HashSet;
use vstd::prelude::*;

verus! {

broadcast use vstd::std_specs::hash::group_hash_axioms;

/// The daemon's settings, as its caller gives them.
#[derive(Debug, Clone, Copy, PartialEq, Eq, Structural)]
pub struct DaemonConfig {
    /// How long a worker may be idle before it gets a heartbeat.
    pub idle_timeout: Duration,
    /// How long a worker has for a task.
    pub default_task_timeout: Duration,
    /// Whether idle workers get heartbeats.
    pub heartbeat_enabled: bool,
}

impl Default for DaemonConfig {
    /// Three minutes idle, five minutes for a task, with heartbeats.
    fn default() -> (r: DaemonConfig)
        ensures
            r.idle_timeout.millis == 180_000,
            r.default_task_timeout.millis == 300_000,
            r.heartbeat_enabled,
    {
        DaemonConfig {
            idle_timeout: Duration::from_secs(180),
            default_task_timeout: Duration::from_secs(300),
            heartbeat_enabled: true,
        }
    }
}

impl From<DaemonConfig> for IoConfig {
    fn from(config: DaemonConfig) -> (r: IoConfig) {
        IoConfig {
            idle_timeout: config.idle_timeout,
            default_task_timeout: config.default_task_timeout,
            heartbeat_enabled: config.heartbeat_enabled,
        }
    }
}

impl vstd::std_specs::convert::FromSpecImpl<DaemonConfig> for IoConfig {
    open spec fn obeys_from_spec() -> bool {
        true
    }

    open spec fn from_spec(config: DaemonConfig) -> IoConfig {
        IoConfig {
            idle_timeout: config.idle_timeout,
            default_task_timeout: config.default_task_timeout,
            heartbeat_enabled: config.heartbeat_enabled,
        }
    }
}

/// Where the files of a pool lie.
#[derive(Debug, Clone, PartialEq, Eq)]
pub struct PoolPaths {
    /// The pool's directory.
    pub root: String,
    /// The lock file.
    pub lock: String,
    /// The socket.
    pub socket: String,
    /// The workers' files.
    pub agents_dir: String,
    /// The submissions' files.
    pub submissions_dir: String,
    /// Temporary files.
    pub scratch_dir: String,
    /// The status file.
    pub status: String,
}

impl PoolPaths {
    /// The paths of the pool at `root`.
    pub fn new(root: &str) -> (r: PoolPaths)
        ensures
            r.root@ == root@,
            r.lock@ == joined(root@, LOCK_FILE@),
            r.socket@ == joined(root@, SOCKET_NAME@),
            r.agents_dir@ == joined(root@, AGENTS_DIR@),
            r.submissions_dir@ == joined(root@, SUBMISSIONS_DIR@),
            r.scratch_dir@ == joined(root@, SCRATCH_DIR@),
            r.status@ == joined(root@, STATUS_FILE@),
    {
        PoolPaths {
            root: root.to_owned(),
            lock: join(root, LOCK_FILE),
            socket: join(root, SOCKET_NAME),
            agents_dir: join(root, AGENTS_DIR),
            submissions_dir: join(root, SUBMISSIONS_DIR),
            scratch_dir: join(root, SCRATCH_DIR),
            status: join(root, STATUS_FILE),
        }
    }
}

/// A file that something happened to, and what was found there.
#[derive(Debug, Clone, PartialEq, Eq)]
pub struct Observed {
    /// The file.
    pub path: String,
    /// Whether it is there.
    pub exists: bool,
    /// Its text, where it is the status file and can be read.
    pub status: Option<String>,
    /// The content of the task, where it is a request that can be read and resolved.
    pub content: Option<String>,
}

/// An observation's texts.
#[verifier::ext_equal]
pub struct Sight {
    /// The file.
    pub path: Seq<char>,
    /// Whether it is there.
    pub exists: bool,
    /// Its text, where it is the status file and can be read.
    pub status: Option<Seq<char>>,
    /// The content of the task, where it is a request that can be read and resolved.
    pub content: Option<Seq<char>>,
}

impl View for Observed {
    type V = Sight;

    open spec fn view(&self) -> Sight {
        Sight {
            path: self.path@,
            exists: self.exists,
            status: match self.status {
                Some(text) => Some(text@),
                None => None,
            },
            content: match self.content {
                Some(text) => Some(text@),
                None => None,
            },
        }
    }
}

/// The texts of a list of observations.
pub open spec fn sights(observed: Seq<Observed>) -> Seq<Sight> {
    Seq::new(observed.len(), |i: int| observed[i]@)
}

/// Something that the daemon's loop hears from.
#[derive(Debug, Clone, Copy, PartialEq, Eq, Structural)]
pub enum Channel {
    /// The watch on files.
    Files,
    /// The socket.
    Tasks,
    /// The state machine.
    Effects,
}

/// What the daemon's loop can still hear from.
#[derive(Debug, Clone, Copy, PartialEq, Eq, Structural)]
pub struct OpenChannels {
    /// The watch on files.
    pub files: bool,
    /// The socket.
    pub tasks: bool,
    /// The state machine.
    pub effects: bool,
}

impl OpenChannels {
    /// What can be heard from once nothing more comes from `channel`.
    pub open spec fn without(self, channel: Channel) -> OpenChannels {
        match channel {
            Channel::Files => OpenChannels { files: false, ..self },
            Channel::Tasks => OpenChannels { tasks: false, ..self },
            Channel::Effects => OpenChannels { effects: false, ..self },
        }
    }

    /// Whether anything can still be heard from.
    pub open spec fn any(self) -> bool {
        self.files || self.tasks || self.effects
    }
}

/// What the daemon keeps of workers, submissions and files.
pub struct IoState {
    /// The ways to the workers.
    pub worker_map: WorkerMap,
    /// The ways to the submitters.
    pub submission_map: SubmissionMap,
    /// Numbers for submissions.
    pub id_allocator: IdAllocator,
    /// The workers whose answer was seen and not yet taken.
    pub pending_responses: HashSet<u32>,
    /// The paths from which workers were removed.
    pub kicked_paths: PathSet,
    /// The workers that completed their task and were not yet removed.
    pub done: HashSet<u32>,
    /// What can still be heard from.
    pub open: OpenChannels,
}

/// An [`IoState`] as tables and sets.
#[verifier::ext_equal]
pub struct IoBook {
    /// The ways to the workers.
    pub workers: Table<()>,
    /// The ways to the submitters.
    pub submissions: Table<Job>,
    /// The number of the next submission.
    pub next_submission: u32,
    /// The workers whose answer was seen and not yet taken.
    pub pending: Set<u32>,
    /// The paths from which workers were removed.
    pub kicked: Set<Parts>,
    /// The workers that completed their task and were not yet removed.
    pub done: Set<u32>,
    /// What can still be heard from.
    pub open: OpenChannels,
}

impl View for IoState {
    type V = IoBook;

    open spec fn view(&self) -> IoBook {
        IoBook {
            workers: self.worker_map@,
            submissions: self.submission_map@,
            next_submission: self.id_allocator@,
            pending: self.pending_responses@,
            kicked: self.kicked_paths@,
            done: self.done@,
            open: self.open,
        }
    }
}

impl IoBook {
    /// Both tables keep the numbers of directories under their paths.
    pub open spec fn well_formed(self) -> bool {
        self.workers.well_formed() && self.submissions.well_formed()
    }

    /// So many more workers and submissions can be given numbers.
    pub open spec fn has_room(self, more: nat) -> bool {
        self.workers.next_id + more <= u32::MAX && self.next_submission + more <= u32::MAX
    }
}

/// What the daemon makes of a worker's ready file: a worker that it does not know yet is
/// kept and reported, unless the file is gone or a worker was removed from that path.
pub open spec fn ready_seen(book: IoBook, id: Seq<char>, path: Seq<char>, agents_dir: Seq<char>) -> (
    IoBook,
    Option<Event>,
) {
    if book.kicked.contains(parts(path)) || book.workers.paths.contains_key(parts(path)) {
        (book, None)
    } else {
        let number = book.workers.next_id;
        (
            IoBook {
                workers: book.workers.advanced().with_path(path, number).with_entry(
                    number,
                    Way::FlatFile { dir: agents_dir, uuid: id },
                    (),
                ),
                ..book
            },
            Some(Event::WorkerReady { worker_id: WorkerId(number) }),
        )
    }
}

/// What the daemon makes of a worker's answer: the answer of a worker that it knows is
/// reported once, until it is taken.
pub open spec fn response_seen(book: IoBook, id: Seq<char>, path: Seq<char>) -> (
    IoBook,
    Option<Event>,
) {
    let ready = inner(outer(parts(path)), id + READY_SUFFIX@);
    if book.kicked.contains(ready) || !book.workers.paths.contains_key(ready) {
        (book, None)
    } else {
        let number = book.workers.paths[ready];
        if book.pending.contains(number) {
            (book, None)
        } else {
            (
                IoBook { pending: book.pending.insert(number), ..book },
                Some(Event::WorkerResponded { worker_id: WorkerId(number) }),
            )
        }
    }
}

/// What the daemon makes of a request that it could read: it takes a number, and the
/// request is kept under it and reported, unless it is known already.
pub open spec fn request_seen(
    book: IoBook,
    id: Seq<char>,
    content: Seq<char>,
    submissions_dir: Seq<char>,
    config: IoConfig,
) -> (IoBook, Option<Event>) {
    let path = joined(submissions_dir, id + REQUEST_SUFFIX@);
    let number = book.next_submission;
    let counted = IoBook { next_submission: (number + 1) as u32, ..book };
    if book.submissions.paths.contains_key(parts(path)) {
        (counted, None)
    } else {
        (
            IoBook {
                submissions: book.submissions.with_path(path, number).with_entry(
                    number,
                    Way::Directory(path),
                    Job { content, timeout: config.default_task_timeout },
                ),
                ..counted
            },
            Some(Event::TaskSubmitted { submission_id: SubmissionId(number) }),
        )
    }
}

/// What kind of file an observation is of.
pub open spec fn sight_category(
    sight: Sight,
    kind: EventKind,
    platform: Platform,
    paths: PoolPaths,
) -> Option<Category> {
    category(
        sight.path,
        kind,
        platform,
        paths.root@,
        paths.agents_dir@,
        paths.submissions_dir@,
        sight.status,
    )
}

/// What the daemon makes of a file that something happened to.
pub open spec fn seen(
    book: IoBook,
    sight: Sight,
    kind: EventKind,
    platform: Platform,
    paths: PoolPaths,
    config: IoConfig,
) -> (IoBook, Option<Event>) {
    match sight_category(sight, kind, platform, paths) {
        Some(Category::WorkerReady(id)) => if sight.exists {
            ready_seen(book, id, sight.path, paths.agents_dir@)
        } else {
            (book, None)
        },
        Some(Category::WorkerResponse(id)) => if sight.exists {
            response_seen(book, id, sight.path)
        } else {
            (book, None)
        },
        Some(Category::SubmissionRequest(id)) => match sight.content {
            Some(content) => if sight.exists {
                request_seen(book, id, content, paths.submissions_dir@, config)
            } else {
                (book, None)
            },
            None => (book, None),
        },
        _ => (book, None),
    }
}

/// How many of the observations count: all before the first that asks to stop.
pub open spec fn sights_that_count(
    all: Seq<Sight>,
    kind: EventKind,
    platform: Platform,
    paths: PoolPaths,
) -> nat
    decreases all.len(),
{
    if all.len() == 0 || sight_category(all[0], kind, platform, paths) == Some(Category::Stop) {
        0
    } else {
        1 + sights_that_count(all.skip(1), kind, platform, paths)
    }
}

/// What the daemon makes of files that something happened to, one after the other: what it
/// keeps then, and what it reports.
pub open spec fn all_seen(
    book: IoBook,
    all: Seq<Sight>,
    kind: EventKind,
    platform: Platform,
    paths: PoolPaths,
    config: IoConfig,
) -> (IoBook, Seq<Event>)
    decreases all.len(),
{
    if all.len() == 0 {
        (book, Seq::empty())
    } else {
        let before = all_seen(book, all.drop_last(), kind, platform, paths, config);
        let (after, event) = seen(before.0, all.last(), kind, platform, paths, config);
        (
            after,
            match event {
                Some(event) => before.1.push(event),
                None => before.1,
            },
        )
    }
}

/// What a task that came over the socket comes to: it is kept under the number under which
/// it is reported.
pub open spec fn task_came(book: IoBook, content: Seq<char>, connection: u64, config: IoConfig) -> (
    IoBook,
    Event,
) {
    let number = book.next_submission;
    (
        IoBook {
            next_submission: (number + 1) as u32,
            submissions: book.submissions.with_entry(
                number,
                Way::Socket(connection),
                Job { content, timeout: config.default_task_timeout },
            ),
            ..book
        },
        Event::TaskSubmitted { submission_id: SubmissionId(number) },
    )
}

/// What an effect does to what the daemon keeps.
pub open spec fn effect_done(book: IoBook, effect: Effect) -> IoBook {
    IoBook {
        workers: workers_after(effect, book.workers),
        submissions: submissions_after(effect, book.submissions),
        kicked: kicked_after(effect, book.workers, book.kicked),
        done: done_after(effect, book.done),
        pending: match effect {
            Effect::TaskCompleted { worker_id, task_id } => book.pending.remove(worker_id.0),
            _ => book.pending,
        },
        ..book
    }
}

/// What is kept after an effect, where `output` is what came of reading for it: where that
/// failed, only the worker's answer is no longer awaited.
pub open spec fn effect_met(
    book: IoBook,
    effect: Effect,
    output: Result<String, PoolError>,
) -> IoBook {
    let done = effect_done(book, effect);
    if read_failure(effect, output) is Some {
        IoBook { pending: done.pending, ..book }
    } else {
        done
    }
}

impl IoState {
    /// Nothing is kept yet.
    pub fn new() -> (r: IoState)
        ensures
            r@.well_formed(),
            r@.workers.entries == Map::<u32, (Way, ())>::empty(),
            r@.workers.paths == Map::<Parts, u32>::empty(),
            r@.workers.next_id == 0,
            r@.submissions.entries == Map::<u32, (Way, Job)>::empty(),
            r@.submissions.paths == Map::<Parts, u32>::empty(),
            r@.next_submission == 0,
            r@.pending == Set::<u32>::empty(),
            r@.kicked == Set::<Parts>::empty(),
            r@.done == Set::<u32>::empty(),
            r@.open == (OpenChannels { files: true, tasks: true, effects: true }),
    {
        IoState {
            worker_map: WorkerMap::new(),
            submission_map: SubmissionMap::new(),
            id_allocator: IdAllocator::new(),
            pending_responses: HashSet::new(),
            kicked_paths: PathSet::new(),
            done: HashSet::new(),
            open: OpenChannels { files: true, tasks: true, effects: true },
        }
    }

    /// What to make of a worker's ready file that is there.
    fn handle_worker_ready_file(&mut self, uuid: &str, ready_path: &str, agents_dir: &str) -> (r:
        Option<Event>)
        requires
            old(self)@.well_formed(),
            old(self)@.workers.next_id < u32::MAX,
        ensures
            (final(self)@, r) == ready_seen(old(self)@, uuid@, ready_path@, agents_dir@),
            final(self)@.well_formed(),
    {
        if self.kicked_paths.contains(ready_path) {
            return None;
        }
        if self.worker_map.get_id_by_path(ready_path).is_some() {
            return None;
        }
        match self.worker_map.register_flat_file(
            ready_path.to_owned(),
            agents_dir.to_owned(),
            uuid.to_owned(),
            (),
        ) {
            Some(worker_id) => {
                assert(self@ == ready_seen(old(self)@, uuid@, ready_path@, agents_dir@).0);
                Some(Event::WorkerReady { worker_id })
            },
            None => None,
        }
    }

    /// What to make of a worker's answer that is there.
    fn handle_worker_response_file(&mut self, uuid: &str, response_path: &str) -> (r: Option<Event>)
        requires
            old(self)@.well_formed(),
            parts(response_path@).names.len() > 0,
            !uuid@.contains('/'),
        ensures
            (final(self)@, r) == response_seen(old(self)@, uuid@, response_path@),
            final(self)@.well_formed(),
    {
        let dir = match parent(response_path) {
            Some(dir) => dir,
            None => {
                return None;
            },
        };
        let name = concat2(uuid, READY_SUFFIX);
        let ready_path = join(&dir, &name);
        proof {
            lemma_ready_name(uuid@);
            law_join_adds_one_component(dir@, name@);
        }
        if self.kicked_paths.contains(&ready_path) {
            return None;
        }
        match self.worker_map.get_id_by_path(&ready_path) {
            Some(worker_id) => {
                if self.pending_responses.insert(worker_id.0) {
                    assert(self@ == response_seen(old(self)@, uuid@, response_path@).0);
                    Some(Event::WorkerResponded { worker_id })
                } else {
                    assert(self@.pending =~= old(self)@.pending);
                    None
                }
            },
            None => None,
        }
    }

    /// What to make of a request that is there and could be read.
    pub fn register_submission(
        &mut self,
        id: &str,
        content: &str,
        submissions_dir: &str,
        config: &IoConfig,
    ) -> (r: Option<Event>)
        requires
            old(self)@.well_formed(),
            old(self)@.next_submission < u32::MAX,
        ensures
            (final(self)@, r) == request_seen(
                old(self)@,
                id@,
                content@,
                submissions_dir@,
                *config,
            ),
            final(self)@.well_formed(),
    {
        let request_path = join(submissions_dir, &concat2(id, REQUEST_SUFFIX));
        let submission_id = self.id_allocator.allocate_submission();
        let data = SubmissionData {
            content: content.to_owned(),
            timeout: config.default_task_timeout,
        };
        let fresh = self.submission_map.register(submission_id, request_path, data);
        proof {
            let want = request_seen(old(self)@, id@, content@, submissions_dir@, *config);
            assert(self@ == want.0);
        }
        if fresh {
            Some(Event::TaskSubmitted { submission_id })
        } else {
            None
        }
    }

    /// What to make of a file that something happened to; `true` where it asks to stop.
    fn handle_path(
        &mut self,
        observed: &Observed,
        kind: EventKind,
        platform: Platform,
        paths: &PoolPaths,
        config: &IoConfig,
    ) -> (r: (Option<Event>, bool))
        requires
            old(self)@.well_formed(),
            old(self)@.has_room(1),
        ensures
            (final(self)@, r.0) == seen(old(self)@, observed@, kind, platform, *paths, *config),
            r.1 == (sight_category(observed@, kind, platform, *paths) == Some(Category::Stop)),
            final(self)@.well_formed(),
    {
        let status = match &observed.status {
            Some(text) => Some(text.as_str()),
            None => None,
        };
        let found = categorize(
            &observed.path,
            kind,
            platform,
            &paths.root,
            &paths.agents_dir,
            &paths.submissions_dir,
            status,
        );
        match found {
            Some(PathCategory::WorkerReady { id }) => {
                if observed.exists {
                    (self.handle_worker_ready_file(&id, &observed.path, &paths.agents_dir), false)
                } else {
                    (None, false)
                }
            },
            Some(PathCategory::WorkerResponse { id }) => {
                if observed.exists {
                    proof {
                        lemma_response_name(observed.path@, paths.agents_dir@, id@);
                    }
                    (self.handle_worker_response_file(&id, &observed.path), false)
                } else {
                    (None, false)
                }
            },
            Some(PathCategory::SubmissionRequest { id }) => {
                match &observed.content {
                    Some(content) => {
                        if observed.exists {
                            (
                                self.register_submission(
                                    &id,
                                    content,
                                    &paths.submissions_dir,
                                    config,
                                ),
                                false,
                            )
                        } else {
                            (None, false)
                        }
                    },
                    None => (None, false),
                }
            },
            Some(PathCategory::Stop) => (None, true),
            None => (None, false),
        }
    }

    /// What to make of files that something happened to: what is reported to the state
    /// machine, and whether to go on. The first that asks to stop ends it.
    pub fn handle_fs_event(
        &mut self,
        kind: EventKind,
        platform: Platform,
        observed: &Vec<Observed>,
        paths: &PoolPaths,
        config: &IoConfig,
    ) -> (r: (Vec<Event>, bool))
        requires
            old(self)@.well_formed(),
            old(self)@.has_room(observed@.len()),
        ensures
            ({
                let all = sights(observed@);
                let count = sights_that_count(all, kind, platform, *paths);
                &&& (final(self)@, r.0@) == all_seen(
                    old(self)@,
                    all.take(count as int),
                    kind,
                    platform,
                    *paths,
                    *config,
                )
                &&& r.1 == (count == all.len())
            }),
            final(self)@.well_formed(),
    {
        let ghost all = sights(observed@);
        let ghost count = sights_that_count(all, kind, platform, *paths);
        let ghost start = self@;
        let mut events: Vec<Event> = Vec::new();
        let mut i: usize = 0;
        proof {
            assert(all.skip(0) =~= all);
            assert(all.take(0) =~= Seq::empty());
            lemma_count(all, kind, platform, *paths);
        }
        while i < observed.len()
            invariant
                i <= observed@.len(),
                all == sights(observed@),
                start == old(self)@,
                start.has_room(observed@.len()),
                self@.well_formed(),
                self@.workers.next_id <= start.workers.next_id + i,
                self@.next_submission <= start.next_submission + i,
                count == sights_that_count(all, kind, platform, *paths),
                count == i + sights_that_count(all.skip(i as int), kind, platform, *paths),
                (self@, events@) == all_seen(
                    start,
                    all.take(i as int),
                    kind,
                    platform,
                    *paths,
                    *config,
                ),
            decreases observed@.len() - i,
        {
            proof {
                assert(all.skip(i as int).skip(1) =~= all.skip(i + 1));
                assert(all.skip(i as int)[0] == observed@[i as int]@);
                assert(all.take(i + 1).drop_last() =~= all.take(i as int));
                assert(all.take(i + 1).last() == observed@[i as int]@);
            }
            let (event, stop) = self.handle_path(&observed[i], kind, platform, paths, config);
            if stop {
                return (events, false);
            }
            if let Some(event) = event {
                events.push(event);
            }
            i += 1;
        }
        assert(all.skip(i as int) =~= Seq::empty());
        (events, true)
    }

    /// What to make of a task that came over the socket: it is kept, under the number under
    /// which it is reported.
    pub fn handle_socket_task(&mut self, content: &str, connection: u64, config: &IoConfig) -> (r:
        Event)
        requires
            old(self)@.well_formed(),
            old(self)@.next_submission < u32::MAX,
        ensures
            (final(self)@, r) == task_came(old(self)@, content@, connection, *config),
            final(self)@.well_formed(),
    {
        let submission_id = self.id_allocator.allocate_submission();
        let data = SubmissionData {
            content: content.to_owned(),
            timeout: config.default_task_timeout,
        };
        self.submission_map.register_socket_as(submission_id, connection, data);
        assert(self@ == task_came(old(self)@, content@, connection, *config).0);
        Event::TaskSubmitted { submission_id }
    }

    /// Carries out an effect of the state machine, where `output` is what came of reading for
    /// it.
    pub fn handle_effect(
        &mut self,
        effect: Effect,
        output: &Result<String, PoolError>,
        config: &IoConfig,
    ) -> (r: Result<Plan, PoolError>)
        requires
            old(self)@.well_formed(),
            is_known(effect, old(self)@.workers, old(self)@.submissions),
        ensures
            exists|unique: Seq<char>|
                is_uuid(unique) && #[trigger] comes_to(
                    r,
                    effect,
                    old(self)@.workers,
                    old(self)@.submissions,
                    old(self)@.done,
                    *config,
                    *output,
                    unique,
                ),
            tells_what_was_read(r, effect, old(self)@.submissions, *output),
            final(self)@ == effect_met(old(self)@, effect, *output),
            final(self)@.well_formed(),
    {
        if let Effect::TaskCompleted { worker_id, task_id } = effect {
            self.pending_responses.remove(&worker_id.0);
        }
        let r = execute_effect(
            effect,
            &mut self.worker_map,
            &mut self.submission_map,
            &mut self.kicked_paths,
            &mut self.done,
            config,
            output,
        );
        assert(self@ == effect_met(old(self)@, effect, *output));
        r
    }

    /// Takes notice that nothing more comes from a channel; says whether anything can still be
    /// heard from.
    pub fn close(&mut self, channel: Channel) -> (r: bool)
        ensures
            final(self)@ == (IoBook { open: old(self)@.open.without(channel), ..old(self)@ }),
            r == old(self)@.open.without(channel).any(),
    {
        match channel {
            Channel::Files => {
                self.open.files = false;
            },
            Channel::Tasks => {
                self.open.tasks = false;
            },
            Channel::Effects => {
                self.open.effects = false;
            },
        }
        self.open.files || self.open.tasks || self.open.effects
    }
}

/// Something that reaches the daemon's loop.
#[derive(Debug, PartialEq, Eq)]
pub enum IoInput {
    /// Something happened to files.
    Files {
        /// What happened.
        kind: EventKind,
        /// The files, and what was found there.
        observed: Vec<Observed>,
    },
    /// A task came over the socket; its content, if it could be resolved.
    Task {
        /// The content of the task.
        content: Option<String>,
        /// The connection that it came over.
        connection: u64,
    },
    /// The state machine asks for something.
    Effect {
        /// What it asks for.
        effect: Effect,
        /// What came of reading the file that is read for it, if one is.
        output: Result<String, PoolError>,
    },
    /// Nothing more can come from one of the three.
    Closed(Channel),
}

/// What the daemon's loop does with an input.
#[derive(Debug, PartialEq, Eq)]
pub enum IoOutput {
    /// Report these events to the state machine and go on.
    Report(Vec<Event>),
    /// Do these things and go on.
    Perform(Plan),
    /// Report these events to the state machine and end the loop.
    Stop(Vec<Event>),
    /// End the loop with an error.
    Fail(PoolError),
}

/// What an effect came to, by what the loop does with it.
pub open spec fn outcome(output: IoOutput) -> Option<Result<Plan, PoolError>> {
    match output {
        IoOutput::Perform(plan) => Some(Ok(plan)),
        IoOutput::Fail(error) => Some(Err(error)),
        _ => None,
    }
}

impl IoState {
    /// Whether an input can be taken: its effect can be carried out, and there are numbers left
    /// for what it brings.
    pub open spec fn takes(self, input: IoInput) -> bool {
        match input {
            IoInput::Files { kind, observed } => self@.has_room(observed@.len()),
            IoInput::Task { content, connection } => self@.next_submission < u32::MAX,
            IoInput::Effect { effect, output } => is_known(
                effect,
                self@.workers,
                self@.submissions,
            ),
            IoInput::Closed(channel) => true,
        }
    }

    /// Whether an input can be taken.
    pub fn can_take(&self, input: &IoInput) -> (r: bool)
        ensures
            r == self.takes(*input),
    {
        match input {
            IoInput::Files { kind, observed } => {
                let more = observed.len();
                more <= u32::MAX as usize && more as u32 <= self.worker_map.numbers_left()
                    && more as u32 <= self.id_allocator.numbers_left()
            },
            IoInput::Task { content, connection } => self.id_allocator.numbers_left() > 0,
            IoInput::Effect { effect, output } => effect_is_known(
                *effect,
                &self.worker_map,
                &self.submission_map,
            ),
            IoInput::Closed(channel) => true,
        }
    }

    /// One round of the daemon's loop. It ends where a file asks to stop, where an effect
    /// fails, and where nothing can be heard from any more.
    pub fn io_loop_step(
        &mut self,
        input: &IoInput,
        platform: Platform,
        paths: &PoolPaths,
        config: &IoConfig,
    ) -> (r: IoOutput)
        requires
            old(self)@.well_formed(),
            old(self).takes(*input),
        ensures
            final(self)@.well_formed(),
            match input {
                IoInput::Files { kind, observed } => {
                    let all = sights(observed@);
                    let count = sights_that_count(all, *kind, platform, *paths);
                    let (book, reported) = all_seen(
                        old(self)@,
                        all.take(count as int),
                        *kind,
                        platform,
                        *paths,
                        *config,
                    );
                    &&& final(self)@ == book
                    &&& match r {
                        IoOutput::Report(events) => count == all.len() && events@ == reported,
                        IoOutput::Stop(events) => count < all.len() && events@ == reported,
                        _ => false,
                    }
                },
                IoInput::Task { content, connection } => match content {
                    Some(content) => {
                        let (book, event) = task_came(
                            old(self)@,
                            content@,
                            *connection,
                            *config,
                        );
                        &&& final(self)@ == book
                        &&& r matches IoOutput::Report(events) && events@ == seq![event]
                    },
                    None => {
                        &&& final(self)@ == old(self)@
                        &&& r matches IoOutput::Report(events) && events@.len() == 0
                    },
                },
                IoInput::Effect { effect, output } => {
                    &&& final(self)@ == effect_met(old(self)@, *effect, *output)
                    &&& outcome(r) is Some
                    &&& tells_what_was_read(
                        outcome(r)->0,
                        *effect,
                        old(self)@.submissions,
                        *output,
                    )
                    &&& exists|unique: Seq<char>|
                        is_uuid(unique) && #[trigger] comes_to(
                            outcome(r)->0,
                            *effect,
                            old(self)@.workers,
                            old(self)@.submissions,
                            old(self)@.done,
                            *config,
                            *output,
                            unique,
                        )
                },
                IoInput::Closed(channel) => {
                    let left = old(self)@.open.without(*channel);
                    &&& final(self)@ == (IoBook { open: left, ..old(self)@ })
                    &&& match r {
                        IoOutput::Report(events) => left.any() && events@.len() == 0,
                        IoOutput::Stop(events) => !left.any() && events@.len() == 0,
                        _ => false,
                    }
                },
            },
    {
        match input {
            IoInput::Files { kind, observed } => {
                let (events, go_on) = self.handle_fs_event(
                    *kind,
                    platform,
                    observed,
                    paths,
                    config,
                );
                proof {
                    lemma_count(sights(observed@), *kind, platform, *paths);
                }
                if go_on {
                    IoOutput::Report(events)
                } else {
                    IoOutput::Stop(events)
                }
            },
            IoInput::Task { content, connection } => {
                let mut events: Vec<Event> = Vec::new();
                if let Some(content) = content {
                    let event = self.handle_socket_task(content, *connection, config);
                    events.push(event);
                    assert(events@ =~= seq![event]);
                }
                IoOutput::Report(events)
            },
            IoInput::Effect { effect, output } => {
                let result = self.handle_effect(*effect, output, config);
                let ghost came = result;
                let r = match result {
                    Ok(plan) => IoOutput::Perform(plan),
                    Err(error) => IoOutput::Fail(error),
                };
                proof {
                    let before = old(self)@;
                    let unique = choose|unique: Seq<char>|
                        is_uuid(unique) && #[trigger] comes_to(
                            came,
                            *effect,
                            before.workers,
                            before.submissions,
                            before.done,
                            *config,
                            *output,
                            unique,
                        );
                    assert(outcome(r) == Some(came));
                    assert(comes_to(
                        outcome(r)->0,
                        *effect,
                        before.workers,
                        before.submissions,
                        before.done,
                        *config,
                        *output,
                        unique,
                    ));
                }
                r
            },
            IoInput::Closed(channel) => {
                if self.close(*channel) {
                    IoOutput::Report(Vec::new())
                } else {
                    IoOutput::Stop(Vec::new())
                }
            },
        }
    }
}

/// Runs the state machine over a list of events, from an empty pool: the pool at the end,
/// and all effects in order.
pub fn run_event_loop(events: &Vec<Event>) -> (r: (PoolState, Vec<Effect>))
    requires
        super::machine_laws::may_run(super::machine::empty_pool(), events@),
    ensures
        r.0.well_formed(),
        (r.0@, r.1@) == super::machine_laws::run(super::machine::empty_pool(), events@),
{
    let mut state = PoolState::new();
    let mut effects: Vec<Effect> = Vec::new();
    let mut i: usize = 0;
    let ghost empty = super::machine::empty_pool();
    assert(events@.take(0) =~= Seq::empty());
    while i < events.len()
        invariant
            i <= events@.len(),
            empty == super::machine::empty_pool(),
            super::machine_laws::may_run(empty, events@),
            state.well_formed(),
            (state@, effects@) == super::machine_laws::run(empty, events@.take(i as int)),
        decreases events@.len() - i,
    {
        proof {
            super::machine_laws::lemma_may_run_front(empty, events@, i + 1);
            assert(events@.take(i + 1).drop_last() =~= events@.take(i as int));
        }
        let (next, mut asked) = step(state, events[i]);
        state = next;
        effects.append(&mut asked);
        i += 1;
    }
    assert(events@.take(i as int) =~= events@);
    (state, effects)
}

/// What came of a connection: the task, nothing where it is no message, or an error where
/// reading failed.
pub fn accept_socket_task(bytes: &Vec<u8>) -> (r: Result<Option<String>, PoolError>)
    ensures
        match message_in(bytes@) {
            Ok(content) => r matches Ok(Some(task)) && task@ == content,
            Err(FrameError::BadLength) => r == Ok::<Option<String>, PoolError>(None),
            Err(FrameError::NotText) => r == Ok::<Option<String>, PoolError>(None),
            Err(FrameError::LineNotText) => r matches Err(error) && error.says(
                ErrorKind::InvalidData,
                "stream did not contain valid UTF-8"@,
            ),
            Err(FrameError::Short) => r matches Err(error) && error.says(
                ErrorKind::UnexpectedEof,
                "failed to fill whole buffer"@,
            ),
        },
{
    match read_frame(bytes) {
        Ok(content) => Ok(Some(content)),
        Err(FrameError::BadLength) => Ok(None),
        Err(FrameError::NotText) => Ok(None),
        Err(FrameError::LineNotText) => Err(
            PoolError::new(ErrorKind::InvalidData, "stream did not contain valid UTF-8"),
        ),
        Err(FrameError::Short) => Err(
            PoolError::new(ErrorKind::UnexpectedEof, "failed to fill whole buffer"),
        ),
    }
}

/// Where the content of a task is.
#[derive(Debug, Clone, PartialEq, Eq)]
pub enum ContentSource {
    /// Here.
    Here(String),
    /// In a file.
    File(String),
}

/// Where the content of a payload is; `parsed` is the payload, or what is said of a text
/// that is none.
pub fn resolve_payload(parsed: Result<Payload, String>) -> (r: Result<ContentSource, PoolError>)
    ensures
        match parsed {
            Ok(Payload::Inline { content }) => r == Ok::<ContentSource, PoolError>(
                ContentSource::Here(content),
            ),
            Ok(Payload::FileReference { path }) => r == Ok::<ContentSource, PoolError>(
                ContentSource::File(path),
            ),
            Err(complaint) => r matches Err(error) && error.says(
                ErrorKind::InvalidData,
                "[E032] failed to parse payload JSON: "@ + complaint@,
            ),
        },
{
    match parsed {
        Ok(Payload::Inline { content }) => Ok(ContentSource::Here(content)),
        Ok(Payload::FileReference { path }) => Ok(ContentSource::File(path)),
        Err(complaint) => Err(
            PoolError {
                kind: ErrorKind::InvalidData,
                message: concat2("[E032] failed to parse payload JSON: ", &complaint),
            },
        ),
    }
}

/// What is said, before the cause, when the file of a payload cannot be read.
pub fn payload_file_error(path: &str) -> (r: String)
    ensures
        r@ == "[E033] failed to read payload file "@ + path@ + ": "@,
{
    concat3("[E033] failed to read payload file ", path, ": ")
}

proof fn lemma_count(all: Seq<Sight>, kind: EventKind, platform: Platform, paths: PoolPaths)
    ensures
        sights_that_count(all, kind, platform, paths) <= all.len(),
    decreases all.len(),
{
    if all.len() > 0 {
        lemma_count(all.skip(1), kind, platform, paths);
    }
}

proof fn lemma_ready_name(uuid: Seq<char>)
    requires
        !uuid.contains('/'),
    ensures
        plain_name(uuid + READY_SUFFIX@),
{
    reveal_strlit(".ready.json");
    let name = uuid + READY_SUFFIX@;
    assert forall|i: int| 0 <= i < name.len() implies name[i] != '/' by {
        if i < uuid.len() {
            assert(uuid.contains(uuid[i]));
        } else {
            assert(name[i] == READY_SUFFIX@[i - uuid.len()]);
        }
    }
    assert(name.len() > 1);
    assert(seq!['.'].len() == 1);
}

proof fn lemma_response_name(path: Seq<char>, agents_dir: Seq<char>, id: Seq<char>)
    requires
        crate::path::below(parts(path), parts(agents_dir)) is Some,
        super::path_category::agents_category(
            crate::path::below(parts(path), parts(agents_dir))->0,
        ) == Some(Category::WorkerResponse(id)),
    ensures
        parts(path).names.len() > 0,
        !id.contains('/'),
{
    crate::path::lemma_names(path);
    let name = parts(path).names.last();
    assert(parts(path).names[parts(path).names.len() - 1] == name);
    assert(!name.contains('/'));
    assert forall|i: int| 0 <= i < id.len() implies id[i] != '/' by {
        assert(id[i] == name[i]);
        assert(name.contains(name[i]));
    }
}

/// A file that is reported twice is taken notice of once: the second report of a worker's ready
/// file, of its answer, or of a request brings no event.
pub proof fn law_second_report_is_silent(
    book: IoBook,
    sight: Sight,
    kind: EventKind,
    platform: Platform,
    paths: PoolPaths,
    config: IoConfig,
)
    requires
        book.has_room(2),
    ensures
        seen(
            seen(book, sight, kind, platform, paths, config).0,
            sight,
            kind,
            platform,
            paths,
            config,
        ).1 is None,
{
    let (after, event) = seen(book, sight, kind, platform, paths, config);
    match sight_category(sight, kind, platform, paths) {
        Some(Category::SubmissionRequest(id)) => {
            if sight.exists && sight.content is Some && event is Some {
                let path = joined(paths.submissions_dir@, id + REQUEST_SUFFIX@);
                assert(after.submissions.paths.contains_key(parts(path)));
            }
        },
        _ => {},
    }
}

/// A flat-file worker that was removed is refused from then on: neither its ready file nor its
/// answer brings an event.
pub proof fn law_removed_worker_is_refused(
    book: IoBook,
    worker_id: WorkerId,
    agents_dir: Seq<char>,
    id: Seq<char>,
    ready_path: Seq<char>,
    response_path: Seq<char>,
)
    requires
        book.workers.entries.contains_key(worker_id.0),
        book.workers.entries[worker_id.0].0 == (Way::FlatFile { dir: agents_dir, uuid: id }),
        !id.contains('/'),
        parts(ready_path) == inner(parts(agents_dir), id + READY_SUFFIX@),
        parts(response_path) == inner(parts(agents_dir), id + RESPONSE_SUFFIX@),
    ensures
        ({
            let after = effect_done(book, Effect::WorkerRemoved { worker_id });
            &&& ready_seen(after, id, ready_path, agents_dir) == (after, None::<Event>)
            &&& response_seen(after, id, response_path) == (after, None::<Event>)
        }),
{
    let way = Way::FlatFile { dir: agents_dir, uuid: id };
    crate::transport::law_flat_files_are_the_protocols(agents_dir, id);
    lemma_ready_name(id);
    law_join_adds_one_component(agents_dir, id + READY_SUFFIX@);
    assert(outer(parts(response_path)) == parts(agents_dir)) by {
        assert(inner(parts(agents_dir), id + RESPONSE_SUFFIX@).names.drop_last()
            =~= parts(agents_dir).names);
    }
}

} // verus!
