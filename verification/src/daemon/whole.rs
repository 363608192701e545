//! The daemon as a whole: what its files, its state machine and its timers do together, in
//! whatever order, with what is on the way between them.
use super::io::{answered, is_known, request_id};
use super::machine::{
    effects_of, empty_pool, may_come, pool_after, Effect, Event, Pool, SubmissionId, TaskId,
    WorkerId,
};
use super::machine_laws::{
    consistent, knows, law_step_keeps_consistency, law_unknown_worker_stays_unknown, names_worker,
};
use super::transports::{Job, Table};
use super::wiring::{
    effect_done, ready_seen, request_seen, response_seen, seen, sight_category, task_came, IoBook,
    OpenChannels, PoolPaths, Sight,
};
use crate::fs_events::{EventKind, Platform};
use crate::transport::Way;
use vstd::prelude::*;

verus! {

/// The daemon: what it keeps, the state machine, the events that the machine has not yet
/// taken, and the effects that were not yet carried out.
#[verifier::ext_equal]
pub struct Daemon {
    /// What is kept of workers, submissions and files.
    pub book: IoBook,
    /// The state machine.
    pub pool: Pool,
    /// The events on the way to the state machine.
    pub events: Seq<Event>,
    /// The effects on the way from it.
    pub effects: Seq<Effect>,
}

/// What the daemon works with throughout.
pub struct Setting {
    /// The system that it runs on.
    pub platform: Platform,
    /// Where its files lie.
    pub paths: PoolPaths,
    /// Its settings.
    pub config: super::io::IoConfig,
}

/// Something that happens in the daemon.
pub enum Move {
    /// It takes notice of a file.
    See(Sight, EventKind),
    /// It takes a task that came by a connection.
    Take(Seq<char>, u64),
    /// The state machine takes the first event.
    Step,
    /// The first effect is carried out, and whoever it answers is answered.
    Carry,
    /// A timer of a worker runs out.
    Timer(Event),
}

/// The daemon when it starts.
pub open spec fn at_start() -> Daemon {
    Daemon {
        book: IoBook {
            workers: Table { entries: Map::empty(), paths: Map::empty(), next_id: 0 },
            submissions: Table { entries: Map::empty(), paths: Map::empty(), next_id: 0 },
            next_submission: 0,
            pending: Set::empty(),
            kicked: Set::empty(),
            done: Set::empty(),
            open: OpenChannels { files: true, tasks: true, effects: true },
        },
        pool: empty_pool(),
        events: Seq::empty(),
        effects: Seq::empty(),
    }
}

/// The submission that an effect names, if it does.
pub open spec fn named(effect: Effect) -> Option<SubmissionId> {
    match effect {
        Effect::TaskAssigned { worker_id, task_id: TaskId::External(submission_id) } => Some(
            submission_id,
        ),
        _ => answered(effect),
    }
}

/// Whether something can happen: there is an event or an effect to take, there are numbers
/// left, and timers report only what timers report.
pub open spec fn may_move(daemon: Daemon, happens: Move) -> bool {
    match happens {
        Move::See(sight, kind) => daemon.book.has_room(1),
        Move::Take(content, connection) => daemon.book.has_room(1),
        Move::Step => daemon.events.len() > 0,
        Move::Carry => daemon.effects.len() > 0,
        Move::Timer(event) => event is WorkerTimedOut || event is AssignHeartbeatIfIdle,
    }
}

/// The daemon when something has happened.
pub open spec fn moved(daemon: Daemon, happens: Move, setting: Setting) -> Daemon {
    match happens {
        Move::See(sight, kind) => {
            let (book, event) = seen(
                daemon.book,
                sight,
                kind,
                setting.platform,
                setting.paths,
                setting.config,
            );
            Daemon {
                book,
                events: match event {
                    Some(event) => daemon.events.push(event),
                    None => daemon.events,
                },
                ..daemon
            }
        },
        Move::Take(content, connection) => {
            let (book, event) = task_came(daemon.book, content, connection, setting.config);
            Daemon { book, events: daemon.events.push(event), ..daemon }
        },
        Move::Step => Daemon {
            pool: pool_after(daemon.pool, daemon.events[0]),
            events: daemon.events.drop_first(),
            effects: daemon.effects + effects_of(daemon.pool, daemon.events[0]),
            ..daemon
        },
        Move::Carry => Daemon {
            book: effect_done(daemon.book, daemon.effects[0]),
            effects: daemon.effects.drop_first(),
            ..daemon
        },
        Move::Timer(event) => Daemon { events: daemon.events.push(event), ..daemon },
    }
}

/// Whether the effect at this place names the worker.
pub open spec fn names_at(effects: Seq<Effect>, at: int, w: u32) -> bool {
    0 <= at < effects.len() && names_worker(effects[at], WorkerId(w))
}

/// Whether the effect at this place removes the worker.
pub open spec fn removes_at(effects: Seq<Effect>, at: int, w: u32) -> bool {
    0 <= at < effects.len() && effects[at] == (Effect::WorkerRemoved { worker_id: WorkerId(w) })
}

/// Whether the event at this place says that the worker is ready.
pub open spec fn ready_at(events: Seq<Event>, at: int, w: u32) -> bool {
    0 <= at < events.len() && events[at] == (Event::WorkerReady { worker_id: WorkerId(w) })
}

/// Each worker is ready once, is then known to the state machine, is then removed once, and
/// its way is kept all the while: nothing on the way names a worker whose way is gone.
pub open spec fn workers_sound(
    workers: Table<()>,
    pool: Pool,
    events: Seq<Event>,
    effects: Seq<Effect>,
) -> bool {
    let entries = workers.entries;
    &&& forall|w: u32| #[trigger]
        entries.contains_key(w) ==> w < workers.next_id && entries[w].0 is FlatFile
    &&& forall|k: int, w: u32| #[trigger]
        ready_at(events, k, w) ==> entries.contains_key(w) && !knows(
            pool,
            WorkerId(w),
        )
    &&& forall|k: int, e: int, w: u32|
        !(#[trigger] ready_at(events, k, w) && #[trigger] names_at(effects, e, w))
    &&& forall|k: int, l: int, w: u32| #[trigger]
        ready_at(events, k, w) && #[trigger] ready_at(events, l, w) ==> k == l
    &&& forall|w: u32| #[trigger]
        knows(pool, WorkerId(w)) ==> entries.contains_key(w)
    &&& forall|e: int, w: u32| #[trigger]
        removes_at(effects, e, w) ==> !knows(pool, WorkerId(w))
    &&& forall|e: int, w: u32| #[trigger]
        names_at(effects, e, w) ==> entries.contains_key(w)
    &&& forall|e: int, f: int, w: u32| #[trigger]
        removes_at(effects, e, w) && #[trigger] names_at(effects, f, w) ==> f <= e
}

/// Whether the state machine holds the submission: it waits, or a worker has it.
pub open spec fn holds(pool: Pool, s: u32) -> bool {
    pool.tasks.contains(SubmissionId(s)) || exists|w: u32| #[trigger] works_on(pool, w, s)
}

/// Whether the worker has the submission.
pub open spec fn works_on(pool: Pool, w: u32, s: u32) -> bool {
    pool.busy.contains_key(w) && pool.busy[w] == TaskId::External(SubmissionId(s))
}

/// Whether the effect at this place names the submission.
pub open spec fn task_at(effects: Seq<Effect>, at: int, s: u32) -> bool {
    0 <= at < effects.len() && named(effects[at]) == Some(SubmissionId(s))
}

/// Whether the effect at this place answers the submission.
pub open spec fn answer_at(effects: Seq<Effect>, at: int, s: u32) -> bool {
    0 <= at < effects.len() && answered(effects[at]) == Some(SubmissionId(s))
}

/// Whether the event at this place brings the submission.
pub open spec fn brought_at(events: Seq<Event>, at: int, s: u32) -> bool {
    0 <= at < events.len() && events[at] == (Event::TaskSubmitted {
        submission_id: SubmissionId(s),
    })
}

/// Whether the way to a submitter is one that can be answered by.
pub open spec fn answerable(way: Way) -> bool {
    match way {
        Way::Directory(request) => request_id(request) is Some,
        Way::Socket(connection) => true,
        Way::FlatFile { dir, uuid } => false,
    }
}

/// Each submission is brought once, is then held by the state machine in one place, is then
/// answered once, and the way to its submitter is kept all the while.
pub open spec fn submissions_sound(
    submissions: Table<Job>,
    next_submission: u32,
    pool: Pool,
    events: Seq<Event>,
    effects: Seq<Effect>,
) -> bool {
    let entries = submissions.entries;
    &&& forall|s: u32| #[trigger]
        entries.contains_key(s) ==> s < next_submission && answerable(entries[s].0)
    &&& forall|k: int, s: u32| #[trigger]
        brought_at(events, k, s) ==> entries.contains_key(s) && !holds(pool, s)
    &&& forall|k: int, e: int, s: u32|
        !(#[trigger] brought_at(events, k, s) && #[trigger] task_at(effects, e, s))
    &&& forall|k: int, l: int, s: u32| #[trigger]
        brought_at(events, k, s) && #[trigger] brought_at(events, l, s) ==> k == l
    &&& forall|s: u32| #[trigger] holds(pool, s) ==> entries.contains_key(s)
    &&& pool.tasks.no_duplicates()
    &&& forall|w: u32, s: u32| #[trigger]
        works_on(pool, w, s) ==> !pool.tasks.contains(SubmissionId(s))
    &&& forall|v: u32, w: u32, s: u32| #[trigger]
        works_on(pool, v, s) && #[trigger] works_on(pool, w, s) ==> v == w
    &&& forall|e: int, s: u32| #[trigger]
        answer_at(effects, e, s) ==> !holds(pool, s)
    &&& forall|e: int, s: u32| #[trigger]
        task_at(effects, e, s) ==> entries.contains_key(s)
    &&& forall|e: int, f: int, s: u32| #[trigger]
        answer_at(effects, e, s) && #[trigger] task_at(effects, f, s) ==> f <= e
}

/// No task is withdrawn: nothing in the daemon asks for that.
pub open spec fn no_withdrawals(events: Seq<Event>) -> bool {
    forall|k: int| 0 <= k < events.len() ==> !(#[trigger] events[k] is TaskWithdrawn)
}

/// What always holds of the daemon.
pub open spec fn sound(daemon: Daemon) -> bool {
    &&& consistent(daemon.pool)
    &&& daemon.book.well_formed()
    &&& no_withdrawals(daemon.events)
    &&& workers_sound(daemon.book.workers, daemon.pool, daemon.events, daemon.effects)
    &&& submissions_sound(
        daemon.book.submissions,
        daemon.book.next_submission,
        daemon.pool,
        daemon.events,
        daemon.effects,
    )
}

/// In a daemon of which all this holds the state machine can take its next event, the next
/// effect names only workers and submissions whose ways are kept, and whoever it answers can be
/// answered.
pub proof fn law_next_is_known(daemon: Daemon)
    requires
        sound(daemon),
    ensures
        daemon.events.len() > 0 ==> may_come(daemon.pool, daemon.events[0]),
        daemon.effects.len() > 0 ==> {
            &&& is_known(
                daemon.effects[0],
                daemon.book.workers,
                daemon.book.submissions,
            )
            &&& match answered(daemon.effects[0]) {
                Some(submission_id) => {
                    &&& daemon.book.submissions.entries.contains_key(submission_id.0)
                    &&& answerable(daemon.book.submissions.entries[submission_id.0].0)
                },
                None => true,
            }
        },
{
    if daemon.events.len() > 0 {
        match daemon.events[0] {
            Event::WorkerReady { worker_id } => {
                assert(ready_at(daemon.events, 0, worker_id.0));
                assert(WorkerId(worker_id.0) == worker_id);
            },
            _ => {},
        }
    }
    if daemon.effects.len() > 0 {
        let effect = daemon.effects[0];
        match effect {
            Effect::TaskAssigned { worker_id, task_id } => {
                assert(names_at(daemon.effects, 0, worker_id.0));
                match task_id {
                    TaskId::External(submission_id) => {
                        assert(task_at(daemon.effects, 0, submission_id.0));
                    },
                    TaskId::Heartbeat => {},
                }
            },
            Effect::TaskCompleted { worker_id, task_id } => {
                assert(names_at(daemon.effects, 0, worker_id.0));
                match task_id {
                    TaskId::External(submission_id) => {
                        assert(task_at(daemon.effects, 0, submission_id.0));
                    },
                    TaskId::Heartbeat => {},
                }
            },
            Effect::WorkerRemoved { worker_id } => {
                assert(names_at(daemon.effects, 0, worker_id.0));
            },
            Effect::TaskFailed { submission_id } => {
                assert(task_at(daemon.effects, 0, submission_id.0));
            },
            Effect::WorkerWaiting { worker_id } => {},
        }
    }
}

proof fn lemma_push_event_workers(daemon: Daemon, event: Event)
    requires
        workers_sound(daemon.book.workers, daemon.pool, daemon.events, daemon.effects),
        !(event is WorkerReady),
    ensures
        workers_sound(
            daemon.book.workers,
            daemon.pool,
            daemon.events.push(event),
            daemon.effects,
        ),
{
    let next = Daemon { events: daemon.events.push(event), ..daemon };
    assert forall|k: int, w: u32| #[trigger] ready_at(next.events, k, w) implies ready_at(
        daemon.events,
        k,
        w,
    ) by {}
}

proof fn lemma_push_event_submissions(daemon: Daemon, event: Event)
    requires
        submissions_sound(
            daemon.book.submissions,
            daemon.book.next_submission,
            daemon.pool,
            daemon.events,
            daemon.effects,
        ),
        !(event is TaskSubmitted),
    ensures
        submissions_sound(
            daemon.book.submissions,
            daemon.book.next_submission,
            daemon.pool,
            daemon.events.push(event),
            daemon.effects,
        ),
{
    let next = Daemon { events: daemon.events.push(event), ..daemon };
    assert forall|k: int, s: u32| #[trigger] brought_at(next.events, k, s) implies brought_at(
        daemon.events,
        k,
        s,
    ) by {}
}

proof fn lemma_new_worker(daemon: Daemon, path: Seq<char>, way: Way)
    requires
        workers_sound(daemon.book.workers, daemon.pool, daemon.events, daemon.effects),
        daemon.book.workers.well_formed(),
        daemon.book.workers.next_id < u32::MAX,
        way is FlatFile,
    ensures
        ({
            let number = daemon.book.workers.next_id;
            let workers = daemon.book.workers.advanced().with_path(path, number).with_entry(
                number,
                way,
                (),
            );
            workers_sound(
                workers,
                daemon.pool,
                daemon.events.push(Event::WorkerReady { worker_id: WorkerId(number) }),
                daemon.effects,
            )
        }),
{
    let number = daemon.book.workers.next_id;
    let event = Event::WorkerReady { worker_id: WorkerId(number) };
    let workers = daemon.book.workers.advanced().with_path(path, number).with_entry(number, way, ());
    let next = Daemon {
        book: IoBook { workers, ..daemon.book },
        events: daemon.events.push(event),
        ..daemon
    };
    assert(!daemon.book.workers.entries.contains_key(number));
    assert forall|k: int, w: u32| #[trigger] ready_at(next.events, k, w) implies (ready_at(
        daemon.events,
        k,
        w,
    ) && w != number) || (k == daemon.events.len() && w == number) by {
        if k < daemon.events.len() {
            assert(ready_at(daemon.events, k, w));
            assert(daemon.book.workers.entries.contains_key(w));
        }
    }
    assert(!knows(daemon.pool, WorkerId(number)));
    assert forall|e: int| !#[trigger] names_at(next.effects, e, number) by {
        if names_at(daemon.effects, e, number) {
            assert(daemon.book.workers.entries.contains_key(number));
        }
    }
}

proof fn lemma_new_submission(daemon: Daemon, submissions: Table<Job>)
    requires
        submissions_sound(
            daemon.book.submissions,
            daemon.book.next_submission,
            daemon.pool,
            daemon.events,
            daemon.effects,
        ),
        daemon.book.next_submission < u32::MAX,
        submissions.entries.dom() == daemon.book.submissions.entries.dom().insert(
            daemon.book.next_submission,
        ),
        answerable(submissions.entries[daemon.book.next_submission].0),
        forall|s: u32|
            #![trigger submissions.entries[s]]
            daemon.book.submissions.entries.contains_key(s) && s != daemon.book.next_submission
                ==> submissions.entries[s] == daemon.book.submissions.entries[s],
    ensures
        ({
            let number = daemon.book.next_submission;
            submissions_sound(
                submissions,
                (number + 1) as u32,
                daemon.pool,
                daemon.events.push(Event::TaskSubmitted { submission_id: SubmissionId(number) }),
                daemon.effects,
            )
        }),
{
    let number = daemon.book.next_submission;
    let before = daemon.book.submissions.entries;
    let event = Event::TaskSubmitted { submission_id: SubmissionId(number) };
    let next = Daemon {
        book: IoBook { submissions, next_submission: (number + 1) as u32, ..daemon.book },
        events: daemon.events.push(event),
        ..daemon
    };
    assert(!before.contains_key(number));
    assert forall|s: u32| #[trigger] submissions.entries.contains_key(s) implies s
        < next.book.next_submission && answerable(submissions.entries[s].0) by {
        assert(submissions.entries.dom().contains(s));
        if s != number {
            assert(before.dom().contains(s));
            assert(before.contains_key(s));
        }
    }
    assert forall|s: u32| before.contains_key(s) implies #[trigger] submissions.entries.contains_key(
        s,
    ) by {
        assert(submissions.entries.dom().contains(s));
    }
    assert(submissions.entries.dom().contains(number));
    assert forall|k: int, s: u32| #[trigger] brought_at(next.events, k, s) implies (brought_at(
        daemon.events,
        k,
        s,
    ) && s != number) || (k == daemon.events.len() && s == number) by {
        if k < daemon.events.len() {
            assert(brought_at(daemon.events, k, s));
            assert(before.contains_key(s));
        }
    }
    assert(!holds(daemon.pool, number));
    assert forall|e: int| !#[trigger] task_at(next.effects, e, number) by {
        if task_at(daemon.effects, e, number) {
            assert(before.contains_key(number));
        }
    }
}

proof fn lemma_see(daemon: Daemon, sight: Sight, kind: EventKind, setting: Setting)
    requires
        sound(daemon),
        may_move(daemon, Move::See(sight, kind)),
    ensures
        sound(moved(daemon, Move::See(sight, kind), setting)),
{
    let paths = setting.paths;
    let next = moved(daemon, Move::See(sight, kind), setting);
    match sight_category(sight, kind, setting.platform, paths) {
        Some(super::path_category::Category::WorkerReady(id)) => {
            if sight.exists {
                let (book, event) = ready_seen(daemon.book, id, sight.path, paths.agents_dir@);
                if event is Some {
                    lemma_new_worker(
                        daemon,
                        sight.path,
                        Way::FlatFile { dir: paths.agents_dir@, uuid: id },
                    );
                    lemma_push_event_submissions(daemon, event->0);
                    assert(no_withdrawals(next.events));
                }
            }
        },
        Some(super::path_category::Category::WorkerResponse(id)) => {
            if sight.exists {
                let (book, event) = response_seen(daemon.book, id, sight.path);
                if event is Some {
                    lemma_push_event_workers(daemon, event->0);
                    lemma_push_event_submissions(daemon, event->0);
                    assert(no_withdrawals(next.events));
                }
            }
        },
        Some(super::path_category::Category::SubmissionRequest(id)) => {
            if sight.exists && sight.content is Some {
                let content = sight.content->0;
                let dir = paths.submissions_dir@;
                let (book, event) = request_seen(daemon.book, id, content, dir, setting.config);
                let path = crate::path::joined(dir, id + crate::constants::REQUEST_SUFFIX@);
                if event is Some {
                    lemma_request_path(sight.path, dir, id);
                    lemma_new_submission(daemon, book.submissions);
                    lemma_push_event_workers(daemon, event->0);
                    assert(no_withdrawals(next.events));
                    assert(next.book.submissions.well_formed());
                }
            }
        },
        _ => {},
    }
}

proof fn lemma_request_path(path: Seq<char>, dir: Seq<char>, id: Seq<char>)
    requires
        crate::path::below(crate::path::parts(path), crate::path::parts(dir)) is Some,
        super::path_category::submissions_category(
            crate::path::below(crate::path::parts(path), crate::path::parts(dir))->0,
        ) == Some(super::path_category::Category::SubmissionRequest(id)),
    ensures
        request_id(crate::path::joined(dir, id + crate::constants::REQUEST_SUFFIX@)) == Some(id),
{
    reveal_strlit(".request.json");
    crate::path::lemma_names(path);
    let names = crate::path::parts(path).names;
    let found = names.last();
    assert(names[names.len() - 1] == found);
    let name = id + crate::constants::REQUEST_SUFFIX@;
    crate::text::law_suffix_comes_off(id, crate::constants::REQUEST_SUFFIX@);
    crate::text::law_suffix_goes_back(found, crate::constants::REQUEST_SUFFIX@);
    assert(name == found);
    assert(name.len() > 2);
    assert(seq!['.'].len() == 1);
    assert(seq!['.', '.'].len() == 2);
    crate::path::law_join_adds_one_component(dir, name);
    let all = crate::path::parts(crate::path::joined(dir, name)).names;
    assert(all.last() == name);
}

proof fn lemma_take(daemon: Daemon, content: Seq<char>, connection: u64, setting: Setting)
    requires
        sound(daemon),
        may_move(daemon, Move::Take(content, connection)),
    ensures
        sound(moved(daemon, Move::Take(content, connection), setting)),
{
    let next = moved(daemon, Move::Take(content, connection), setting);
    let (book, event) = task_came(daemon.book, content, connection, setting.config);
    lemma_new_submission(daemon, book.submissions);
    lemma_push_event_workers(daemon, event);
    assert(no_withdrawals(next.events));
}

proof fn lemma_carry(daemon: Daemon, setting: Setting)
    requires
        sound(daemon),
        daemon.effects.len() > 0,
    ensures
        sound(moved(daemon, Move::Carry, setting)),
{
    let effect = daemon.effects[0];
    let next = moved(daemon, Move::Carry, setting);
    let before = daemon.book.workers.entries;
    let after = next.book.workers.entries;
    let left = next.effects;
    law_next_is_known(daemon);
    assert forall|e: int, w: u32| #[trigger] names_at(left, e, w) implies names_at(
        daemon.effects,
        e + 1,
        w,
    ) by {}
    assert forall|e: int, w: u32| #[trigger] removes_at(left, e, w) implies removes_at(
        daemon.effects,
        e + 1,
        w,
    ) by {}
    assert forall|e: int, s: u32| #[trigger] task_at(left, e, s) implies task_at(
        daemon.effects,
        e + 1,
        s,
    ) by {}
    assert forall|e: int, s: u32| #[trigger] answer_at(left, e, s) implies answer_at(
        daemon.effects,
        e + 1,
        s,
    ) by {}
    match effect {
        Effect::WorkerRemoved { worker_id } => {
            assert(removes_at(daemon.effects, 0, worker_id.0));
            assert(names_at(daemon.effects, 0, worker_id.0));
            assert(after == before.remove(worker_id.0));
        },
        _ => {
            assert(after == before);
        },
    }
    assert(workers_sound(next.book.workers, next.pool, next.events, next.effects)) by {
        assert forall|w: u32| before.contains_key(w) && !after.contains_key(w) implies effect == (
        Effect::WorkerRemoved { worker_id: WorkerId(w) }) by {}
        assert forall|k: int, w: u32| #[trigger] ready_at(next.events, k, w) implies after.contains_key(
            w,
        ) && !knows(next.pool, WorkerId(w)) by {
            assert(ready_at(daemon.events, k, w));
        }
        assert forall|w: u32| #[trigger] knows(next.pool, WorkerId(w)) implies after.contains_key(
            w,
        ) by {
            assert(knows(daemon.pool, WorkerId(w)));
        }
        assert forall|e: int, w: u32| #[trigger] names_at(left, e, w) implies after.contains_key(
            w,
        ) by {
            assert(names_at(daemon.effects, e + 1, w));
            if !after.contains_key(w) {
                assert(removes_at(daemon.effects, 0, w));
            }
        }
        assert forall|e: int, f: int, w: u32| #[trigger] removes_at(left, e, w)
            && #[trigger] names_at(left, f, w) implies f <= e by {
            assert(removes_at(daemon.effects, e + 1, w));
            assert(names_at(daemon.effects, f + 1, w));
        }
        assert forall|k: int, e: int, w: u32|
            !(#[trigger] ready_at(next.events, k, w) && #[trigger] names_at(left, e, w)) by {
            if ready_at(next.events, k, w) && names_at(left, e, w) {
                assert(ready_at(daemon.events, k, w));
                assert(names_at(daemon.effects, e + 1, w));
            }
        }
        assert forall|e: int, w: u32| #[trigger] removes_at(left, e, w) implies !knows(
            next.pool,
            WorkerId(w),
        ) by {
            assert(removes_at(daemon.effects, e + 1, w));
        }
    }
    let kept = daemon.book.submissions.entries;
    let rest = next.book.submissions.entries;
    match answered(effect) {
        Some(submission_id) => {
            assert(answer_at(daemon.effects, 0, submission_id.0));
            assert(task_at(daemon.effects, 0, submission_id.0));
            assert(rest == kept.remove(submission_id.0));
        },
        None => {
            assert(rest == kept);
        },
    }
    assert(submissions_sound(
        next.book.submissions,
        next.book.next_submission,
        next.pool,
        next.events,
        next.effects,
    )) by {
        assert forall|s: u32| kept.contains_key(s) && !rest.contains_key(s) implies answered(effect)
            == Some(SubmissionId(s)) by {}
        assert forall|k: int, s: u32| #[trigger] brought_at(next.events, k, s) implies rest.contains_key(
            s,
        ) && !holds(next.pool, s) by {
            assert(brought_at(daemon.events, k, s));
            if !rest.contains_key(s) {
                assert(task_at(daemon.effects, 0, s));
            }
        }
        assert forall|k: int, e: int, s: u32|
            !(#[trigger] brought_at(next.events, k, s) && #[trigger] task_at(left, e, s)) by {
            if brought_at(next.events, k, s) && task_at(left, e, s) {
                assert(brought_at(daemon.events, k, s));
                assert(task_at(daemon.effects, e + 1, s));
            }
        }
        assert forall|s: u32| #[trigger] holds(next.pool, s) implies rest.contains_key(s) by {
            assert(holds(daemon.pool, s));
            if !rest.contains_key(s) {
                assert(answer_at(daemon.effects, 0, s));
            }
        }
        assert forall|e: int, s: u32| #[trigger] answer_at(left, e, s) implies !holds(
            next.pool,
            s,
        ) by {
            assert(answer_at(daemon.effects, e + 1, s));
        }
        assert forall|e: int, s: u32| #[trigger] task_at(left, e, s) implies rest.contains_key(s) by {
            assert(task_at(daemon.effects, e + 1, s));
            if !rest.contains_key(s) {
                assert(answer_at(daemon.effects, 0, s));
            }
        }
        assert forall|e: int, f: int, s: u32| #[trigger] answer_at(left, e, s)
            && #[trigger] task_at(left, f, s) implies f <= e by {
            assert(answer_at(daemon.effects, e + 1, s));
            assert(task_at(daemon.effects, f + 1, s));
        }
    }
    assert(next.book.submissions.well_formed());
    assert(next.book.workers.well_formed());
}

/// What an event may do to the workers and tasks of the state machine.
proof fn lemma_step_effects(pool: Pool, event: Event)
    requires
        consistent(pool),
        may_come(pool, event),
    ensures
        ({
            let after = pool_after(pool, event);
            let effects = effects_of(pool, event);
            &&& effects.len() <= 2
            &&& forall|w: u32| #[trigger]
                knows(after, WorkerId(w)) ==> knows(pool, WorkerId(w)) || event
                    == (Event::WorkerReady { worker_id: WorkerId(w) })
            &&& forall|e: int, w: u32| #[trigger]
                names_at(effects, e, w) ==> knows(pool, WorkerId(w)) || event
                    == (Event::WorkerReady { worker_id: WorkerId(w) })
            &&& forall|e: int, w: u32| #[trigger]
                removes_at(effects, e, w) ==> !knows(after, WorkerId(w))
            &&& forall|e: int, f: int, w: u32| #[trigger]
                removes_at(effects, e, w) && #[trigger] names_at(effects, f, w) ==> f <= e
        }),
{
    let after = pool_after(pool, event);
    let effects = effects_of(pool, event);
    assert forall|w: u32| #[trigger] knows(after, WorkerId(w)) implies knows(pool, WorkerId(w))
        || event == (Event::WorkerReady { worker_id: WorkerId(w) }) by {
        if !knows(pool, WorkerId(w)) && event != (Event::WorkerReady { worker_id: WorkerId(w) }) {
            law_unknown_worker_stays_unknown(pool, event, WorkerId(w));
        }
    }
    assert forall|e: int, w: u32| #[trigger] names_at(effects, e, w) implies knows(
        pool,
        WorkerId(w),
    ) || event == (Event::WorkerReady { worker_id: WorkerId(w) }) by {
        if !knows(pool, WorkerId(w)) && event != (Event::WorkerReady { worker_id: WorkerId(w) }) {
            law_unknown_worker_stays_unknown(pool, event, WorkerId(w));
        }
    }
    assert forall|e: int, w: u32| #[trigger] removes_at(effects, e, w) implies !knows(
        after,
        WorkerId(w),
    ) by {
        assert(effects.contains(Effect::WorkerRemoved { worker_id: WorkerId(w) }));
        super::machine_laws::law_removed_worker_is_gone(pool, event, WorkerId(w));
    }
}

proof fn lemma_step_workers(daemon: Daemon)
    requires
        sound(daemon),
        daemon.events.len() > 0,
    ensures
        ({
            let event = daemon.events[0];
            workers_sound(
                daemon.book.workers,
                pool_after(daemon.pool, event),
                daemon.events.drop_first(),
                daemon.effects + effects_of(daemon.pool, event),
            )
        }),
{
    let event = daemon.events[0];
    let pool = daemon.pool;
    let after = pool_after(pool, event);
    let asked = effects_of(pool, event);
    let n = daemon.effects.len() as int;
    let effects = daemon.effects + asked;
    let events = daemon.events.drop_first();
    let entries = daemon.book.workers.entries;
    law_next_is_known(daemon);
    lemma_step_effects(pool, event);
    assert forall|w: u32| event == (Event::WorkerReady { worker_id: WorkerId(w) }) implies ready_at(
        daemon.events,
        0,
        w,
    ) by {}
    assert forall|e: int, w: u32| #[trigger] names_at(effects, e, w) implies (e < n && names_at(
        daemon.effects,
        e,
        w,
    )) || (e >= n && names_at(asked, e - n, w)) by {}
    assert forall|e: int, w: u32| #[trigger] removes_at(effects, e, w) implies (e < n
        && removes_at(daemon.effects, e, w) && names_at(daemon.effects, e, w)) || (e >= n
        && removes_at(asked, e - n, w)) by {}
    assert forall|k: int, w: u32| #[trigger] ready_at(events, k, w) implies ready_at(
        daemon.events,
        k + 1,
        w,
    ) && event != (Event::WorkerReady { worker_id: WorkerId(w) }) by {
        assert(ready_at(daemon.events, k + 1, w));
        if event == (Event::WorkerReady { worker_id: WorkerId(w) }) {
            assert(ready_at(daemon.events, 0, w));
        }
    }
    assert forall|k: int, w: u32| #[trigger] ready_at(events, k, w) implies entries.contains_key(w)
        && !knows(after, WorkerId(w)) by {
        assert(ready_at(daemon.events, k + 1, w));
    }
    assert forall|k: int, e: int, w: u32|
        !(#[trigger] ready_at(events, k, w) && #[trigger] names_at(effects, e, w)) by {
        if ready_at(events, k, w) && names_at(effects, e, w) {
            assert(ready_at(daemon.events, k + 1, w));
            if e >= n {
                assert(names_at(asked, e - n, w));
            }
        }
    }
    assert forall|k: int, l: int, w: u32| #[trigger] ready_at(events, k, w) && #[trigger] ready_at(
        events,
        l,
        w,
    ) implies k == l by {
        assert(ready_at(daemon.events, k + 1, w));
        assert(ready_at(daemon.events, l + 1, w));
    }
    assert forall|w: u32| #[trigger] knows(after, WorkerId(w)) implies entries.contains_key(w) by {
        if !knows(pool, WorkerId(w)) {
            assert(ready_at(daemon.events, 0, w));
        }
    }
    assert forall|e: int, w: u32| #[trigger] removes_at(effects, e, w) implies !knows(
        after,
        WorkerId(w),
    ) by {
        if e >= n {
            assert(removes_at(asked, e - n, w));
        } else if knows(after, WorkerId(w)) {
            assert(removes_at(daemon.effects, e, w));
            assert(names_at(daemon.effects, e, w));
            assert(ready_at(daemon.events, 0, w));
        }
    }
    assert forall|e: int, w: u32| #[trigger] names_at(effects, e, w) implies entries.contains_key(
        w,
    ) by {
        if e >= n {
            assert(names_at(asked, e - n, w));
            if !knows(pool, WorkerId(w)) {
                assert(ready_at(daemon.events, 0, w));
            }
        }
    }
    assert forall|e: int, f: int, w: u32| #[trigger] removes_at(effects, e, w) && #[trigger] names_at(
        effects,
        f,
        w,
    ) implies f <= e by {
        if e >= n {
            assert(removes_at(asked, e - n, w));
            if f >= n {
                assert(names_at(asked, f - n, w));
            }
        } else {
            assert(removes_at(daemon.effects, e, w));
            assert(names_at(daemon.effects, e, w));
            if f >= n {
                assert(names_at(asked, f - n, w));
                assert(ready_at(daemon.events, 0, w));
            }
        }
    }
}

/// What an event may do to the submissions that the state machine holds.
proof fn lemma_step_submissions_effects(pool: Pool, event: Event)
    requires
        consistent(pool),
        may_come(pool, event),
        !(event is TaskWithdrawn),
        pool.tasks.no_duplicates(),
        forall|w: u32, s: u32| #[trigger]
            works_on(pool, w, s) ==> !pool.tasks.contains(SubmissionId(s)),
        forall|v: u32, w: u32, s: u32| #[trigger]
            works_on(pool, v, s) && #[trigger] works_on(pool, w, s) ==> v == w,
        match event {
            Event::TaskSubmitted { submission_id } => !holds(pool, submission_id.0),
            _ => true,
        },
    ensures
        ({
            let after = pool_after(pool, event);
            let effects = effects_of(pool, event);
            &&& after.tasks.no_duplicates()
            &&& forall|w: u32, s: u32| #[trigger]
                works_on(after, w, s) ==> !after.tasks.contains(SubmissionId(s))
            &&& forall|v: u32, w: u32, s: u32| #[trigger]
                works_on(after, v, s) && #[trigger] works_on(after, w, s) ==> v == w
            &&& forall|s: u32| #[trigger]
                holds(after, s) ==> holds(pool, s) || event == (Event::TaskSubmitted {
                    submission_id: SubmissionId(s),
                })
            &&& forall|e: int, s: u32| #[trigger]
                task_at(effects, e, s) ==> holds(pool, s) || event == (Event::TaskSubmitted {
                    submission_id: SubmissionId(s),
                })
            &&& forall|e: int, s: u32| #[trigger]
                answer_at(effects, e, s) ==> !holds(after, s) && holds(pool, s)
            &&& forall|e: int, f: int, s: u32| #[trigger]
                answer_at(effects, e, s) && #[trigger] task_at(effects, f, s) ==> f <= e
        }),
{
    let after = pool_after(pool, event);
    let effects = effects_of(pool, event);
    match event {
        Event::TaskSubmitted { submission_id } => {
            let id = submission_id.0;
            assert(SubmissionId(id) == submission_id);
            if pool.idle.len() > 0 {
                let x = pool.idle[0].0;
                assert(!pool.busy.contains_key(x));
                assert(after.tasks.len() == 0);
                assert(effects.len() == 1);
                assert(effects[0] == (Effect::TaskAssigned {
                    worker_id: pool.idle[0],
                    task_id: TaskId::External(submission_id),
                }));
                assert forall|e: int, s: u32| #[trigger] task_at(effects, e, s) implies s == id by {}
                assert forall|e: int, s: u32| !#[trigger] answer_at(effects, e, s) by {}
                assert forall|w: u32, s: u32| #[trigger] works_on(after, w, s) implies !after.tasks.contains(
                    SubmissionId(s),
                ) by {}
                assert forall|w: u32, s: u32| #[trigger] works_on(after, w, s) implies (w == x && s
                    == id) || (w != x && works_on(pool, w, s)) by {}
                assert forall|v: u32, w: u32, s: u32| #[trigger] works_on(after, v, s)
                    && #[trigger] works_on(after, w, s) implies v == w by {
                    if v == x && w != x {
                        assert(works_on(pool, w, id));
                    } else if w == x && v != x {
                        assert(works_on(pool, v, id));
                    } else if v != x && w != x {
                        assert(works_on(pool, v, s) && works_on(pool, w, s));
                    }
                }
                assert forall|s: u32| #[trigger] holds(after, s) implies holds(pool, s) || s == id by {
                    if exists|w: u32| #[trigger] works_on(after, w, s) {
                        let w = choose|w: u32| #[trigger] works_on(after, w, s);
                        if w != x {
                            assert(works_on(pool, w, s));
                        }
                    }
                }
            } else {
                assert forall|s: u32| after.tasks.contains(SubmissionId(s)) implies pool.tasks.contains(
                    SubmissionId(s),
                ) || s == id by {
                    let k = choose|k: int|
                        0 <= k < after.tasks.len() && after.tasks[k] == SubmissionId(s);
                    if k < pool.tasks.len() {
                        assert(pool.tasks[k] == SubmissionId(s));
                    }
                }
                assert forall|w: u32, s: u32| #[trigger] works_on(after, w, s) implies works_on(pool, w, s) by {}
                assert forall|w: u32, s: u32| #[trigger] works_on(after, w, s) implies !after.tasks.contains(
                    SubmissionId(s),
                ) by {
                    assert(works_on(pool, w, s));
                    if s == id {
                        assert(holds(pool, id));
                    }
                }
                assert forall|v: u32, w: u32, s: u32| #[trigger] works_on(after, v, s)
                    && #[trigger] works_on(after, w, s) implies v == w by {
                    assert(works_on(pool, v, s) && works_on(pool, w, s));
                }
                assert forall|s: u32| #[trigger] holds(after, s) implies holds(pool, s) || s == id by {
                    if exists|w: u32| #[trigger] works_on(after, w, s) {
                        let w = choose|w: u32| #[trigger] works_on(after, w, s);
                        assert(works_on(pool, w, s));
                    }
                }
                assert(after.tasks.no_duplicates()) by {
                    assert forall|i: int, j: int|
                        0 <= i < after.tasks.len() && 0 <= j < after.tasks.len() && i
                            != j implies after.tasks[i] != after.tasks[j] by {
                        if i < pool.tasks.len() {
                            assert(pool.tasks.contains(pool.tasks[i]));
                        }
                        if j < pool.tasks.len() {
                            assert(pool.tasks.contains(pool.tasks[j]));
                        }
                    }
                }
            }
        },
        Event::TaskWithdrawn { submission_id } => {},
        Event::WorkerReady { worker_id } => {
            let x = worker_id.0;
            if pool.tasks.len() > 0 {
                let id = pool.tasks[0].0;
                assert(pool.tasks.contains(SubmissionId(id)));
                assert(pool.tasks[0] == SubmissionId(id));
                assert forall|e: int, s: u32| #[trigger] task_at(effects, e, s) implies s == id by {}
                assert forall|w: u32, s: u32| #[trigger] works_on(after, w, s) implies (w == x && s
                    == id) || (w != x && works_on(pool, w, s)) by {}
                assert forall|s: u32| after.tasks.contains(SubmissionId(s)) implies pool.tasks.contains(
                    SubmissionId(s),
                ) && s != id by {
                    let k = choose|k: int|
                        0 <= k < after.tasks.len() && after.tasks[k] == SubmissionId(s);
                    assert(pool.tasks[k + 1] == SubmissionId(s));
                }
                assert forall|v: u32, w: u32, s: u32| #[trigger] works_on(after, v, s)
                    && #[trigger] works_on(after, w, s) implies v == w by {
                    if v == x && w != x {
                        assert(works_on(pool, w, id));
                    } else if w == x && v != x {
                        assert(works_on(pool, v, id));
                    } else if v != x && w != x {
                        assert(works_on(pool, v, s) && works_on(pool, w, s));
                    }
                }
                assert forall|w: u32, s: u32| #[trigger] works_on(after, w, s) implies !after.tasks.contains(
                    SubmissionId(s),
                ) by {
                    if w != x {
                        assert(works_on(pool, w, s));
                    }
                }
                assert forall|s: u32| #[trigger] holds(after, s) implies holds(pool, s) by {
                    if exists|w: u32| #[trigger] works_on(after, w, s) {
                        let w = choose|w: u32| #[trigger] works_on(after, w, s);
                        if w != x {
                            assert(works_on(pool, w, s));
                        }
                    }
                }
                assert(holds(pool, id));
            } else {
                lemma_same_holdings(pool, after);
            }
        },
        Event::WorkerResponded { worker_id } => {
            lemma_worker_leaves(pool, after, worker_id.0);
            assert forall|e: int, s: u32| #[trigger] task_at(effects, e, s) implies works_on(
                pool,
                worker_id.0,
                s,
            ) by {}
            assert forall|e: int, s: u32| #[trigger] answer_at(effects, e, s) implies works_on(
                pool,
                worker_id.0,
                s,
            ) by {}
        },
        Event::WorkerTimedOut { worker_id } => {
            lemma_worker_leaves(pool, after, worker_id.0);
            assert forall|e: int, s: u32| #[trigger] task_at(effects, e, s) implies works_on(
                pool,
                worker_id.0,
                s,
            ) by {}
            assert forall|e: int, s: u32| #[trigger] answer_at(effects, e, s) implies works_on(
                pool,
                worker_id.0,
                s,
            ) by {}
        },
        Event::AssignHeartbeatIfIdle { worker_id } => {
            let x = worker_id.0;
            if pool.idle.contains(worker_id) {
                let k = choose|k: int| 0 <= k < pool.idle.len() && pool.idle[k] == worker_id;
                assert(!pool.busy.contains_key(pool.idle[k].0));
            }
            lemma_same_holdings(pool, after);
        },
    }
}

proof fn lemma_same_holdings(pool: Pool, after: Pool)
    requires
        pool.tasks == after.tasks,
        pool.tasks.no_duplicates(),
        forall|w: u32, s: u32| works_on(after, w, s) == works_on(pool, w, s),
        forall|w: u32, s: u32| #[trigger]
            works_on(pool, w, s) ==> !pool.tasks.contains(SubmissionId(s)),
        forall|v: u32, w: u32, s: u32| #[trigger]
            works_on(pool, v, s) && #[trigger] works_on(pool, w, s) ==> v == w,
    ensures
        forall|w: u32, s: u32| #[trigger]
            works_on(after, w, s) ==> !after.tasks.contains(SubmissionId(s)),
        forall|v: u32, w: u32, s: u32| #[trigger]
            works_on(after, v, s) && #[trigger] works_on(after, w, s) ==> v == w,
        forall|s: u32| #[trigger] holds(after, s) == holds(pool, s),
{
    assert forall|s: u32| #[trigger] holds(after, s) == holds(pool, s) by {
        if exists|w: u32| #[trigger] works_on(after, w, s) {
            let w = choose|w: u32| #[trigger] works_on(after, w, s);
            assert(works_on(pool, w, s));
        }
        if exists|w: u32| #[trigger] works_on(pool, w, s) {
            let w = choose|w: u32| #[trigger] works_on(pool, w, s);
            assert(works_on(after, w, s));
        }
    }
    assert forall|w: u32, s: u32| #[trigger] works_on(after, w, s) implies !after.tasks.contains(
        SubmissionId(s),
    ) by {
        assert(works_on(pool, w, s));
    }
    assert forall|v: u32, w: u32, s: u32| #[trigger] works_on(after, v, s) && #[trigger] works_on(
        after,
        w,
        s,
    ) implies v == w by {
        assert(works_on(pool, v, s) && works_on(pool, w, s));
    }
}

proof fn lemma_worker_leaves(pool: Pool, after: Pool, x: u32)
    requires
        after == (Pool { busy: pool.busy.remove(x), ..pool }),
        pool.tasks.no_duplicates(),
        forall|w: u32, s: u32| #[trigger]
            works_on(pool, w, s) ==> !pool.tasks.contains(SubmissionId(s)),
        forall|v: u32, w: u32, s: u32| #[trigger]
            works_on(pool, v, s) && #[trigger] works_on(pool, w, s) ==> v == w,
    ensures
        forall|w: u32, s: u32| #[trigger]
            works_on(after, w, s) ==> !after.tasks.contains(SubmissionId(s)),
        forall|v: u32, w: u32, s: u32| #[trigger]
            works_on(after, v, s) && #[trigger] works_on(after, w, s) ==> v == w,
        forall|s: u32| #[trigger] holds(after, s) ==> holds(pool, s) && !works_on(pool, x, s),
        forall|s: u32| #[trigger] works_on(pool, x, s) ==> holds(pool, s) && !holds(after, s),
{
    assert forall|w: u32, s: u32| #[trigger] works_on(after, w, s) implies works_on(pool, w, s) && w != x by {}
    assert forall|s: u32| #[trigger] holds(after, s) implies holds(pool, s) && !works_on(pool, x, s) by {
        if exists|w: u32| #[trigger] works_on(after, w, s) {
            let w = choose|w: u32| #[trigger] works_on(after, w, s);
            assert(works_on(pool, w, s) && w != x);
        }
    }
    assert forall|w: u32, s: u32| #[trigger] works_on(after, w, s) implies !after.tasks.contains(
        SubmissionId(s),
    ) by {
        assert(works_on(pool, w, s));
    }
    assert forall|v: u32, w: u32, s: u32| #[trigger] works_on(after, v, s) && #[trigger] works_on(
        after,
        w,
        s,
    ) implies v == w by {
        assert(works_on(pool, v, s) && works_on(pool, w, s));
    }
}

proof fn lemma_step_submissions(daemon: Daemon)
    requires
        sound(daemon),
        daemon.events.len() > 0,
    ensures
        ({
            let event = daemon.events[0];
            submissions_sound(
                daemon.book.submissions,
                daemon.book.next_submission,
                pool_after(daemon.pool, event),
                daemon.events.drop_first(),
                daemon.effects + effects_of(daemon.pool, event),
            )
        }),
{
    let event = daemon.events[0];
    let pool = daemon.pool;
    let after = pool_after(pool, event);
    let asked = effects_of(pool, event);
    let n = daemon.effects.len() as int;
    let effects = daemon.effects + asked;
    let events = daemon.events.drop_first();
    let entries = daemon.book.submissions.entries;
    law_next_is_known(daemon);
    match event {
        Event::TaskSubmitted { submission_id } => {
            assert(brought_at(daemon.events, 0, submission_id.0));
        },
        _ => {},
    }
    lemma_step_submissions_effects(pool, event);
    assert forall|e: int, s: u32| #[trigger] task_at(effects, e, s) implies (e < n && task_at(
        daemon.effects,
        e,
        s,
    )) || (e >= n && task_at(asked, e - n, s)) by {}
    assert forall|e: int, s: u32| #[trigger] answer_at(effects, e, s) implies (e < n && answer_at(
        daemon.effects,
        e,
        s,
    ) && task_at(daemon.effects, e, s)) || (e >= n && answer_at(asked, e - n, s)) by {}
    assert forall|k: int, s: u32| #[trigger] brought_at(events, k, s) implies brought_at(
        daemon.events,
        k + 1,
        s,
    ) && event != (Event::TaskSubmitted { submission_id: SubmissionId(s) }) by {
        assert(brought_at(daemon.events, k + 1, s));
        if event == (Event::TaskSubmitted { submission_id: SubmissionId(s) }) {
            assert(brought_at(daemon.events, 0, s));
        }
    }
    assert forall|k: int, s: u32| #[trigger] brought_at(events, k, s) implies entries.contains_key(
        s,
    ) && !holds(after, s) by {
        assert(brought_at(daemon.events, k + 1, s));
    }
    assert forall|k: int, e: int, s: u32|
        !(#[trigger] brought_at(events, k, s) && #[trigger] task_at(effects, e, s)) by {
        if brought_at(events, k, s) && task_at(effects, e, s) {
            assert(brought_at(daemon.events, k + 1, s));
            if e >= n {
                assert(task_at(asked, e - n, s));
            }
        }
    }
    assert forall|k: int, l: int, s: u32| #[trigger] brought_at(events, k, s)
        && #[trigger] brought_at(events, l, s) implies k == l by {
        assert(brought_at(daemon.events, k + 1, s));
        assert(brought_at(daemon.events, l + 1, s));
    }
    assert forall|s: u32| #[trigger] holds(after, s) implies entries.contains_key(s) by {
        if !holds(pool, s) {
            assert(brought_at(daemon.events, 0, s));
        }
    }
    assert forall|e: int, s: u32| #[trigger] answer_at(effects, e, s) implies !holds(after, s) by {
        if e >= n {
            assert(answer_at(asked, e - n, s));
        } else if holds(after, s) {
            assert(answer_at(daemon.effects, e, s));
            assert(task_at(daemon.effects, e, s));
            assert(brought_at(daemon.events, 0, s));
        }
    }
    assert forall|e: int, s: u32| #[trigger] task_at(effects, e, s) implies entries.contains_key(
        s,
    ) by {
        if e >= n {
            assert(task_at(asked, e - n, s));
            if !holds(pool, s) {
                assert(brought_at(daemon.events, 0, s));
            }
        }
    }
    assert forall|e: int, f: int, s: u32| #[trigger] answer_at(effects, e, s) && #[trigger] task_at(
        effects,
        f,
        s,
    ) implies f <= e by {
        if e >= n {
            assert(answer_at(asked, e - n, s));
            if f >= n {
                assert(task_at(asked, f - n, s));
            }
        } else {
            assert(answer_at(daemon.effects, e, s));
            assert(task_at(daemon.effects, e, s));
            if f >= n {
                assert(task_at(asked, f - n, s));
                assert(brought_at(daemon.events, 0, s));
            }
        }
    }
}

/// Whatever happens in the daemon, what holds of it holds of it afterwards.
pub proof fn law_move_keeps_soundness(daemon: Daemon, happens: Move, setting: Setting)
    requires
        sound(daemon),
        may_move(daemon, happens),
    ensures
        sound(moved(daemon, happens, setting)),
{
    match happens {
        Move::See(sight, kind) => {
            lemma_see(daemon, sight, kind, setting);
        },
        Move::Take(content, connection) => {
            lemma_take(daemon, content, connection, setting);
        },
        Move::Step => {
            let next = moved(daemon, happens, setting);
            law_next_is_known(daemon);
            law_step_keeps_consistency(daemon.pool, daemon.events[0]);
            lemma_step_workers(daemon);
            lemma_step_submissions(daemon);
            assert forall|k: int| 0 <= k < next.events.len() implies !(
            #[trigger] next.events[k] is TaskWithdrawn) by {
                assert(next.events[k] == daemon.events[k + 1]);
            }
        },
        Move::Carry => {
            lemma_carry(daemon, setting);
        },
        Move::Timer(event) => {
            lemma_push_event_workers(daemon, event);
            lemma_push_event_submissions(daemon, event);
        },
    }
}

/// The daemon after all this has happened.
pub open spec fn after_all(happened: Seq<Move>, setting: Setting) -> Daemon
    decreases happened.len(),
{
    if happened.len() == 0 {
        at_start()
    } else {
        moved(after_all(happened.drop_last(), setting), happened.last(), setting)
    }
}

/// Whether all this can happen, one after the other.
pub open spec fn may_happen(happened: Seq<Move>, setting: Setting) -> bool
    decreases happened.len(),
{
    happened.len() == 0 || (may_happen(happened.drop_last(), setting) && may_move(
        after_all(happened.drop_last(), setting),
        happened.last(),
    ))
}

/// Whatever has happened since the daemon started, in whatever order files were seen, tasks
/// came, timers ran out, and events and effects were taken: the state machine can take its next
/// event, for no worker registers twice; the next effect names only workers and submissions
/// whose ways are kept; and whoever it answers can be answered.
pub proof fn law_daemon_never_meets_the_unknown(happened: Seq<Move>, setting: Setting)
    requires
        may_happen(happened, setting),
    ensures
        ({
            let daemon = after_all(happened, setting);
            &&& sound(daemon)
            &&& daemon.events.len() > 0 ==> may_come(daemon.pool, daemon.events[0])
            &&& daemon.effects.len() > 0 ==> {
                &&& is_known(daemon.effects[0], daemon.book.workers, daemon.book.submissions)
                &&& match answered(daemon.effects[0]) {
                    Some(submission_id) => {
                        &&& daemon.book.submissions.entries.contains_key(submission_id.0)
                        &&& answerable(daemon.book.submissions.entries[submission_id.0].0)
                    },
                    None => true,
                }
            }
        }),
    decreases happened.len(),
{
    if happened.len() > 0 {
        law_daemon_never_meets_the_unknown(happened.drop_last(), setting);
        law_move_keeps_soundness(
            after_all(happened.drop_last(), setting),
            happened.last(),
            setting,
        );
    }
    law_next_is_known(after_all(happened, setting));
}

/// A submission that was answered is forgotten: nothing that is on the way names it, and the
/// state machine does not hold it.
pub proof fn law_answered_submission_is_forgotten(
    daemon: Daemon,
    submission_id: SubmissionId,
    setting: Setting,
)
    requires
        sound(daemon),
        daemon.effects.len() > 0,
        answered(daemon.effects[0]) == Some(submission_id),
    ensures
        ({
            let after = moved(daemon, Move::Carry, setting);
            &&& !after.book.submissions.entries.contains_key(submission_id.0)
            &&& !holds(after.pool, submission_id.0)
            &&& forall|e: int| !#[trigger] task_at(after.effects, e, submission_id.0)
            &&& forall|k: int| !#[trigger] brought_at(after.events, k, submission_id.0)
        }),
{
    let after = moved(daemon, Move::Carry, setting);
    lemma_carry(daemon, setting);
    law_next_is_known(daemon);
    assert(!after.book.submissions.entries.contains_key(submission_id.0));
}

/// A worker that was removed is forgotten: nothing that is on the way names it, and the state
/// machine does not know it.
pub proof fn law_removed_worker_is_forgotten(daemon: Daemon, worker_id: WorkerId, setting: Setting)
    requires
        sound(daemon),
        daemon.effects.len() > 0,
        daemon.effects[0] == (Effect::WorkerRemoved { worker_id }),
    ensures
        ({
            let after = moved(daemon, Move::Carry, setting);
            &&& !after.book.workers.entries.contains_key(worker_id.0)
            &&& !knows(after.pool, worker_id)
            &&& forall|e: int| !#[trigger] names_at(after.effects, e, worker_id.0)
            &&& forall|k: int| !#[trigger] ready_at(after.events, k, worker_id.0)
        }),
{
    let after = moved(daemon, Move::Carry, setting);
    lemma_carry(daemon, setting);
    law_next_is_known(daemon);
    assert(WorkerId(worker_id.0) == worker_id);
    assert(!after.book.workers.entries.contains_key(worker_id.0));
}

/// A worker's ready file is taken notice of once: whatever happens, its path stands for the
/// worker from then on, even when the worker was removed.
pub proof fn law_ready_file_counts_once(
    daemon: Daemon,
    happens: Move,
    setting: Setting,
    id: Seq<char>,
    path: Seq<char>,
)
    requires
        sound(daemon),
        may_move(daemon, happens),
        daemon.book.workers.paths.contains_key(crate::path::parts(path)),
    ensures
        ({
            let after = moved(daemon, happens, setting);
            &&& after.book.workers.paths.contains_key(crate::path::parts(path))
            &&& ready_seen(after.book, id, path, setting.paths.agents_dir@) == (
                after.book,
                None::<Event>,
            )
        }),
{
    match happens {
        Move::Carry => {
            law_next_is_known(daemon);
        },
        _ => {},
    }
}

} // verus!
