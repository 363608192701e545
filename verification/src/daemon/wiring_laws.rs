//! What the daemon takes notice of, and that it misses nothing.
use super::io::IoConfig;
use super::machine::{Effect, Event, SubmissionId, TaskId, WorkerId};
use super::path_category::{
    law_ready_file_is_known, law_request_file_is_known, law_response_file_is_known, Category,
};
use super::wiring::{
    all_seen, effect_done, effect_met, seen, sight_category, sights_that_count, Channel, IoBook,
    IoInput, IoState, OpenChannels, PoolPaths, Sight,
};
use crate::constants::{READY_SUFFIX, REQUEST_SUFFIX, WORKER_RESPONSE_SUFFIX};
use crate::error::PoolError;
use crate::fs_events::{write_complete, EventKind, Platform};
use crate::path::{inner, joined, law_join_adds_one_component, parts, plain_name};
use crate::transport::Way;
use vstd::prelude::*;

verus! {

proof fn lemma_plain(name: Seq<char>, suffix: Seq<char>)
    requires
        !name.contains('/'),
        !suffix.contains('/'),
        suffix.len() > 2,
    ensures
        plain_name(name + suffix),
{
    let whole = name + suffix;
    assert forall|i: int| 0 <= i < whole.len() implies whole[i] != '/' by {
        if i < name.len() {
            assert(name.contains(name[i]));
        } else {
            assert(suffix.contains(suffix[i - name.len()]));
        }
    }
    assert(seq!['.'].len() == 1);
}

/// A request that is there, written whole, and could be read, is taken in, unless its path is
/// known: it gets a number that nothing is kept under, what is kept under it is the request's
/// content with the time that tasks have, and the state machine is told of it.
pub proof fn law_new_request_is_taken_in(
    book: IoBook,
    name: Seq<char>,
    sight: Sight,
    kind: EventKind,
    platform: Platform,
    paths: PoolPaths,
    config: IoConfig,
)
    requires
        !name.contains('/'),
        write_complete(kind, platform),
        sight.path == joined(paths.submissions_dir@, name + REQUEST_SUFFIX@),
        sight.exists,
        sight.content is Some,
        book.next_submission < u32::MAX,
        !book.submissions.paths.contains_key(parts(sight.path)),
    ensures
        ({
            let (after, event) = seen(book, sight, kind, platform, paths, config);
            let number = book.next_submission;
            &&& event == Some(Event::TaskSubmitted { submission_id: SubmissionId(number) })
            &&& after.submissions.entries.contains_key(number)
            &&& after.submissions.entries[number].0 == Way::Directory(sight.path)
            &&& after.submissions.entries[number].1.content == sight.content->0
            &&& after.submissions.entries[number].1.timeout == config.default_task_timeout
            &&& forall|s: u32| #[trigger]
                book.submissions.entries.contains_key(s) && s != number
                    ==> after.submissions.entries.contains_key(s)
                    && after.submissions.entries[s] == book.submissions.entries[s]
            &&& after.submissions.paths.contains_key(parts(sight.path))
            &&& after.next_submission > number
            &&& after.workers == book.workers
            &&& after.pending == book.pending
            &&& after.kicked == book.kicked
        }),
{
    law_request_file_is_known(
        name,
        kind,
        platform,
        paths.root@,
        paths.agents_dir@,
        paths.submissions_dir@,
        sight.status,
    );
}

/// A worker whose ready file is there, written whole, is taken in, unless its path is known or
/// was refused: it gets a number that was never given before, and is reached by its files.
pub proof fn law_new_worker_is_taken_in(
    book: IoBook,
    uuid: Seq<char>,
    sight: Sight,
    kind: EventKind,
    platform: Platform,
    paths: PoolPaths,
    config: IoConfig,
)
    requires
        !uuid.contains('/'),
        write_complete(kind, platform),
        sight.path == joined(paths.agents_dir@, uuid + READY_SUFFIX@),
        sight.exists,
        book.workers.next_id < u32::MAX,
        !book.workers.paths.contains_key(parts(sight.path)),
        !book.kicked.contains(parts(sight.path)),
    ensures
        ({
            let (after, event) = seen(book, sight, kind, platform, paths, config);
            let number = book.workers.next_id;
            &&& event == Some(Event::WorkerReady { worker_id: WorkerId(number) })
            &&& after.workers.entries.contains_key(number)
            &&& after.workers.entries[number].0 == (Way::FlatFile { dir: paths.agents_dir@, uuid })
            &&& forall|w: u32| #[trigger]
                book.workers.entries.contains_key(w) && w != number
                    ==> after.workers.entries.contains_key(w) && after.workers.entries[w]
                    == book.workers.entries[w]
            &&& after.workers.paths.contains_key(parts(sight.path))
            &&& after.workers.paths[parts(sight.path)] == number
            &&& after.workers.next_id > number
            &&& after.submissions == book.submissions
            &&& after.pending == book.pending
            &&& after.kicked == book.kicked
        }),
{
    law_ready_file_is_known(
        uuid,
        kind,
        platform,
        paths.root@,
        paths.agents_dir@,
        paths.submissions_dir@,
        sight.status,
    );
}

/// An answer is the answer of the worker with the same UUID: the one that was taken in by its
/// ready file, as long as that one was not refused and its answer is not under way already. Once
/// the answer was taken, another can be reported.
pub proof fn law_answer_is_that_workers(
    book: IoBook,
    uuid: Seq<char>,
    w: u32,
    sight: Sight,
    kind: EventKind,
    platform: Platform,
    paths: PoolPaths,
    config: IoConfig,
)
    requires
        !uuid.contains('/'),
        write_complete(kind, platform),
        sight.path == joined(paths.agents_dir@, uuid + WORKER_RESPONSE_SUFFIX@),
        sight.exists,
        ({
            let ready = parts(joined(paths.agents_dir@, uuid + READY_SUFFIX@));
            &&& book.workers.paths.contains_key(ready)
            &&& book.workers.paths[ready] == w
            &&& !book.kicked.contains(ready)
        }),
    ensures
        ({
            let (after, event) = seen(book, sight, kind, platform, paths, config);
            &&& event == if book.pending.contains(w) {
                None
            } else {
                Some(Event::WorkerResponded { worker_id: WorkerId(w) })
            }
            &&& after.pending.contains(w)
            &&& after.pending.subset_of(book.pending.insert(w))
            &&& book.pending.subset_of(after.pending)
            &&& after.workers == book.workers
            &&& after.submissions == book.submissions
            &&& forall|task_id: TaskId|
                !(#[trigger] effect_done(
                    after,
                    Effect::TaskCompleted { worker_id: WorkerId(w), task_id },
                )).pending.contains(w)
        }),
{
    reveal_strlit(".ready.json");
    reveal_strlit(".response.json");
    law_response_file_is_known(
        uuid,
        kind,
        platform,
        paths.root@,
        paths.agents_dir@,
        paths.submissions_dir@,
        sight.status,
    );
    assert(!READY_SUFFIX@.contains('/'));
    assert(!WORKER_RESPONSE_SUFFIX@.contains('/'));
    lemma_plain(uuid, READY_SUFFIX@);
    lemma_plain(uuid, WORKER_RESPONSE_SUFFIX@);
    let dir = paths.agents_dir@;
    law_join_adds_one_component(dir, uuid + READY_SUFFIX@);
    law_join_adds_one_component(dir, uuid + WORKER_RESPONSE_SUFFIX@);
    assert(inner(parts(dir), uuid + WORKER_RESPONSE_SUFFIX@).names.drop_last() =~= parts(
        dir,
    ).names);
}

/// A worker that is taken in by its ready file is the one whose answer is reported next, whatever
/// was kept before.
pub proof fn law_worker_is_known_by_its_ready_file(
    book: IoBook,
    uuid: Seq<char>,
    ready: Sight,
    response: Sight,
    kind: EventKind,
    platform: Platform,
    paths: PoolPaths,
    config: IoConfig,
)
    requires
        !uuid.contains('/'),
        write_complete(kind, platform),
        ready.path == joined(paths.agents_dir@, uuid + READY_SUFFIX@),
        response.path == joined(paths.agents_dir@, uuid + WORKER_RESPONSE_SUFFIX@),
        ready.exists,
        response.exists,
        book.workers.next_id < u32::MAX,
        !book.workers.paths.contains_key(parts(ready.path)),
        !book.kicked.contains(parts(ready.path)),
        !book.pending.contains(book.workers.next_id),
    ensures
        ({
            let (after, first) = seen(book, ready, kind, platform, paths, config);
            let second = seen(after, response, kind, platform, paths, config).1;
            first matches Some(Event::WorkerReady { worker_id }) && second == Some(
                Event::WorkerResponded { worker_id },
            )
        }),
{
    law_new_worker_is_taken_in(book, uuid, ready, kind, platform, paths, config);
    let after = seen(book, ready, kind, platform, paths, config).0;
    law_answer_is_that_workers(
        after,
        uuid,
        book.workers.next_id,
        response,
        kind,
        platform,
        paths,
        config,
    );
}

/// A file that is not there, or that was not written whole, changes nothing.
pub proof fn law_what_is_not_there_changes_nothing(
    book: IoBook,
    sight: Sight,
    kind: EventKind,
    platform: Platform,
    paths: PoolPaths,
    config: IoConfig,
)
    requires
        !sight.exists || !write_complete(kind, platform),
    ensures
        seen(book, sight, kind, platform, paths, config) == (book, None::<Event>),
{
}

/// Files count up to the first that asks to stop, and no further: all where none does.
pub proof fn law_files_count_until_stop(
    all: Seq<Sight>,
    kind: EventKind,
    platform: Platform,
    paths: PoolPaths,
)
    ensures
        ({
            let count = sights_that_count(all, kind, platform, paths);
            &&& count <= all.len()
            &&& forall|i: int|
                0 <= i < count ==> sight_category(#[trigger] all[i], kind, platform, paths)
                    != Some(Category::Stop)
            &&& count < all.len() ==> sight_category(all[count as int], kind, platform, paths)
                == Some(Category::Stop)
        }),
    decreases all.len(),
{
    if all.len() > 0 && sight_category(all[0], kind, platform, paths) != Some(Category::Stop) {
        let rest = all.skip(1);
        law_files_count_until_stop(rest, kind, platform, paths);
        let count = sights_that_count(all, kind, platform, paths);
        assert forall|i: int| 0 <= i < count implies sight_category(
            #[trigger] all[i],
            kind,
            platform,
            paths,
        ) != Some(Category::Stop) by {
            if i > 0 {
                assert(rest[i - 1] == all[i]);
            }
        }
        if count < all.len() {
            assert(rest[count - 1] == all[count as int]);
        }
    }
}

/// Files are taken notice of one after the other: what two lists of them come to, one after the
/// other, is what the second comes to after the first, with all events in order; and one file
/// comes to what it comes to by itself.
pub proof fn law_files_are_seen_one_after_the_other(
    book: IoBook,
    first: Seq<Sight>,
    second: Seq<Sight>,
    kind: EventKind,
    platform: Platform,
    paths: PoolPaths,
    config: IoConfig,
)
    ensures
        ({
            let mid = all_seen(book, first, kind, platform, paths, config);
            let end = all_seen(mid.0, second, kind, platform, paths, config);
            all_seen(book, first + second, kind, platform, paths, config) == (
                end.0,
                mid.1 + end.1,
            )
        }),
        first.len() == 1 ==> ({
            let alone = seen(book, first[0], kind, platform, paths, config);
            all_seen(book, first, kind, platform, paths, config) == (
                alone.0,
                match alone.1 {
                    Some(event) => seq![event],
                    None => Seq::empty(),
                },
            )
        }),
    decreases second.len(),
{
    let mid = all_seen(book, first, kind, platform, paths, config);
    if first.len() == 1 {
        assert(first.drop_last() =~= Seq::empty());
        assert(first.last() == first[0]);
        let none = all_seen(book, first.drop_last(), kind, platform, paths, config);
        assert(none == (book, Seq::<Event>::empty()));
        let alone = seen(book, first[0], kind, platform, paths, config);
        if let Some(event) = alone.1 {
            assert(Seq::<Event>::empty().push(event) =~= seq![event]);
        }
    }
    if second.len() == 0 {
        assert(first + second =~= first);
        assert(mid.1 + Seq::<Event>::empty() =~= mid.1);
    } else {
        let early = second.drop_last();
        law_files_are_seen_one_after_the_other(book, first, early, kind, platform, paths, config);
        assert((first + second).drop_last() =~= first + early);
        assert((first + second).last() == second.last());
        let part = all_seen(mid.0, early, kind, platform, paths, config);
        let (after, event) = seen(part.0, second.last(), kind, platform, paths, config);
        if let Some(event) = event {
            assert((mid.1 + part.1).push(event) =~= mid.1 + part.1.push(event));
        }
    }
}

/// A request whose path is known brings nothing: what is kept of submissions stays as it is.
pub proof fn law_known_request_brings_nothing(
    book: IoBook,
    name: Seq<char>,
    sight: Sight,
    kind: EventKind,
    platform: Platform,
    paths: PoolPaths,
    config: IoConfig,
)
    requires
        !name.contains('/'),
        write_complete(kind, platform),
        sight.path == joined(paths.submissions_dir@, name + REQUEST_SUFFIX@),
        book.submissions.paths.contains_key(parts(sight.path)),
    ensures
        ({
            let (after, event) = seen(book, sight, kind, platform, paths, config);
            &&& event is None
            &&& after.submissions == book.submissions
            &&& after.workers == book.workers
        }),
{
    law_request_file_is_known(
        name,
        kind,
        platform,
        paths.root@,
        paths.agents_dir@,
        paths.submissions_dir@,
        sight.status,
    );
}

/// The loop goes on as long as something can be heard from, and ends when the last of the three
/// is closed; closing one leaves the others as they are.
pub proof fn law_loop_ends_with_the_last_channel(open: OpenChannels)
    ensures
        open.without(Channel::Files).any() <==> open.tasks || open.effects,
        open.without(Channel::Tasks).any() <==> open.files || open.effects,
        open.without(Channel::Effects).any() <==> open.files || open.tasks,
        !open.without(Channel::Files).without(Channel::Tasks).without(Channel::Effects).any(),
{
}

/// An input can be taken where there are numbers left for what it brings; that a channel was
/// closed can always be taken.
pub proof fn law_inputs_can_be_taken(state: IoState, input: IoInput)
    ensures
        input is Closed ==> state.takes(input),
        input is Task && state@.next_submission < u32::MAX ==> state.takes(input),
        input matches IoInput::Files { kind, observed } ==> (state@.workers.next_id
            + observed@.len() <= u32::MAX && state@.next_submission + observed@.len() <= u32::MAX
            ==> state.takes(input)),
{
}

/// Once a worker's completion was met, its answer is no longer awaited, whether it could be read
/// or not; where it could not, all else is as before, and the submission is still kept.
pub proof fn law_completion_is_met_once(
    book: IoBook,
    worker_id: WorkerId,
    submission_id: SubmissionId,
    output: Result<String, PoolError>,
)
    ensures
        ({
            let effect = Effect::TaskCompleted {
                worker_id,
                task_id: TaskId::External(submission_id),
            };
            let after = effect_met(book, effect, output);
            &&& !after.pending.contains(worker_id.0)
            &&& after.pending.subset_of(book.pending)
            &&& forall|w: u32| #[trigger]
                book.pending.contains(w) && w != worker_id.0 ==> after.pending.contains(w)
            &&& output is Err ==> after.submissions == book.submissions && after.workers
                == book.workers && after.kicked == book.kicked && after.done == book.done
            &&& output is Ok ==> !after.submissions.entries.contains_key(submission_id.0)
                && after.workers == book.workers
        }),
{
}

} // verus!
