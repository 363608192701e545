//! What the daemon does for its workers and submitters when it carries out an effect.
use super::io::{
    answers, done_after, heartbeat_text, kicked_after, kicked_text, output_path, planned,
    read_failure, submissions_after, workers_after, Deed, Delivery, IoConfig,
};
use super::machine::{Effect, SubmissionId, TaskId, WorkerId};
use super::transports::{Job, Table};
use crate::constants::{
    READY_SUFFIX, REQUEST_SUFFIX, RESPONSE_SUFFIX, TASK_SUFFIX, WORKER_RESPONSE_SUFFIX,
};
use crate::error::PoolError;
use crate::framing::framed;
use crate::json::{json_quoted, law_plain_text_is_quoted_as_it_is, listed, object_text};
use crate::json_laws::law_quoting_loses_nothing;
use crate::path::{inner, joined, law_join_adds_one_component, parts, Parts};
use crate::response::law_answers_word_for_word;
use crate::transport::{law_flat_files_are_the_protocols, Way};
use vstd::prelude::*;

verus! {

/// Whether this text is what is sent, as a file or as a message.
pub open spec fn holds_text(delivery: Delivery, text: Seq<char>) -> bool {
    match delivery {
        Delivery::File(write) => write.content@ == text,
        Delivery::Frame { connection, bytes } => bytes@ == framed(text),
    }
}

/// The answer to a task that a worker completed is the JSON object with what the worker put out
/// as its `stdout`, word for word, and nothing but the kind beside it.
pub proof fn law_answer_holds_the_output(
    delivery: Delivery,
    worker_id: WorkerId,
    submission_id: SubmissionId,
    submissions: Table<Job>,
    output: Seq<char>,
    unique: Seq<char>,
)
    requires
        answers(
            Some(Ok::<Delivery, PoolError>(delivery)),
            Effect::TaskCompleted { worker_id, task_id: TaskId::External(submission_id) },
            submissions,
            output,
            unique,
        ),
    ensures
        holds_text(
            delivery,
            "{\"kind\":\"Processed\",\"stdout\":"@ + json_quoted(output) + "}"@,
        ),
{
    law_answers_word_for_word(output);
}

/// The answer to a task that failed says that time was up, whatever was read.
pub proof fn law_failure_says_timeout(
    delivery: Delivery,
    submission_id: SubmissionId,
    submissions: Table<Job>,
    output: Seq<char>,
    unique: Seq<char>,
)
    requires
        answers(
            Some(Ok::<Delivery, PoolError>(delivery)),
            Effect::TaskFailed { submission_id },
            submissions,
            output,
            unique,
        ),
    ensures
        holds_text(delivery, "{\"kind\":\"NotProcessed\",\"reason\":\"timeout\"}"@),
{
    law_answers_word_for_word(output);
}

/// What a worker put out can be told from the file that answers the submitter: where two outputs
/// are answered alike, they are the same, character for character.
pub proof fn law_answer_loses_nothing_of_the_output(
    first: crate::transport::AtomicWrite,
    second: crate::transport::AtomicWrite,
    worker_id: WorkerId,
    submission_id: SubmissionId,
    submissions: Table<Job>,
    one: Seq<char>,
    other: Seq<char>,
    unique: Seq<char>,
)
    requires
        ({
            let effect = Effect::TaskCompleted {
                worker_id,
                task_id: TaskId::External(submission_id),
            };
            &&& answers(
                Some(Ok::<Delivery, PoolError>(Delivery::File(first))),
                effect,
                submissions,
                one,
                unique,
            )
            &&& answers(
                Some(Ok::<Delivery, PoolError>(Delivery::File(second))),
                effect,
                submissions,
                other,
                unique,
            )
            &&& first.content@ == second.content@
        }),
    ensures
        one == other,
{
    let a = Delivery::File(first);
    let b = Delivery::File(second);
    law_answer_holds_the_output(a, worker_id, submission_id, submissions, one, unique);
    law_answer_holds_the_output(b, worker_id, submission_id, submissions, other, unique);
    let head = "{\"kind\":\"Processed\",\"stdout\":"@;
    let text = first.content@;
    reveal_strlit("}");
    assert(text.subrange(head.len() as int, text.len() - 1) =~= json_quoted(one));
    assert(text.subrange(head.len() as int, text.len() - 1) =~= json_quoted(other));
    law_quoting_loses_nothing(one, other);
}

/// The answer to a request file lies beside it: `<name>.response.json` for
/// `<name>.request.json`. The answer to a task that came by a connection goes back by it.
pub proof fn law_answer_goes_where_the_task_came_from(
    delivery: Delivery,
    effect: Effect,
    submission_id: SubmissionId,
    submissions: Table<Job>,
    output: Seq<char>,
    unique: Seq<char>,
    dir: Seq<char>,
    name: Seq<char>,
)
    requires
        answers(
            Some(Ok::<Delivery, PoolError>(delivery)),
            effect,
            submissions,
            output,
            unique,
        ),
        effect == (Effect::TaskFailed { submission_id }) || (effect matches Effect::TaskCompleted {
            worker_id,
            task_id: TaskId::External(s),
        } && s == submission_id),
        !name.contains('/'),
    ensures
        submissions.entries[submission_id.0].0 == Way::Directory(
            joined(dir, name + REQUEST_SUFFIX@),
        ) ==> (delivery matches Delivery::File(write) && parts(write.target@) == parts(
            joined(dir, name + RESPONSE_SUFFIX@),
        )),
        submissions.entries[submission_id.0].0 matches Way::Socket(number) ==> (
        delivery matches Delivery::Frame { connection, bytes } && connection == number),
{
    reveal_strlit(".request.json");
    reveal_strlit(".response.json");
    let request = name + REQUEST_SUFFIX@;
    let response = name + RESPONSE_SUFFIX@;
    assert forall|i: int| 0 <= i < request.len() implies request[i] != '/' by {
        if i < name.len() {
            assert(name.contains(name[i]));
        }
    }
    assert forall|i: int| 0 <= i < response.len() implies response[i] != '/' by {
        if i < name.len() {
            assert(name.contains(name[i]));
        }
    }
    assert(seq!['.'].len() == 1);
    assert(seq!['.', '.'].len() == 2);
    assert(request.len() > 2 && response.len() > 2);
    law_join_adds_one_component(dir, request);
    law_join_adds_one_component(dir, response);
    crate::text::law_suffix_comes_off(name, REQUEST_SUFFIX@);
    assert(inner(parts(dir), request).names.drop_last() =~= parts(dir).names);
    assert(inner(parts(dir), request).names.last() == request);
}

/// A worker that is handed a submission finds its content in its task file, word for word, and
/// then has the submission's time for it, no more and no less. Nothing else is done.
pub proof fn law_assigned_task_is_handed_over(
    workers: Table<()>,
    submissions: Table<Job>,
    done: Set<u32>,
    config: IoConfig,
    unique: Seq<char>,
    worker_id: WorkerId,
    submission_id: SubmissionId,
    dir: Seq<char>,
    uuid: Seq<char>,
)
    requires
        workers.entries[worker_id.0].0 == (Way::FlatFile { dir, uuid }),
    ensures
        ({
            let effect = Effect::TaskAssigned {
                worker_id,
                task_id: TaskId::External(submission_id),
            };
            let job = submissions.entries[submission_id.0].1;
            &&& planned(effect, workers, submissions, done, config, unique) matches Some(deeds)
            &&& deeds.len() == 2
            &&& deeds[0] matches Deed::WriteFile(write)
            &&& write.target == joined(dir, uuid + TASK_SUFFIX@)
            &&& write.content == job.content
            &&& deeds[1] == (Deed::StartTaskTimer { worker_id, timeout: job.timeout })
        }),
{
    law_flat_files_are_the_protocols(dir, uuid);
}

/// A worker that is checked finds a heartbeat in its task file, and then has as long for it as
/// it may be idle.
pub proof fn law_heartbeat_is_handed_over(
    workers: Table<()>,
    submissions: Table<Job>,
    done: Set<u32>,
    config: IoConfig,
    unique: Seq<char>,
    worker_id: WorkerId,
    dir: Seq<char>,
    uuid: Seq<char>,
)
    requires
        workers.entries[worker_id.0].0 == (Way::FlatFile { dir, uuid }),
    ensures
        ({
            let effect = Effect::TaskAssigned { worker_id, task_id: TaskId::Heartbeat };
            &&& planned(effect, workers, submissions, done, config, unique) matches Some(deeds)
            &&& deeds.len() == 2
            &&& deeds[0] matches Deed::WriteFile(write)
            &&& write.target == joined(dir, uuid + TASK_SUFFIX@)
            &&& write.content == heartbeat_text()
            &&& deeds[1] == (Deed::StartTaskTimer { worker_id, timeout: config.idle_timeout })
        }),
{
    law_flat_files_are_the_protocols(dir, uuid);
}

/// A heartbeat says that it is one, asks for an answer and brings no data; and a worker that is
/// removed is told that it was, and why.
pub proof fn law_messages_word_for_word()
    ensures
        heartbeat_text() == "{\"kind\":\"Heartbeat\",\"task\":{\"data\":null,\"instructions\":"@
            + json_quoted(super::io::HEARTBEAT_INSTRUCTIONS@) + "}}"@,
        super::io::HEARTBEAT_INSTRUCTIONS@
            == "Respond with any valid JSON to confirm you're alive. The daemon discards your response - this exists to detect stuck workers."@,
        kicked_text() == "{\"kind\":\"Kicked\",\"reason\":\"Timeout\"}"@,
{
    reveal_strlit("{\"kind\":\"Heartbeat\",\"task\":{\"data\":null,\"instructions\":");
    reveal_strlit("}}");
    reveal_strlit("{\"kind\":\"Kicked\",\"reason\":\"Timeout\"}");
    reveal_strlit("kind");
    reveal_strlit("task");
    reveal_strlit("data");
    reveal_strlit("null");
    reveal_strlit("instructions");
    reveal_strlit("reason");
    reveal_strlit("Heartbeat");
    reveal_strlit("Kicked");
    reveal_strlit("Timeout");
    law_plain_text_is_quoted_as_it_is("kind"@);
    law_plain_text_is_quoted_as_it_is("task"@);
    law_plain_text_is_quoted_as_it_is("data"@);
    law_plain_text_is_quoted_as_it_is("instructions"@);
    law_plain_text_is_quoted_as_it_is("reason"@);
    law_plain_text_is_quoted_as_it_is("Heartbeat"@);
    law_plain_text_is_quoted_as_it_is("Kicked"@);
    law_plain_text_is_quoted_as_it_is("Timeout"@);
    let told = json_quoted(super::io::HEARTBEAT_INSTRUCTIONS@);
    let task = seq![("data"@, "null"@), ("instructions"@, told)];
    lemma_two(task);
    assert(task == super::io::heartbeat_task());
    let beat = seq![("kind"@, json_quoted("Heartbeat"@)), ("task"@, object_text(task))];
    lemma_two(beat);
    assert(heartbeat_text() =~= "{\"kind\":\"Heartbeat\",\"task\":{\"data\":null,\"instructions\":"@
        + told + "}}"@);
    let out = seq![("kind"@, json_quoted("Kicked"@)), ("reason"@, json_quoted("Timeout"@))];
    lemma_two(out);
    assert(kicked_text() =~= "{\"kind\":\"Kicked\",\"reason\":\"Timeout\"}"@);
}

proof fn lemma_two(members: Seq<(Seq<char>, Seq<char>)>)
    requires
        members.len() == 2,
    ensures
        listed(members) == json_quoted(members[0].0) + seq![':'] + members[0].1 + seq![',']
            + json_quoted(members[1].0) + seq![':'] + members[1].1,
{
    let first = members.drop_last();
    assert(first =~= seq![members[0]]);
    assert(first.last() == members[0]);
    assert(listed(first) == json_quoted(members[0].0) + seq![':'] + members[0].1);
    assert(listed(members) =~= json_quoted(members[0].0) + seq![':'] + members[0].1 + seq![',']
        + json_quoted(members[1].0) + seq![':'] + members[1].1);
}

/// A worker that starts to wait is checked after the idle time, exactly where heartbeats are
/// wanted.
pub proof fn law_idle_timer_starts_where_wanted(
    workers: Table<()>,
    submissions: Table<Job>,
    done: Set<u32>,
    config: IoConfig,
    unique: Seq<char>,
    worker_id: WorkerId,
)
    ensures
        ({
            let effect = Effect::WorkerWaiting { worker_id };
            let timer = Deed::StartIdleTimer { worker_id, timeout: config.idle_timeout };
            &&& planned(effect, workers, submissions, done, config, unique) matches Some(deeds)
            &&& config.heartbeat_enabled ==> deeds == seq![timer]
            &&& !config.heartbeat_enabled ==> deeds.len() == 0
        }),
{
}

/// The output of a worker is read from its response file, and only when it completed a
/// submission: nothing else needs a file, and nothing else fails for want of one.
pub proof fn law_output_is_the_workers(
    effect: Effect,
    workers: Table<()>,
    cause: PoolError,
    worker_id: WorkerId,
    dir: Seq<char>,
    uuid: Seq<char>,
)
    requires
        workers.entries[worker_id.0].0 == (Way::FlatFile { dir, uuid }),
    ensures
        match effect {
            Effect::TaskCompleted { worker_id: w, task_id: TaskId::External(submission_id) } => {
                &&& w == worker_id ==> output_path(effect, workers) == Some(
                    joined(dir, uuid + WORKER_RESPONSE_SUFFIX@),
                )
                &&& read_failure(effect, Err(cause)) == Some(cause)
            },
            _ => {
                &&& output_path(effect, workers) is None
                &&& read_failure(effect, Err(cause)) is None
            },
        },
        forall|text: String| #[trigger] read_failure(effect, Ok(text)) is None,
{
    law_flat_files_are_the_protocols(dir, uuid);
}

/// A worker that is removed without an answer finds in its task file that it was removed. Its
/// answer and its ready file are gone first, and its task file is not removed.
pub proof fn law_removed_worker_is_told(
    workers: Table<()>,
    submissions: Table<Job>,
    done: Set<u32>,
    config: IoConfig,
    unique: Seq<char>,
    worker_id: WorkerId,
    dir: Seq<char>,
    uuid: Seq<char>,
)
    requires
        workers.entries[worker_id.0].0 == (Way::FlatFile { dir, uuid }),
        !done.contains(worker_id.0),
    ensures
        ({
            let effect = Effect::WorkerRemoved { worker_id };
            let task_file = joined(dir, uuid + TASK_SUFFIX@);
            &&& planned(effect, workers, submissions, done, config, unique) matches Some(deeds)
            &&& deeds.last() matches Deed::TryWriteFile(write)
            &&& write.target == task_file
            &&& write.content == "{\"kind\":\"Kicked\",\"reason\":\"Timeout\"}"@
            &&& deeds.contains(Deed::RemoveFile(joined(dir, uuid + WORKER_RESPONSE_SUFFIX@)))
            &&& deeds.contains(Deed::RemoveFile(joined(dir, uuid + READY_SUFFIX@)))
            &&& deeds.len() == 3
        }),
{
    law_flat_files_are_the_protocols(dir, uuid);
    law_messages_word_for_word();
    let effect = Effect::WorkerRemoved { worker_id };
    let deeds = planned(effect, workers, submissions, done, config, unique)->0;
    assert(deeds[0] == Deed::RemoveFile(joined(dir, uuid + WORKER_RESPONSE_SUFFIX@)));
    assert(deeds[1] == Deed::RemoveFile(joined(dir, uuid + READY_SUFFIX@)));
}

/// An effect that is carried out ends what it is about and nothing else: a submission is
/// forgotten exactly when it was completed or failed, a worker exactly when it was removed, and
/// whatever else is kept is kept as it was.
pub proof fn law_effect_ends_what_it_is_about(
    effect: Effect,
    workers: Table<()>,
    submissions: Table<Job>,
    done: Set<u32>,
    w: u32,
    s: u32,
)
    requires
        workers.entries.contains_key(w),
        submissions.entries.contains_key(s),
    ensures
        ({
            let over = effect == (Effect::TaskFailed { submission_id: SubmissionId(s) }) || (
            effect matches Effect::TaskCompleted { worker_id, task_id } && task_id
                == TaskId::External(SubmissionId(s)));
            let after = submissions_after(effect, submissions);
            &&& after.entries.contains_key(s) <==> !over
            &&& !over ==> after.entries[s] == submissions.entries[s]
            &&& after.entries.dom().subset_of(submissions.entries.dom())
        }),
        ({
            let removed = effect == (Effect::WorkerRemoved { worker_id: WorkerId(w) });
            let after = workers_after(effect, workers);
            &&& after.entries.contains_key(w) <==> !removed
            &&& !removed ==> after.entries[w] == workers.entries[w]
            &&& after.entries.dom().subset_of(workers.entries.dom())
            &&& after.next_id == workers.next_id
        }),
        ({
            let completed = effect matches Effect::TaskCompleted { worker_id, task_id } && worker_id
                == WorkerId(w);
            let removed = effect == (Effect::WorkerRemoved { worker_id: WorkerId(w) });
            done_after(effect, done).contains(w) <==> (completed || (done.contains(w) && !removed))
        }),
{
}

/// A flat-file worker that is removed is remembered by its ready file, and no other path is: the
/// paths that were refused before are refused still.
pub proof fn law_removed_worker_is_remembered(
    effect: Effect,
    workers: Table<()>,
    kicked: Set<Parts>,
    path: Parts,
    worker_id: WorkerId,
    dir: Seq<char>,
    uuid: Seq<char>,
)
    requires
        workers.entries[worker_id.0].0 == (Way::FlatFile { dir, uuid }),
    ensures
        kicked.contains(path) ==> kicked_after(effect, workers, kicked).contains(path),
        !(effect is WorkerRemoved) ==> kicked_after(effect, workers, kicked) == kicked,
        effect == (Effect::WorkerRemoved { worker_id }) ==> (kicked_after(
            effect,
            workers,
            kicked,
        ).contains(path) <==> (kicked.contains(path) || path == parts(
            joined(dir, uuid + READY_SUFFIX@),
        ))),
{
    law_flat_files_are_the_protocols(dir, uuid);
}

/// A worker with a directory of its own finds its tasks in that directory, and its task and its
/// answer are removed from there once the answer was taken.
pub proof fn law_worker_with_a_directory(
    workers: Table<()>,
    submissions: Table<Job>,
    done: Set<u32>,
    config: IoConfig,
    unique: Seq<char>,
    worker_id: WorkerId,
    task_id: TaskId,
    path: Seq<char>,
)
    requires
        workers.entries[worker_id.0].0 == Way::Directory(path),
    ensures
        ({
            let assigned = planned(
                Effect::TaskAssigned { worker_id, task_id },
                workers,
                submissions,
                done,
                config,
                unique,
            );
            let completed = planned(
                Effect::TaskCompleted { worker_id, task_id },
                workers,
                submissions,
                done,
                config,
                unique,
            );
            &&& assigned matches Some(deeds)
            &&& deeds[0] matches Deed::WriteFile(write)
            &&& write.target == joined(path, "task.json"@)
            &&& write.content == match task_id {
                TaskId::External(submission_id) => submissions.entries[submission_id.0].1.content,
                TaskId::Heartbeat => heartbeat_text(),
            }
            &&& completed == Some(
                seq![
                    Deed::RemoveFile(joined(path, "task.json"@)),
                    Deed::RemoveFile(joined(path, "response.json"@)),
                ],
            )
        }),
{
}

/// Only the handing of a task to a worker on a socket cannot be done.
pub proof fn law_what_cannot_be_done(
    effect: Effect,
    workers: Table<()>,
    submissions: Table<Job>,
    done: Set<u32>,
    config: IoConfig,
    unique: Seq<char>,
)
    ensures
        planned(effect, workers, submissions, done, config, unique) is None <==> (
        effect matches Effect::TaskAssigned { worker_id, task_id }
            && workers.entries[worker_id.0].0 is Socket),
        effect is TaskFailed ==> planned(
            effect,
            workers,
            submissions,
            done,
            config,
            unique,
        )->0.len() == 0,
{
}

} // verus!
