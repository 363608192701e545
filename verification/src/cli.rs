//! What the command-line tool prints and decides.
use crate::constants::{AGENTS_DIR, WORKER_RESPONSE_SUFFIX, response_path};
use crate::daemon::wiring::DaemonConfig;
use crate::json::{
    as_string, comes_before, compact, differ_first, json_member, json_parsed, json_pretty,
    json_quoted, json_string, json_text, keys_rise, member, member_texts, null_value, object_text,
    object_value, parse, pretty, string_value, value_under,
};
use crate::path::{join, joined};
use crate::payload::Payload;
use crate::pool::PoolInfo;
use crate::response::text_under;
use crate::text::{concat2, concat3, has_part, pad, padded, replace, replaced};
use crate::text_laws::{law_first_is_replaced, law_nothing_to_replace};
use crate::time::Duration;
use crate::worker::TaskAssignment;
use vstd::prelude::*;

verus! {

/// What a task's envelope holds: its kind, its content and its instructions.
#[derive(Debug)]
pub struct Envelope {
    /// The kind, `Task` where it says none.
    pub kind: String,
    /// The content, null where there is none.
    pub content: serde_json::Value,
    /// The instructions, if there are any.
    pub instructions: Option<serde_json::Value>,
}

/// The compact text of the envelope that a task is: null where it is no JSON.
pub open spec fn envelope_text(content: Seq<char>) -> Seq<char> {
    match json_parsed(content) {
        Some(value) => value,
        None => "null"@,
    }
}

/// The kind that an envelope says, or `Task`.
pub open spec fn kind_in(envelope: Seq<char>) -> Seq<char> {
    match json_member(envelope, "kind"@) {
        Some(kind) => match json_string(kind) {
            Some(text) => text,
            None => "Task"@,
        },
        None => "Task"@,
    }
}

/// The content in an envelope, or null.
pub open spec fn content_in(envelope: Seq<char>) -> Seq<char> {
    match json_member(envelope, "task"@) {
        Some(task) => task,
        None => "null"@,
    }
}

/// The compact text of a value, if there is one.
pub open spec fn value_text(value: Option<serde_json::Value>) -> Option<Seq<char>> {
    match value {
        Some(value) => Some(json_text(value)),
        None => None,
    }
}

/// Takes an envelope apart.
pub fn open_envelope(envelope: &serde_json::Value) -> (r: Envelope)
    ensures
        r.kind@ == kind_in(json_text(*envelope)),
        json_text(r.content) == content_in(json_text(*envelope)),
        value_text(r.instructions) == json_member(json_text(*envelope), "instructions"@),
{
    let kind = match member(envelope, "kind") {
        Some(kind) => match as_string(&kind) {
            Some(text) => text,
            None => "Task".to_owned(),
        },
        None => "Task".to_owned(),
    };
    let content = match member(envelope, "task") {
        Some(task) => task,
        None => null_value(),
    };
    Envelope { kind, content, instructions: member(envelope, "instructions") }
}

/// The members of what is printed for a task.
pub open spec fn task_members(
    uuid: Seq<char>,
    kind: Seq<char>,
    response_file: Seq<char>,
    content: Seq<char>,
    name: Option<Seq<char>>,
    instructions: Option<Seq<char>>,
) -> Seq<(Seq<char>, Seq<char>)> {
    let first = match name {
        Some(name) => seq![("agent_name"@, json_quoted(name)), ("content"@, content)],
        None => seq![("content"@, content)],
    };
    let then = match instructions {
        Some(value) => first.push(("instructions"@, value)),
        None => first,
    };
    then + seq![
        ("kind"@, json_quoted(kind)),
        ("response_file"@, json_quoted(response_file)),
        ("uuid"@, json_quoted(uuid)),
    ]
}

proof fn lemma_task_keys_rise(
    uuid: Seq<char>,
    kind: Seq<char>,
    response_file: Seq<char>,
    content: Seq<char>,
    name: Option<Seq<char>>,
    instructions: Option<Seq<char>>,
)
    ensures
        keys_rise(task_members(uuid, kind, response_file, content, name, instructions)),
{
    reveal_strlit("agent_name");
    reveal_strlit("content");
    reveal_strlit("instructions");
    reveal_strlit("kind");
    reveal_strlit("response_file");
    reveal_strlit("uuid");
    assert("agent_name"@[0] == 'a' && "content"@[0] == 'c' && "instructions"@[0] == 'i');
    assert("kind"@[0] == 'k' && "response_file"@[0] == 'r' && "uuid"@[0] == 'u');
    let members = task_members(uuid, kind, response_file, content, name, instructions);
    assert forall|i: int| 0 < i < members.len() implies comes_before(
        members[i - 1].0,
        (#[trigger] members[i]).0,
    ) by {
        assert(differ_first(members[i - 1].0, members[i].0, 0));
    }
}

/// Whether a JSON object tells an agent its task: what it is, of which kind, where its answer
/// goes, and, where there are any, the agent's name and the instructions; and nothing else.
pub open spec fn tells_task(
    object: Seq<char>,
    uuid: Seq<char>,
    kind: Seq<char>,
    response_file: Seq<char>,
    content: Seq<char>,
    name: Option<Seq<char>>,
    instructions: Option<Seq<char>>,
) -> bool {
    &&& json_member(object, "content"@) == Some(content)
    &&& text_under(object, "kind"@) == Some(kind)
    &&& text_under(object, "response_file"@) == Some(response_file)
    &&& text_under(object, "uuid"@) == Some(uuid)
    &&& match name {
        Some(name) => text_under(object, "agent_name"@) == Some(name),
        None => json_member(object, "agent_name"@) is None,
    }
    &&& json_member(object, "instructions"@) == instructions
    &&& forall|key: Seq<char>| #[trigger]
        json_member(object, key) is Some ==> key == "content"@ || key == "kind"@ || key
            == "response_file"@ || key == "uuid"@ || key == "agent_name"@ || key
            == "instructions"@
}

/// Whether a text is a JSON object, laid out, that tells an agent its task.
pub open spec fn prints_task(
    text: Seq<char>,
    uuid: Seq<char>,
    kind: Seq<char>,
    response_file: Seq<char>,
    content: Seq<char>,
    name: Option<Seq<char>>,
    instructions: Option<Seq<char>>,
) -> bool {
    exists|object: Seq<char>|
        text == json_pretty(object) && #[trigger] tells_task(
            object,
            uuid,
            kind,
            response_file,
            content,
            name,
            instructions,
        )
}

/// Whatever the name and the instructions are, an agent finds among the members of what is
/// printed for a task its content, its kind, where the answer goes and its UUID, each once and
/// as they are; the name and the instructions exactly where there are any; and nothing else.
pub proof fn law_task_is_told_whole(
    uuid: Seq<char>,
    kind: Seq<char>,
    response_file: Seq<char>,
    content: Seq<char>,
    name: Option<Seq<char>>,
    instructions: Option<Seq<char>>,
    key: Seq<char>,
)
    ensures
        value_under(
            task_members(uuid, kind, response_file, content, name, instructions),
            key,
        ) == if key == "content"@ {
            Some(content)
        } else if key == "kind"@ {
            Some(json_quoted(kind))
        } else if key == "response_file"@ {
            Some(json_quoted(response_file))
        } else if key == "uuid"@ {
            Some(json_quoted(uuid))
        } else if key == "agent_name"@ {
            match name {
                Some(name) => Some(json_quoted(name)),
                None => None,
            }
        } else if key == "instructions"@ {
            instructions
        } else {
            None
        },
{
    reveal_strlit("agent_name");
    reveal_strlit("content");
    reveal_strlit("instructions");
    reveal_strlit("kind");
    reveal_strlit("response_file");
    reveal_strlit("uuid");
    assert("agent_name"@[0] == 'a' && "content"@[0] == 'c' && "instructions"@[0] == 'i');
    assert("kind"@[0] == 'k' && "response_file"@[0] == 'r' && "uuid"@[0] == 'u');
    let all = task_members(uuid, kind, response_file, content, name, instructions);
    let n = all.len() as int;
    let after_last = all.drop_last();
    let after_two = after_last.drop_last();
    let after_three = after_two.drop_last();
    let first = match name {
        Some(name) => seq![("agent_name"@, json_quoted(name)), ("content"@, content)],
        None => seq![("content"@, content)],
    };
    let then = match instructions {
        Some(value) => first.push(("instructions"@, value)),
        None => first,
    };
    assert(after_three =~= then);
    if instructions is Some {
        assert(then.drop_last() =~= first);
    }
    reveal_with_fuel(value_under, 7);
    if name is Some {
        assert(first.drop_last() =~= seq![first[0]]);
        assert(seq![first[0]].drop_last() =~= Seq::empty());
    } else {
        assert(first.drop_last() =~= Seq::empty());
    }
}

/// What is printed for a task whose envelope was taken apart.
pub fn task_output(
    uuid: &str,
    response_file: &str,
    envelope: Envelope,
    name: Option<&str>,
) -> (r: String)
    ensures
        r@ == json_pretty(
            object_text(
                task_members(
                    uuid@,
                    envelope.kind@,
                    response_file@,
                    json_text(envelope.content),
                    crate::worker::name_text(name),
                    value_text(envelope.instructions),
                ),
            ),
        ),
        prints_task(
            r@,
            uuid@,
            envelope.kind@,
            response_file@,
            json_text(envelope.content),
            crate::worker::name_text(name),
            value_text(envelope.instructions),
        ),
{
    let ghost kind = envelope.kind@;
    let ghost content = json_text(envelope.content);
    let ghost named = crate::worker::name_text(name);
    let ghost told = value_text(envelope.instructions);
    let ghost want = task_members(
        uuid@,
        envelope.kind@,
        response_file@,
        json_text(envelope.content),
        crate::worker::name_text(name),
        value_text(envelope.instructions),
    );
    let mut output: Vec<(String, serde_json::Value)> = Vec::new();
    if let Some(name) = name {
        let name_value = string_value(name);
        assert(json_string(json_quoted(name@)) == Some(name@));
        output.push(("agent_name".to_owned(), name_value));
    }
    output.push(("content".to_owned(), envelope.content));
    if let Some(value) = envelope.instructions {
        output.push(("instructions".to_owned(), value));
    }
    let kind_value = string_value(&envelope.kind);
    let file_value = string_value(response_file);
    let uuid_value = string_value(uuid);
    output.push(("kind".to_owned(), kind_value));
    output.push(("response_file".to_owned(), file_value));
    output.push(("uuid".to_owned(), uuid_value));
    assert(member_texts(output@) =~= want);
    proof {
        lemma_task_keys_rise(
            uuid@,
            envelope.kind@,
            response_file@,
            json_text(envelope.content),
            crate::worker::name_text(name),
            value_text(envelope.instructions),
        );
    }
    let object = object_value(output);
    proof {
        assert forall|key: Seq<char>| #[trigger] json_member(json_text(object), key) == value_under(
            want,
            key,
        ) by {}
        assert forall|key: Seq<char>| #[trigger] json_member(
            json_text(object),
            key,
        ) is Some implies key == "content"@ || key == "kind"@ || key == "response_file"@ || key
            == "uuid"@ || key == "agent_name"@ || key == "instructions"@ by {
            law_task_is_told_whole(uuid@, kind, response_file@, content, named, told, key);
        }
        law_task_is_told_whole(uuid@, kind, response_file@, content, named, told, "content"@);
        law_task_is_told_whole(uuid@, kind, response_file@, content, named, told, "kind"@);
        law_task_is_told_whole(uuid@, kind, response_file@, content, named, told, "response_file"@);
        law_task_is_told_whole(uuid@, kind, response_file@, content, named, told, "uuid"@);
        law_task_is_told_whole(uuid@, kind, response_file@, content, named, told, "agent_name"@);
        law_task_is_told_whole(uuid@, kind, response_file@, content, named, told, "instructions"@);
        lemma_keys_differ();
        assert(tells_task(
            json_text(object),
            uuid@,
            kind,
            response_file@,
            content,
            named,
            told,
        ));
    }
    pretty(&object)
}

proof fn lemma_keys_differ()
    ensures
        "content"@ != "kind"@,
        "content"@ != "response_file"@,
        "content"@ != "uuid"@,
        "content"@ != "agent_name"@,
        "content"@ != "instructions"@,
        "kind"@ != "response_file"@,
        "kind"@ != "uuid"@,
        "kind"@ != "agent_name"@,
        "kind"@ != "instructions"@,
        "response_file"@ != "uuid"@,
        "response_file"@ != "agent_name"@,
        "response_file"@ != "instructions"@,
        "uuid"@ != "agent_name"@,
        "uuid"@ != "instructions"@,
        "agent_name"@ != "instructions"@,
{
    reveal_strlit("agent_name");
    reveal_strlit("content");
    reveal_strlit("instructions");
    reveal_strlit("kind");
    reveal_strlit("response_file");
    reveal_strlit("uuid");
    assert("agent_name"@[0] == 'a' && "content"@[0] == 'c' && "instructions"@[0] == 'i');
    assert("kind"@[0] == 'k' && "response_file"@[0] == 'r' && "uuid"@[0] == 'u');
}

/// What is printed for a task: its UUID, its kind, where the answer is to be written, its
/// content, and, where there are any, the agent's name and the instructions.
pub fn format_task_output(assignment: &TaskAssignment, pool_root: &str, name: Option<&str>) -> (r:
    String)
    ensures
        ({
            let envelope = envelope_text(assignment.content@);
            r@ == json_pretty(
                object_text(
                    task_members(
                        assignment.uuid@,
                        kind_in(envelope),
                        joined(
                            joined(pool_root@, AGENTS_DIR@),
                            assignment.uuid@ + WORKER_RESPONSE_SUFFIX@,
                        ),
                        content_in(envelope),
                        crate::worker::name_text(name),
                        json_member(envelope, "instructions"@),
                    ),
                ),
            )
        }),
        ({
            let envelope = match json_parsed(assignment.content@) {
                Some(value) => value,
                None => "null"@,
            };
            prints_task(
                r@,
                assignment.uuid@,
                match text_under(envelope, "kind"@) {
                    Some(kind) => kind,
                    None => "Task"@,
                },
                joined(
                    joined(pool_root@, "agents"@),
                    assignment.uuid@ + ".response.json"@,
                ),
                match json_member(envelope, "task"@) {
                    Some(task) => task,
                    None => "null"@,
                },
                match name {
                    Some(name) => Some(name@),
                    None => None,
                },
                json_member(envelope, "instructions"@),
            )
        }),
{
    let agents_dir = join(pool_root, AGENTS_DIR);
    let response_file = response_path(&agents_dir, &assignment.uuid);
    let envelope = match parse(&assignment.content) {
        Some(value) => value,
        None => null_value(),
    };
    let opened = open_envelope(&envelope);
    task_output(&assignment.uuid, &response_file, opened, name)
}

/// The text that names a pool in JSON.
pub fn pool_info_json(id: &str) -> (r: String)
    ensures
        r@ == object_text(seq![("id"@, json_quoted(id@))]),
        text_under(r@, "id"@) == Some(id@),
        forall|key: Seq<char>| #[trigger] json_member(r@, key) is Some ==> key == "id"@,
{
    let mut members: Vec<(String, serde_json::Value)> = Vec::new();
    members.push(("id".to_owned(), string_value(id)));
    assert(member_texts(members@) =~= seq![("id"@, json_quoted(id@))]);
    proof {
        let all = member_texts(members@);
        assert(all.drop_last() =~= Seq::empty());
        reveal_with_fuel(value_under, 2);
    }
    compact(&object_value(members))
}

/// The protocol as it is printed for a pool and a name: a template with both filled in.
pub open spec fn protocol_for(
    template: Seq<char>,
    pool: Option<(Seq<char>, Seq<char>)>,
    name: Option<Seq<char>>,
) -> Seq<char> {
    let pooled = match pool {
        Some((id, path)) => replaced(
            replaced(replaced(template, "<POOL_ID>"@, id), "abc12345"@, id),
            "/tmp/agent_pool/<POOL_ID>"@,
            path,
        ),
        None => template,
    };
    match name {
        Some(name) => replaced(
            replaced(pooled, "<AGENT_NAME>"@, name),
            "--name <AGENT_NAME>"@,
            "--name "@ + name,
        ),
        None => pooled,
    }
}

proof fn lemma_no_mark(s: Seq<char>, part: Seq<char>)
    requires
        !s.contains('<'),
        part.contains('<'),
    ensures
        !has_part(s, part),
{
    let k = choose|k: int| 0 <= k < part.len() && part[k] == '<';
    assert forall|i: int| 0 <= i <= s.len() - part.len() implies #[trigger] s.subrange(
        i,
        i + part.len(),
    ) != part by {
        assert(s.subrange(i, i + part.len())[k] == s[i + k]);
        assert(s.contains(s[i + k]));
    }
}

/// Without a pool and a name the protocol is printed as it is.
pub proof fn law_protocol_as_it_is(template: Seq<char>)
    ensures
        protocol_for(template, None, None) == template,
{
}

/// A name that is given stands in the protocol where its mark stands.
pub proof fn law_name_is_filled_in(before: Seq<char>, after: Seq<char>, name: Seq<char>)
    requires
        !before.contains('<'),
        !after.contains('<'),
        !name.contains('<'),
    ensures
        protocol_for(before + "<AGENT_NAME>"@ + after, None, Some(name)) == before + name + after,
{
    reveal_strlit("<AGENT_NAME>");
    reveal_strlit("--name <AGENT_NAME>");
    let mark = "<AGENT_NAME>"@;
    let long = "--name <AGENT_NAME>"@;
    assert(mark[0] == '<' && long[7] == '<');
    assert(mark.contains('<') && long.contains('<'));
    lemma_mark_stands_once(before, mark);
    law_first_is_replaced(before, mark, after, name);
    lemma_no_mark(after, mark);
    law_nothing_to_replace(after, mark, name);
    let filled = before + name + after;
    assert(!filled.contains('<')) by {
        if filled.contains('<') {
            let k = choose|k: int| 0 <= k < filled.len() && filled[k] == '<';
            if k < before.len() {
                assert(before.contains(before[k]));
            } else if k < before.len() + name.len() {
                assert(name.contains(name[k - before.len()]));
            } else {
                assert(after.contains(after[k - before.len() - name.len()]));
            }
        }
    }
    lemma_no_mark(filled, long);
    law_nothing_to_replace(filled, long, "--name "@ + name);
}

/// A pool that is given stands in the protocol by its name where its mark stands.
pub proof fn law_pool_is_filled_in(
    before: Seq<char>,
    after: Seq<char>,
    id: Seq<char>,
    path: Seq<char>,
)
    requires
        !before.contains('<'),
        !after.contains('<'),
        !id.contains('<'),
        !has_part(before + id + after, "abc12345"@),
    ensures
        protocol_for(before + "<POOL_ID>"@ + after, Some((id, path)), None) == before + id + after,
{
    reveal_strlit("<POOL_ID>");
    reveal_strlit("/tmp/agent_pool/<POOL_ID>");
    let mark = "<POOL_ID>"@;
    let long = "/tmp/agent_pool/<POOL_ID>"@;
    assert(mark[0] == '<' && long[16] == '<');
    assert(mark.contains('<') && long.contains('<'));
    lemma_mark_stands_once(before, mark);
    law_first_is_replaced(before, mark, after, id);
    lemma_no_mark(after, mark);
    law_nothing_to_replace(after, mark, id);
    let filled = before + id + after;
    law_nothing_to_replace(filled, "abc12345"@, id);
    assert(!filled.contains('<')) by {
        if filled.contains('<') {
            let k = choose|k: int| 0 <= k < filled.len() && filled[k] == '<';
            if k < before.len() {
                assert(before.contains(before[k]));
            } else if k < before.len() + id.len() {
                assert(id.contains(id[k - before.len()]));
            } else {
                assert(after.contains(after[k - before.len() - id.len()]));
            }
        }
    }
    lemma_no_mark(filled, long);
    law_nothing_to_replace(filled, long, path);
}

proof fn lemma_mark_stands_once(before: Seq<char>, mark: Seq<char>)
    requires
        !before.contains('<'),
        mark.len() > 0,
        mark[0] == '<',
        forall|i: int| 0 < i < mark.len() ==> mark[i] != '<',
    ensures
        !has_part((before + mark).drop_last(), mark),
{
    let s = (before + mark).drop_last();
    assert forall|i: int| 0 <= i <= s.len() - mark.len() implies #[trigger] s.subrange(
        i,
        i + mark.len(),
    ) != mark by {
        assert(s.subrange(i, i + mark.len())[0] == s[i]);
        if i < before.len() {
            assert(before.contains(before[i]));
        }
    }
}

/// The protocol as it is printed for a pool in `pool_root` and a name.
pub fn protocol_text(template: &str, pool: Option<&str>, pool_root: &str, name: Option<&str>) -> (r:
    String)
    ensures
        r@ == protocol_for(
            template@,
            match pool {
                Some(id) => Some((id@, joined(pool_root@, id@))),
                None => None,
            },
            crate::worker::name_text(name),
        ),
{
    proof {
        reveal_strlit("<POOL_ID>");
        reveal_strlit("abc12345");
        reveal_strlit("/tmp/agent_pool/<POOL_ID>");
        reveal_strlit("<AGENT_NAME>");
        reveal_strlit("--name <AGENT_NAME>");
    }
    let mut output = template.to_owned();
    if let Some(id) = pool {
        let path = join(pool_root, id);
        output = replace(&output, "<POOL_ID>", id);
        output = replace(&output, "abc12345", id);
        output = replace(&output, "/tmp/agent_pool/<POOL_ID>", &path);
    }
    if let Some(name) = name {
        output = replace(&output, "<AGENT_NAME>", name);
        output = replace(&output, "--name <AGENT_NAME>", &concat2("--name ", name));
    }
    output
}

/// What to do with a pool's directory before a daemon starts in it.
#[derive(Debug, Clone, Copy, PartialEq, Eq, Structural)]
pub enum StartStep {
    /// There is none: start.
    Start,
    /// Remove it, then start.
    Clear,
    /// Stop the daemon that runs there, remove the directory, then start.
    StopAndClear,
    /// Do not start: a daemon runs there.
    Refuse,
}

/// What to do with a pool's directory before a daemon starts in it. A daemon that runs there
/// is stopped only where `stop` says so.
pub fn start_step(root_exists: bool, daemon_running: bool, stop: bool) -> (r: StartStep)
    ensures
        r == if !root_exists {
            StartStep::Start
        } else if !daemon_running {
            StartStep::Clear
        } else if stop {
            StartStep::StopAndClear
        } else {
            StartStep::Refuse
        },
{
    if !root_exists {
        StartStep::Start
    } else if !daemon_running {
        StartStep::Clear
    } else if stop {
        StartStep::StopAndClear
    } else {
        StartStep::Refuse
    }
}

/// The daemon's settings from those of the command line.
pub fn daemon_config(idle_timeout_secs: u64, task_timeout_secs: u64, no_heartbeat: bool) -> (r:
    DaemonConfig)
    ensures
        r.idle_timeout == Duration::of_secs(idle_timeout_secs),
        r.default_task_timeout == Duration::of_secs(task_timeout_secs),
        r.heartbeat_enabled == !no_heartbeat,
        r.idle_timeout.millis == idle_timeout_secs * 1000,
        r.default_task_timeout.millis == task_timeout_secs * 1000,
{
    DaemonConfig {
        idle_timeout: Duration::from_secs(idle_timeout_secs),
        default_task_timeout: Duration::from_secs(task_timeout_secs),
        heartbeat_enabled: !no_heartbeat,
    }
}

/// The payload that the command line gives: the data where there are any, else the file.
pub fn choose_payload(data: Option<&str>, file: Option<&str>) -> (r: Result<Payload, &'static str>)
    ensures
        match (data, file) {
            (Some(data), _) => r matches Ok(Payload::Inline { content }) && content@ == data@,
            (None, Some(file)) => r matches Ok(Payload::FileReference { path }) && path@ == file@,
            (None, None) => r matches Err(message) && message@
                == "Either --data or --file must be provided"@,
        },
{
    match (data, file) {
        (Some(data), _) => Ok(Payload::inline(data)),
        (None, Some(file)) => Ok(Payload::file_ref(file)),
        (None, None) => Err("Either --data or --file must be provided"),
    }
}

/// The line that is printed for a pool.
pub fn pool_line(pool: &PoolInfo) -> (r: String)
    ensures
        r@ == padded(pool.id@, 12) + " "@ + padded(
            if pool.running {
                "running"@
            } else {
                "stopped"@
            },
            8,
        ) + " "@ + pool.path@,
{
    let status = if pool.running {
        "running"
    } else {
        "stopped"
    };
    let mut line = concat3(&pad(&pool.id, 12), " ", &pad(status, 8));
    line.append(" ");
    line.append(&pool.path);
    line
}

} // verus!
