//! What a file of the pool is, told by its path and by what happened to it.
use crate::constants::{
    READY_SUFFIX, REQUEST_SUFFIX, STATUS_FILE, STATUS_STOP, WORKER_RESPONSE_SUFFIX,
};
use crate::fs_events::{EventKind, Platform, is_write_complete, write_complete};
use crate::path::{
    below, join, joined, law_join_adds_one_component, name_below, parts, plain_name, same_path,
};
use crate::text::{
    before_suffix, concat2, has_prefix, law_suffix_comes_off, same, starts_with, strip_suffix, trim,
    trimmed,
};
use vstd::prelude::*;

verus! {

/// What a file is.
#[derive(Debug, Clone, PartialEq, Eq)]
pub enum PathCategory {
    /// A worker's ready file, `agents/<uuid>.ready.json`.
    WorkerReady {
        /// The worker's UUID.
        id: String,
    },
    /// A worker's answer, `agents/<uuid>.response.json`.
    WorkerResponse {
        /// The worker's UUID.
        id: String,
    },
    /// A request, `submissions/<id>.request.json`.
    SubmissionRequest {
        /// The submission's name.
        id: String,
    },
    /// The status file, which now asks to stop.
    Stop,
}

/// A category's texts.
pub enum Category {
    /// See [`PathCategory::WorkerReady`].
    WorkerReady(Seq<char>),
    /// See [`PathCategory::WorkerResponse`].
    WorkerResponse(Seq<char>),
    /// See [`PathCategory::SubmissionRequest`].
    SubmissionRequest(Seq<char>),
    /// See [`PathCategory::Stop`].
    Stop,
}

impl View for PathCategory {
    type V = Category;

    open spec fn view(&self) -> Category {
        match self {
            PathCategory::WorkerReady { id } => Category::WorkerReady(id@),
            PathCategory::WorkerResponse { id } => Category::WorkerResponse(id@),
            PathCategory::SubmissionRequest { id } => Category::SubmissionRequest(id@),
            PathCategory::Stop => Category::Stop,
        }
    }
}

/// Whether the text of the status file is the signal to stop: `stop`, or `stop|` with
/// something behind it.
pub open spec fn stop_signal(status: Seq<char>) -> bool {
    trimmed(status) == STATUS_STOP@ || has_prefix(trimmed(status), STATUS_STOP@ + "|"@)
}

/// What a name below the directory of the agents stands for.
pub open spec fn agents_category(name: Seq<char>) -> Option<Category> {
    match before_suffix(name, READY_SUFFIX@) {
        Some(id) => Some(Category::WorkerReady(id)),
        None => match before_suffix(name, WORKER_RESPONSE_SUFFIX@) {
            Some(id) => Some(Category::WorkerResponse(id)),
            None => None,
        },
    }
}

/// What a name below the directory of the submissions stands for.
pub open spec fn submissions_category(name: Seq<char>) -> Option<Category> {
    match before_suffix(name, REQUEST_SUFFIX@) {
        Some(id) => Some(Category::SubmissionRequest(id)),
        None => None,
    }
}

/// What a file is, once it was written whole. `status` is the text of the file, where it
/// is the status file and can be read.
pub open spec fn category(
    path: Seq<char>,
    kind: EventKind,
    platform: Platform,
    root: Seq<char>,
    agents_dir: Seq<char>,
    submissions_dir: Seq<char>,
    status: Option<Seq<char>>,
) -> Option<Category> {
    let under_agents = match below(parts(path), parts(agents_dir)) {
        Some(name) => agents_category(name),
        None => None,
    };
    let under_submissions = match below(parts(path), parts(submissions_dir)) {
        Some(name) => submissions_category(name),
        None => None,
    };
    if !write_complete(kind, platform) {
        None
    } else if parts(path) == parts(joined(root, STATUS_FILE@)) && (status matches Some(text)
        && stop_signal(text)) {
        Some(Category::Stop)
    } else if under_agents is Some {
        under_agents
    } else {
        under_submissions
    }
}

/// What a category is, if it is one.
pub open spec fn category_text(found: Option<PathCategory>) -> Option<Category> {
    match found {
        Some(category) => Some(category@),
        None => None,
    }
}

/// The text that `status` points to.
pub open spec fn status_text(status: Option<&str>) -> Option<Seq<char>> {
    match status {
        Some(text) => Some(text@),
        None => None,
    }
}

/// What a file is, once it was written whole. `status` is the text of the file, where it
/// is the status file and can be read.
pub fn categorize(
    path: &str,
    kind: EventKind,
    platform: Platform,
    root: &str,
    agents_dir: &str,
    submissions_dir: &str,
    status: Option<&str>,
) -> (r: Option<PathCategory>)
    ensures
        category_text(r) == category(
            path@,
            kind,
            platform,
            root@,
            agents_dir@,
            submissions_dir@,
            status_text(status),
        ),
{
    if !is_write_complete(kind, platform) {
        return None;
    }
    if categorize_root(path, root, status) {
        return Some(PathCategory::Stop);
    }
    match categorize_under_agents(path, agents_dir) {
        Some(category) => Some(category),
        None => categorize_under_submissions(path, submissions_dir),
    }
}

/// Whether the path is the status file, and its text the signal to stop.
fn categorize_root(path: &str, root: &str, status: Option<&str>) -> (r: bool)
    ensures
        r == (parts(path@) == parts(joined(root@, STATUS_FILE@)) && (status_text(
            status,
        ) matches Some(text) && stop_signal(text))),
{
    if !same_path(path, &join(root, STATUS_FILE)) {
        return false;
    }
    match status {
        Some(text) => {
            let said = trim(text);
            same(&said, STATUS_STOP) || starts_with(&said, &concat2(STATUS_STOP, "|"))
        },
        None => false,
    }
}

fn categorize_under_agents(path: &str, agents_dir: &str) -> (r: Option<PathCategory>)
    ensures
        category_text(r) == match below(parts(path@), parts(agents_dir@)) {
            Some(name) => agents_category(name),
            None => None,
        },
{
    let name = match name_below(path, agents_dir) {
        Some(name) => name,
        None => {
            return None;
        },
    };
    if let Some(id) = strip_suffix(&name, READY_SUFFIX) {
        return Some(PathCategory::WorkerReady { id });
    }
    if let Some(id) = strip_suffix(&name, WORKER_RESPONSE_SUFFIX) {
        return Some(PathCategory::WorkerResponse { id });
    }
    None
}

fn categorize_under_submissions(path: &str, submissions_dir: &str) -> (r: Option<PathCategory>)
    ensures
        category_text(r) == match below(parts(path@), parts(submissions_dir@)) {
            Some(name) => submissions_category(name),
            None => None,
        },
{
    let name = match name_below(path, submissions_dir) {
        Some(name) => name,
        None => {
            return None;
        },
    };
    if let Some(id) = strip_suffix(&name, REQUEST_SUFFIX) {
        return Some(PathCategory::SubmissionRequest { id });
    }
    None
}

proof fn lemma_not_the_status_file(path: Seq<char>, name: Seq<char>, root: Seq<char>)
    requires
        parts(path).names.len() > 0,
        parts(path).names.last() == name,
        name != STATUS_FILE@,
    ensures
        parts(path) != parts(joined(root, STATUS_FILE@)),
{
    reveal_strlit("status");
    assert(plain_name(STATUS_FILE@)) by {
        assert(!STATUS_FILE@.contains('/'));
        assert(STATUS_FILE@.len() == 6);
        assert(seq!['.'].len() == 1);
    }
    law_join_adds_one_component(root, STATUS_FILE@);
}

proof fn lemma_named(id: Seq<char>, suffix: Seq<char>)
    requires
        !id.contains('/'),
        suffix.len() > 6,
        !suffix.contains('/'),
    ensures
        plain_name(id + suffix),
        id + suffix != STATUS_FILE@,
{
    reveal_strlit("status");
    let name = id + suffix;
    assert forall|i: int| 0 <= i < name.len() implies name[i] != '/' by {
        if i < id.len() {
            assert(id.contains(id[i]));
        } else {
            assert(suffix.contains(suffix[i - id.len()]));
        }
    }
    assert(seq!['.'].len() == 1);
    assert(STATUS_FILE@.len() == 6);
}

/// A worker's ready file, once written whole, is known as that worker's.
pub proof fn law_ready_file_is_known(
    uuid: Seq<char>,
    kind: EventKind,
    platform: Platform,
    root: Seq<char>,
    agents_dir: Seq<char>,
    submissions_dir: Seq<char>,
    status: Option<Seq<char>>,
)
    requires
        !uuid.contains('/'),
        write_complete(kind, platform),
    ensures
        category(
            joined(agents_dir, uuid + READY_SUFFIX@),
            kind,
            platform,
            root,
            agents_dir,
            submissions_dir,
            status,
        ) == Some(Category::WorkerReady(uuid)),
{
    reveal_strlit(".ready.json");
    assert(!READY_SUFFIX@.contains('/'));
    lemma_named(uuid, READY_SUFFIX@);
    law_join_adds_one_component(agents_dir, uuid + READY_SUFFIX@);
    law_suffix_comes_off(uuid, READY_SUFFIX@);
    lemma_not_the_status_file(
        joined(agents_dir, uuid + READY_SUFFIX@),
        uuid + READY_SUFFIX@,
        root,
    );
}

/// A worker's answer, once written whole, is known as that worker's.
pub proof fn law_response_file_is_known(
    uuid: Seq<char>,
    kind: EventKind,
    platform: Platform,
    root: Seq<char>,
    agents_dir: Seq<char>,
    submissions_dir: Seq<char>,
    status: Option<Seq<char>>,
)
    requires
        !uuid.contains('/'),
        write_complete(kind, platform),
    ensures
        category(
            joined(agents_dir, uuid + WORKER_RESPONSE_SUFFIX@),
            kind,
            platform,
            root,
            agents_dir,
            submissions_dir,
            status,
        ) == Some(Category::WorkerResponse(uuid)),
{
    reveal_strlit(".response.json");
    reveal_strlit(".ready.json");
    let suffix = WORKER_RESPONSE_SUFFIX@;
    assert(!suffix.contains('/'));
    lemma_named(uuid, suffix);
    law_join_adds_one_component(agents_dir, uuid + suffix);
    law_suffix_comes_off(uuid, suffix);
    lemma_other_suffix(uuid, suffix, READY_SUFFIX@);
    lemma_not_the_status_file(joined(agents_dir, uuid + suffix), uuid + suffix, root);
}

/// A request, once written whole, is known as that submission's.
pub proof fn law_request_file_is_known(
    id: Seq<char>,
    kind: EventKind,
    platform: Platform,
    root: Seq<char>,
    agents_dir: Seq<char>,
    submissions_dir: Seq<char>,
    status: Option<Seq<char>>,
)
    requires
        !id.contains('/'),
        write_complete(kind, platform),
    ensures
        category(
            joined(submissions_dir, id + REQUEST_SUFFIX@),
            kind,
            platform,
            root,
            agents_dir,
            submissions_dir,
            status,
        ) == Some(Category::SubmissionRequest(id)),
{
    reveal_strlit(".request.json");
    reveal_strlit(".response.json");
    reveal_strlit(".ready.json");
    let suffix = REQUEST_SUFFIX@;
    assert(!suffix.contains('/'));
    lemma_named(id, suffix);
    law_join_adds_one_component(submissions_dir, id + suffix);
    law_suffix_comes_off(id, suffix);
    lemma_other_suffix(id, suffix, READY_SUFFIX@);
    lemma_longer_suffix(id, suffix, WORKER_RESPONSE_SUFFIX@);
    lemma_not_the_status_file(joined(submissions_dir, id + suffix), id + suffix, root);
}

proof fn lemma_other_suffix(head: Seq<char>, suffix: Seq<char>, other: Seq<char>)
    requires
        suffix.len() >= other.len() > 0,
        suffix[suffix.len() - other.len()] != other[0],
    ensures
        before_suffix(head + suffix, other) is None,
{
    let whole = head + suffix;
    let end = whole.skip(whole.len() - other.len());
    assert(end[0] == suffix[suffix.len() - other.len()]);
}

proof fn lemma_longer_suffix(head: Seq<char>, suffix: Seq<char>, other: Seq<char>)
    requires
        other.len() == suffix.len() + 1,
        suffix[4] != other[5],
        suffix.len() > 4,
    ensures
        before_suffix(head + suffix, other) is None,
{
    let whole = head + suffix;
    if whole.len() >= other.len() {
        let end = whole.skip(whole.len() - other.len());
        assert(end[5] == suffix[4]);
    }
}

/// Nothing is made of an event that does not mean that a file was written whole.
pub proof fn law_unfinished_writes_are_ignored(
    path: Seq<char>,
    kind: EventKind,
    platform: Platform,
    root: Seq<char>,
    agents_dir: Seq<char>,
    submissions_dir: Seq<char>,
    status: Option<Seq<char>>,
)
    requires
        !write_complete(kind, platform),
    ensures
        category(path, kind, platform, root, agents_dir, submissions_dir, status) is None,
{
}

/// Nothing is made of a temporary file.
pub proof fn law_temporary_files_are_ignored(
    dir: Seq<char>,
    head: Seq<char>,
    kind: EventKind,
    platform: Platform,
    root: Seq<char>,
    agents_dir: Seq<char>,
    submissions_dir: Seq<char>,
    status: Option<Seq<char>>,
)
    requires
        !head.contains('/'),
    ensures
        category(
            joined(dir, head + ".tmp"@),
            kind,
            platform,
            root,
            agents_dir,
            submissions_dir,
            status,
        ) is None,
{
    reveal_strlit(".request.json");
    reveal_strlit(".response.json");
    reveal_strlit(".ready.json");
    reveal_strlit(".tmp");
    reveal_strlit("status");
    let name = head + ".tmp"@;
    assert forall|i: int| 0 <= i < name.len() implies name[i] != '/' by {
        if i < head.len() {
            assert(head.contains(head[i]));
        }
    }
    assert(seq!['.'].len() == 1);
    law_join_adds_one_component(dir, name);
    assert(name.last() == 'p');
    assert(STATUS_FILE@.last() == 's');
    lemma_not_the_status_file(joined(dir, name), name, root);
    assert forall|suffix: Seq<char>| suffix.len() > 0 && suffix.last() == 'n' implies before_suffix(
        name,
        suffix,
    ) is None by {
        if crate::text::has_suffix(name, suffix) {
            let end = name.skip(name.len() - suffix.len());
            assert(end.last() == name.last());
        }
    }
    assert(READY_SUFFIX@.last() == 'n');
    assert(WORKER_RESPONSE_SUFFIX@.last() == 'n');
    assert(REQUEST_SUFFIX@.last() == 'n');
    assert(before_suffix(name, READY_SUFFIX@) is None);
    assert(before_suffix(name, WORKER_RESPONSE_SUFFIX@) is None);
    assert(before_suffix(name, REQUEST_SUFFIX@) is None);
    let path = parts(joined(dir, name));
    assert(path.names.last() == name);
}

/// A status file that says `stop`, alone or with more behind a bar, stops the daemon, whatever
/// white space is around it; one that says anything else is no file that it takes notice of, and
/// nor is one that cannot be read.
pub proof fn law_stop_is_known(
    root: Seq<char>,
    kind: EventKind,
    platform: Platform,
    status: Option<Seq<char>>,
    agents_dir: Seq<char>,
    submissions_dir: Seq<char>,
)
    requires
        write_complete(kind, platform),
        agents_dir == joined(root, "agents"@),
        submissions_dir == joined(root, "submissions"@),
    ensures
        category(
            joined(root, "status"@),
            kind,
            platform,
            root,
            agents_dir,
            submissions_dir,
            status,
        ) == Some(Category::Stop) <==> (status matches Some(text) && (trimmed(text) == "stop"@
            || has_prefix(trimmed(text), "stop|"@))),
        category(
            joined(root, "status"@),
            kind,
            platform,
            root,
            agents_dir,
            submissions_dir,
            status,
        ) == Some(Category::Stop) || category(
            joined(root, "status"@),
            kind,
            platform,
            root,
            agents_dir,
            submissions_dir,
            status,
        ) is None,
{
    reveal_strlit("status");
    reveal_strlit("agents");
    reveal_strlit("submissions");
    reveal_strlit("stop");
    reveal_strlit("|");
    reveal_strlit("stop|");
    assert("stop"@ + "|"@ =~= "stop|"@);
    assert(seq!['.'].len() == 1);
    assert(plain_name("status"@)) by {
        assert(!"status"@.contains('/'));
        assert("status"@.len() == 6);
    }
    assert(plain_name("agents"@)) by {
        assert(!"agents"@.contains('/'));
        assert("agents"@.len() == 6);
    }
    assert(plain_name("submissions"@)) by {
        assert(!"submissions"@.contains('/'));
        assert("submissions"@.len() == 11);
    }
    law_join_adds_one_component(root, "status"@);
    law_join_adds_one_component(root, "agents"@);
    law_join_adds_one_component(root, "submissions"@);
    let path = parts(joined(root, "status"@));
    assert(path.names.len() == parts(root).names.len() + 1);
    assert(parts(agents_dir).names.len() == parts(root).names.len() + 1);
    assert(parts(submissions_dir).names.len() == parts(root).names.len() + 1);
}

} // verus!
