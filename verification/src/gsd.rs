//! The task runner's configuration: its graph, and the tasks that a run starts with.
use crate::error::{ErrorKind, PoolError};
use crate::json::{json5_parsed, json_text, member_texts, object_text, object_value, parse_json5};
use crate::path::{join, joined, outer, parent, parts};
use crate::pool::{pool_at, resolve_pool};
use crate::text::{
    concat2, concat3, has_part, holds_char, join_with, joined_with, law_join_holds_each_part,
    texts,
};
use vstd::prelude::*;

verus! {

/// Who carries out a step.
#[derive(Debug, Clone, Copy, PartialEq, Eq, Structural)]
pub enum StepAction {
    /// An agent of the pool.
    Pool,
    /// A command.
    Command,
}

/// A step of a configuration.
#[derive(Debug, Clone, PartialEq, Eq)]
pub struct Step {
    /// Its name.
    pub name: String,
    /// The steps that may come next; none after the last.
    pub next: Vec<String>,
    /// Who carries it out.
    pub action: StepAction,
    /// Whether something runs before it.
    pub has_pre: bool,
    /// Whether something runs after it.
    pub has_post: bool,
    /// Whether something runs when all that it led to is done.
    pub has_finally: bool,
}

/// A configuration.
#[derive(Debug, Clone, PartialEq, Eq)]
pub struct Config {
    /// Its steps.
    pub steps: Vec<Step>,
}

/// The hooks of a step.
pub open spec fn hooks_of(step: Step) -> Seq<Seq<char>> {
    let pre = if step.has_pre {
        seq!["pre"@]
    } else {
        Seq::empty()
    };
    let post = if step.has_post {
        pre.push("post"@)
    } else {
        pre
    };
    if step.has_finally {
        post.push("finally"@)
    } else {
        post
    }
}

/// The label of a step's node: its name, and below it its hooks.
pub open spec fn label_of(step: Step) -> Seq<char> {
    if hooks_of(step).len() == 0 {
        step.name@
    } else {
        step.name@ + "\\n"@ + ("["@ + joined_with(hooks_of(step), ", "@) + "]"@)
    }
}

/// The attributes of a step's node: a box for an agent and a diamond for a command, and a
/// double border for the last step.
pub open spec fn attributes_of(step: Step) -> Seq<Seq<char>> {
    let shape = match step.action {
        StepAction::Pool => "shape=box"@,
        StepAction::Command => "shape=diamond"@,
    };
    let fill = match step.action {
        StepAction::Pool => "style=filled, fillcolor=\"#e3f2fd\""@,
        StepAction::Command => "style=filled, fillcolor=\"#fff3e0\""@,
    };
    let border = if step.next@.len() == 0 {
        seq![shape, "peripheries=2"@]
    } else {
        seq![shape]
    };
    border.push("label=\""@ + label_of(step) + "\""@).push(fill)
}

/// The line of a step's node.
pub open spec fn node_line(step: Step) -> Seq<char> {
    "  \""@ + step.name@ + "\" ["@ + joined_with(attributes_of(step), ", "@) + "];"@
}

/// The line of an edge.
pub open spec fn edge_line(from: Seq<char>, to: Seq<char>) -> Seq<char> {
    "  \""@ + from + "\" -> \""@ + to + "\";"@
}

/// The lines of the nodes.
pub open spec fn node_lines(steps: Seq<Step>) -> Seq<Seq<char>> {
    Seq::new(steps.len(), |i: int| node_line(steps[i]))
}

/// The lines of a step's edges.
pub open spec fn step_edges(step: Step) -> Seq<Seq<char>> {
    Seq::new(step.next@.len(), |i: int| edge_line(step.name@, step.next@[i]@))
}

/// The lines of the edges.
pub open spec fn edge_lines(steps: Seq<Step>) -> Seq<Seq<char>>
    decreases steps.len(),
{
    if steps.len() == 0 {
        Seq::empty()
    } else {
        edge_lines(steps.drop_last()) + step_edges(steps.last())
    }
}

/// The lines that a graph begins with.
pub open spec fn graph_head() -> Seq<Seq<char>> {
    seq![
        "digraph GSD {"@,
        "  rankdir=TB;"@,
        "  node [fontname=\"Helvetica\"];"@,
        "  edge [fontname=\"Helvetica\", fontsize=10];"@,
        ""@,
    ]
}

/// The lines of a configuration's graph.
pub open spec fn graph_lines(config: Config) -> Seq<Seq<char>> {
    graph_head() + node_lines(config.steps@) + seq![""@] + edge_lines(config.steps@) + seq!["}"@]
}

/// The label of a step's node.
fn node_label(step: &Step) -> (r: String)
    ensures
        r@ == label_of(*step),
{
    let mut hooks: Vec<String> = Vec::new();
    if step.has_pre {
        hooks.push("pre".to_owned());
    }
    if step.has_post {
        hooks.push("post".to_owned());
    }
    if step.has_finally {
        hooks.push("finally".to_owned());
    }
    assert(texts(hooks@) =~= hooks_of(*step));
    if hooks.len() == 0 {
        step.name.clone()
    } else {
        let listed = concat3("[", &join_with(&hooks, ", "), "]");
        concat3(&step.name, "\\n", &listed)
    }
}

/// The line of a step's node.
fn graph_node(step: &Step) -> (r: String)
    ensures
        r@ == node_line(*step),
{
    let mut attrs: Vec<String> = Vec::new();
    attrs.push(
        match step.action {
            StepAction::Pool => "shape=box".to_owned(),
            StepAction::Command => "shape=diamond".to_owned(),
        },
    );
    if step.next.len() == 0 {
        attrs.push("peripheries=2".to_owned());
    }
    attrs.push(concat3("label=\"", &node_label(step), "\""));
    attrs.push(
        match step.action {
            StepAction::Pool => "style=filled, fillcolor=\"#e3f2fd\"".to_owned(),
            StepAction::Command => "style=filled, fillcolor=\"#fff3e0\"".to_owned(),
        },
    );
    assert(texts(attrs@) =~= attributes_of(*step));
    let mut line = concat3("  \"", &step.name, "\" [");
    line.append(&join_with(&attrs, ", "));
    line.append("];");
    line
}

/// Adds a line.
fn add_line(lines: &mut Vec<String>, line: String)
    ensures
        texts(final(lines)@) == texts(old(lines)@).push(line@),
{
    let ghost before = texts(lines@);
    let ghost text = line@;
    lines.push(line);
    assert(texts(lines@) =~= before.push(text));
}

/// The graph of a configuration, in the language of GraphViz.
pub fn generate_graphviz(config: &Config) -> (r: String)
    ensures
        r@ == joined_with(graph_lines(*config), "\n"@),
{
    let ghost steps = config.steps@;
    let mut lines: Vec<String> = Vec::new();
    lines.push("digraph GSD {".to_owned());
    lines.push("  rankdir=TB;".to_owned());
    lines.push("  node [fontname=\"Helvetica\"];".to_owned());
    lines.push("  edge [fontname=\"Helvetica\", fontsize=10];".to_owned());
    lines.push("".to_owned());
    assert(texts(lines@) =~= graph_head());
    let mut i: usize = 0;
    assert(graph_head() + node_lines(steps).take(0) =~= graph_head());
    while i < config.steps.len()
        invariant
            i <= config.steps@.len(),
            steps == config.steps@,
            texts(lines@) == graph_head() + node_lines(steps).take(i as int),
        decreases config.steps@.len() - i,
    {
        add_line(&mut lines, graph_node(&config.steps[i]));
        assert(node_lines(steps).take(i + 1) =~= node_lines(steps).take(i as int).push(
            node_line(steps[i as int]),
        ));
        i += 1;
        assert(texts(lines@) =~= graph_head() + node_lines(steps).take(i as int));
    }
    assert(node_lines(steps).take(i as int) =~= node_lines(steps));
    add_line(&mut lines, "".to_owned());
    let ghost before_edges = graph_head() + node_lines(steps) + seq![""@];
    assert(texts(lines@) =~= before_edges);
    let mut k: usize = 0;
    assert(steps.take(0) =~= Seq::empty());
    assert(before_edges + edge_lines(steps.take(0)) =~= before_edges);
    while k < config.steps.len()
        invariant
            k <= config.steps@.len(),
            steps == config.steps@,
            texts(lines@) == before_edges + edge_lines(steps.take(k as int)),
        decreases config.steps@.len() - k,
    {
        let step = &config.steps[k];
        let ghost so_far = before_edges + edge_lines(steps.take(k as int));
        let mut j: usize = 0;
        assert(so_far + step_edges(*step).take(0) =~= so_far);
        while j < step.next.len()
            invariant
                j <= step.next@.len(),
                texts(lines@) == so_far + step_edges(*step).take(j as int),
            decreases step.next@.len() - j,
        {
            let mut line = concat3("  \"", &step.name, "\" -> \"");
            line.append(&step.next[j]);
            line.append("\";");
            assert(line@ == edge_line(step.name@, step.next@[j as int]@));
            add_line(&mut lines, line);
            assert(step_edges(*step).take(j + 1) =~= step_edges(*step).take(j as int).push(
                step_edges(*step)[j as int],
            ));
            j += 1;
            assert(texts(lines@) =~= so_far + step_edges(*step).take(j as int));
        }
        assert(step_edges(*step).take(j as int) =~= step_edges(*step));
        assert(steps.take(k + 1).drop_last() =~= steps.take(k as int));
        k += 1;
        assert(texts(lines@) =~= before_edges + edge_lines(steps.take(k as int)));
    }
    assert(steps.take(k as int) =~= steps);
    add_line(&mut lines, "}".to_owned());
    assert(texts(lines@) =~= graph_lines(*config));
    join_with(&lines, "\n")
}

/// The graph shows every step.
pub proof fn law_graph_shows_every_step(config: Config, i: int)
    requires
        0 <= i < config.steps@.len(),
    ensures
        has_part(joined_with(graph_lines(config), "\n"@), node_line(config.steps@[i])),
{
    let lines = graph_lines(config);
    let at = graph_head().len() + i;
    assert(lines[at] == node_line(config.steps@[i]));
    law_join_holds_each_part(lines, "\n"@, at);
}

proof fn lemma_edge_at(steps: Seq<Step>, i: int, j: int)
    requires
        0 <= i < steps.len(),
        0 <= j < steps[i].next@.len(),
    ensures
        exists|at: int|
            0 <= at < edge_lines(steps).len() && #[trigger] edge_lines(steps)[at] == edge_line(
                steps[i].name@,
                steps[i].next@[j]@,
            ),
    decreases steps.len(),
{
    let line = edge_line(steps[i].name@, steps[i].next@[j]@);
    let early = steps.drop_last();
    if i == steps.len() - 1 {
        let at = edge_lines(early).len() + j;
        assert(edge_lines(steps)[at] == step_edges(steps.last())[j]);
    } else {
        lemma_edge_at(early, i, j);
        let at = choose|at: int|
            0 <= at < edge_lines(early).len() && #[trigger] edge_lines(early)[at] == line;
        assert(edge_lines(steps)[at] == line);
    }
}

/// The graph shows every way from a step to one that may come next.
pub proof fn law_graph_shows_every_edge(config: Config, i: int, j: int)
    requires
        0 <= i < config.steps@.len(),
        0 <= j < config.steps@[i].next@.len(),
    ensures
        has_part(
            joined_with(graph_lines(config), "\n"@),
            edge_line(config.steps@[i].name@, config.steps@[i].next@[j]@),
        ),
{
    let lines = graph_lines(config);
    let steps = config.steps@;
    let line = edge_line(steps[i].name@, steps[i].next@[j]@);
    lemma_edge_at(steps, i, j);
    let k = choose|k: int|
        0 <= k < edge_lines(steps).len() && #[trigger] edge_lines(steps)[k] == line;
    let at = graph_head().len() + node_lines(steps).len() + 1 + k;
    assert(lines[at] == line);
    law_join_holds_each_part(lines, "\n"@, at);
}

/// The line that is printed for a step of a configuration that is valid.
pub fn step_summary(step: &Step) -> (r: String)
    ensures
        r@ == "  "@ + step.name@ + " -> "@ + if step.next@.len() == 0 {
            "(terminal)"@
        } else {
            joined_with(texts(step.next@), ", "@)
        },
{
    let mut line = concat3("  ", &step.name, " -> ");
    if step.next.len() == 0 {
        line.append("(terminal)");
    } else {
        line.append(&join_with(&step.next, ", "));
    }
    line
}

/// Where the pool lies that the command line gives: below `<root>/pools`, the one with this
/// name, which may hold no slash, or the default one.
pub fn resolve_pool_path(pool: Option<&str>, root: &str) -> (r: Result<String, PoolError>)
    ensures
        match pool {
            None => r matches Ok(path) && path@ == joined(joined(root@, "pools"@), "default"@),
            Some(id) => if id@.contains('/') {
                r matches Err(error) && error.says(
                    ErrorKind::InvalidInput,
                    "[E058] pool ID '"@ + id@
                        + "' cannot contain '/'. Use --root to specify the base directory."@,
                )
            } else {
                r matches Ok(path) && path@ == pool_at(joined(root@, "pools"@), id@)
            },
        },
{
    match pool {
        None => Ok(join(&join(root, "pools"), "default")),
        Some(id) => {
            if holds_char(id, '/') {
                Err(
                    PoolError {
                        kind: ErrorKind::InvalidInput,
                        message: concat3(
                            "[E058] pool ID '",
                            id,
                            "' cannot contain '/'. Use --root to specify the base directory.",
                        ),
                    },
                )
            } else {
                Ok(resolve_pool(&join(root, "pools"), id))
            }
        },
    }
}

/// Where a configuration comes from.
#[derive(Debug, Clone, PartialEq, Eq)]
pub enum ConfigSource {
    /// A file; paths in it are seen from its directory.
    File {
        /// The file.
        path: String,
        /// Its directory.
        dir: String,
    },
    /// The text itself; paths in it are seen from here.
    Inline {
        /// The text.
        text: String,
        /// Here.
        dir: String,
    },
}

/// Where a configuration comes from: the file of that name where there is one, else the text
/// itself.
pub fn config_source(input: &str, exists: bool) -> (r: ConfigSource)
    ensures
        match r {
            ConfigSource::File { path, dir } => {
                &&& exists
                &&& path@ == input@
                &&& if parts(input@).names.len() == 0 {
                    dir@ == "."@
                } else {
                    parts(dir@) == outer(parts(input@))
                }
            },
            ConfigSource::Inline { text, dir } => !exists && text@ == input@ && dir@ == "."@,
        },
{
    if exists {
        let dir = match parent(input) {
            Some(dir) => dir,
            None => ".".to_owned(),
        };
        ConfigSource::File { path: input.to_owned(), dir }
    } else {
        ConfigSource::Inline { text: input.to_owned(), dir: ".".to_owned() }
    }
}

/// What can go wrong outside with a configuration and the tasks of a run.
#[derive(Debug, Clone, Copy, PartialEq, Eq, Structural)]
pub enum ConfigFault {
    /// The file cannot be read.
    Read,
    /// The file is no configuration.
    File,
    /// The text is no configuration.
    Inline,
    /// The tasks are none.
    Tasks,
}

/// The error that a fault is reported as: `cause` and `detail` are the kind of its cause and
/// what that says.
pub fn config_fault(fault: ConfigFault, path: &str, cause: ErrorKind, detail: &str) -> (r: PoolError)
    ensures
        match fault {
            ConfigFault::Read => r.says(
                cause,
                "[E054] failed to read config file "@ + path@ + ": "@ + detail@,
            ),
            ConfigFault::File => r.says(
                ErrorKind::InvalidData,
                "[E055] invalid config in "@ + path@ + ": "@ + detail@,
            ),
            ConfigFault::Inline => r.says(
                ErrorKind::InvalidData,
                "[E056] invalid inline config: "@ + detail@,
            ),
            ConfigFault::Tasks => r.says(
                ErrorKind::InvalidData,
                "[E057] invalid initial tasks JSON: "@ + detail@,
            ),
        },
{
    match fault {
        ConfigFault::Read => {
            let mut message = concat3("[E054] failed to read config file ", path, ": ");
            message.append(detail);
            PoolError { kind: cause, message }
        },
        ConfigFault::File => {
            let mut message = concat3("[E055] invalid config in ", path, ": ");
            message.append(detail);
            PoolError { kind: ErrorKind::InvalidData, message }
        },
        ConfigFault::Inline => PoolError {
            kind: ErrorKind::InvalidData,
            message: concat2("[E056] invalid inline config: ", detail),
        },
        ConfigFault::Tasks => PoolError {
            kind: ErrorKind::InvalidData,
            message: concat2("[E057] invalid initial tasks JSON: ", detail),
        },
    }
}

/// The text that an input stands for: what the file of that name holds, where there is one that
/// can be read, else the input itself.
pub open spec fn input_text(input: Seq<char>, file: Option<&str>) -> Seq<char> {
    match file {
        Some(content) => content@,
        None => input,
    }
}

/// The text that an input stands for: what the file of that name holds, where there is one that
/// can be read, else the input itself.
pub fn json_input_text(input: &str, file: Option<&str>) -> (r: String)
    ensures
        r@ == input_text(input@, file),
{
    match file {
        Some(content) => content.to_owned(),
        None => input.to_owned(),
    }
}

/// The JSON5 value that an input stands for.
pub fn parse_json_input(input: &str, file: Option<&str>) -> (r: Result<serde_json::Value, String>)
    ensures
        r matches Ok(value) ==> json5_parsed(input_text(input@, file)) == Some(json_text(value)),
{
    parse_json5(&json_input_text(input, file))
}

/// The value of a run's entrypoint: what the command line gives, or the empty object.
pub fn entrypoint_value(input: Option<&str>, file: Option<&str>) -> (r: Result<
    serde_json::Value,
    String,
>)
    ensures
        match input {
            None => r matches Ok(value) && json_text(value) == "{}"@,
            Some(given) => r matches Ok(value) ==> json5_parsed(input_text(given@, file)) == Some(
                json_text(value),
            ),
        },
{
    match input {
        None => {
            let none: Vec<(String, serde_json::Value)> = Vec::new();
            assert(member_texts(none@) =~= Seq::empty());
            proof {
                reveal_strlit("{}");
                assert(object_text(Seq::empty()) =~= "{}"@);
            }
            Ok(object_value(none))
        },
        Some(given) => parse_json_input(given, file),
    }
}

/// A task that a run starts with.
#[derive(Debug, PartialEq)]
pub struct Task {
    /// The step.
    pub step: String,
    /// The value that the step starts with.
    pub value: serde_json::Value,
}

/// Which tasks a run starts with. `entrypoint` is the configuration's entrypoint, if it has
/// one. `initial` holds the tasks that the command line gives, or what is wrong with them.
/// `value_given` says whether it gives a value for the entrypoint; `value` is that value, or
/// the default, or what is wrong with it; and `verdict` is what the entrypoint's schema says of
/// the value. Tasks that are given come before an entrypoint and go with no value for it; a
/// value needs an entrypoint.
pub fn resolve_initial_tasks(
    entrypoint: Option<&str>,
    initial: Option<Result<Vec<Task>, PoolError>>,
    value_given: bool,
    value: Result<serde_json::Value, String>,
    verdict: Result<(), String>,
) -> (r: Result<Vec<Task>, PoolError>)
    ensures
        match (entrypoint, initial) {
            (Some(step), None) => match (value, verdict) {
                (Err(complaint), _) => r matches Err(error) && error.says(
                    ErrorKind::InvalidData,
                    "[E060] invalid --entrypoint-value JSON: "@ + complaint@,
                ),
                (Ok(value), Err(complaint)) => r matches Err(error) && error.says(
                    ErrorKind::InvalidData,
                    "[E061] entrypoint value validation failed: "@ + complaint@,
                ),
                (Ok(value), Ok(valid)) => r matches Ok(tasks) && tasks@.len() == 1
                    && tasks@[0].step@ == step@ && tasks@[0].value == value,
            },
            (Some(step), Some(tasks)) => if value_given {
                r matches Err(error) && error.says(
                    ErrorKind::InvalidInput,
                    "--initial-state cannot be used with --entrypoint-value"@,
                )
            } else {
                r == tasks
            },
            (None, Some(tasks)) => if value_given {
                r matches Err(error) && error.says(
                    ErrorKind::InvalidInput,
                    "[E063] --entrypoint-value requires config to have an entrypoint"@,
                )
            } else {
                r == tasks
            },
            (None, None) => if value_given {
                r matches Err(error) && error.says(
                    ErrorKind::InvalidInput,
                    "[E063] --entrypoint-value requires config to have an entrypoint"@,
                )
            } else {
                r matches Err(error) && error.says(
                    ErrorKind::InvalidInput,
                    "[E064] --initial-state is required when config has no entrypoint"@,
                )
            },
        },
{
    match (entrypoint, initial) {
        (Some(step), None) => {
            let value = match value {
                Ok(value) => value,
                Err(complaint) => {
                    return Err(
                        PoolError {
                            kind: ErrorKind::InvalidData,
                            message: concat2(
                                "[E060] invalid --entrypoint-value JSON: ",
                                &complaint,
                            ),
                        },
                    );
                },
            };
            if let Err(complaint) = verdict {
                return Err(
                    PoolError {
                        kind: ErrorKind::InvalidData,
                        message: concat2(
                            "[E061] entrypoint value validation failed: ",
                            &complaint,
                        ),
                    },
                );
            }
            let mut tasks: Vec<Task> = Vec::new();
            tasks.push(Task { step: step.to_owned(), value });
            Ok(tasks)
        },
        (Some(_), Some(tasks)) => {
            if value_given {
                return Err(
                    PoolError::new(
                        ErrorKind::InvalidInput,
                        "--initial-state cannot be used with --entrypoint-value",
                    ),
                );
            }
            tasks
        },
        (None, initial) => {
            if value_given {
                return Err(
                    PoolError::new(
                        ErrorKind::InvalidInput,
                        "[E063] --entrypoint-value requires config to have an entrypoint",
                    ),
                );
            }
            match initial {
                Some(tasks) => tasks,
                None => Err(
                    PoolError::new(
                        ErrorKind::InvalidInput,
                        "[E064] --initial-state is required when config has no entrypoint",
                    ),
                ),
            }
        },
    }
}

} // verus!
