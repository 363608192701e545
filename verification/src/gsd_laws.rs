//! What the graph of a configuration shows.
use crate::gsd::{
    attributes_of, edge_line, edge_lines, graph_lines, hooks_of, label_of,
    law_graph_shows_every_edge, law_graph_shows_every_step, step_edges, Config, Step, StepAction,
};
use crate::text::{has_part, joined_with};
use vstd::prelude::*;

verus! {

/// The graph has a line for each way from a step to one that may come next, with an arrow from the
/// one to the other.
pub proof fn law_edge_goes_from_step_to_next(config: Config, i: int, j: int)
    requires
        0 <= i < config.steps@.len(),
        0 <= j < config.steps@[i].next@.len(),
    ensures
        has_part(
            joined_with(graph_lines(config), "\n"@),
            "  \""@ + config.steps@[i].name@ + "\" -> \""@ + config.steps@[i].next@[j]@ + "\";"@,
        ),
{
    law_graph_shows_every_edge(config, i, j);
}

/// The graph has a line for each step, with its name and with what it says of the step: a box
/// where an agent carries it out and a diamond where a command does, and a double border exactly
/// where no step comes next.
pub proof fn law_node_says_what_the_step_is(config: Config, i: int)
    requires
        0 <= i < config.steps@.len(),
    ensures
        ({
            let step = config.steps@[i];
            let said = attributes_of(step);
            &&& has_part(
                joined_with(graph_lines(config), "\n"@),
                "  \""@ + step.name@ + "\" ["@ + joined_with(said, ", "@) + "];"@,
            )
            &&& said.contains("shape=box"@) <==> step.action is Pool
            &&& said.contains("shape=diamond"@) <==> step.action is Command
            &&& said.contains("peripheries=2"@) <==> step.next@.len() == 0
            &&& said.contains("label=\""@ + label_of(step) + "\""@)
        }),
{
    law_graph_shows_every_step(config, i);
    let step = config.steps@[i];
    let said = attributes_of(step);
    let label = "label=\""@ + label_of(step) + "\""@;
    reveal_strlit("shape=box");
    reveal_strlit("shape=diamond");
    reveal_strlit("peripheries=2");
    reveal_strlit("label=\"");
    reveal_strlit("style=filled, fillcolor=\"#e3f2fd\"");
    reveal_strlit("style=filled, fillcolor=\"#fff3e0\"");
    assert("shape=box"@.len() == 9 && "shape=diamond"@.len() == 13);
    assert("shape=box"@[0] == 's' && "shape=box"@[1] == 'h');
    assert("shape=diamond"@[0] == 's' && "shape=diamond"@[1] == 'h');
    assert("peripheries=2"@[0] == 'p');
    assert("style=filled, fillcolor=\"#e3f2fd\""@[1] == 't');
    assert("style=filled, fillcolor=\"#fff3e0\""@[1] == 't');
    assert("style=filled, fillcolor=\"#e3f2fd\""@[0] == 's');
    assert("style=filled, fillcolor=\"#fff3e0\""@[0] == 's');
    assert(label[0] == "label=\""@[0] && "label=\""@[0] == 'l');
    let n = said.len() as int;
    assert(said[n - 2] == label);
    if step.next@.len() == 0 {
        assert(said[1] == "peripheries=2"@);
    }
    match step.action {
        StepAction::Pool => {
            assert(said[0] == "shape=box"@);
        },
        StepAction::Command => {
            assert(said[0] == "shape=diamond"@);
        },
    }
    assert(said.contains(said[0]));
}

/// A step's label is its name, followed by its hooks exactly where it has any, in the order in
/// which they run.
pub proof fn law_label_names_the_hooks(step: Step)
    ensures
        label_of(step).take(step.name@.len() as int) == step.name@,
        !step.has_pre && !step.has_post && !step.has_finally <==> label_of(step) == step.name@,
        hooks_of(step).contains("pre"@) <==> step.has_pre,
        hooks_of(step).contains("post"@) <==> step.has_post,
        hooks_of(step).contains("finally"@) <==> step.has_finally,
        step.has_pre && step.has_post ==> hooks_of(step)[0] == "pre"@ && hooks_of(step)[1]
            == "post"@,
        step.has_finally ==> hooks_of(step).last() == "finally"@,
{
    reveal_strlit("pre");
    reveal_strlit("post");
    reveal_strlit("finally");
    reveal_strlit("\\n");
    assert("pre"@.len() == 3 && "post"@.len() == 4 && "finally"@.len() == 7);
    assert("\\n"@.len() > 0);
    let hooks = hooks_of(step);
    let name = step.name@;
    assert(label_of(step).take(name.len() as int) =~= name);
    if step.has_pre {
        assert(hooks[0] == "pre"@);
    }
    if step.has_post {
        assert(hooks[if step.has_pre {
            1int
        } else {
            0int
        }] == "post"@);
    }
    if step.has_finally {
        assert(hooks[hooks.len() - 1] == "finally"@);
    }
    if hooks.len() > 0 {
        assert(label_of(step).len() > name.len());
    }
}

/// The graph has no other edges: each is a way from a step to one that may come next.
pub proof fn law_graph_makes_up_no_edge(steps: Seq<Step>, at: int)
    requires
        0 <= at < edge_lines(steps).len(),
    ensures
        exists|i: int, j: int|
            0 <= i < steps.len() && 0 <= j < steps[i].next@.len() && edge_lines(steps)[at]
                == #[trigger] edge_line(steps[i].name@, steps[i].next@[j]@),
    decreases steps.len(),
{
    if steps.len() > 0 {
        let early = steps.drop_last();
        let before = edge_lines(early);
        let last = steps.len() - 1;
        if at < before.len() {
            assert(edge_lines(steps)[at] == before[at]);
            law_graph_makes_up_no_edge(early, at);
            let (i, j) = choose|i: int, j: int|
                0 <= i < early.len() && 0 <= j < early[i].next@.len() && edge_lines(early)[at]
                    == #[trigger] edge_line(early[i].name@, early[i].next@[j]@);
            assert(steps[i] == early[i]);
            assert(edge_lines(steps)[at] == edge_line(steps[i].name@, steps[i].next@[j]@));
        } else {
            let j = at - before.len();
            assert(edge_lines(steps)[at] == step_edges(steps.last())[j]);
            assert(edge_lines(steps)[at] == edge_line(steps[last].name@, steps[last].next@[j]@));
        }
    }
}

} // verus!
