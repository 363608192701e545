//! Where a tool is looked for, and which way to invoke it is taken.
use crate::invoker::{
    by_manager, detected, first_manager_field, first_node_binary, manager_field, workspace_binary,
    Findings, Invocation, Site,
};
use crate::path::joined;
use crate::text::{has_part, has_prefix, words};
use vstd::prelude::*;

verus! {

/// Whether the search for a workspace goes on past a directory: it has no `Cargo.toml`, or one
/// that can be read and declares no workspace.
pub open spec fn is_passed(site: Site) -> bool {
    !site.has_cargo_toml || (site.cargo_toml matches Some(content) && !has_part(
        content@,
        "[workspace]"@,
    ))
}

/// The binary is found in the innermost directory whose `Cargo.toml` declares a workspace,
/// however many directories without one lie further in.
pub proof fn law_workspace_binary_is_found(sites: Seq<Site>, binary_name: Seq<char>, at: int)
    requires
        0 <= at < sites.len(),
        forall|i: int| 0 <= i < at ==> is_passed(#[trigger] sites[i]),
        sites[at].has_cargo_toml,
        sites[at].cargo_toml matches Some(content) && has_part(content@, "[workspace]"@),
        sites[at].has_built_binary,
    ensures
        workspace_binary(sites, binary_name) == Some(
            joined(joined(sites[at].dir@, "target/debug"@), binary_name),
        ),
    decreases at,
{
    if at > 0 {
        assert(is_passed(sites[0]));
        assert(sites.skip(1)[at - 1] == sites[at]);
        assert forall|i: int| 0 <= i < at - 1 implies is_passed(#[trigger] sites.skip(1)[i]) by {
            assert(sites.skip(1)[i] == sites[i + 1]);
        }
        law_workspace_binary_is_found(sites.skip(1), binary_name, at - 1);
    }
}

/// A workspace without the binary, or a `Cargo.toml` that cannot be read, ends the search,
/// whatever lies further out.
pub proof fn law_search_ends_without_a_binary(sites: Seq<Site>, binary_name: Seq<char>, at: int)
    requires
        0 <= at < sites.len(),
        forall|i: int| 0 <= i < at ==> is_passed(#[trigger] sites[i]),
        !is_passed(sites[at]),
        sites[at].cargo_toml is None || !sites[at].has_built_binary,
    ensures
        workspace_binary(sites, binary_name) is None,
    decreases at,
{
    if at > 0 {
        assert(is_passed(sites[0]));
        assert(sites.skip(1)[at - 1] == sites[at]);
        assert forall|i: int| 0 <= i < at - 1 implies is_passed(#[trigger] sites.skip(1)[i]) by {
            assert(sites.skip(1)[i] == sites[i + 1]);
        }
        law_search_ends_without_a_binary(sites.skip(1), binary_name, at - 1);
    }
}

/// Where no directory belongs to a workspace there is no binary.
pub proof fn law_no_workspace_no_binary(sites: Seq<Site>, binary_name: Seq<char>)
    requires
        forall|i: int| 0 <= i < sites.len() ==> is_passed(#[trigger] sites[i]),
    ensures
        workspace_binary(sites, binary_name) is None,
    decreases sites.len(),
{
    if sites.len() > 0 {
        assert(is_passed(sites[0]));
        assert forall|i: int| 0 <= i < sites.len() - 1 implies is_passed(
            #[trigger] sites.skip(1)[i],
        ) by {
            assert(sites.skip(1)[i] == sites[i + 1]);
        }
        law_no_workspace_no_binary(sites.skip(1), binary_name);
    }
}

/// The binary of the innermost `node_modules/.bin` that has it is taken, however many
/// directories without it lie further in; where none has it there is none.
pub proof fn law_node_binary_is_found(sites: Seq<Site>, binary_name: Seq<char>, at: int)
    requires
        0 <= at <= sites.len(),
        forall|i: int| 0 <= i < at ==> !(#[trigger] sites[i]).has_node_binary,
        at < sites.len() ==> sites[at].has_node_binary,
    ensures
        first_node_binary(sites, binary_name) == if at < sites.len() {
            Some(
                joined(joined(joined(sites[at].dir@, "node_modules"@), ".bin"@), binary_name),
            )
        } else {
            None
        },
    decreases at,
{
    if at > 0 {
        assert(!sites[0].has_node_binary);
        if at < sites.len() {
            assert(sites.skip(1)[at - 1] == sites[at]);
        }
        assert forall|i: int| 0 <= i < at - 1 implies !(
        #[trigger] sites.skip(1)[i]).has_node_binary by {
            assert(sites.skip(1)[i] == sites[i + 1]);
        }
        law_node_binary_is_found(sites.skip(1), binary_name, at - 1);
    }
}

/// The `packageManager` field is that of the innermost `package.json`, however many directories
/// without one lie further in: where that file cannot be read or has no such field, none further
/// out is asked.
pub proof fn law_manager_field_is_the_innermost(sites: Seq<Site>, at: int)
    requires
        0 <= at <= sites.len(),
        forall|i: int| 0 <= i < at ==> !(#[trigger] sites[i]).has_package_json,
        at < sites.len() ==> sites[at].has_package_json,
    ensures
        first_manager_field(sites) == if at < sites.len() && sites[at].package_json is Some {
            manager_field(sites[at].package_json->0@)
        } else {
            None
        },
    decreases at,
{
    if at > 0 {
        assert(!sites[0].has_package_json);
        if at < sites.len() {
            assert(sites.skip(1)[at - 1] == sites[at]);
        }
        assert forall|i: int| 0 <= i < at - 1 implies !(
        #[trigger] sites.skip(1)[i]).has_package_json by {
            assert(sites.skip(1)[i] == sites[i + 1]);
        }
        law_manager_field_is_the_innermost(sites.skip(1), at - 1);
    }
}

/// Whether a command has a word.
pub open spec fn has_command(found: Findings) -> bool {
    found.env_command matches Some(cmd) && words(cmd@).len() > 0
}

/// The variable for the binary goes before everything, whatever else was found.
pub proof fn law_binary_variable_goes_first(found: Findings, npm_package: Seq<char>)
    requires
        found.env_binary is Some,
    ensures
        detected(found, npm_package) == Some(Invocation::Binary(found.env_binary->0@)),
{
}

/// The variable for a command goes before what was found in directories: its first word is the
/// program, and the other words, in order, are its first arguments.
pub proof fn law_command_variable_goes_second(found: Findings, npm_package: Seq<char>)
    requires
        found.env_binary is None,
        has_command(found),
    ensures
        detected(found, npm_package) matches Some(
            Invocation::PackageManager { program, prefix_args },
        ) && seq![program] + prefix_args == words(found.env_command->0@),
{
    let all = words(found.env_command->0@);
    assert(seq![all[0]] + all.skip(1) =~= all);
}

/// Binaries that were found go before package managers, that of a cargo workspace before that of
/// `node_modules`; a command without a word counts for nothing.
pub proof fn law_binaries_go_before_managers(found: Findings, npm_package: Seq<char>)
    requires
        found.env_binary is None,
        !has_command(found),
    ensures
        found.workspace_binary matches Some(path) ==> detected(found, npm_package) == Some(
            Invocation::Binary(path@),
        ),
        found.workspace_binary is None ==> (found.node_binary matches Some(path) ==> detected(
            found,
            npm_package,
        ) == Some(Invocation::Binary(path@))),
{
}

/// Where no binary and no command was found, the package is run by a package manager, if one is
/// named or installed; there is no way exactly where none is.
pub proof fn law_managers_go_last(found: Findings, npm_package: Seq<char>)
    requires
        found.env_binary is None,
        !has_command(found),
        found.workspace_binary is None,
        found.node_binary is None,
    ensures
        detected(found, npm_package) is None <==> (found.package_manager is None && !found.has_pnpm
            && !found.has_npx && !found.has_yarn),
        detected(found, npm_package) matches Some(way) ==> (way matches Invocation::PackageManager {
            program,
            prefix_args,
        } && runs_package(program, prefix_args, npm_package)),
        found.package_manager is None && found.has_pnpm ==> (detected(
            found,
            npm_package,
        ) matches Some(Invocation::PackageManager { program, prefix_args }) && program == "pnpm"@),
        found.package_manager is None && !found.has_pnpm && found.has_npx ==> (detected(
            found,
            npm_package,
        ) matches Some(Invocation::PackageManager { program, prefix_args }) && program == "npx"@),
        found.package_manager is None && !found.has_pnpm && !found.has_npx && found.has_yarn ==> (
        detected(found, npm_package) matches Some(
            Invocation::PackageManager { program, prefix_args },
        ) && program == "yarn"@),
        found.package_manager matches Some(pm) ==> (detected(found, npm_package) matches Some(
            Invocation::PackageManager { program, prefix_args },
        ) && program == manager_named(pm@)),
{
    reveal_strlit("pnpm");
    reveal_strlit("yarn");
    reveal_strlit("bun");
    assert("pnpm"@[0] == 'p' && "yarn"@[0] == 'y' && "bun"@[0] == 'b');
    if let Some(pm) = found.package_manager {
        if has_prefix(pm@, "pnpm"@) {
            assert(pm@.take(4)[0] == pm@[0]);
        }
        if has_prefix(pm@, "yarn"@) {
            assert(pm@.take(4)[0] == pm@[0]);
        }
        if has_prefix(pm@, "bun"@) {
            assert(pm@.take(3)[0] == pm@[0]);
        }
    }
}

/// Whether a program with these arguments runs the package: each package manager has its own way
/// to say so, and the package is the last thing said.
pub open spec fn runs_package(
    program: Seq<char>,
    args: Seq<Seq<char>>,
    npm_package: Seq<char>,
) -> bool {
    ||| program == "npx"@ && args == seq![npm_package]
    ||| (program == "pnpm"@ || program == "yarn"@) && args == seq!["dlx"@, npm_package]
    ||| program == "bun"@ && args == seq!["x"@, npm_package]
}

/// The program of the package manager that a `packageManager` field such as `pnpm@9.0.0` names;
/// `npx` where it names none of the others.
pub open spec fn manager_named(pm: Seq<char>) -> Seq<char> {
    if has_prefix(pm, "bun"@) {
        "bun"@
    } else if has_prefix(pm, "yarn"@) {
        "yarn"@
    } else if has_prefix(pm, "pnpm"@) {
        "pnpm"@
    } else {
        "npx"@
    }
}

/// A field that begins with the name of a package manager names that one.
pub proof fn law_field_names_the_manager(pm: Seq<char>, version: Seq<char>, npm_package: Seq<char>)
    ensures
        pm == "pnpm"@ + version || pm == "yarn"@ + version || pm == "bun"@ + version || pm
            == "npm"@ + version ==> by_manager(pm, npm_package) == if pm == "pnpm"@ + version {
            Invocation::PackageManager { program: "pnpm"@, prefix_args: seq!["dlx"@, npm_package] }
        } else if pm == "yarn"@ + version {
            Invocation::PackageManager { program: "yarn"@, prefix_args: seq!["dlx"@, npm_package] }
        } else if pm == "bun"@ + version {
            Invocation::PackageManager { program: "bun"@, prefix_args: seq!["x"@, npm_package] }
        } else {
            Invocation::PackageManager { program: "npx"@, prefix_args: seq![npm_package] }
        },
{
    reveal_strlit("pnpm");
    reveal_strlit("yarn");
    reveal_strlit("bun");
    reveal_strlit("npm");
    assert("pnpm"@[0] == 'p' && "yarn"@[0] == 'y' && "bun"@[0] == 'b' && "npm"@[0] == 'n');
    assert forall|name: Seq<char>| #[trigger] has_prefix(name + version, name) by {
        assert((name + version).take(name.len() as int) =~= name);
    }
    assert(has_prefix("pnpm"@ + version, "pnpm"@));
    assert(has_prefix("yarn"@ + version, "yarn"@));
    assert(has_prefix("bun"@ + version, "bun"@));
    if has_prefix(pm, "pnpm"@) {
        assert(pm.take(4)[0] == pm[0]);
    }
    if has_prefix(pm, "yarn"@) {
        assert(pm.take(4)[0] == pm[0]);
    }
    if has_prefix(pm, "bun"@) {
        assert(pm.take(3)[0] == pm[0]);
    }
}

} // verus!
