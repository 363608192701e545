//! How a command-line tool is invoked: as a binary, or through a package manager.
use crate::error::{ErrorKind, PoolError};
use crate::json::{as_string, json_parsed, json_text, member, parse};
use crate::path::{join, joined};
use crate::response::text_under;
use crate::text::{concat2, has_part, has_prefix, holds, split_whitespace, starts_with, texts, words};
use std::marker::PhantomData;
use vstd::prelude::*;

verus! {

/// A command-line tool that can be invoked in several ways.
pub trait InvokableCli {
    /// The npm package.
    const NPM_PACKAGE: &'static str;

    /// The binary, in `target/debug/` and `node_modules/.bin/`.
    const BINARY_NAME: &'static str;

    /// The cargo package, which error messages name.
    const CARGO_PACKAGE: &'static str;

    /// The environment variable that holds the path of the binary.
    const ENV_VAR_BINARY: &'static str;

    /// The environment variable that holds a whole command.
    const ENV_VAR_COMMAND: &'static str;
}

/// The agent pool's own tool.
pub struct AgentPoolCli;

impl InvokableCli for AgentPoolCli {
    const NPM_PACKAGE: &'static str = "@gsd-now/agent-pool";

    const BINARY_NAME: &'static str = "agent_pool";

    const CARGO_PACKAGE: &'static str = "agent_pool_cli";

    const ENV_VAR_BINARY: &'static str = "AGENT_POOL";

    const ENV_VAR_COMMAND: &'static str = "AGENT_POOL_COMMAND";
}

/// One way to invoke a tool.
#[derive(Debug, PartialEq, Eq)]
pub enum InvokerKind {
    /// A binary.
    Binary(String),
    /// A program with arguments that go before those of the tool.
    PackageManager {
        /// The program.
        program: String,
        /// The arguments that go first.
        prefix_args: Vec<String>,
    },
}

/// How a tool is invoked.
#[derive(Debug)]
pub struct Invoker<T: InvokableCli> {
    /// The way.
    pub kind: InvokerKind,
    /// The tool.
    pub marker: PhantomData<T>,
}

/// A way's texts.
pub enum Invocation {
    /// See [`InvokerKind::Binary`].
    Binary(Seq<char>),
    /// See [`InvokerKind::PackageManager`].
    PackageManager {
        /// The program.
        program: Seq<char>,
        /// The arguments that go first.
        prefix_args: Seq<Seq<char>>,
    },
}

impl View for InvokerKind {
    type V = Invocation;

    open spec fn view(&self) -> Invocation {
        match self {
            InvokerKind::Binary(path) => Invocation::Binary(path@),
            InvokerKind::PackageManager { program, prefix_args } => Invocation::PackageManager {
                program: program@,
                prefix_args: texts(prefix_args@),
            },
        }
    }
}

/// What a command comes to: its first word is the program; one without words is none.
pub open spec fn command_in(cmd: Seq<char>) -> Option<Invocation> {
    if words(cmd).len() == 0 {
        None
    } else {
        Some(
            Invocation::PackageManager {
                program: words(cmd)[0],
                prefix_args: words(cmd).skip(1),
            },
        )
    }
}

/// How a package is run by the package manager that a `packageManager` field names.
pub open spec fn by_manager(pm: Seq<char>, npm_package: Seq<char>) -> Invocation {
    if has_prefix(pm, "pnpm"@) {
        Invocation::PackageManager { program: "pnpm"@, prefix_args: seq!["dlx"@, npm_package] }
    } else if has_prefix(pm, "yarn"@) {
        Invocation::PackageManager { program: "yarn"@, prefix_args: seq!["dlx"@, npm_package] }
    } else if has_prefix(pm, "bun"@) {
        Invocation::PackageManager { program: "bun"@, prefix_args: seq!["x"@, npm_package] }
    } else {
        Invocation::PackageManager { program: "npx"@, prefix_args: seq![npm_package] }
    }
}

/// How a package is run by a package manager that is installed.
pub open spec fn by_installed(pnpm: bool, npx: bool, yarn: bool, npm_package: Seq<char>) -> Option<
    Invocation,
> {
    if pnpm {
        Some(
            Invocation::PackageManager { program: "pnpm"@, prefix_args: seq!["dlx"@, npm_package] },
        )
    } else if npx {
        Some(Invocation::PackageManager { program: "npx"@, prefix_args: seq![npm_package] })
    } else if yarn {
        Some(
            Invocation::PackageManager { program: "yarn"@, prefix_args: seq!["dlx"@, npm_package] },
        )
    } else {
        None
    }
}

/// What was found out about how a tool can be invoked.
#[derive(Debug, Clone, PartialEq, Eq)]
pub struct Findings {
    /// The environment variable for the binary, if it is set.
    pub env_binary: Option<String>,
    /// The environment variable for a command, if it is set.
    pub env_command: Option<String>,
    /// The binary in a cargo workspace.
    pub workspace_binary: Option<String>,
    /// The binary in `node_modules/.bin`.
    pub node_binary: Option<String>,
    /// The `packageManager` field of a `package.json`.
    pub package_manager: Option<String>,
    /// Whether `pnpm` is installed.
    pub has_pnpm: bool,
    /// Whether `npx` is installed.
    pub has_npx: bool,
    /// Whether `yarn` is installed.
    pub has_yarn: bool,
}

/// How a tool is invoked, after what was found out: the first way that there is, in the
/// order of the fields.
pub open spec fn detected(found: Findings, npm_package: Seq<char>) -> Option<Invocation> {
    if let Some(path) = found.env_binary {
        Some(Invocation::Binary(path@))
    } else if found.env_command matches Some(cmd) && command_in(cmd@) is Some {
        command_in(found.env_command->0@)
    } else if let Some(path) = found.workspace_binary {
        Some(Invocation::Binary(path@))
    } else if let Some(path) = found.node_binary {
        Some(Invocation::Binary(path@))
    } else if let Some(pm) = found.package_manager {
        Some(by_manager(pm@, npm_package))
    } else {
        by_installed(found.has_pnpm, found.has_npx, found.has_yarn, npm_package)
    }
}

/// What is said where a tool cannot be found.
pub open spec fn not_found_text(
    binary: Seq<char>,
    env_var: Seq<char>,
    env_var_cmd: Seq<char>,
    cargo_package: Seq<char>,
    npm_package: Seq<char>,
) -> Seq<char> {
    "Could not find '"@ + binary + "'. Looked in:\n\n  1. $"@ + env_var
        + " environment variable (not set)\n  2. $"@ + env_var_cmd
        + " environment variable (not set)\n  3. Cargo workspace target/debug/"@ + binary
        + " (not found)\n  4. node_modules/.bin/"@ + binary
        + " (not found)\n  5. package.json packageManager field (not found)\n  6. Global package managers pnpm/npx/yarn (not in PATH)\n\nTo fix this, either:\n  - Run: cargo build -p "@
        + cargo_package + "\n  - Or install the package: pnpm add "@ + npm_package
        + "\n  - Or install globally: pnpm add -g "@ + npm_package
        + "\n  - Or set the environment variable: export "@ + env_var + "=/path/to/"@ + binary
        + "\n  - Or install a package manager (pnpm, npm, or yarn) and run via:\n      pnpm dlx "@
        + npm_package + " <command>\n"@
}

/// A list of one text.
fn list1(a: &str) -> (r: Vec<String>)
    ensures
        texts(r@) == seq![a@],
{
    let mut out: Vec<String> = Vec::new();
    out.push(a.to_owned());
    assert(texts(out@) =~= seq![a@]);
    out
}

/// A list of two texts.
fn list2(a: &str, b: &str) -> (r: Vec<String>)
    ensures
        texts(r@) == seq![a@, b@],
{
    let mut out: Vec<String> = Vec::new();
    out.push(a.to_owned());
    out.push(b.to_owned());
    assert(texts(out@) =~= seq![a@, b@]);
    out
}

impl<T: InvokableCli> Invoker<T> {
    /// The tool as a program with arguments that go first.
    fn manager(program: &str, prefix_args: Vec<String>) -> (r: Invoker<T>)
        ensures
            r.kind@ == (Invocation::PackageManager {
                program: program@,
                prefix_args: texts(prefix_args@),
            }),
    {
        Invoker {
            kind: InvokerKind::PackageManager { program: program.to_owned(), prefix_args },
            marker: PhantomData,
        }
    }

    /// The tool as the binary at this path.
    pub fn from_binary(path: String) -> (r: Invoker<T>)
        ensures
            r.kind@ == Invocation::Binary(path@),
    {
        Invoker { kind: InvokerKind::Binary(path), marker: PhantomData }
    }

    /// The tool as a command; one without words is none.
    pub fn from_command_string(cmd: &str) -> (r: Option<Invoker<T>>)
        ensures
            match r {
                Some(invoker) => command_in(cmd@) == Some(invoker.kind@),
                None => command_in(cmd@) is None,
            },
    {
        let parts = split_whitespace(cmd);
        assert(texts(parts@).len() == parts@.len());
        if parts.len() == 0 {
            return None;
        }
        let program = parts[0].clone();
        let mut prefix_args: Vec<String> = Vec::new();
        let mut i: usize = 1;
        while i < parts.len()
            invariant
                1 <= i <= parts@.len(),
                texts(prefix_args@) == texts(parts@).subrange(1, i as int),
            decreases parts@.len() - i,
        {
            let ghost before = texts(prefix_args@);
            prefix_args.push(parts[i].clone());
            assert(texts(prefix_args@) =~= before.push(texts(parts@)[i as int]));
            i += 1;
        }
        assert(texts(parts@).subrange(1, i as int) =~= texts(parts@).skip(1));
        Some(Self::manager(&program, prefix_args))
    }

    /// The tool as a package, run by the package manager that a `packageManager` field names.
    pub fn from_package_manager(pm: &str, npm_package: &str) -> (r: Invoker<T>)
        ensures
            r.kind@ == by_manager(pm@, npm_package@),
    {
        if starts_with(pm, "pnpm") {
            Self::manager("pnpm", list2("dlx", npm_package))
        } else if starts_with(pm, "yarn") {
            Self::manager("yarn", list2("dlx", npm_package))
        } else if starts_with(pm, "bun") {
            Self::manager("bun", list2("x", npm_package))
        } else {
            Self::manager("npx", list1(npm_package))
        }
    }

    /// The tool as a package, run by a package manager that is installed.
    pub fn try_global_package_manager(
        has_pnpm: bool,
        has_npx: bool,
        has_yarn: bool,
        npm_package: &str,
    ) -> (r: Option<Invoker<T>>)
        ensures
            match r {
                Some(invoker) => by_installed(has_pnpm, has_npx, has_yarn, npm_package@) == Some(
                    invoker.kind@,
                ),
                None => by_installed(has_pnpm, has_npx, has_yarn, npm_package@) is None,
            },
    {
        if has_pnpm {
            Some(Self::manager("pnpm", list2("dlx", npm_package)))
        } else if has_npx {
            Some(Self::manager("npx", list1(npm_package)))
        } else if has_yarn {
            Some(Self::manager("yarn", list2("dlx", npm_package)))
        } else {
            None
        }
    }

    /// The error where the tool cannot be found.
    pub fn not_found_error() -> (r: PoolError)
        ensures
            r.says(
                ErrorKind::NotFound,
                not_found_text(
                    T::BINARY_NAME@,
                    T::ENV_VAR_BINARY@,
                    T::ENV_VAR_COMMAND@,
                    T::CARGO_PACKAGE@,
                    T::NPM_PACKAGE@,
                ),
            ),
    {
        let mut message = concat2("Could not find '", T::BINARY_NAME);
        message.append("'. Looked in:\n\n  1. $");
        message.append(T::ENV_VAR_BINARY);
        message.append(" environment variable (not set)\n  2. $");
        message.append(T::ENV_VAR_COMMAND);
        message.append(" environment variable (not set)\n  3. Cargo workspace target/debug/");
        message.append(T::BINARY_NAME);
        message.append(" (not found)\n  4. node_modules/.bin/");
        message.append(T::BINARY_NAME);
        message.append(
            " (not found)\n  5. package.json packageManager field (not found)\n  6. Global package managers pnpm/npx/yarn (not in PATH)\n\nTo fix this, either:\n  - Run: cargo build -p ",
        );
        message.append(T::CARGO_PACKAGE);
        message.append("\n  - Or install the package: pnpm add ");
        message.append(T::NPM_PACKAGE);
        message.append("\n  - Or install globally: pnpm add -g ");
        message.append(T::NPM_PACKAGE);
        message.append("\n  - Or set the environment variable: export ");
        message.append(T::ENV_VAR_BINARY);
        message.append("=/path/to/");
        message.append(T::BINARY_NAME);
        message.append(
            "\n  - Or install a package manager (pnpm, npm, or yarn) and run via:\n      pnpm dlx ",
        );
        message.append(T::NPM_PACKAGE);
        message.append(" <command>\n");
        PoolError { kind: ErrorKind::NotFound, message }
    }

    /// How the tool is invoked, after what was found out.
    pub fn detect(found: &Findings) -> (r: Result<Invoker<T>, PoolError>)
        ensures
            match r {
                Ok(invoker) => detected(*found, T::NPM_PACKAGE@) == Some(invoker.kind@),
                Err(error) => detected(*found, T::NPM_PACKAGE@) is None && error.says(
                    ErrorKind::NotFound,
                    not_found_text(
                        T::BINARY_NAME@,
                        T::ENV_VAR_BINARY@,
                        T::ENV_VAR_COMMAND@,
                        T::CARGO_PACKAGE@,
                        T::NPM_PACKAGE@,
                    ),
                ),
            },
    {
        if let Some(path) = &found.env_binary {
            return Ok(Self::from_binary(path.clone()));
        }
        if let Some(cmd) = &found.env_command {
            if let Some(invoker) = Self::from_command_string(cmd) {
                return Ok(invoker);
            }
        }
        if let Some(path) = &found.workspace_binary {
            return Ok(Self::from_binary(path.clone()));
        }
        if let Some(path) = &found.node_binary {
            return Ok(Self::from_binary(path.clone()));
        }
        if let Some(pm) = &found.package_manager {
            return Ok(Self::from_package_manager(pm, T::NPM_PACKAGE));
        }
        match Self::try_global_package_manager(
            found.has_pnpm,
            found.has_npx,
            found.has_yarn,
            T::NPM_PACKAGE,
        ) {
            Some(invoker) => Ok(invoker),
            None => Err(Self::not_found_error()),
        }
    }

    /// The program to start and its arguments: those of the way, then those of the tool.
    pub fn command_line(&self, args: &Vec<String>) -> (r: (String, Vec<String>))
        ensures
            match self.kind@ {
                Invocation::Binary(path) => r.0@ == path && texts(r.1@) == texts(args@),
                Invocation::PackageManager { program, prefix_args } => r.0@ == program && texts(
                    r.1@,
                ) == prefix_args + texts(args@),
            },
    {
        let mut all: Vec<String> = Vec::new();
        assert(texts(all@) =~= Seq::empty());
        match &self.kind {
            InvokerKind::Binary(path) => {
                add_all(&mut all, args);
                assert(texts(all@) =~= texts(args@));
                (path.clone(), all)
            },
            InvokerKind::PackageManager { program, prefix_args } => {
                add_all(&mut all, prefix_args);
                assert(texts(all@) =~= texts(prefix_args@));
                add_all(&mut all, args);
                (program.clone(), all)
            },
        }
    }
}

/// Adds the texts of `more` to `all`.
fn add_all(all: &mut Vec<String>, more: &Vec<String>)
    ensures
        texts(final(all)@) == texts(old(all)@) + texts(more@),
{
    let ghost start = texts(all@);
    let mut i: usize = 0;
    assert(start + texts(more@).take(0) =~= start);
    while i < more.len()
        invariant
            i <= more@.len(),
            texts(all@) == start + texts(more@).take(i as int),
        decreases more@.len() - i,
    {
        let ghost before = texts(all@);
        all.push(more[i].clone());
        assert(texts(all@) =~= before.push(texts(more@)[i as int]));
        assert(texts(more@).take(i + 1) =~= texts(more@).take(i as int).push(
            texts(more@)[i as int],
        ));
        i += 1;
        assert(texts(all@) =~= start + texts(more@).take(i as int));
    }
    assert(texts(more@).take(i as int) =~= texts(more@));
}

/// A directory, and what lies in it.
#[derive(Debug, Clone, PartialEq, Eq)]
pub struct Site {
    /// The directory.
    pub dir: String,
    /// Whether there is a `Cargo.toml`.
    pub has_cargo_toml: bool,
    /// What the `Cargo.toml` says, where it can be read.
    pub cargo_toml: Option<String>,
    /// Whether the binary was built below it.
    pub has_built_binary: bool,
    /// Whether the binary is in its `node_modules/.bin`.
    pub has_node_binary: bool,
    /// Whether there is a `package.json`.
    pub has_package_json: bool,
    /// What the `package.json` says, where it can be read.
    pub package_json: Option<String>,
}

/// Where cargo puts a binary.
pub open spec fn built_binary(dir: Seq<char>, binary_name: Seq<char>) -> Seq<char> {
    joined(joined(dir, "target/debug"@), binary_name)
}

/// Where npm puts a binary.
pub open spec fn node_binary(dir: Seq<char>, binary_name: Seq<char>) -> Seq<char> {
    joined(joined(joined(dir, "node_modules"@), ".bin"@), binary_name)
}

/// The binary of the cargo workspace that a directory belongs to: the first directory, from
/// the inside out, whose `Cargo.toml` declares a workspace decides; one that cannot be read
/// ends the search.
pub open spec fn workspace_binary(sites: Seq<Site>, binary_name: Seq<char>) -> Option<Seq<char>>
    decreases sites.len(),
{
    if sites.len() == 0 {
        None
    } else if !sites[0].has_cargo_toml {
        workspace_binary(sites.skip(1), binary_name)
    } else {
        match sites[0].cargo_toml {
            None => None,
            Some(content) => if !has_part(content@, "[workspace]"@) {
                workspace_binary(sites.skip(1), binary_name)
            } else if sites[0].has_built_binary {
                Some(built_binary(sites[0].dir@, binary_name))
            } else {
                None
            },
        }
    }
}

/// The binary of the cargo workspace that a directory belongs to. `sites` are that directory
/// and those it lies in, from the inside out.
pub fn find_cargo_workspace_binary(sites: &Vec<Site>, binary_name: &str) -> (r: Option<String>)
    ensures
        match r {
            Some(path) => workspace_binary(sites@, binary_name@) == Some(path@),
            None => workspace_binary(sites@, binary_name@) is None,
        },
{
    let mut i: usize = 0;
    assert(sites@.skip(0) =~= sites@);
    while i < sites.len()
        invariant
            i <= sites@.len(),
            workspace_binary(sites@, binary_name@) == workspace_binary(
                sites@.skip(i as int),
                binary_name@,
            ),
        decreases sites@.len() - i,
    {
        let site = &sites[i];
        assert(sites@.skip(i as int)[0] == *site);
        assert(sites@.skip(i as int).skip(1) =~= sites@.skip(i + 1));
        if site.has_cargo_toml {
            match &site.cargo_toml {
                None => {
                    return None;
                },
                Some(content) => {
                    if holds(content, "[workspace]") {
                        if site.has_built_binary {
                            return Some(join(&join(&site.dir, "target/debug"), binary_name));
                        }
                        return None;
                    }
                },
            }
        }
        i += 1;
    }
    None
}

/// The binary in the first `node_modules/.bin` that has it, from the inside out.
pub open spec fn first_node_binary(sites: Seq<Site>, binary_name: Seq<char>) -> Option<Seq<char>>
    decreases sites.len(),
{
    if sites.len() == 0 {
        None
    } else if sites[0].has_node_binary {
        Some(node_binary(sites[0].dir@, binary_name))
    } else {
        first_node_binary(sites.skip(1), binary_name)
    }
}

/// The binary in the first `node_modules/.bin` that has it, from the inside out.
pub fn find_node_modules_binary(sites: &Vec<Site>, binary_name: &str) -> (r: Option<String>)
    ensures
        match r {
            Some(path) => first_node_binary(sites@, binary_name@) == Some(path@),
            None => first_node_binary(sites@, binary_name@) is None,
        },
{
    let mut i: usize = 0;
    assert(sites@.skip(0) =~= sites@);
    while i < sites.len()
        invariant
            i <= sites@.len(),
            first_node_binary(sites@, binary_name@) == first_node_binary(
                sites@.skip(i as int),
                binary_name@,
            ),
        decreases sites@.len() - i,
    {
        let site = &sites[i];
        assert(sites@.skip(i as int)[0] == *site);
        assert(sites@.skip(i as int).skip(1) =~= sites@.skip(i + 1));
        if site.has_node_binary {
            return Some(join(&join(&join(&site.dir, "node_modules"), ".bin"), binary_name));
        }
        i += 1;
    }
    None
}

/// The `packageManager` field of a `package.json`, where it is JSON and has one that is a
/// string.
pub open spec fn manager_field(content: Seq<char>) -> Option<Seq<char>> {
    match json_parsed(content) {
        Some(value) => text_under(value, "packageManager"@),
        None => None,
    }
}

/// The `packageManager` field of a JSON value, where it has one that is a string.
pub fn manager_of(package: &serde_json::Value) -> (r: Option<String>)
    ensures
        match r {
            Some(pm) => text_under(json_text(*package), "packageManager"@) == Some(pm@),
            None => text_under(json_text(*package), "packageManager"@) is None,
        },
{
    match member(package, "packageManager") {
        Some(field) => as_string(&field),
        None => None,
    }
}

/// The `packageManager` field of a `package.json`.
pub fn package_manager_field(content: &str) -> (r: Option<String>)
    ensures
        match r {
            Some(pm) => manager_field(content@) == Some(pm@),
            None => manager_field(content@) is None,
        },
{
    match parse(content) {
        Some(value) => manager_of(&value),
        None => None,
    }
}

/// The `packageManager` field of the first `package.json`, from the inside out; there is none
/// where that file cannot be read or has none.
pub open spec fn first_manager_field(sites: Seq<Site>) -> Option<Seq<char>>
    decreases sites.len(),
{
    if sites.len() == 0 {
        None
    } else if !sites[0].has_package_json {
        first_manager_field(sites.skip(1))
    } else {
        match sites[0].package_json {
            Some(content) => manager_field(content@),
            None => None,
        }
    }
}

/// The `packageManager` field of the first `package.json`, from the inside out.
pub fn find_package_manager_field(sites: &Vec<Site>) -> (r: Option<String>)
    ensures
        match r {
            Some(pm) => first_manager_field(sites@) == Some(pm@),
            None => first_manager_field(sites@) is None,
        },
{
    let mut i: usize = 0;
    assert(sites@.skip(0) =~= sites@);
    while i < sites.len()
        invariant
            i <= sites@.len(),
            first_manager_field(sites@) == first_manager_field(sites@.skip(i as int)),
        decreases sites@.len() - i,
    {
        let site = &sites[i];
        assert(sites@.skip(i as int)[0] == *site);
        assert(sites@.skip(i as int).skip(1) =~= sites@.skip(i + 1));
        if site.has_package_json {
            return match &site.package_json {
                Some(content) => package_manager_field(content),
                None => None,
            };
        }
        i += 1;
    }
    None
}

} // verus!
