use agent_pool::error::ErrorKind;
use agent_pool::invoker::{
    find_cargo_workspace_binary, find_node_modules_binary, find_package_manager_field,
    package_manager_field, Findings, InvokableCli, Invoker, InvokerKind, Site,
};

#[derive(Debug)]
struct TestCli;

impl InvokableCli for TestCli {
    const NPM_PACKAGE: &'static str = "@test/test-cli";
    const BINARY_NAME: &'static str = "test_cli";
    const CARGO_PACKAGE: &'static str = "test_cli";
    const ENV_VAR_BINARY: &'static str = "TEST_CLI";
    const ENV_VAR_COMMAND: &'static str = "TEST_CLI_COMMAND";
}

#[test]
fn from_command_string_parses_correctly() {
    let invoker = Invoker::<TestCli>::from_command_string("pnpm dlx @test/test-cli");
    assert!(invoker.is_some());
    let invoker = invoker.unwrap();
    match &invoker.kind {
        InvokerKind::PackageManager {
            program,
            prefix_args,
        } => {
            assert_eq!(program, "pnpm");
            assert_eq!(prefix_args, &["dlx", "@test/test-cli"]);
        }
        InvokerKind::Binary(_) => panic!("Expected PackageManager"),
    }
}

#[test]
fn from_command_string_empty_returns_none() {
    let invoker = Invoker::<TestCli>::from_command_string("");
    assert!(invoker.is_none());
}

#[test]
fn from_package_manager_pnpm() {
    let invoker = Invoker::<TestCli>::from_package_manager("pnpm@10.0.0", "@test/pkg");
    match &invoker.kind {
        InvokerKind::PackageManager {
            program,
            prefix_args,
        } => {
            assert_eq!(program, "pnpm");
            assert_eq!(prefix_args, &["dlx", "@test/pkg"]);
        }
        InvokerKind::Binary(_) => panic!("Expected PackageManager"),
    }
}

#[test]
fn from_package_manager_yarn() {
    let invoker = Invoker::<TestCli>::from_package_manager("yarn@4.0.0", "@test/pkg");
    match &invoker.kind {
        InvokerKind::PackageManager {
            program,
            prefix_args,
        } => {
            assert_eq!(program, "yarn");
            assert_eq!(prefix_args, &["dlx", "@test/pkg"]);
        }
        InvokerKind::Binary(_) => panic!("Expected PackageManager"),
    }
}

#[test]
fn from_package_manager_bun() {
    let invoker = Invoker::<TestCli>::from_package_manager("bun@1.0.0", "@test/pkg");
    match &invoker.kind {
        InvokerKind::PackageManager {
            program,
            prefix_args,
        } => {
            assert_eq!(program, "bun");
            assert_eq!(prefix_args, &["x", "@test/pkg"]);
        }
        InvokerKind::Binary(_) => panic!("Expected PackageManager"),
    }
}

#[test]
fn from_package_manager_npm_default() {
    let invoker = Invoker::<TestCli>::from_package_manager("npm@10.0.0", "@test/pkg");
    match &invoker.kind {
        InvokerKind::PackageManager {
            program,
            prefix_args,
        } => {
            assert_eq!(program, "npx");
            assert_eq!(prefix_args, &["@test/pkg"]);
        }
        InvokerKind::Binary(_) => panic!("Expected PackageManager"),
    }
}

#[test]
fn not_found_error_includes_all_info() {
    let err = Invoker::<TestCli>::not_found_error();
    let msg = err.message;
    assert!(msg.contains("test_cli"));
    assert!(msg.contains("TEST_CLI"));
    assert!(msg.contains("TEST_CLI_COMMAND"));
    assert!(msg.contains("@test/test-cli"));
    assert!(msg.contains("cargo build -p test_cli"));
}

fn nothing_found() -> Findings {
    Findings {
        env_binary: None,
        env_command: None,
        workspace_binary: None,
        node_binary: None,
        package_manager: None,
        has_pnpm: false,
        has_npx: false,
        has_yarn: false,
    }
}

fn line(found: &Findings) -> (String, Vec<String>) {
    let invoker = Invoker::<TestCli>::detect(found).unwrap();
    invoker.command_line(&vec!["run".to_string()])
}

fn command(program: &str, args: &[&str]) -> (String, Vec<String>) {
    (
        program.to_string(),
        args.iter().map(|arg| arg.to_string()).collect(),
    )
}

#[test]
fn the_first_way_that_is_found_is_taken() {
    let mut found = nothing_found();
    let error = Invoker::<TestCli>::detect(&found).unwrap_err();
    assert_eq!(error.kind, ErrorKind::NotFound);
    assert_eq!(error, Invoker::<TestCli>::not_found_error());
    found.has_yarn = true;
    assert_eq!(line(&found), command("yarn", &["dlx", "@test/test-cli", "run"]));
    found.has_npx = true;
    assert_eq!(line(&found), command("npx", &["@test/test-cli", "run"]));
    found.has_pnpm = true;
    assert_eq!(line(&found), command("pnpm", &["dlx", "@test/test-cli", "run"]));
    found.package_manager = Some("bun@1".to_string());
    assert_eq!(line(&found), command("bun", &["x", "@test/test-cli", "run"]));
    found.node_binary = Some("/n/test_cli".to_string());
    assert_eq!(line(&found), command("/n/test_cli", &["run"]));
    found.workspace_binary = Some("/w/test_cli".to_string());
    assert_eq!(line(&found), command("/w/test_cli", &["run"]));
    found.env_command = Some("  ".to_string());
    assert_eq!(line(&found), command("/w/test_cli", &["run"]));
    found.env_command = Some("node cli.js".to_string());
    assert_eq!(line(&found), command("node", &["cli.js", "run"]));
    found.env_binary = Some("/e/test_cli".to_string());
    assert_eq!(line(&found), command("/e/test_cli", &["run"]));
}

fn site(dir: &str) -> Site {
    Site {
        dir: dir.to_string(),
        has_cargo_toml: false,
        cargo_toml: None,
        has_built_binary: false,
        has_node_binary: false,
        has_package_json: false,
        package_json: None,
    }
}

#[test]
fn the_innermost_workspace_decides() {
    let mut inner = site("/a/b");
    inner.has_cargo_toml = true;
    inner.cargo_toml = Some("[package]".to_string());
    inner.has_built_binary = true;
    let mut outer = site("/a");
    outer.has_cargo_toml = true;
    outer.cargo_toml = Some("# x\n[workspace]\n".to_string());
    let sites = vec![inner.clone(), outer.clone()];
    assert_eq!(find_cargo_workspace_binary(&sites, "t"), None);
    outer.has_built_binary = true;
    let sites = vec![inner.clone(), outer.clone()];
    assert_eq!(
        find_cargo_workspace_binary(&sites, "t"),
        Some("/a/target/debug/t".to_string())
    );
    inner.cargo_toml = None;
    let sites = vec![inner, outer];
    assert_eq!(find_cargo_workspace_binary(&sites, "t"), None);
}

#[test]
fn the_innermost_node_module_is_taken() {
    let mut outer = site("/a");
    outer.has_node_binary = true;
    let sites = vec![site("/a/b"), outer];
    assert_eq!(
        find_node_modules_binary(&sites, "t"),
        Some("/a/node_modules/.bin/t".to_string())
    );
    assert_eq!(find_node_modules_binary(&vec![site("/a")], "t"), None);
}

#[test]
fn the_innermost_package_names_its_manager() {
    assert_eq!(
        package_manager_field(r#"{"name":"x","packageManager":"pnpm@9"}"#),
        Some("pnpm@9".to_string())
    );
    assert_eq!(package_manager_field(r#"{"packageManager":3}"#), None);
    assert_eq!(package_manager_field("no json"), None);
    let mut inner = site("/a/b");
    inner.has_package_json = true;
    inner.package_json = Some("{}".to_string());
    let mut outer = site("/a");
    outer.has_package_json = true;
    outer.package_json = Some(r#"{"packageManager":"yarn@4"}"#.to_string());
    assert_eq!(
        find_package_manager_field(&vec![site("/a/b/c"), outer.clone()]),
        Some("yarn@4".to_string())
    );
    assert_eq!(find_package_manager_field(&vec![inner, outer]), None);
}
