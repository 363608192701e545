use agent_pool::error::{ErrorKind, PoolError};
use agent_pool::gsd::{
    config_fault, config_source, entrypoint_value, generate_graphviz, json_input_text,
    parse_json_input, resolve_initial_tasks, resolve_pool_path, step_summary, Config, ConfigFault,
    ConfigSource, Step, StepAction, Task,
};

fn step(name: &str, next: &[&str]) -> Step {
    Step {
        name: name.to_string(),
        next: next.iter().map(|name| name.to_string()).collect(),
        action: StepAction::Pool,
        has_pre: false,
        has_post: false,
        has_finally: false,
    }
}

#[test]
fn graphviz_basic() {
    let config = Config {
        steps: vec![
            step("Start", &["Middle"]),
            step("Middle", &["End"]),
            step("End", &[]),
        ],
    };

    let dot = generate_graphviz(&config);
    assert!(dot.contains("digraph GSD"));
    assert!(dot.contains("\"Start\" -> \"Middle\""));
    assert!(dot.contains("\"Middle\" -> \"End\""));
    assert!(dot.contains("peripheries=2"));
}

#[test]
fn a_graph_is_written_line_by_line() {
    let mut work = step("Work", &["Work", "End"]);
    work.action = StepAction::Command;
    work.has_pre = true;
    work.has_finally = true;
    let config = Config {
        steps: vec![work, step("End", &[])],
    };
    let lines = [
        "digraph GSD {",
        "  rankdir=TB;",
        "  node [fontname=\"Helvetica\"];",
        "  edge [fontname=\"Helvetica\", fontsize=10];",
        "",
        "  \"Work\" [shape=diamond, label=\"Work\\n[pre, finally]\", style=filled, fillcolor=\"#fff3e0\"];",
        "  \"End\" [shape=box, peripheries=2, label=\"End\", style=filled, fillcolor=\"#e3f2fd\"];",
        "",
        "  \"Work\" -> \"Work\";",
        "  \"Work\" -> \"End\";",
        "}",
    ];
    assert_eq!(generate_graphviz(&config), lines.join("\n"));
}

#[test]
fn a_step_is_summed_up_in_a_line() {
    assert_eq!(step_summary(&step("A", &["B", "C"])), "  A -> B, C");
    assert_eq!(step_summary(&step("A", &[])), "  A -> (terminal)");
}

fn resolve(
    entrypoint: Option<&str>,
    initial: Option<Vec<Task>>,
    value: Option<&str>,
    verdict: Result<(), String>,
) -> Result<Vec<Task>, PoolError> {
    resolve_initial_tasks(
        entrypoint,
        initial.map(Ok),
        value.is_some(),
        entrypoint_value(value, None),
        verdict,
    )
}

fn initial_state() -> Vec<Task> {
    vec![Task {
        step: "Start".to_string(),
        value: serde_json::from_str("{}").unwrap(),
    }]
}

#[test]
fn resolve_with_entrypoint_and_no_flags() {
    let result = resolve(Some("Start"), None, None, Ok(()));
    assert!(result.is_ok());
    let tasks = result.unwrap();
    assert_eq!(tasks.len(), 1);
    assert_eq!(tasks[0].step.as_str(), "Start");
    assert_eq!(tasks[0].value.to_string(), "{}");
}

#[test]
fn resolve_with_entrypoint_and_entrypoint_value() {
    let result = resolve(Some("Start"), None, Some(r#"{"foo": 1}"#), Ok(()));
    assert!(result.is_ok());
    let tasks = result.unwrap();
    assert_eq!(tasks.len(), 1);
    assert_eq!(tasks[0].step.as_str(), "Start");
    assert_eq!(tasks[0].value.to_string(), r#"{"foo":1}"#);
}

#[test]
fn resolve_with_entrypoint_and_initial_state_uses_initial_state() {
    let result = resolve(Some("Start"), Some(initial_state()), None, Ok(()));
    assert!(result.is_ok());
    let tasks = result.unwrap();
    assert_eq!(tasks.len(), 1);
}

#[test]
fn resolve_with_initial_state_and_entrypoint_value_errors() {
    let result = resolve(Some("Start"), Some(initial_state()), Some("{}"), Ok(()));
    let err = result.unwrap_err();
    assert_eq!(err.kind, ErrorKind::InvalidInput);
    assert_eq!(
        err.message,
        "--initial-state cannot be used with --entrypoint-value"
    );
}

#[test]
fn resolve_without_entrypoint_and_initial_state() {
    let result = resolve(None, Some(initial_state()), None, Ok(()));
    assert!(result.is_ok());
    let tasks = result.unwrap();
    assert_eq!(tasks.len(), 1);
}

#[test]
fn resolve_without_entrypoint_and_entrypoint_value_errors_e063() {
    let result = resolve(None, None, Some(r"{}"), Ok(()));
    assert!(result.is_err());
    let err = result.unwrap_err();
    assert_eq!(err.kind, ErrorKind::InvalidInput);
    assert!(err.message.contains("E063"));
    let result = resolve(None, Some(initial_state()), Some(r"{}"), Ok(()));
    assert!(result.unwrap_err().message.contains("E063"));
}

#[test]
fn resolve_without_entrypoint_and_no_flags_errors_e064() {
    let result = resolve(None, None, None, Ok(()));
    assert!(result.is_err());
    let err = result.unwrap_err();
    assert!(err.message.contains("E064"));
}

#[test]
fn resolve_with_invalid_entrypoint_value_json_errors_e060() {
    let result = resolve(Some("Start"), None, Some("not json"), Ok(()));
    assert!(result.is_err());
    let err = result.unwrap_err();
    assert_eq!(err.kind, ErrorKind::InvalidData);
    assert!(err.message.contains("E060"));
}

#[test]
fn resolve_validates_entrypoint_value_against_schema_e061() {
    let result = resolve(
        Some("Start"),
        None,
        None,
        Err("\"path\" is a required property".to_string()),
    );
    assert!(result.is_err());
    let err = result.unwrap_err();
    assert_eq!(
        err.message,
        "[E061] entrypoint value validation failed: \"path\" is a required property"
    );
}

#[test]
fn resolve_allows_empty_value_when_no_schema() {
    let result = resolve(Some("Start"), None, None, Ok(()));
    assert!(result.is_ok());
}

#[test]
fn resolve_allows_empty_value_when_schema_is_empty_object() {
    let result = resolve(Some("Start"), None, None, Ok(()));
    assert!(result.is_ok());
}

#[test]
fn a_complaint_about_the_initial_tasks_is_passed_on() {
    let complaint = PoolError::new(ErrorKind::InvalidData, "bad");
    let result = resolve_initial_tasks(
        None,
        Some(Err(complaint.clone())),
        false,
        entrypoint_value(None, None),
        Ok(()),
    );
    assert_eq!(result.unwrap_err(), complaint);
}

#[test]
fn the_file_counts_before_the_input() {
    assert_eq!(json_input_text("{a: 1}", None), "{a: 1}");
    assert_eq!(json_input_text("name.json", Some("[2]")), "[2]");
    assert_eq!(json_input_text("name.json", Some("")), "");
}

#[test]
fn json5_is_read_from_the_file_or_the_input() {
    let value = parse_json_input("{a: 1, /* c */ b: [true,],}", None).unwrap();
    assert_eq!(value.to_string(), r#"{"a":1,"b":[true]}"#);
    let value = parse_json_input("name.json", Some("'text'")).unwrap();
    assert_eq!(value.to_string(), "\"text\"");
    assert!(!parse_json_input("{", None).unwrap_err().is_empty());
}

#[test]
fn the_pool_lies_below_the_root() {
    assert_eq!(
        resolve_pool_path(None, "/r").unwrap(),
        "/r/pools/default"
    );
    assert_eq!(
        resolve_pool_path(Some("agents"), "/r").unwrap(),
        "/r/pools/agents"
    );
    let error = resolve_pool_path(Some("a/b"), "/r").unwrap_err();
    assert_eq!(error.kind, ErrorKind::InvalidInput);
    assert_eq!(
        error.message,
        "[E058] pool ID 'a/b' cannot contain '/'. Use --root to specify the base directory."
    );
}

#[test]
fn a_configuration_is_a_file_or_the_text_itself() {
    assert_eq!(
        config_source("dir/config.json", true),
        ConfigSource::File {
            path: "dir/config.json".to_string(),
            dir: "dir".to_string()
        }
    );
    assert_eq!(
        config_source("config.json", true),
        ConfigSource::File {
            path: "config.json".to_string(),
            dir: "".to_string()
        }
    );
    assert_eq!(
        config_source("/", true),
        ConfigSource::File {
            path: "/".to_string(),
            dir: ".".to_string()
        }
    );
    assert_eq!(
        config_source("{}", false),
        ConfigSource::Inline {
            text: "{}".to_string(),
            dir: ".".to_string()
        }
    );
}

#[test]
fn faults_of_a_configuration_are_told_apart() {
    let cases = vec![
        (
            ConfigFault::Read,
            ErrorKind::NotFound,
            "[E054] failed to read config file /c: d",
        ),
        (
            ConfigFault::File,
            ErrorKind::InvalidData,
            "[E055] invalid config in /c: d",
        ),
        (
            ConfigFault::Inline,
            ErrorKind::InvalidData,
            "[E056] invalid inline config: d",
        ),
        (
            ConfigFault::Tasks,
            ErrorKind::InvalidData,
            "[E057] invalid initial tasks JSON: d",
        ),
    ];
    for (fault, kind, message) in cases {
        let error = config_fault(fault, "/c", ErrorKind::NotFound, "d");
        assert_eq!(error.kind, kind);
        assert_eq!(error.message, message);
    }
}
