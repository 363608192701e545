use agent_pool::cli::{
    format_task_output, open_envelope, pool_info_json, protocol_text, task_output,
};
use agent_pool::worker::TaskAssignment;

fn assignment(content: &str) -> TaskAssignment {
    TaskAssignment {
        uuid: "u".to_string(),
        content: content.to_string(),
    }
}

#[test]
fn a_task_is_printed_with_where_to_answer() {
    let task = assignment(r#"{"kind":"Task","task":{"data":1},"instructions":"do"}"#);
    let text = format_task_output(&task, "/p", Some("c1"));
    let expected = [
        "{",
        "  \"agent_name\": \"c1\",",
        "  \"content\": {",
        "    \"data\": 1",
        "  },",
        "  \"instructions\": \"do\",",
        "  \"kind\": \"Task\",",
        "  \"response_file\": \"/p/agents/u.response.json\",",
        "  \"uuid\": \"u\"",
        "}",
    ];
    assert_eq!(text, expected.join("\n"));
}

#[test]
fn what_a_task_does_not_say_is_filled_in() {
    let text = format_task_output(&assignment("no json"), "/p", None);
    let read: serde_json::Value = serde_json::from_str(&text).unwrap();
    assert_eq!(read["kind"], "Task");
    assert!(read["content"].is_null());
    assert!(read.get("agent_name").is_none());
    assert!(read.get("instructions").is_none());
    let text = format_task_output(&assignment(r#"{"kind":7,"task":"x"}"#), "/p", None);
    let read: serde_json::Value = serde_json::from_str(&text).unwrap();
    assert_eq!(read["kind"], "Task");
    assert_eq!(read["content"], "x");
}

#[test]
fn a_heartbeat_is_printed_as_one() {
    let message = agent_pool::daemon::io::heartbeat_message();
    let text = format_task_output(&assignment(&message), "/p", None);
    let read: serde_json::Value = serde_json::from_str(&text).unwrap();
    assert_eq!(read["kind"], "Heartbeat");
    assert!(read["content"]["data"].is_null());
    let message = agent_pool::daemon::io::kicked_message();
    let text = format_task_output(&assignment(&message), "/p", None);
    let read: serde_json::Value = serde_json::from_str(&text).unwrap();
    assert_eq!(read["kind"], "Kicked");
}

#[test]
fn an_envelope_is_taken_apart() {
    let value: serde_json::Value =
        serde_json::from_str(r#"{"kind":"K","task":[1],"instructions":{"a":2}}"#).unwrap();
    let envelope = open_envelope(&value);
    assert_eq!(envelope.kind, "K");
    assert_eq!(envelope.content.to_string(), "[1]");
    assert_eq!(envelope.instructions.as_ref().unwrap().to_string(), r#"{"a":2}"#);
    let text = task_output("u", "/f", envelope, None);
    let read: serde_json::Value = serde_json::from_str(&text).unwrap();
    assert_eq!(read["response_file"], "/f");
    assert_eq!(read["instructions"]["a"], 2);
}

#[test]
fn a_pool_is_named_in_json() {
    assert_eq!(pool_info_json("abc"), r#"{"id":"abc"}"#);
}

#[test]
fn the_protocol_is_filled_in() {
    let template = "pool <POOL_ID> (abc12345) name <AGENT_NAME> --name <AGENT_NAME>";
    assert_eq!(
        protocol_text(template, Some("xyz"), "/r", Some("c1")),
        "pool xyz (xyz) name c1 --name c1"
    );
    assert_eq!(protocol_text(template, None, "/r", None), template);
    assert_eq!(
        protocol_text("/tmp/agent_pool/<POOL_ID>", Some("xyz"), "/r", None),
        "/tmp/agent_pool/xyz"
    );
}
