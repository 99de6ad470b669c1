use planned_agent::chat::message::{ErrorType, Message, MessageContent, MessageRole, StoreMessage, ToolCall};
use planned_agent::chat::trace::{export_tool_trace, ToolOutcome};
use planned_agent::json::{read_json_or_text, JsonValue};

fn assistant(calls: &[(&str, &str, &str)]) -> StoreMessage {
    let tool_calls = calls
        .iter()
        .map(|(id, name, arguments)| ToolCall {
            id: id.to_string(),
            name: name.to_string(),
            arguments: arguments.to_string(),
        })
        .collect();
    StoreMessage::new(
        Message {
            role: MessageRole::Assistant,
            content: None,
            tool_calls: Some(tool_calls),
            tool_call_id: None,
            reasoning_content: None,
        },
        ErrorType::NoError,
    )
}

fn tool_result(id: &str, content: &str, et: ErrorType) -> StoreMessage {
    StoreMessage::new(Message::tool_result(id, content), et)
}

/// A JSON literal parsed for comparison.
fn sj(text: &str) -> serde_json::Value {
    serde_json::from_str(text).unwrap()
}

/// The `serde_json` value of the library's JSON model.
fn to_serde(v: &JsonValue) -> serde_json::Value {
    match v {
        JsonValue::Null => serde_json::Value::Null,
        JsonValue::Bool(b) => serde_json::Value::Bool(*b),
        JsonValue::Number(n) => serde_json::from_str(n).unwrap(),
        JsonValue::Str(s) => serde_json::Value::String(s.clone()),
        JsonValue::Array(items) => serde_json::Value::Array(items.iter().map(to_serde).collect()),
        JsonValue::Object(fields) => {
            serde_json::Value::Object(fields.iter().map(|(k, v)| (k.clone(), to_serde(v))).collect())
        }
    }
}

#[test]
fn empty_history_yields_empty_trace() {
    assert!(export_tool_trace(&vec![]).is_empty());
}

#[test]
fn assistant_without_tool_calls_yields_nothing() {
    let history = vec![StoreMessage::new(
        Message {
            role: MessageRole::Assistant,
            content: None,
            tool_calls: None,
            tool_call_id: None,
            reasoning_content: None,
        },
        ErrorType::NoError,
    )];
    assert!(export_tool_trace(&history).is_empty());
}

#[test]
fn pairs_call_with_result_and_keeps_order() {
    let history = vec![
        assistant(&[
            ("c1", "builtin_read_file", r#"{"path":"a.txt"}"#),
            ("c2", "builtin_write_file", r#"{"path":"b.txt"}"#),
        ]),
        tool_result("c1", r#""line1""#, ErrorType::NoError),
        tool_result("c2", r#""ok""#, ErrorType::NoError),
    ];
    let trace = export_tool_trace(&history);
    assert_eq!(trace.len(), 2);
    assert_eq!(trace[0].id, "c1");
    assert_eq!(trace[0].name, "builtin_read_file");
    assert_eq!(to_serde(&trace[0].arguments), sj(r#"{"path":"a.txt"}"#));
    assert_eq!(trace[0].output.as_ref().map(to_serde), Some(sj(r#""line1""#)));
    assert_eq!(trace[0].outcome, ToolOutcome::Success);
    assert_eq!(trace[1].id, "c2");
}

#[test]
fn json_arguments_are_parsed_into_object() {
    let history = vec![assistant(&[("c1", "t", r#"{"a":1}"#)])];
    assert_eq!(to_serde(&export_tool_trace(&history)[0].arguments), sj(r#"{"a":1}"#));
}

#[test]
fn non_json_arguments_and_output_are_preserved_not_dropped() {
    let history = vec![
        assistant(&[("c1", "t", "{ not json")]),
        tool_result("c1", "被中断：用户取消", ErrorType::Cancelled),
    ];
    let trace = export_tool_trace(&history);
    assert_eq!(to_serde(&trace[0].arguments), serde_json::Value::String("{ not json".to_string()));
    assert_eq!(
        trace[0].output.as_ref().map(to_serde),
        Some(serde_json::Value::String("被中断：用户取消".to_string()))
    );
}

#[test]
fn execution_error_maps_to_error() {
    let history = vec![
        assistant(&[("c1", "t", "{}")]),
        tool_result("c1", r#""boom""#, ErrorType::ExecutionError),
    ];
    assert_eq!(export_tool_trace(&history)[0].outcome, ToolOutcome::Error);
}

#[test]
fn cancelled_maps_to_cancelled() {
    let history = vec![assistant(&[("c1", "t", "{}")]), tool_result("c1", "cancelled", ErrorType::Cancelled)];
    assert_eq!(export_tool_trace(&history)[0].outcome, ToolOutcome::Cancelled);
}

#[test]
fn declared_but_unexecuted_is_pending() {
    let history = vec![assistant(&[("c1", "t", "{}")])];
    let trace = export_tool_trace(&history);
    assert_eq!(trace.len(), 1);
    assert_eq!(trace[0].outcome, ToolOutcome::Pending);
    assert!(trace[0].output.is_none());
}

#[test]
fn orphan_tool_message_is_ignored() {
    let history = vec![tool_result("ghost", r#""x""#, ErrorType::NoError)];
    assert!(export_tool_trace(&history).is_empty());
}

#[test]
fn trace_order_follows_declaration_not_result_order() {
    let history = vec![
        assistant(&[("c1", "first", "{}"), ("c2", "second", "{}")]),
        tool_result("c2", r#""two""#, ErrorType::NoError),
        tool_result("c1", r#""one""#, ErrorType::NoError),
    ];
    let trace = export_tool_trace(&history);
    assert_eq!(trace.iter().map(|t| t.name.as_str()).collect::<Vec<_>>(), vec!["first", "second"]);
    assert_eq!(trace[0].output.as_ref().map(to_serde), Some(sj(r#""one""#)));
    assert_eq!(trace[1].output.as_ref().map(to_serde), Some(sj(r#""two""#)));
}

#[test]
fn multiple_assistant_rounds_accumulate_in_order() {
    let history = vec![
        assistant(&[("c1", "first", "{}")]),
        tool_result("c1", r#""1""#, ErrorType::NoError),
        assistant(&[("c2", "second", "{}")]),
        tool_result("c2", r#""2""#, ErrorType::NoError),
    ];
    let trace = export_tool_trace(&history);
    assert_eq!(trace.iter().map(|t| t.name.as_str()).collect::<Vec<_>>(), vec!["first", "second"]);
}

#[test]
fn first_result_of_an_id_wins() {
    let history = vec![
        assistant(&[("c1", "t", "{}")]),
        tool_result("c1", "first", ErrorType::Cancelled),
        tool_result("c1", "second", ErrorType::NoError),
    ];
    let trace = export_tool_trace(&history);
    assert_eq!(trace[0].output.as_ref().map(to_serde), Some(serde_json::Value::String("first".to_string())));
    assert_eq!(trace[0].outcome, ToolOutcome::Cancelled);
    assert_eq!(ToolOutcome::from_error_type(ErrorType::NoError), ToolOutcome::Success);
}

#[test]
fn texts_are_read_as_json_or_kept() {
    assert_eq!(
        read_json_or_text(r#"{"a": 1}"#),
        JsonValue::Object(vec![("a".to_string(), JsonValue::Number("1".to_string()))])
    );
    assert_eq!(read_json_or_text(r#""x""#), JsonValue::Str("x".to_string()));
    assert_eq!(read_json_or_text("not json"), JsonValue::Str("not json".to_string()));
}
