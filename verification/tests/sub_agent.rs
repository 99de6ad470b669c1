use planned_agent::chat::message::{Message, MessageContent, MessageRole};
use planned_agent::chat::sub_agent::{
    extract_last_assistant_text, may_retry, merge_into_object, start_plan, strip_hidden_args, sub_agent_failure,
    BeforeDecision, ChainOutcome, ChainRun, CollectNext, CollectRun, ResultDecision, StartPlan,
};
use planned_agent::chat::service::SendOutcome;
use planned_agent::json::JsonValue;

fn from_serde(v: serde_json::Value) -> JsonValue {
    match v {
        serde_json::Value::Null => JsonValue::Null,
        serde_json::Value::Bool(b) => JsonValue::Bool(b),
        serde_json::Value::Number(n) => JsonValue::Number(n.to_string()),
        serde_json::Value::String(s) => JsonValue::Str(s),
        serde_json::Value::Array(items) => JsonValue::Array(items.into_iter().map(from_serde).collect()),
        serde_json::Value::Object(map) => {
            JsonValue::Object(map.into_iter().map(|(k, v)| (k, from_serde(v))).collect())
        }
    }
}

fn to_serde(v: &JsonValue) -> serde_json::Value {
    match v {
        JsonValue::Null => serde_json::Value::Null,
        JsonValue::Bool(b) => serde_json::Value::Bool(*b),
        JsonValue::Number(n) => serde_json::from_str(n).unwrap(),
        JsonValue::Str(s) => serde_json::Value::String(s.clone()),
        JsonValue::Array(items) => serde_json::Value::Array(items.iter().map(to_serde).collect()),
        JsonValue::Object(fields) => {
            serde_json::Value::Object(fields.iter().map(|(k, v)| (k.clone(), to_serde(v))).collect())
        }
    }
}

fn j(text: &str) -> JsonValue {
    from_serde(serde_json::from_str(text).unwrap())
}

fn merge(base: &str, extra: &str) -> serde_json::Value {
    let mut base = j(base);
    merge_into_object(&mut base, j(extra));
    to_serde(&base)
}

fn sj(text: &str) -> serde_json::Value {
    serde_json::from_str(text).unwrap()
}

/// Runs a chain of scripted decisions; returns the outcome and what each callback saw.
fn run_chain(decisions: Vec<ResultDecision>, text: &str) -> (ChainOutcome, Vec<String>) {
    let n = decisions.len();
    let mut chain = ChainRun::new(text, n);
    let mut seen = Vec::new();
    for d in decisions {
        let Some((value, _is_last)) = chain.probe() else { break };
        seen.push(value);
        if let Some(outcome) = chain.decide(d) {
            return (outcome, seen);
        }
    }
    (chain.end(), seen)
}

#[test]
fn empty_chain_keeps_last_text() {
    let (out, _) = run_chain(vec![], "原始");
    assert!(matches!(out, ChainOutcome::Done(t) if t == "原始"));
}

#[test]
fn single_accept_keeps_last_text() {
    let (out, _) = run_chain(vec![ResultDecision::Accept], "原始");
    assert!(matches!(out, ChainOutcome::Done(t) if t == "原始"));
}

#[test]
fn single_transform_replaces_outer_result() {
    let (out, _) = run_chain(vec![ResultDecision::Transform("改写".to_string())], "原始");
    assert!(matches!(out, ChainOutcome::Done(t) if t == "改写"));
}

#[test]
fn next_passes_value_downstream_without_touching_outer_result() {
    let (out, seen) = run_chain(vec![ResultDecision::Next("A的产物".to_string()), ResultDecision::Accept], "原始");
    assert!(matches!(out, ChainOutcome::Done(t) if t == "原始"));
    assert_eq!(seen, vec!["原始".to_string(), "A的产物".to_string()]);
}

#[test]
fn accept_terminates_chain() {
    let (out, seen) = run_chain(
        vec![ResultDecision::Accept, ResultDecision::Transform("不该被执行".to_string())],
        "原始",
    );
    assert!(matches!(out, ChainOutcome::Done(t) if t == "原始"));
    assert_eq!(seen.len(), 1, "Accept 之后不应再执行后续回调");
}

#[test]
fn trailing_next_keeps_outer_result() {
    let (out, seen) = run_chain(vec![ResultDecision::Next("产物".to_string())], "原始");
    assert!(matches!(out, ChainOutcome::Done(t) if t == "原始"));
    assert_eq!(seen.len(), 1);
}

#[test]
fn retry_terminates_chain_with_message() {
    let (out, seen) = run_chain(vec![ResultDecision::Retry("请重做".to_string()), ResultDecision::Accept], "原始");
    assert!(matches!(out, ChainOutcome::Retry(m) if m == "请重做"));
    assert_eq!(seen.len(), 1, "Retry 之后不应再执行后续回调");
}

#[test]
fn abort_terminates_chain_with_reason() {
    let (out, seen) = run_chain(vec![ResultDecision::Abort("写库失败".to_string()), ResultDecision::Accept], "原始");
    assert!(matches!(out, ChainOutcome::Abort(m) if m == "写库失败"));
    assert_eq!(seen.len(), 1, "Abort 之后不应再执行后续回调");
}

#[test]
fn probe_marks_the_last_callback() {
    let chain = ChainRun::new("t", 1);
    assert_eq!(chain.probe(), Some(("t".to_string(), true)));
    let chain = ChainRun::new("t", 0);
    assert_eq!(chain.probe(), None);
    assert!(may_retry(0) && may_retry(1) && !may_retry(2));
    assert_eq!(sub_agent_failure("x"), "子 agent 执行失败: x");
}

#[test]
fn inject_keeps_disjoint_fields() {
    let out = merge(r#"{ "host_session_id": "s1", "output_format": "文本" }"#, r#"{ "execution_trace": [1, 2] }"#);
    assert_eq!(out, sj(r#"{ "host_session_id": "s1", "output_format": "文本", "execution_trace": [1, 2] }"#));
}

#[test]
fn inject_overwrites_same_key() {
    let out = merge(
        r#"{ "host_session_id": "s1", "execution_trace": [] }"#,
        r#"{ "execution_trace": [{ "tool": "builtin_write_file" }] }"#,
    );
    assert_eq!(out, sj(r#"{ "host_session_id": "s1", "execution_trace": [{ "tool": "builtin_write_file" }] }"#));
}

#[test]
fn inject_replaces_same_key_wholesale() {
    let out = merge(r#"{ "field_selection_result": { "a": 1, "b": 2 } }"#, r#"{ "field_selection_result": { "c": 3 } }"#);
    assert_eq!(out, sj(r#"{ "field_selection_result": { "c": 3 } }"#));
}

#[test]
fn inject_ignores_non_object_extra() {
    let out = merge(r#"{ "a": 1 }"#, r#""not an object""#);
    assert_eq!(out, sj(r#"{ "a": 1 }"#));
}

#[test]
fn inject_into_non_object_base_is_ignored() {
    let out = merge(r#""plain text""#, r#"{ "a": 1 }"#);
    assert_eq!(out, sj(r#""plain text""#));
}

#[test]
fn empty_extra_leaves_base_untouched() {
    let out = merge(r#"{ "a": 1 }"#, "{}");
    assert_eq!(out, sj(r#"{ "a": 1 }"#));
}

#[test]
fn hidden_args_are_stripped_from_objects_only() {
    let hidden = vec!["host_session_id".to_string()];
    let out = strip_hidden_args(j(r#"{"task": "t", "host_session_id": "s"}"#), &hidden);
    assert_eq!(to_serde(&out), sj(r#"{"task": "t"}"#));
    assert_eq!(strip_hidden_args(j(r#""x""#), &hidden), j(r#""x""#));
    assert_eq!(strip_hidden_args(j(r#"{"a": 1}"#), &vec![]), j(r#"{"a": 1}"#));
}

fn text_message(role: MessageRole, text: &str) -> Message {
    Message {
        role,
        content: Some(MessageContent::Text { text: text.to_string() }),
        tool_calls: None,
        tool_call_id: None,
        reasoning_content: None,
    }
}

#[test]
fn extract_last_assistant_text_prefers_latest_non_empty() {
    let history = vec![
        text_message(MessageRole::User, "任务"),
        text_message(MessageRole::Assistant, "第一轮结论"),
        text_message(MessageRole::Tool, "tool output"),
        text_message(MessageRole::Assistant, "最终结论"),
        text_message(MessageRole::Assistant, ""),
    ];
    assert_eq!(extract_last_assistant_text(&history), "最终结论");
}

#[test]
fn extract_last_assistant_text_empty_when_no_text() {
    let history = vec![text_message(MessageRole::User, "任务")];
    assert_eq!(extract_last_assistant_text(&history), "");
}

#[test]
fn user_message_creates_user_role_text() {
    let m = Message::text(MessageRole::User, "hello");
    assert!(matches!(m.role, MessageRole::User));
    assert!(matches!(&m.content, Some(MessageContent::Text { text }) if text == "hello"));
}

fn parse_obj(text: &str) -> JsonValue {
    from_serde(serde_json::from_str(text).unwrap())
}

#[test]
fn start_plan_refuses_at_the_depth_limit() {
    let plan = start_plan(3, 3, parse_obj(r#"{"task":"x"}"#), &vec![], vec![]);
    assert_eq!(plan, StartPlan::Refuse("子 agent 嵌套深度 3 已达上限 3".to_string()));
}

#[test]
fn start_plan_abort_refuses_with_its_reason() {
    let decisions = vec![
        BeforeDecision::Inject(parse_obj(r#"{"a":1}"#)),
        BeforeDecision::Abort("状态库不可用".to_string()),
        BeforeDecision::Abort("later".to_string()),
    ];
    let plan = start_plan(0, 2, parse_obj(r#"{"task":"x"}"#), &vec![], decisions);
    assert_eq!(plan, StartPlan::Refuse("状态库不可用".to_string()));
}

#[test]
fn start_plan_sends_stripped_and_injected_arguments_as_pretty_json() {
    let decisions = vec![
        BeforeDecision::Continue,
        BeforeDecision::Inject(parse_obj(r#"{"state":"真实","task":"系统"}"#)),
        BeforeDecision::Inject(JsonValue::Str("ignored".to_string())),
    ];
    let hidden = vec!["session_id".to_string()];
    let args = parse_obj(r#"{"task":"模型","session_id":"s1","extra":2}"#);
    match start_plan(0, 2, args, &hidden, decisions) {
        StartPlan::Send(text) => {
            assert!(text.contains('\n'), "indented: {text}");
            let v: serde_json::Value = serde_json::from_str(&text).unwrap();
            let expected: serde_json::Value =
                serde_json::from_str(r#"{"task":"系统","extra":2,"state":"真实"}"#).unwrap();
            assert_eq!(v, expected);
        }
        other => panic!("unexpected {other:?}"),
    }
}

#[test]
fn collecting_ends_on_completion_suspension_or_failure() {
    let (_, next) = CollectRun::start(SendOutcome::Completed, "结果".to_string(), false);
    assert_eq!(next, CollectNext::Finish { is_error: false, content: "结果".to_string() });
    let (_, next) = CollectRun::start(SendOutcome::Completed, "结果".to_string(), true);
    assert_eq!(next, CollectNext::RunChain);
    let (_, next) = CollectRun::start(SendOutcome::Suspended { run_id: "r".to_string() }, String::new(), true);
    assert_eq!(next, CollectNext::Suspend);
    let (_, next) = CollectRun::start(SendOutcome::Failed("超时".to_string()), String::new(), true);
    assert_eq!(next, CollectNext::Finish { is_error: true, content: "子 agent 执行失败: 超时".to_string() });
}

#[test]
fn retries_are_granted_twice_then_the_last_text_stands() {
    let (mut run, _) = CollectRun::start(SendOutcome::Completed, "v1".to_string(), true);
    assert_eq!(run.after_chain(ChainOutcome::Retry("改".to_string())), CollectNext::Resend("改".to_string()));
    assert_eq!(run.after_retry(Some("v2".to_string())), CollectNext::RunChain);
    assert_eq!(run.after_chain(ChainOutcome::Retry("再改".to_string())), CollectNext::Resend("再改".to_string()));
    assert_eq!(run.after_retry(Some("v3".to_string())), CollectNext::RunChain);
    assert_eq!(
        run.after_chain(ChainOutcome::Retry("还改".to_string())),
        CollectNext::Finish { is_error: false, content: "v3".to_string() }
    );
    assert_eq!(run.attempts, 2);
    assert_eq!(run.after_retry(None), CollectNext::Finish { is_error: false, content: "v3".to_string() });
    assert_eq!(
        run.after_chain(ChainOutcome::Abort("写库失败".to_string())),
        CollectNext::Finish { is_error: true, content: "写库失败".to_string() }
    );
    assert_eq!(
        run.after_chain(ChainOutcome::Done("新".to_string())),
        CollectNext::Finish { is_error: false, content: "新".to_string() }
    );
}
