use planned_agent::agents::{
    completeness_note, execute_input, execution_json, execution_summary, extract_requirement,
    flow_instruction, inline_user_choice, last_assistant_reply, next_flow_step, opening_messages,
    opening_request, read_section, record_execution, restored_messages, resume_executes,
    CompletenessDoc, ExecutionOutput, FlowStep,
};
use planned_agent::chat::message::{Message, MessageContent, MessageRole};
use planned_agent::cli::Cli;
use planned_agent::config::{
    default_max_iter, default_trace_dir, default_true, mark_default, AppConfig, ConfigEntry,
    LoggingConfig, TraceConfig,
};
use planned_agent::json::JsonValue;
use planned_agent::flexible::step::tool_content;

fn entry(name: &str, is_default: bool) -> ConfigEntry {
    ConfigEntry { name: name.to_string(), is_default }
}

fn config() -> AppConfig {
    AppConfig {
        ai_providers: vec![entry("openai", false), entry("deepseek", true)],
        mcp_servers: vec![entry("playwright", false), entry("fs", false)],
        trace: TraceConfig::default(),
        logging: LoggingConfig { level: "info".to_string(), format: "pretty".to_string() },
    }
}

fn cli(ai: Option<&str>, mcp: Option<&str>, level: &str) -> Cli {
    Cli {
        config: "config.toml".to_string(),
        ai_provider: ai.map(|s| s.to_string()),
        mcp_server: mcp.map(|s| s.to_string()),
        stream: false,
        interactive: false,
        log_level: level.to_string(),
        command: None,
    }
}

// ───────────────────────────── completeness document ─────────────────────────────

#[test]
fn empty_document_shows_pending_fields() {
    let doc = CompletenessDoc::default();
    assert_eq!(
        doc.to_markdown(),
        "## 需求描述\n（待填充）\n\n## 输入参数\n（待填充）\n\n## 执行步骤\n（待填充）\n\n## 工具路径\n（待填充）\n\n## 输出格式\n（待填充）"
    );
}

#[test]
fn document_round_trips_through_markdown() {
    let doc = CompletenessDoc {
        requirement: "读取文件".to_string(),
        input_params: "path".to_string(),
        execution_steps: "1. read".to_string(),
        tool_paths: "read_file".to_string(),
        output_schema: "text".to_string(),
    };
    let mut other = CompletenessDoc::default();
    other.update_from_text(&doc.to_markdown());
    assert_eq!(other, doc);
}

#[test]
fn pending_or_missing_sections_change_nothing() {
    let mut doc = CompletenessDoc { requirement: "旧需求".to_string(), ..Default::default() };
    doc.update_from_text("## 需求描述\n（待填充）\n\n## 输入参数\n  a, b  \n");
    assert_eq!(doc.requirement, "旧需求");
    assert_eq!(doc.input_params, "a, b");
    assert_eq!(read_section("nothing here", "## 需求描述"), None);
    assert_eq!(read_section("## 工具路径\n\n", "## 工具路径"), None);
}

#[test]
fn requirement_follows_its_heading() {
    assert_eq!(extract_requirement("分析...\n## 整理后的需求\n  读取 a.txt  \n"), "读取 a.txt");
    assert_eq!(extract_requirement("没有标题"), "没有标题");
    assert_eq!(extract_requirement("x\n## 整理后的需求\n   "), "x\n## 整理后的需求\n   ");
}

// ───────────────────────────── settings ─────────────────────────────

#[test]
fn trace_defaults() {
    let t = TraceConfig::default();
    assert!(t.enabled && t.use_llm_generalization);
    assert_eq!(t.storage_dir, "./traces");
    assert_eq!(t.max_iterations_for_record, 5);
    assert!(t.generalization_model.is_empty());
    assert!(default_true());
    assert_eq!(default_trace_dir(), "./traces");
    assert_eq!(default_max_iter(), 5);
}

#[test]
fn default_entry_is_the_marked_one_else_the_first() {
    let c = config();
    assert_eq!(c.get_default_ai_provider().map(|e| e.name.as_str()), Some("deepseek"));
    assert_eq!(c.get_default_mcp_server().map(|e| e.name.as_str()), Some("playwright"));
    assert_eq!(c.get_ai_provider("openai").map(|e| e.is_default), Some(false));
    assert!(c.get_mcp_server("nope").is_none());
    assert_eq!(c.get_ai_provider_names(), vec!["openai".to_string(), "deepseek".to_string()]);
    assert_eq!(c.get_mcp_server_names(), vec!["playwright".to_string(), "fs".to_string()]);
    let empty = AppConfig { ai_providers: vec![], mcp_servers: vec![], ..config() };
    assert!(empty.get_default_ai_provider().is_none());
}

#[test]
fn command_line_choice_becomes_the_only_default() {
    let merged = cli(Some("openai"), Some("fs"), "debug").merge_with_config(config());
    assert_eq!(merged.get_default_ai_provider().map(|e| e.name.as_str()), Some("openai"));
    assert!(!merged.ai_providers[1].is_default);
    assert_eq!(merged.get_default_mcp_server().map(|e| e.name.as_str()), Some("fs"));
    assert_eq!(merged.logging.level, "debug");
    assert_eq!(merged.logging.format, "pretty");

    let untouched = cli(None, None, "info").merge_with_config(config());
    assert_eq!(untouched.ai_providers, config().ai_providers);
}

#[test]
fn marking_an_unknown_name_clears_every_default() {
    let mut entries = vec![entry("a", true), entry("b", false)];
    mark_default(&mut entries, "zzz");
    assert!(entries.iter().all(|e| !e.is_default));
}

// ───────────────────────────── JSON text ─────────────────────────────

#[test]
fn tool_content_of_a_structure_is_compact_escaped_json() {
    let v = JsonValue::Object(vec![
        ("a".to_string(), JsonValue::Number("1".to_string())),
        ("b".to_string(), JsonValue::Array(vec![JsonValue::Bool(true), JsonValue::Null])),
        ("c".to_string(), JsonValue::Str("x\"y\n".to_string())),
    ]);
    let text = tool_content(&v);
    assert_eq!(text, "{\"a\":1,\"b\":[true,null],\"c\":\"x\\\"y\\n\"}");
    let back: serde_json::Value = serde_json::from_str(&text).unwrap();
    assert_eq!(back["c"], serde_json::Value::String("x\"y\n".to_string()));
}

#[test]
fn execution_answer_loses_its_code_fence() {
    assert_eq!(execution_json("```json\n{\"a\":1}\n```"), "{\"a\":1}");
    assert_eq!(execution_json("  ```json\n{}\n```  "), "{}");
    assert_eq!(execution_json("```\n{}\n```"), "{}");
    assert_eq!(execution_json("{\"x\":2}  "), "{\"x\":2}");
    // a bare fence counts only at the very start of the text
    assert_eq!(execution_json("  ```\n{}\n```"), "```\n{}\n```");
}

#[test]
fn flow_goes_through_the_four_steps() {
    let mut doc = CompletenessDoc::default();
    assert_eq!(next_flow_step(&doc, false), FlowStep::Clarify);
    assert!(!resume_executes(&doc, false));
    doc.requirement = "读取 a.txt".to_string();
    assert_eq!(next_flow_step(&doc, false), FlowStep::Execute);
    assert!(resume_executes(&doc, false));
    assert_eq!(next_flow_step(&doc, true), FlowStep::OutputSuggest);
    doc.output_schema = "text".to_string();
    assert_eq!(next_flow_step(&doc, true), FlowStep::ParamIdentify);
    doc.input_params = "path".to_string();
    assert_eq!(next_flow_step(&doc, true), FlowStep::Free);
    assert!(!resume_executes(&doc, true));
    assert_eq!(
        flow_instruction(FlowStep::Clarify),
        "[步骤 1/4：需求清晰度检测]\n请判断以上需求是否明确。若明确，整理需求并输出。"
    );
    assert_eq!(flow_instruction(FlowStep::Free), "");
}

#[test]
fn execution_is_summarised_and_recorded() {
    let out = ExecutionOutput {
        execution_result: "done".to_string(),
        key_steps: vec!["read".to_string(), "write".to_string()],
        tool_steps: vec!["read_file | a.txt | ok".to_string()],
    };
    assert_eq!(
        execution_summary(&out),
        "[步骤 2/4：执行完成]\n\n执行结果:\ndone\n\n关键步骤:\n1. read\n2. write"
    );
    let mut doc = CompletenessDoc { requirement: "r".to_string(), ..Default::default() };
    record_execution(&mut doc, &out);
    assert_eq!(doc.execution_steps, "read\nwrite");
    assert_eq!(doc.tool_paths, "read_file | a.txt | ok");
    assert_eq!(doc.requirement, "r");
    assert!(completeness_note(&doc).starts_with("[完整度文档]\n## 需求描述\nr\n"));
}

#[test]
fn execute_input_lists_what_is_known() {
    assert_eq!(
        execute_input(&CompletenessDoc::default()),
        "## 需求描述\n（未提供）\n\n请执行以上任务。"
    );
    let doc = CompletenessDoc {
        requirement: "读文件".to_string(),
        input_params: "path".to_string(),
        execution_steps: String::new(),
        tool_paths: "ignored".to_string(),
        output_schema: "text".to_string(),
    };
    assert_eq!(
        execute_input(&doc),
        "## 需求描述\n读文件\n\n## 输入参数\npath\n\n## 期望输出格式\ntext\n\n请执行以上任务。"
    );
}

#[test]
fn user_choice_is_inlined_under_the_last_assistant_text() {
    let mut messages = vec![
        Message::text(MessageRole::User, "hi"),
        Message::text(MessageRole::Assistant, "选哪个？"),
    ];
    inline_user_choice(&mut messages, "A");
    assert_eq!(
        messages[1].content,
        Some(MessageContent::Text { text: "选哪个？\n\n---\n\n**A**\n\n".to_string() })
    );
    let mut users = vec![Message::text(MessageRole::User, "hi")];
    inline_user_choice(&mut users, "A");
    assert_eq!(users, vec![Message::text(MessageRole::User, "hi")]);
    let mut empty: Vec<Message> = vec![];
    inline_user_choice(&mut empty, "A");
    assert!(empty.is_empty());
}

#[test]
fn last_assistant_reply_does_not_skip_an_empty_one() {
    let history = vec![
        Message::text(MessageRole::Assistant, "earlier"),
        Message::text(MessageRole::Assistant, ""),
        Message::text(MessageRole::User, "u"),
    ];
    assert_eq!(last_assistant_reply(&history), "");
    assert_eq!(
        planned_agent::chat::sub_agent::extract_last_assistant_text(&history),
        "earlier"
    );
    assert_eq!(last_assistant_reply(&vec![]), "");
}

#[test]
fn opening_request_appends_earlier_plans_only_when_given() {
    assert_eq!(opening_request("整理日志", None), "整理日志");
    assert_eq!(opening_request("整理日志", Some("")), "整理日志");
    assert_eq!(
        opening_request("整理日志", Some("上次按天归档")),
        "整理日志\n\n## 历史计划上下文\n上次按天归档"
    );
}

#[test]
fn conversations_open_with_prompt_request_and_document() {
    let doc = CompletenessDoc::default();
    let opening = opening_messages("系统", "整理日志", Some("上次"), &doc);
    assert_eq!(opening.len(), 3);
    assert_eq!(opening[0], Message::text(MessageRole::System, "系统"));
    assert_eq!(opening[1], Message::text(MessageRole::User, "整理日志\n\n## 历史计划上下文\n上次"));
    assert_eq!(opening[2].role, MessageRole::Assistant);
    match &opening[2].content {
        Some(MessageContent::Text { text }) => {
            assert!(text.starts_with("[完整度文档]\n## 需求描述\n（待填充）"))
        }
        other => panic!("unexpected {other:?}"),
    }
    let mut saved = CompletenessDoc::default();
    saved.requirement = "整理日志".to_string();
    let restored = restored_messages("系统", &saved);
    assert_eq!(restored[1], Message::text(MessageRole::User, "[恢复对话] 继续之前的工作。"));
    match &restored[2].content {
        Some(MessageContent::Text { text }) => assert!(text.starts_with("[完整度文档]\n## 需求描述\n整理日志\n")),
        other => panic!("unexpected {other:?}"),
    }
}
