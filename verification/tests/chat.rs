use planned_agent::chat::driver::{
    finish, when_idle, while_waiting, ConversationOutcome, DriverCommand, IdleStep, WaitStep,
};
use planned_agent::chat::history::{assistant_entry, tool_entry, History, NO_STORE_ID};
use planned_agent::chat::message::{
    ErrorType, InMemoryStore, Message, MessageContent, MessageRole, StoreMessage, ToolCall,
};
use planned_agent::chat::round::{
    backend_arguments, ui_arguments, ui_call_plan, BatchEnd, UiCallPlan, ConversationRun, ConversationStep, ConversationStage,
    after_round, calls_to_close, choice_after_answer, close_text, contains_str, continue_question,
    is_cancelled_tool, is_ui_tool, message_marks_cancelled, next_max_rounds_ui_id, partition_calls, pick_ui_strategy,
    round_message, should_close_orphan, stream_failure_text, PromptChoice, RoundNext,
    UIActionStrategy,
};
use planned_agent::chat::service::{driver_gone, wait_result, SendOutcome, ToolExecuteError};
use planned_agent::chat::stream::{ChunkDelta, StreamEmit, StreamState, ToolCallDelta, MAX_STREAM_ERRORS};
use planned_agent::chat::ui_action::{pick_ui_questions, UIOption, UIQuestion};
use planned_agent::flexible::run_service::types::SessionFilter;
use planned_agent::json::JsonValue;

fn call(id: &str, name: &str, arguments: &str) -> ToolCall {
    ToolCall { id: id.to_string(), name: name.to_string(), arguments: arguments.to_string() }
}

fn assistant(calls: Vec<ToolCall>) -> Message {
    Message {
        role: MessageRole::Assistant,
        content: None,
        tool_calls: Some(calls),
        tool_call_id: None,
        reasoning_content: None,
    }
}

fn delta(index: u32, id: Option<&str>, name: Option<&str>, args: Option<&str>) -> ToolCallDelta {
    ToolCallDelta {
        index,
        id: id.map(|s| s.to_string()),
        name: name.map(|s| s.to_string()),
        arguments: args.map(|s| s.to_string()),
    }
}

fn text_chunk(text: &str) -> ChunkDelta {
    ChunkDelta { content: Some(text.to_string()), reasoning_content: None, tool_calls: None }
}

fn tools_chunk(deltas: Vec<ToolCallDelta>) -> ChunkDelta {
    ChunkDelta { content: None, reasoning_content: None, tool_calls: Some(deltas) }
}

// ───────────────────────────── error classification ─────────────────────────────

#[test]
fn error_type_reads_database_codes() {
    assert_eq!(ErrorType::from_i32(0), ErrorType::NoError);
    assert_eq!(ErrorType::from_i32(1), ErrorType::ExecutionError);
    assert_eq!(ErrorType::from_i32(2), ErrorType::Cancelled);
    assert_eq!(ErrorType::from_i32(7), ErrorType::NoError, "unknown codes read as no error");
    assert_eq!(ErrorType::from_i32(-1), ErrorType::NoError);
}

#[test]
fn error_type_round_trips_through_its_code() {
    for e in [ErrorType::NoError, ErrorType::ExecutionError, ErrorType::Cancelled] {
        assert_eq!(ErrorType::from_i32(e.to_i32()), e);
    }
    assert_eq!(ErrorType::Cancelled.to_i32(), 2);
}

// ───────────────────────────── history ─────────────────────────────

#[test]
fn history_restores_loaded_messages_unstored() {
    let loaded = vec![
        StoreMessage::normal(Message::text(MessageRole::User, "hi")),
        StoreMessage::normal(Message::text(MessageRole::Assistant, "hello")),
    ];
    let h = History::new(loaded.clone());
    assert_eq!(h.entries.len(), 2);
    assert!(h.entries.iter().all(|(id, _)| id == NO_STORE_ID));
    assert_eq!(h.snapshot_store(), loaded);
    assert_eq!(h.snapshot()[1], Message::text(MessageRole::Assistant, "hello"));
}

#[test]
fn system_prompt_goes_first() {
    let mut h = History::new(vec![StoreMessage::normal(Message::text(MessageRole::User, "hi"))]);
    assert!(!h.first_is_system());
    h.push_front_system("be brief");
    assert!(h.first_is_system());
    assert_eq!(h.snapshot()[0], Message::text(MessageRole::System, "be brief"));
    assert_eq!(h.snapshot()[1], Message::text(MessageRole::User, "hi"));
    h.clear();
    assert!(h.snapshot().is_empty());
    assert!(!h.first_is_system());
}

#[test]
fn pending_ui_call_is_the_last_one_asked() {
    let mut h = History::new(vec![]);
    assert_eq!(h.find_pending_ui_tool_call_id(), None);
    h.push(
        "m1".to_string(),
        StoreMessage::normal(assistant(vec![call("c1", "request_user_action", "{}")])),
    );
    h.push("m2".to_string(), StoreMessage::normal(Message::tool_result("c1", "ok")));
    h.push(
        "m3".to_string(),
        StoreMessage::normal(assistant(vec![
            call("c2", "read_file", "{}"),
            call("c3", "request_user_action", "{}"),
        ])),
    );
    assert_eq!(h.find_pending_ui_tool_call_id(), Some("m3".to_string()));
    assert_eq!(h.find_pending_tool_call_id(), Some("c3".to_string()));
}

#[test]
fn cancelled_result_is_only_written_once() {
    let mut h = History::new(vec![]);
    h.push("m1".to_string(), StoreMessage::normal(assistant(vec![call("c1", "t", "{}")])));
    assert!(!h.has_result_for("c1"));
    let closing = h.cancelled_tool_message("c1", "任务被中断").unwrap();
    assert_eq!(closing.is_error_type, ErrorType::Cancelled);
    assert_eq!(closing.message, Message::tool_result("c1", "任务被中断"));
    h.push("m2".to_string(), closing);
    assert!(h.has_result_for("c1"));
    assert!(h.cancelled_tool_message("c1", "again").is_none());
}

// ───────────────────────────── streaming ─────────────────────────────

#[test]
fn text_and_reasoning_deltas_are_sent_on() {
    let mut s = StreamState::new();
    let out = s.take_chunk(&vec![
        ChunkDelta {
            content: Some("Hel".to_string()),
            reasoning_content: Some("think".to_string()),
            tool_calls: None,
        },
        text_chunk(""),
        text_chunk("lo"),
    ]);
    assert_eq!(
        out,
        vec![
            StreamEmit::TextDelta("Hel".to_string()),
            StreamEmit::ReasoningDelta("think".to_string()),
            StreamEmit::TextDelta("lo".to_string()),
        ]
    );
    assert_eq!(s.text, "Hello");
    assert_eq!(s.reasoning, "think");
    assert!(s.has_content && s.has_reasoning);
}

#[test]
fn tool_call_pieces_are_held_until_start() {
    let mut s = StreamState::new();
    // arguments before the id are kept but not sent on
    let out = s.take_chunk(&vec![tools_chunk(vec![delta(0, None, None, Some("{\"a\""))])]);
    assert!(out.is_empty());
    // id known, name not yet: pieces are held back
    let out = s.take_chunk(&vec![tools_chunk(vec![delta(0, Some("c1"), None, Some(":1"))])]);
    assert!(out.is_empty());
    // name arrives: start, then the held piece
    let out = s.take_chunk(&vec![tools_chunk(vec![delta(0, None, Some("read"), Some("}"))])]);
    assert_eq!(
        out,
        vec![
            StreamEmit::ToolCallStart { id: "c1".to_string(), name: "read".to_string() },
            StreamEmit::ToolCallArgsDelta { id: "c1".to_string(), delta: ":1".to_string() },
            StreamEmit::ToolCallArgsDelta { id: "c1".to_string(), delta: "}".to_string() },
        ]
    );
    let calls = s.tool_calls();
    assert_eq!(calls, vec![call("c1", "read", "{\"a\":1}")]);
}

#[test]
fn tool_calls_come_out_in_index_order() {
    let mut s = StreamState::new();
    s.take_chunk(&vec![tools_chunk(vec![
        delta(2, Some("b"), Some("second"), Some("{}")),
        delta(0, Some("a"), Some("first"), Some("{}")),
        delta(1, None, Some("no_id"), None),
    ])]);
    let ids: Vec<String> = s.tool_calls().into_iter().map(|c| c.id).collect();
    assert_eq!(ids, vec!["a".to_string(), "b".to_string()], "calls without an id are dropped");
}

#[test]
fn stream_errors_stop_after_the_limit() {
    let mut s = StreamState::new();
    for n in 1..MAX_STREAM_ERRORS {
        assert!(!s.process_stream_error("boom", MAX_STREAM_ERRORS));
        assert_eq!(s.consecutive_errors, n);
    }
    assert!(s.process_stream_error("boom", MAX_STREAM_ERRORS));
    assert_eq!(s.last_error, "Stream chunk error (5/5): boom");
    // a chunk ends the run of errors
    s.take_chunk(&vec![]);
    assert_eq!(s.consecutive_errors, 0);
}

#[test]
fn stream_failure_is_reported_only_without_output() {
    let mut s = StreamState::new();
    assert_eq!(stream_failure_text(&s, 0), None);
    s.process_stream_error("down", 5);
    assert_eq!(stream_failure_text(&s, 0), Some("Error: Stream chunk error (1/5): down".to_string()));
    assert_eq!(stream_failure_text(&s, 1), None);
    s.take_chunk(&vec![text_chunk("x")]);
    assert_eq!(stream_failure_text(&s, 0), None);
}

// ───────────────────────────── rounds ─────────────────────────────

#[test]
fn round_message_skips_empty_replies() {
    assert_eq!(round_message(StreamState::new(), &vec![]), None);
    let mut s = StreamState::new();
    s.take_chunk(&vec![text_chunk("done")]);
    let m = round_message(s, &vec![]).unwrap();
    assert_eq!(m.role, MessageRole::Assistant);
    assert_eq!(m.content, Some(MessageContent::Text { text: "done".to_string() }));
    assert_eq!(m.tool_calls, None);
    let m = round_message(StreamState::new(), &vec![call("c", "t", "{}")]).unwrap();
    assert_eq!(m.content, None);
    assert_eq!(m.tool_calls, Some(vec![call("c", "t", "{}")]));
}

#[test]
fn round_decisions() {
    assert_eq!(after_round(0, 1, 3), RoundNext::Finish);
    assert_eq!(after_round(2, 1, 3), RoundNext::RunTools);
    assert_eq!(after_round(2, 3, 3), RoundNext::AskContinue);
    assert_eq!(pick_ui_strategy(&None), UIActionStrategy::BlockAndConfirm);
    assert_eq!(pick_ui_strategy(&Some("r".to_string())), UIActionStrategy::EmitAndSuspend);
}

#[test]
fn interface_calls_are_split_off() {
    assert!(is_ui_tool("request_user_action"));
    assert!(!is_ui_tool("read_file"));
    let (ui, backend) = partition_calls(vec![
        call("1", "read_file", "{}"),
        call("2", "request_user_action", "{}"),
        call("3", "write_file", "{}"),
    ]);
    assert_eq!(ui, vec![call("2", "request_user_action", "{}")]);
    assert_eq!(backend, vec![call("1", "read_file", "{}"), call("3", "write_file", "{}")]);
}

#[test]
fn round_limit_question_texts() {
    let (message, questions) = continue_question(10);
    assert_eq!(message, "已达最大轮次上限（10 轮）。任务可能未完成，是否继续执行？");
    assert_eq!(questions.len(), 1);
    assert_eq!(questions[0].question, "对话已连续调用工具 10 轮，达到轮次上限。任务可能未完成，是否继续执行？");
    assert_eq!(questions[0].options[0].value.as_deref(), Some("continue"));
    assert_eq!(questions[0].options[1].value.as_deref(), Some("stop"));
    assert_eq!(next_max_rounds_ui_id(3), "max_rounds_continue_3");
}

#[test]
fn answers_that_mention_continue_go_on() {
    assert_eq!(choice_after_answer(Some("continue")), PromptChoice::Continue);
    assert_eq!(choice_after_answer(Some("{\"value\":\"continue\"}")), PromptChoice::Continue);
    assert_eq!(choice_after_answer(Some("stop")), PromptChoice::Stop);
    assert_eq!(choice_after_answer(None), PromptChoice::Stop);
    assert!(contains_str("abc", ""));
    assert!(!contains_str("ab", "abc"));
}

#[test]
fn interrupted_calls_are_closed() {
    let last = assistant(vec![call("1", "a", "{}"), call("2", "b", "{}")]);
    assert_eq!(calls_to_close(Some(&last)).len(), 2);
    assert!(calls_to_close(Some(&Message::text(MessageRole::User, "x"))).is_empty());
    assert!(calls_to_close(None).is_empty());

    assert!(should_close_orphan(Some(&Message::text(MessageRole::User, "x")), false));
    assert!(should_close_orphan(Some(&Message::tool_result("1", "r")), false));
    assert!(!should_close_orphan(Some(&Message::tool_result("1", "r")), true));
    assert!(!should_close_orphan(Some(&last), false));
    assert!(!should_close_orphan(None, false));

    assert_eq!(close_text(&None), "Output interrupt");
    assert_eq!(close_text(&Some("Error: x".to_string())), "Error: x");
}

#[test]
fn cancelled_tool_results_are_recognised() {
    let cancelled = JsonValue::Object(vec![("cancelled".to_string(), JsonValue::Bool(true))]);
    let not = JsonValue::Object(vec![("cancelled".to_string(), JsonValue::Bool(false))]);
    assert!(is_cancelled_tool(&Some(cancelled)));
    assert!(!is_cancelled_tool(&Some(not)));
    assert!(!is_cancelled_tool(&Some(JsonValue::Str("cancelled".to_string()))));
    assert!(!is_cancelled_tool(&None));
}

// ───────────────────────────── service ─────────────────────────────

#[test]
fn waiting_reports_only_failures() {
    assert_eq!(wait_result(SendOutcome::Completed), Ok(()));
    assert_eq!(wait_result(SendOutcome::Suspended { run_id: "r".to_string() }), Ok(()));
    assert_eq!(wait_result(SendOutcome::Failed("x".to_string())), Err("x".to_string()));
    assert_eq!(wait_result(driver_gone()), Err("chat driver 已退出，未收到完成信号".to_string()));
}

#[test]
fn tool_execute_error_flags() {
    let e = ToolExecuteError::build("stopped").set_cancelled(true);
    assert!(e.cancelled && !e.error);
    assert_eq!(e.message, "stopped");
    let e = e.set_error(true);
    assert!(e.cancelled && e.error);
}

#[test]
fn session_filter_matches() {
    assert!(SessionFilter::All.matches("any"));
    assert!(SessionFilter::One("s1".to_string()).matches("s1"));
    assert!(!SessionFilter::One("s1".to_string()).matches("s2"));
}

fn question(header: &str, text: &str) -> UIQuestion {
    UIQuestion {
        header: header.to_string(),
        question: text.to_string(),
        options: vec![UIOption { label: "ok".to_string(), description: None, value: None }],
        multi: false,
        allow_input: true,
    }
}

#[test]
fn card_questions_are_capped_deduplicated_and_headed() {
    let picked = pick_ui_questions(vec![
        Some(question("  ", "请选择路径 abc")),
        None,
        Some(question("A", "first A")),
        Some(question("A", "second A")),
        Some(question("B", "b")),
        Some(question("C", "c")),
    ]);
    let headers: Vec<&str> = picked.iter().map(|q| q.header.as_str()).collect();
    assert_eq!(headers, vec!["请选择路径 ", "A", "B"], "four taken, the repeated header dropped, C never read");
    assert_eq!(picked[1].question, "first A");
    assert!(picked[0].allow_input);
    assert!(pick_ui_questions(vec![None, None]).is_empty());
}

#[test]
fn assistant_entries_mark_sub_agent_calls() {
    let agents = vec!["research_agent".to_string()];
    let plain = assistant_entry(assistant(vec![call("1", "read_file", "{}")]), &agents);
    assert!(!plain.is_agent_tool);
    assert_eq!(plain.is_error_type, ErrorType::NoError);
    let sub = assistant_entry(
        assistant(vec![call("1", "read_file", "{}"), call("2", "research_agent", "{}")]),
        &agents,
    );
    assert!(sub.is_agent_tool);
    assert!(!assistant_entry(Message::text(MessageRole::Assistant, "hi"), &agents).is_agent_tool);
}

#[test]
fn tool_entries_store_the_result_as_compact_json() {
    let result = JsonValue::Object(vec![
        ("ok".to_string(), JsonValue::Bool(true)),
        ("lines".to_string(), JsonValue::Array(vec![JsonValue::Number("3".to_string())])),
    ]);
    let entry = tool_entry("call_1", &result, ErrorType::ExecutionError);
    assert_eq!(entry.is_error_type, ErrorType::ExecutionError);
    assert!(!entry.is_agent_tool);
    assert_eq!(entry.message.role, MessageRole::Tool);
    assert_eq!(entry.message.tool_call_id.as_deref(), Some("call_1"));
    match &entry.message.content {
        Some(MessageContent::ToolResult { tool_call_id, content }) => {
            assert_eq!(tool_call_id, "call_1");
            let back: serde_json::Value = serde_json::from_str(content).unwrap();
            let expected: serde_json::Value = serde_json::from_str(r#"{"ok": true, "lines": [3]}"#).unwrap();
            assert_eq!(back, expected);
            assert!(!content.contains(' '));
        }
        other => panic!("unexpected content {other:?}"),
    }
    let text = tool_entry("c", &JsonValue::Str("done".to_string()), ErrorType::NoError);
    assert!(matches!(
        &text.message.content,
        Some(MessageContent::ToolResult { content, .. }) if content == "\"done\""
    ));
}

#[test]
fn cancelled_results_are_read_from_their_json() {
    assert!(message_marks_cancelled(&Message::tool_result("1", r#"{"cancelled": true, "message": "x"}"#)));
    assert!(!message_marks_cancelled(&Message::tool_result("1", r#"{"cancelled": false}"#)));
    assert!(!message_marks_cancelled(&Message::tool_result("1", "任务被中断")));
    assert!(!message_marks_cancelled(&Message::text(MessageRole::Assistant, r#"{"cancelled": true}"#)));
}

#[test]
fn a_started_call_is_never_started_again() {
    let mut s = StreamState::new();
    let out = s.take_chunk(&vec![tools_chunk(vec![delta(0, Some("c1"), Some("read"), None)])]);
    assert_eq!(out, vec![StreamEmit::ToolCallStart { id: "c1".to_string(), name: "read".to_string() }]);
    let out = s.take_chunk(&vec![tools_chunk(vec![delta(0, Some("other"), Some("write"), Some("{}"))])]);
    assert_eq!(
        out,
        vec![StreamEmit::ToolCallArgsDelta { id: "c1".to_string(), delta: "{}".to_string() }],
        "id and name keep their first values; only the piece goes out"
    );
    assert_eq!(s.tool_calls(), vec![call("c1", "read", "{}")]);
}

// ───────────────────────────── driver ─────────────────────────────

fn confirm(id: &str, choice: &str, action: &str) -> DriverCommand {
    DriverCommand::Confirm {
        tool_call_id: id.to_string(),
        choice: choice.to_string(),
        action_id: action.to_string(),
    }
}

#[test]
fn idle_driver_starts_clears_and_ignores_answers() {
    let history = History::new(vec![]);
    assert!(matches!(when_idle(&DriverCommand::Send, &history), IdleStep::Start));
    assert!(matches!(when_idle(&DriverCommand::Reset, &history), IdleStep::ClearHistory));
    match when_idle(&confirm("c1", "yes", "a1"), &history) {
        IdleStep::Ignore(text) => assert_eq!(
            text,
            "confirm_user_action: 当前没有等待中的 UI 交互 （tool_call_id=c1, choice=yes, action_id=a1），已忽略"
        ),
        other => panic!("unexpected {other:?}"),
    }
}

#[test]
fn resume_without_a_suspended_card_is_refused() {
    let mut history = History::new(vec![]);
    history.push("s1".to_string(), StoreMessage::normal(assistant(vec![call("1", "read_file", "{}")])));
    let resume = DriverCommand::Resume { choice: "继续".to_string(), action_id: "go".to_string() };
    match when_idle(&resume, &history) {
        IdleStep::RefuseResume(text) => {
            assert_eq!(text, "resume: 历史中无挂起的 request_user_action，无法继续")
        }
        other => panic!("unexpected {other:?}"),
    }
}

#[test]
fn resume_answers_the_last_suspended_card() {
    let mut history = History::new(vec![]);
    history.push("s1".to_string(), StoreMessage::normal(assistant(vec![call("old", "request_user_action", "{}")])));
    history.push(
        "s2".to_string(),
        StoreMessage::normal(assistant(vec![call("x", "read_file", "{}"), call("ui_9", "request_user_action", "{}")])),
    );
    let resume = DriverCommand::Resume { choice: "继续".to_string(), action_id: "go".to_string() };
    match when_idle(&resume, &history) {
        IdleStep::Resume { store_id, answer } => {
            assert_eq!(store_id, "s2");
            assert_eq!(answer.is_error_type, ErrorType::NoError);
            assert_eq!(answer.message.role, MessageRole::Tool);
            assert_eq!(answer.message.tool_call_id.as_deref(), Some("ui_9"));
            match &answer.message.content {
                Some(MessageContent::ToolResult { tool_call_id, content }) => {
                    assert_eq!(tool_call_id, "ui_9");
                    let v: serde_json::Value = serde_json::from_str(content).unwrap();
                    assert_eq!(v["choice"], serde_json::Value::String("继续".to_string()));
                    assert_eq!(v["action_id"], serde_json::Value::String("go".to_string()));
                }
                other => panic!("unexpected content {other:?}"),
            }
        }
        other => panic!("unexpected {other:?}"),
    }
}

#[test]
fn waiting_driver_takes_only_the_awaited_answer() {
    assert_eq!(while_waiting("ui_1", &confirm("ui_1", "yes", "a")), WaitStep::Answer);
    assert_eq!(
        while_waiting("ui_1", &confirm("ui_2", "yes", "a")),
        WaitStep::Ignore("confirm_user_action: tool_call_id 不匹配（期望 ui_1，实际 ui_2），已忽略".to_string())
    );
    assert_eq!(while_waiting("ui_1", &DriverCommand::Send), WaitStep::Defer);
    assert_eq!(while_waiting("ui_1", &DriverCommand::Reset), WaitStep::Defer);
}

#[test]
fn finished_conversations_are_reported() {
    let done = finish(Ok(ConversationOutcome::Completed), true);
    assert_eq!(done.outcome, SendOutcome::Completed);
    assert_eq!(done.done, Some(true));
    assert!(!done.close_calls && done.close_with.is_none() && done.error.is_none());

    let parked = finish(Ok(ConversationOutcome::Suspended { run_id: "r1".to_string() }), false);
    assert_eq!(parked.outcome, SendOutcome::Suspended { run_id: "r1".to_string() });
    assert_eq!(parked.done, None);

    let failed = finish(Err("模型请求失败".to_string()), false);
    assert_eq!(failed.outcome, SendOutcome::Failed("模型请求失败".to_string()));
    assert_eq!(failed.done, None);
    assert!(!failed.close_calls);
    assert_eq!(failed.close_with.as_deref(), Some("Error: 模型请求失败"));
    assert_eq!(failed.error.as_deref(), Some("模型请求失败"));
    assert!(finish(Err("x".to_string()), true).close_calls);
}

// ───────────────────────────── conversation machine ─────────────────────────────

#[test]
fn conversation_runs_rounds_until_a_reply_without_calls() {
    let mut run = ConversationRun::new(3);
    assert!(matches!(run.begin(false, None), ConversationStep::Request { round: 1 }));
    match run.replied(true, vec![call("1", "read_file", "{}")], None) {
        ConversationStep::RunBatch(calls) => assert_eq!(calls.len(), 1),
        other => panic!("unexpected {other:?}"),
    }
    assert_eq!(run.batch_done(BatchEnd::Continue), None);
    assert_eq!(run.round, 2);
    assert!(matches!(run.begin(false, None), ConversationStep::Request { round: 2 }));
    match run.replied(true, vec![], None) {
        ConversationStep::Close { text } => assert_eq!(text, "Output interrupt"),
        other => panic!("unexpected {other:?}"),
    }
    assert_eq!(run.stage, ConversationStage::Over);
}

#[test]
fn an_empty_reply_closes_with_the_stream_error() {
    let mut run = ConversationRun::new(3);
    run.begin(false, None);
    match run.replied(false, vec![], Some("Error: 连接中断".to_string())) {
        ConversationStep::Close { text } => assert_eq!(text, "Error: 连接中断"),
        other => panic!("unexpected {other:?}"),
    }
}

#[test]
fn the_round_limit_asks_then_runs_the_held_back_batch_or_suspends() {
    let mut run = ConversationRun::new(1);
    run.begin(false, None);
    assert!(matches!(run.replied(true, vec![call("a", "read_file", "{}")], None), ConversationStep::AskContinue));
    match run.answered(PromptChoice::Continue) {
        ConversationStep::RunBatch(calls) => assert_eq!(calls[0].id, "a"),
        other => panic!("unexpected {other:?}"),
    }

    let mut sub = ConversationRun::new(1);
    sub.begin(false, None);
    sub.replied(true, vec![call("b", "read_file", "{}")], None);
    let replay = match sub.answered(PromptChoice::Suspend { run_id: "r1".to_string() }) {
        ConversationStep::Suspend { run_id, replay } => {
            assert_eq!(run_id, "r1");
            replay
        }
        other => panic!("unexpected {other:?}"),
    };
    let mut resumed = ConversationRun::new(1);
    match resumed.begin(false, Some(replay)) {
        ConversationStep::RunBatch(calls) => assert_eq!(calls[0].id, "b"),
        other => panic!("unexpected {other:?}"),
    }

    let mut stop = ConversationRun::new(1);
    stop.begin(false, None);
    stop.replied(true, vec![call("c", "read_file", "{}")], None);
    assert!(matches!(stop.answered(PromptChoice::Stop), ConversationStep::Close { .. }));
}

#[test]
fn cancelled_conversations_close_and_batches_end_them() {
    let mut run = ConversationRun::new(5);
    assert!(matches!(run.begin(true, None), ConversationStep::Close { .. }));
    let mut run = ConversationRun::new(5);
    run.begin(false, None);
    run.replied(true, vec![call("1", "request_user_action", "{}")], None);
    assert_eq!(
        run.batch_done(BatchEnd::Suspended { run_id: "r".to_string() }),
        Some(planned_agent::chat::driver::ConversationOutcome::Suspended { run_id: "r".to_string() })
    );
}

#[test]
fn call_arguments_fall_back_as_each_kind_of_call_needs() {
    assert_eq!(backend_arguments("not json"), JsonValue::Str("not json".to_string()));
    assert_eq!(ui_arguments("not json"), JsonValue::Null);
    assert_eq!(
        ui_arguments(r#"{"message":"m"}"#),
        JsonValue::Object(vec![("message".to_string(), JsonValue::Str("m".to_string()))])
    );
    assert_eq!(
        backend_arguments(r#"{"path":"a.txt"}"#),
        JsonValue::Object(vec![("path".to_string(), JsonValue::Str("a.txt".to_string()))])
    );
}

#[test]
fn interface_calls_without_questions_are_invalid_else_asked_or_suspended() {
    let base = "request_user_action 未携带任何可交互的 questions（工具参数可能因流式解析失败而丢失）";
    assert_eq!(
        ui_call_plan(0, UIActionStrategy::BlockAndConfirm, &None, ""),
        UiCallPlan::Invalid { reason: base.to_string() }
    );
    assert_eq!(
        ui_call_plan(0, UIActionStrategy::EmitAndSuspend, &None, "断流"),
        UiCallPlan::Invalid { reason: format!("{base}：断流") }
    );
    assert_eq!(ui_call_plan(2, UIActionStrategy::BlockAndConfirm, &None, ""), UiCallPlan::Ask);
    assert_eq!(
        ui_call_plan(1, UIActionStrategy::EmitAndSuspend, &Some("r9".to_string()), ""),
        UiCallPlan::Suspend { run_id: "r9".to_string() }
    );
}

#[test]
fn memory_store_hands_out_distinct_ids() {
    let mut store = InMemoryStore::new();
    assert!(store.load().is_empty());
    let m = StoreMessage::normal(Message::text(MessageRole::User, "你好"));
    let ids: Vec<String> = (0..12).map(|_| store.append(&m)).collect();
    assert_eq!(ids[0], "0");
    assert_eq!(ids[1], "1");
    assert_eq!(ids[11], "11");
    for i in 0..ids.len() {
        for j in (i + 1)..ids.len() {
            assert_ne!(ids[i], ids[j], "ids must be unique");
        }
    }
    assert!(store.load().is_empty(), "the memory store keeps no message");
    let mut fresh = InMemoryStore::default();
    assert_eq!(fresh.append(&m), "0");
}
