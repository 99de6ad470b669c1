//! The decisions of a chat round: what a streamed reply becomes, whether the
//! conversation goes on, the round-limit question, and how an interrupted
//! conversation is closed so that the history stays valid.

use vstd::prelude::*;

use crate::chat::message::{Message, MessageContent, MessageRole, MessageView, ContentView, ToolCall, call_views, copy_calls};
use crate::chat::stream::{collected_calls, StreamState};
use crate::chat::ui_action::{UIOption, UIQuestion};
use crate::json::{json_parse, lemma_member_view, member, opt_json_view, parse_json, view_member, JsonValue, JsonView};
use crate::text::{decimal, decimal_text, opt_text};

verus! {

/// How interface actions are handled.
#[derive(Debug, Clone, Copy, PartialEq, Eq, Structural)]
pub enum UIActionStrategy {
    /// Wait in place for the user's answer (the main agent).
    BlockAndConfirm,
    /// Send the request on and suspend (a sub-agent, whose parent asks the user).
    EmitAndSuspend,
}

/// The strategy of a conversation: a sub-agent (one with a run id) suspends.
pub fn pick_ui_strategy(run_id: &Option<String>) -> (s: UIActionStrategy)
    ensures
        s == if run_id is Some { UIActionStrategy::EmitAndSuspend } else { UIActionStrategy::BlockAndConfirm },
{
    if run_id.is_some() {
        UIActionStrategy::EmitAndSuspend
    } else {
        UIActionStrategy::BlockAndConfirm
    }
}

/// The error text of a reply lost to stream errors: reported only when errors
/// ended the stream and nothing (neither text nor a tool call) came.
pub fn stream_failure_text(state: &StreamState, call_count: usize) -> (r: Option<String>)
    ensures
        (state.consecutive_errors > 0 && !state.has_content && call_count == 0) ==> (r matches Some(t)
            && t@ == "Error: "@ + state.last_error@),
        !(state.consecutive_errors > 0 && !state.has_content && call_count == 0) ==> r is None,
{
    if state.consecutive_errors > 0 && !state.has_content && call_count == 0 {
        let mut t = "Error: ".to_owned();
        t.append(state.last_error.as_str());
        Some(t)
    } else {
        None
    }
}

/// The assistant message a reply gives: its text when some came, its tool
/// calls when there are any, its reasoning when some came; `None` (the
/// message is skipped) when it has neither text nor tool calls.
pub fn round_message(state: StreamState, calls: &Vec<ToolCall>) -> (r: Option<Message>)
    ensures
        (!state.has_content && calls@.len() == 0) ==> r is None,
        !(!state.has_content && calls@.len() == 0) ==> (r matches Some(m) && m@ == (MessageView {
            role: MessageRole::Assistant,
            content: if state.has_content { Some(ContentView::Text(state.text@)) } else { None },
            tool_calls: if calls@.len() > 0 { Some(call_views(calls@)) } else { None },
            tool_call_id: None,
            reasoning_content: if state.has_reasoning { Some(state.reasoning@) } else { None },
        })),
{
    if !state.has_content && calls.len() == 0 {
        return None;
    }
    let StreamState { text, reasoning, has_content, has_reasoning, .. } = state;
    Some(Message {
        role: MessageRole::Assistant,
        content: if has_content {
            Some(MessageContent::Text { text })
        } else {
            None
        },
        tool_calls: if calls.len() > 0 {
            Some(copy_calls(calls))
        } else {
            None
        },
        tool_call_id: None,
        reasoning_content: if has_reasoning {
            Some(reasoning)
        } else {
            None
        },
    })
}

/// What follows a round whose reply was recorded.
#[derive(Debug, Clone, Copy, PartialEq, Eq, Structural)]
pub enum RoundNext {
    /// No tool call: the conversation is over.
    Finish,
    /// The round limit is reached: ask the user whether to go on.
    AskContinue,
    /// Run the tool calls and start the next round.
    RunTools,
}

/// Decides what follows round `round` (from 1).
pub fn after_round(call_count: usize, round: usize, max_rounds: usize) -> (n: RoundNext)
    ensures
        call_count == 0 ==> n == RoundNext::Finish,
        call_count > 0 && round >= max_rounds ==> n == RoundNext::AskContinue,
        call_count > 0 && round < max_rounds ==> n == RoundNext::RunTools,
{
    if call_count == 0 {
        RoundNext::Finish
    } else if round >= max_rounds {
        RoundNext::AskContinue
    } else {
        RoundNext::RunTools
    }
}

/// Whether a tool is an interface tool (handled by asking the user).
pub fn is_ui_tool(name: &str) -> (b: bool)
    ensures
        b == (name@ == crate::chat::tools::UI_TOOL_NAME@),
{
    let n = name.to_owned();
    let ui = "request_user_action".to_owned();
    proof {
        assert(crate::chat::tools::UI_TOOL_NAME@ == "request_user_action"@);
    }
    n == ui
}

/// The calls of a batch whose tool is (`ui`) or is not the interface tool, in batch order.
pub open spec fn calls_where(calls: Seq<ToolCall>, ui: bool) -> Seq<ToolCall>
    decreases calls.len(),
{
    if calls.len() == 0 {
        Seq::empty()
    } else {
        let rest = calls_where(calls.drop_last(), ui);
        if (calls.last().name@ == "request_user_action"@) == ui {
            rest.push(calls.last())
        } else {
            rest
        }
    }
}

/// Splits a batch into its interface calls and its other calls (backend
/// calls run first, then the interface calls).
pub fn partition_calls(calls: Vec<ToolCall>) -> (r: (Vec<ToolCall>, Vec<ToolCall>))
    ensures
        r.0@ == calls_where(calls@, true),
        r.1@ == calls_where(calls@, false),
{
    let ghost all = calls@;
    let mut ui: Vec<ToolCall> = Vec::new();
    let mut backend: Vec<ToolCall> = Vec::new();
    let mut rest = calls;
    let n = rest.len();
    let mut i: usize = 0;
    while i < n
        invariant
            n == all.len(),
            i <= n,
            rest@ == all.skip(i as int),
            ui@ == calls_where(all.take(i as int), true),
            backend@ == calls_where(all.take(i as int), false),
        decreases n - i,
    {
        let c = rest.remove(0);
        proof {
            assert(all.skip(i as int)[0] == c);
            assert(c == all[i as int]);
            assert(rest@ =~= all.skip(i + 1));
            assert(all.take(i + 1).drop_last() =~= all.take(i as int));
            assert(all.take(i + 1).last() == c);
        }
        if is_ui_tool(c.name.as_str()) {
            ui.push(c);
        } else {
            backend.push(c);
        }
        i = i + 1;
    }
    proof {
        assert(all.take(n as int) =~= all);
    }
    (ui, backend)
}

/// The message of the round-limit question card.
pub open spec fn continue_message(max_rounds: usize) -> Seq<char> {
    "已达最大轮次上限（"@ + decimal(max_rounds as nat) + " 轮）。任务可能未完成，是否继续执行？"@
}

/// The text of the round-limit question.
pub open spec fn continue_question_text(max_rounds: usize) -> Seq<char> {
    "对话已连续调用工具 "@ + decimal(max_rounds as nat) + " 轮，达到轮次上限。任务可能未完成，是否继续执行？"@
}

/// The round-limit question card: its message, and one question with the
/// options to go on (`continue`) or to end (`stop`).
pub fn continue_question(max_rounds: usize) -> (r: (String, Vec<UIQuestion>))
    ensures
        r.0@ == continue_message(max_rounds),
        r.1@.len() == 1,
        r.1@[0].header@ == "继续？"@,
        r.1@[0].question@ == continue_question_text(max_rounds),
        r.1@[0].options@.len() == 2,
        r.1@[0].options@[0].label@ == "继续执行"@,
        r.1@[0].options@[0].description is None,
        opt_text(r.1@[0].options@[0].value) == Some("continue"@),
        r.1@[0].options@[1].label@ == "结束"@,
        opt_text(r.1@[0].options@[1].description) == Some("停止当前任务"@),
        opt_text(r.1@[0].options@[1].value) == Some("stop"@),
        !r.1@[0].multi,
        !r.1@[0].allow_input,
{
    let n = decimal_text(max_rounds as u64);
    let mut question = "对话已连续调用工具 ".to_owned();
    question.append(n.as_str());
    question.append(" 轮，达到轮次上限。任务可能未完成，是否继续执行？");
    let mut options: Vec<UIOption> = Vec::new();
    options.push(UIOption {
        label: "继续执行".to_owned(),
        description: None,
        value: Some("continue".to_owned()),
    });
    options.push(UIOption {
        label: "结束".to_owned(),
        description: Some("停止当前任务".to_owned()),
        value: Some("stop".to_owned()),
    });
    let mut questions: Vec<UIQuestion> = Vec::new();
    questions.push(UIQuestion {
        header: "继续？".to_owned(),
        question,
        options,
        multi: false,
        allow_input: false,
    });
    let mut message = "已达最大轮次上限（".to_owned();
    message.append(n.as_str());
    message.append(" 轮）。任务可能未完成，是否继续执行？");
    (message, questions)
}

/// The call id of the `seq`-th round-limit question (distinct for every time
/// the limit is reached).
pub fn next_max_rounds_ui_id(seq: u64) -> (id: String)
    ensures
        id@ == "max_rounds_continue_"@ + decimal(seq as nat),
{
    let mut id = "max_rounds_continue_".to_owned();
    id.append(decimal_text(seq).as_str());
    id
}

/// What happens after the round-limit question.
#[derive(Debug, Clone, PartialEq, Eq)]
pub enum PromptChoice {
    /// Run the batch that was held back (no new model request).
    Continue,
    /// Close the batch and end the conversation.
    Stop,
    /// A sub-agent suspends until its parent's user answers.
    Suspend { run_id: String },
}

/// Whether `needle` occurs in `hay`.
pub open spec fn has_sub(hay: Seq<char>, needle: Seq<char>) -> bool {
    exists|i: int| 0 <= i && i + needle.len() <= hay.len() && #[trigger] hay.subrange(i, i + needle.len()) == needle
}

/// Whether `needle` occurs in `hay`.
pub fn contains_str(hay: &str, needle: &str) -> (b: bool)
    ensures
        b == has_sub(hay@, needle@),
{
    let n = hay.unicode_len();
    let m = needle.unicode_len();
    if m > n {
        proof {
            assert forall|i: int| 0 <= i && i + needle@.len() <= hay@.len() implies #[trigger] hay@.subrange(i, i + needle@.len()) != needle@ by {}
        }
        return false;
    }
    if m == 0 {
        proof {
            assert(hay@.subrange(0int, 0int + needle@.len()) =~= needle@);
            assert(has_sub(hay@, needle@));
        }
        return true;
    }
    let target = needle.to_owned();
    let mut i: usize = 0;
    while i <= n - m
        invariant
            n == hay@.len(),
            m == needle@.len(),
            1 <= m <= n,
            target@ == needle@,
            i <= n - m + 1,
            forall|k: int| 0 <= k < i ==> #[trigger] hay@.subrange(k, k + m) != needle@,
        decreases n - i + 1,
    {
        let piece = hay.substring_char(i, i + m).to_owned();
        if piece == target {
            proof {
                assert(hay@.subrange(i as int, i + m) == needle@);
            }
            return true;
        }
        i = i + 1;
    }
    false
}

/// The choice after the user answered the round-limit question (`None`: the
/// question was cancelled): an answer that mentions `continue` goes on.
pub fn choice_after_answer(answer: Option<&str>) -> (c: PromptChoice)
    ensures
        match answer {
            Some(a) => c == if has_sub(a@, "continue"@) { PromptChoice::Continue } else { PromptChoice::Stop },
            None => c == PromptChoice::Stop,
        },
{
    match answer {
        Some(a) => {
            if contains_str(a, "continue") {
                PromptChoice::Continue
            } else {
                PromptChoice::Stop
            }
        },
        None => PromptChoice::Stop,
    }
}

/// Result text of calls closed because the conversation was interrupted.
pub const INTERRUPTED_REASON: &'static str = "任务被中断";

/// Result text of calls closed because the round limit was reached.
pub const MAX_ROUNDS_REASON: &'static str = "达到最大轮次限制";

/// The calls of the last message that are to be closed: those of an
/// assistant message that has any.
pub open spec fn calls_left_open(last: Option<MessageView>) -> Seq<crate::chat::message::ToolCallView> {
    match last {
        Some(m) => if m.role == MessageRole::Assistant && m.tool_calls is Some {
            m.tool_calls->0
        } else {
            Seq::empty()
        },
        None => Seq::empty(),
    }
}

/// The tool calls of the last message that are left without a result.
pub fn calls_to_close(last: Option<&Message>) -> (r: Vec<ToolCall>)
    ensures
        call_views(r@) == calls_left_open(match last { Some(m) => Some(m@), None => None }),
{
    match last {
        Some(m) => {
            if m.role == MessageRole::Assistant {
                match &m.tool_calls {
                    Some(calls) => copy_calls(calls),
                    None => {
                        let r: Vec<ToolCall> = Vec::new();
                        proof {
                            assert(call_views(r@) =~= Seq::empty());
                        }
                        r
                    },
                }
            } else {
                let r: Vec<ToolCall> = Vec::new();
                proof {
                    assert(call_views(r@) =~= Seq::empty());
                }
                r
            }
        },
        None => {
            let r: Vec<ToolCall> = Vec::new();
            proof {
                assert(call_views(r@) =~= Seq::empty());
            }
            r
        },
    }
}

/// Whether a tool result (read as JSON) marks a cancelled call.
pub open spec fn marks_cancelled(parsed: Option<JsonValue>) -> bool {
    match parsed {
        Some(v) => member(v, "cancelled"@) == Some(JsonValue::Bool(true)),
        None => false,
    }
}

/// Whether a tool result, read as JSON (`None` when it is not JSON), marks
/// a cancelled call.
pub fn is_cancelled_tool(parsed: &Option<JsonValue>) -> (b: bool)
    ensures
        b == marks_cancelled(*parsed),
{
    match parsed {
        Some(v) => match v.get("cancelled") {
            Some(JsonValue::Bool(flag)) => *flag,
            _ => false,
        },
        None => false,
    }
}

/// Whether a modelled result marks a cancelled call.
pub open spec fn view_marks_cancelled(parsed: Option<JsonView>) -> bool {
    match parsed {
        Some(v) => view_member(v, "cancelled"@) == Some(JsonView::Bool(true)),
        None => false,
    }
}

/// Whether a message is a tool result whose content, read as JSON, marks a
/// cancelled call (`{"cancelled": true, ...}`).
pub open spec fn message_cancelled(m: MessageView) -> bool {
    match m.content {
        Some(ContentView::ToolResult(_, content)) => view_marks_cancelled(json_parse(content)),
        _ => false,
    }
}

/// Whether a message is the result of a cancelled call.
pub fn message_marks_cancelled(m: &Message) -> (b: bool)
    ensures
        b == message_cancelled(m@),
{
    match &m.content {
        Some(MessageContent::ToolResult { content, .. }) => {
            let parsed = parse_json(content.as_str());
            proof {
                if parsed is Some {
                    lemma_member_view(parsed->0, "cancelled"@);
                }
            }
            is_cancelled_tool(&parsed)
        },
        _ => false,
    }
}

/// Whether the history needs an assistant message after its last one: after
/// a user message (the model never answered), and after a tool result that is
/// not a cancelled call.
pub open spec fn needs_orphan_close(last: Option<MessageView>, cancelled_tool: bool) -> bool {
    match last {
        Some(m) => m.role == MessageRole::User || (m.role == MessageRole::Tool && !cancelled_tool),
        None => false,
    }
}

/// Whether the history needs an assistant message after its last one
/// (`cancelled_tool`: whether that last message marks a cancelled call).
pub fn should_close_orphan(last: Option<&Message>, cancelled_tool: bool) -> (b: bool)
    ensures
        b == needs_orphan_close(match last { Some(m) => Some(m@), None => None }, cancelled_tool),
{
    match last {
        Some(m) => match m.role {
            MessageRole::User => true,
            MessageRole::Tool => !cancelled_tool,
            _ => false,
        },
        None => false,
    }
}

/// The text that closes an interrupted conversation: the stream error when
/// there was one, else `Output interrupt`.
pub fn close_text(stream_error: &Option<String>) -> (t: String)
    ensures
        t@ == match stream_error { Some(e) => e@, None => "Output interrupt"@ },
{
    match stream_error {
        Some(e) => e.clone(),
        None => "Output interrupt".to_owned(),
    }
}

/// Where a conversation stands.
#[derive(Debug, Clone, Copy, PartialEq, Eq, Structural)]
pub enum ConversationStage {
    /// A round is about to start.
    Start,
    /// The model's reply is streaming.
    Streaming,
    /// The round-limit question is out.
    Asking,
    /// A batch of tool calls is running.
    Running,
    /// The conversation is over.
    Over,
}

/// What the host does next in a conversation.
#[derive(Debug)]
pub enum ConversationStep {
    /// Announce round `round` and stream the model's reply.
    Request { round: usize },
    /// Run these tool calls (backend calls first, then the interface calls).
    RunBatch(Vec<ToolCall>),
    /// The round limit is reached: close the batch and ask whether to go on.
    AskContinue,
    /// End the conversation as completed: the open calls of the last message
    /// are closed when it was cancelled, and an unanswered user message or
    /// result is answered with `text`.
    Close { text: String },
    /// A sub-agent suspends at the round limit: the batch is replayed first
    /// when the conversation resumes.
    Suspend { run_id: String, replay: Vec<ToolCall> },
}

/// How a batch of tool calls ended.
#[derive(Debug, Clone, PartialEq, Eq)]
pub enum BatchEnd {
    /// Every call ran: the next round starts.
    Continue,
    /// The conversation ends (cancelled, or an invalid or unanswered card).
    Completed,
    /// A sub-agent suspended on an interface call.
    Suspended { run_id: String },
}

/// The text an interrupted conversation is closed with, as modelled.
pub open spec fn close_text_of(stream_error: Option<String>) -> Seq<char> {
    match stream_error {
        Some(e) => e@,
        None => "Output interrupt"@,
    }
}

/// A conversation's rounds: the round number, its limit, the last stream
/// failure, and the batch of the current round.
#[derive(Debug)]
pub struct ConversationRun {
    pub round: usize,
    pub max_rounds: usize,
    pub stage: ConversationStage,
    pub stream_error: Option<String>,
    pub batch: Vec<ToolCall>,
}

impl ConversationRun {
    /// A conversation about to start its first round.
    pub fn new(max_rounds: usize) -> (r: ConversationRun)
        ensures
            r.round == 1,
            r.max_rounds == max_rounds,
            r.stage == ConversationStage::Start,
            r.stream_error is None,
            r.batch@.len() == 0,
    {
        ConversationRun { round: 1, max_rounds, stage: ConversationStage::Start, stream_error: None, batch: Vec::new() }
    }

    /// Starts a round: a cancelled conversation closes; a batch held back at
    /// the round limit (`replay`) runs without a model request; otherwise the
    /// round's reply is requested.
    pub fn begin(&mut self, cancelled: bool, replay: Option<Vec<ToolCall>>) -> (step: ConversationStep)
        requires
            old(self).stage == ConversationStage::Start,
        ensures
            final(self).round == old(self).round,
            final(self).max_rounds == old(self).max_rounds,
            final(self).stream_error == old(self).stream_error,
            cancelled ==> final(self).stage == ConversationStage::Over
                && (step matches ConversationStep::Close { text } && text@ == close_text_of(old(self).stream_error)),
            !cancelled && replay is Some ==> final(self).stage == ConversationStage::Running
                && (step matches ConversationStep::RunBatch(calls) && call_views(calls@) == call_views(replay->0@)),
            !cancelled && replay is None ==> final(self).stage == ConversationStage::Streaming
                && step == (ConversationStep::Request { round: old(self).round }),
    {
        if cancelled {
            self.stage = ConversationStage::Over;
            return ConversationStep::Close { text: close_text(&self.stream_error) };
        }
        match replay {
            Some(calls) => {
                self.stage = ConversationStage::Running;
                ConversationStep::RunBatch(calls)
            },
            None => {
                self.stage = ConversationStage::Streaming;
                ConversationStep::Request { round: self.round }
            },
        }
    }

    /// The reply streamed in: `kept` says whether it was written to the
    /// history (an empty reply is not), `calls` are its tool calls, `failure`
    /// the stream failure to report (kept for the closing text). An empty
    /// reply or one without calls closes the conversation; calls at the round
    /// limit bring the question; other calls run.
    pub fn replied(&mut self, kept: bool, calls: Vec<ToolCall>, failure: Option<String>) -> (step: ConversationStep)
        requires
            old(self).stage == ConversationStage::Streaming,
        ensures
            final(self).round == old(self).round,
            final(self).max_rounds == old(self).max_rounds,
            final(self).stream_error == (if failure is Some { failure } else { old(self).stream_error }),
            !kept || calls@.len() == 0 ==> final(self).stage == ConversationStage::Over
                && (step matches ConversationStep::Close { text } && text@ == close_text_of(final(self).stream_error)),
            kept && calls@.len() > 0 && old(self).round >= old(self).max_rounds ==> final(self).stage
                == ConversationStage::Asking && step is AskContinue && call_views(final(self).batch@) == call_views(calls@),
            kept && calls@.len() > 0 && old(self).round < old(self).max_rounds ==> final(self).stage
                == ConversationStage::Running && (step matches ConversationStep::RunBatch(c) && call_views(c@) == call_views(calls@)),
    {
        if failure.is_some() {
            self.stream_error = failure;
        }
        if !kept || calls.len() == 0 {
            self.stage = ConversationStage::Over;
            return ConversationStep::Close { text: close_text(&self.stream_error) };
        }
        if self.round >= self.max_rounds {
            self.batch = calls;
            self.stage = ConversationStage::Asking;
            ConversationStep::AskContinue
        } else {
            self.stage = ConversationStage::Running;
            ConversationStep::RunBatch(calls)
        }
    }

    /// The round-limit question was answered: go on with the held-back
    /// batch, close, or suspend (the batch to be replayed on resume).
    pub fn answered(&mut self, choice: PromptChoice) -> (step: ConversationStep)
        requires
            old(self).stage == ConversationStage::Asking,
        ensures
            final(self).round == old(self).round,
            final(self).max_rounds == old(self).max_rounds,
            final(self).stream_error == old(self).stream_error,
            choice == PromptChoice::Continue ==> final(self).stage == ConversationStage::Running
                && (step matches ConversationStep::RunBatch(c) && call_views(c@) == call_views(old(self).batch@)),
            choice == PromptChoice::Stop ==> final(self).stage == ConversationStage::Over
                && (step matches ConversationStep::Close { text } && text@ == close_text_of(old(self).stream_error)),
            choice matches PromptChoice::Suspend { run_id } ==> final(self).stage == ConversationStage::Over
                && (step matches ConversationStep::Suspend { run_id: r, replay } && r@ == run_id@
                && call_views(replay@) == call_views(old(self).batch@)),
    {
        match choice {
            PromptChoice::Continue => {
                self.stage = ConversationStage::Running;
                ConversationStep::RunBatch(copy_calls(&self.batch))
            },
            PromptChoice::Stop => {
                self.stage = ConversationStage::Over;
                ConversationStep::Close { text: close_text(&self.stream_error) }
            },
            PromptChoice::Suspend { run_id } => {
                self.stage = ConversationStage::Over;
                ConversationStep::Suspend { run_id, replay: copy_calls(&self.batch) }
            },
        }
    }

    /// The batch ended: the next round starts (`None`), or the conversation
    /// ends with the outcome given.
    pub fn batch_done(&mut self, end: BatchEnd) -> (r: Option<crate::chat::driver::ConversationOutcome>)
        requires
            old(self).stage == ConversationStage::Running,
            old(self).round < usize::MAX,
        ensures
            final(self).max_rounds == old(self).max_rounds,
            final(self).stream_error == old(self).stream_error,
            end == BatchEnd::Continue ==> r is None && final(self).stage == ConversationStage::Start
                && final(self).round == old(self).round + 1,
            end == BatchEnd::Completed ==> r == Some(crate::chat::driver::ConversationOutcome::Completed)
                && final(self).stage == ConversationStage::Over && final(self).round == old(self).round,
            end matches BatchEnd::Suspended { run_id } ==> (r matches Some(crate::chat::driver::ConversationOutcome::Suspended { run_id: x })
                && x@ == run_id@) && final(self).stage == ConversationStage::Over && final(self).round == old(self).round,
    {
        match end {
            BatchEnd::Continue => {
                self.round = self.round + 1;
                self.stage = ConversationStage::Start;
                None
            },
            BatchEnd::Completed => {
                self.stage = ConversationStage::Over;
                Some(crate::chat::driver::ConversationOutcome::Completed)
            },
            BatchEnd::Suspended { run_id } => {
                self.stage = ConversationStage::Over;
                Some(crate::chat::driver::ConversationOutcome::Suspended { run_id })
            },
        }
    }
}


/// A backend tool call's arguments as the tool receives them: its text read
/// as JSON, the text itself as a string when it is not JSON (the tool then
/// reports the error rather than losing the arguments).
pub fn backend_arguments(raw: &str) -> (r: JsonValue)
    ensures
        r@ == crate::json::read_text(raw@),
{
    crate::json::read_json_or_text(raw)
}

/// An interface call's arguments: its text read as JSON, `null` when it is
/// not JSON (the card then has no questions and the call is invalid).
pub open spec fn ui_args(raw: Seq<char>) -> JsonView {
    match json_parse(raw) {
        Some(v) => v,
        None => JsonView::Null,
    }
}

/// An interface call's arguments as read for its card.
pub fn ui_arguments(raw: &str) -> (r: JsonValue)
    ensures
        r@ == ui_args(raw@),
{
    match parse_json(raw) {
        Some(v) => v,
        None => JsonValue::Null,
    }
}

/// What an interface call (an action card) leads to.
#[derive(Debug, Clone, PartialEq, Eq)]
pub enum UiCallPlan {
    /// The card has no question: the call is closed with this reason (also
    /// reported as an error) and the conversation ends.
    Invalid { reason: String },
    /// A sub-agent hands the card to its parent and suspends.
    Suspend { run_id: String },
    /// The card is shown and the user's answer awaited (no answer ends the
    /// conversation).
    Ask,
}

/// The reason an interface call without questions is closed with: the
/// round's stream error follows when there was one.
pub open spec fn invalid_card_text(stream_error: Seq<char>) -> Seq<char> {
    let base = "request_user_action 未携带任何可交互的 questions（工具参数可能因流式解析失败而丢失）"@;
    if stream_error.len() > 0 {
        base + "："@ + stream_error
    } else {
        base
    }
}

/// Decides an interface call with `question_count` questions: none makes it
/// invalid; otherwise a sub-agent (`EmitAndSuspend`) suspends under its run
/// id (empty when it has none), and the main agent asks.
pub fn ui_call_plan(question_count: usize, strategy: UIActionStrategy, run_id: &Option<String>, stream_error: &str) -> (p: UiCallPlan)
    ensures
        question_count == 0 ==> (p matches UiCallPlan::Invalid { reason } && reason@ == invalid_card_text(stream_error@)),
        question_count > 0 && strategy == UIActionStrategy::EmitAndSuspend ==> (p matches UiCallPlan::Suspend { run_id: r }
            && r@ == match run_id { Some(x) => x@, None => Seq::empty() }),
        question_count > 0 && strategy == UIActionStrategy::BlockAndConfirm ==> p == UiCallPlan::Ask,
{
    if question_count == 0 {
        let mut reason = "request_user_action 未携带任何可交互的 questions（工具参数可能因流式解析失败而丢失）".to_owned();
        if stream_error.unicode_len() > 0 {
            reason.append("：");
            reason.append(stream_error);
        }
        return UiCallPlan::Invalid { reason };
    }
    match strategy {
        UIActionStrategy::EmitAndSuspend => UiCallPlan::Suspend {
            run_id: match run_id {
                Some(x) => x.clone(),
                None => String::new(),
            },
        },
        UIActionStrategy::BlockAndConfirm => UiCallPlan::Ask,
    }
}

} // verus!
