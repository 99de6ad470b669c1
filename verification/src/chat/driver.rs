//! The conversation driver's decisions. The driver takes the commands of a
//! chat service one at a time: what a command does while no conversation
//! runs, what it does while the driver waits for the user's answer to an
//! action card, and how a finished conversation is reported.

use vstd::prelude::*;

use crate::chat::history::{entry_views, first_call_named, last_calling, tool_entry, History};
use crate::chat::message::{ContentView, ErrorType, MessageRole, MessageView, StoreMessage, StoreMessageView};
use crate::chat::service::SendOutcome;
use crate::json::{fields_view, json_rendered, JsonValue, JsonView};

verus! {

/// A command queued for the driver (the user message of a send, and the
/// channels that carry the answers, stay with the host).
#[derive(Debug, Clone, PartialEq, Eq)]
pub enum DriverCommand {
    /// Send a user message and run the conversation.
    Send,
    /// The user's answer to action card `tool_call_id`.
    Confirm { tool_call_id: String, choice: String, action_id: String },
    /// Clear the history once the driver is idle.
    Reset,
    /// Continue a suspended sub-agent conversation with the user's answer.
    Resume { choice: String, action_id: String },
}

/// How a conversation ended.
#[derive(Debug, Clone, PartialEq, Eq)]
pub enum ConversationOutcome {
    /// It ran to its end (or was stopped).
    Completed,
    /// A sub-agent suspended to wait for the user.
    Suspended { run_id: String },
}

/// What the driver does with a command while no conversation runs.
#[derive(Debug)]
pub enum IdleStep {
    /// Record the user message and run the conversation.
    Start,
    /// Ignore the command, reporting this error.
    Ignore(String),
    /// Clear the history and report it cleared.
    ClearHistory,
    /// Record this answer to the suspended action card (of the message with
    /// store id `store_id`) and continue the conversation, suspending again
    /// on the next question.
    Resume { store_id: String, answer: StoreMessage },
    /// Refuse the resume with this error (reported, and the resume's answer).
    RefuseResume(String),
}

/// What the driver does with a command while it waits for the answer to an
/// action card.
#[derive(Debug, Clone, PartialEq, Eq)]
pub enum WaitStep {
    /// The awaited answer: the conversation goes on with it.
    Answer,
    /// An answer to another card: ignored, reporting this error.
    Ignore(String),
    /// Any other command waits in the queue until the conversation ends.
    Defer,
}

/// How the driver reports a finished conversation (the service is idle
/// again in every case).
#[derive(Debug)]
pub struct Finish {
    /// The answer to the send.
    pub outcome: SendOutcome,
    /// `Some(cancelled)`: a `Done` event is sent, saying whether the
    /// conversation was stopped.
    pub done: Option<bool>,
    /// Whether the open calls of the last message are closed as interrupted.
    pub close_calls: bool,
    /// The text an unanswered user message or tool result is answered with.
    pub close_with: Option<String>,
    /// The error event sent.
    pub error: Option<String>,
}

/// Name of the action-card tool.
pub open spec fn ui_tool() -> Seq<char> {
    "request_user_action"@
}

/// The error reported for an answer that arrives while no card waits.
pub open spec fn idle_confirm_text(tool_call_id: Seq<char>, choice: Seq<char>, action_id: Seq<char>) -> Seq<char> {
    "confirm_user_action: 当前没有等待中的 UI 交互 （tool_call_id="@ + tool_call_id + ", choice="@ + choice
        + ", action_id="@ + action_id + "），已忽略"@
}

/// The error reported for an answer to another card than the awaited one.
pub open spec fn mismatch_text(expected: Seq<char>, actual: Seq<char>) -> Seq<char> {
    "confirm_user_action: tool_call_id 不匹配（期望 "@ + expected + "，实际 "@ + actual + "），已忽略"@
}

/// The error of a resume when no card waits in the history.
pub open spec fn no_pending_text() -> Seq<char> {
    "resume: 历史中无挂起的 request_user_action，无法继续"@
}

/// The user's answer as the suspended card's result: `{"choice", "action_id"}`.
pub open spec fn answer_json(choice: Seq<char>, action_id: Seq<char>) -> JsonView {
    JsonView::Object(seq![("choice"@, JsonView::Str(choice)), ("action_id"@, JsonView::Str(action_id))])
}

/// Call id of the first action-card call of a message.
pub open spec fn first_ui_call_id(m: StoreMessageView) -> Seq<char> {
    let calls = m.message.tool_calls->0;
    match first_call_named(calls, ui_tool(), calls.len() as int) {
        Some(j) => calls[j].id,
        None => Seq::empty(),
    }
}

/// The stored answer to card `id`.
pub open spec fn answer_entry(id: Seq<char>, choice: Seq<char>, action_id: Seq<char>) -> StoreMessageView {
    StoreMessageView {
        message: MessageView {
            role: MessageRole::Tool,
            content: Some(ContentView::ToolResult(id, json_rendered(answer_json(choice, action_id)))),
            tool_calls: None,
            tool_call_id: Some(id),
            reasoning_content: None,
        },
        is_error_type: ErrorType::NoError,
        is_agent_tool: false,
    }
}

/// What the driver does with `cmd` while no conversation runs: a send starts
/// one; an answer is ignored with an error; a reset clears the history; a
/// resume answers the last suspended action card of the history (refused
/// when there is none).
pub fn when_idle(cmd: &DriverCommand, history: &History) -> (r: IdleStep)
    ensures
        match *cmd {
            DriverCommand::Send => r is Start,
            DriverCommand::Confirm { tool_call_id, choice, action_id } => r matches IdleStep::Ignore(t)
                && t@ == idle_confirm_text(tool_call_id@, choice@, action_id@),
            DriverCommand::Reset => r is ClearHistory,
            DriverCommand::Resume { choice, action_id } => {
                let e = entry_views(history.entries@);
                match last_calling(e, e.len() as int, ui_tool()) {
                    None => r matches IdleStep::RefuseResume(t) && t@ == no_pending_text(),
                    Some(k) => r matches IdleStep::Resume { store_id, answer } && store_id@ == history.entries@[k].0@
                        && answer@ == answer_entry(first_ui_call_id(e[k]), choice@, action_id@),
                }
            },
        },
{
    match cmd {
        DriverCommand::Send => IdleStep::Start,
        DriverCommand::Confirm { tool_call_id, choice, action_id } => {
            let mut t = "confirm_user_action: 当前没有等待中的 UI 交互 （tool_call_id=".to_owned();
            t.append(tool_call_id.as_str());
            t.append(", choice=");
            t.append(choice.as_str());
            t.append(", action_id=");
            t.append(action_id.as_str());
            t.append("），已忽略");
            IdleStep::Ignore(t)
        },
        DriverCommand::Reset => IdleStep::ClearHistory,
        DriverCommand::Resume { choice, action_id } => {
            match history.find_pending_ui_tool_call_id() {
                None => IdleStep::RefuseResume("resume: 历史中无挂起的 request_user_action，无法继续".to_owned()),
                Some(store_id) => {
                    let call_id = match history.find_pending_tool_call_id() {
                        Some(id) => id,
                        None => String::new(),
                    };
                    let fields = vec![
                        ("choice".to_owned(), JsonValue::Str(choice.clone())),
                        ("action_id".to_owned(), JsonValue::Str(action_id.clone())),
                    ];
                    let content = JsonValue::Object(fields);
                    proof {
                        let fv = fields@;
                        assert(fv.len() == 2);
                        assert(fv.drop_first().drop_first() =~= Seq::<(String, JsonValue)>::empty());
                        assert(fields_view(fv.drop_first().drop_first()) == Seq::<(Seq<char>, JsonView)>::empty());
                        assert(fv.drop_first()[0] == fv[1]);
                        assert(fields_view(fv.drop_first()) =~= seq![(fv[1].0@, fv[1].1@)]);
                        assert(fields_view(fv) =~= seq![(fv[0].0@, fv[0].1@), (fv[1].0@, fv[1].1@)]);
                        assert(content@ == answer_json(choice@, action_id@));
                    }
                    let answer = tool_entry(call_id.as_str(), &content, ErrorType::NoError);
                    IdleStep::Resume { store_id, answer }
                },
            }
        },
    }
}

/// What the driver does with `cmd` while it waits for the answer to card
/// `waiting_for`: that card's answer goes on, another card's answer is
/// ignored with an error, anything else waits its turn.
pub fn while_waiting(waiting_for: &str, cmd: &DriverCommand) -> (r: WaitStep)
    ensures
        match *cmd {
            DriverCommand::Confirm { tool_call_id, .. } => if tool_call_id@ == waiting_for@ {
                r is Answer
            } else {
                r matches WaitStep::Ignore(t) && t@ == mismatch_text(waiting_for@, tool_call_id@)
            },
            _ => r is Defer,
        },
{
    match cmd {
        DriverCommand::Confirm { tool_call_id, .. } => {
            if *tool_call_id == waiting_for.to_owned() {
                WaitStep::Answer
            } else {
                let mut t = "confirm_user_action: tool_call_id 不匹配（期望 ".to_owned();
                t.append(waiting_for);
                t.append("，实际 ");
                t.append(tool_call_id.as_str());
                t.append("），已忽略");
                WaitStep::Ignore(t)
            }
        },
        _ => WaitStep::Defer,
    }
}

/// How a finished conversation is reported: a completed one with a `Done`
/// event (saying whether it was stopped); a suspended one without; a failed
/// one by closing the open calls (when it was stopped), answering an
/// unanswered message with `Error: …`, an error event and the failure.
pub fn finish(result: Result<ConversationOutcome, String>, cancelled: bool) -> (f: Finish)
    ensures
        match result {
            Ok(ConversationOutcome::Completed) => f.outcome is Completed && f.done == Some(cancelled)
                && !f.close_calls && f.close_with is None && f.error is None,
            Ok(ConversationOutcome::Suspended { run_id }) => (f.outcome matches SendOutcome::Suspended { run_id: x }
                && x@ == run_id@) && f.done is None && !f.close_calls && f.close_with is None && f.error is None,
            Err(e) => (f.outcome matches SendOutcome::Failed(x) && x@ == e@) && f.done is None
                && f.close_calls == cancelled && (f.close_with matches Some(t) && t@ == "Error: "@ + e@)
                && (f.error matches Some(x) && x@ == e@),
        },
{
    match result {
        Ok(ConversationOutcome::Completed) => Finish {
            outcome: SendOutcome::Completed,
            done: Some(cancelled),
            close_calls: false,
            close_with: None,
            error: None,
        },
        Ok(ConversationOutcome::Suspended { run_id }) => Finish {
            outcome: SendOutcome::Suspended { run_id },
            done: None,
            close_calls: false,
            close_with: None,
            error: None,
        },
        Err(e) => {
            let mut text = "Error: ".to_owned();
            text.append(e.as_str());
            let error = e.clone();
            Finish {
                outcome: SendOutcome::Failed(e),
                done: None,
                close_calls: cancelled,
                close_with: Some(text),
                error: Some(error),
            }
        },
    }
}

} // verus!
