//! The chat's message model: what the history, trace and round logic read of
//! a message, and the stored form with its error classification.

use vstd::prelude::*;

use crate::text::{decimal, decimal_text};

verus! {

/// Who a message is from.
#[derive(Debug, Clone, Copy, PartialEq, Eq, Structural)]
pub enum MessageRole {
    System,
    User,
    Assistant,
    Tool,
}

/// A tool call a model message asks for.
#[derive(Debug, Clone, PartialEq, Eq)]
pub struct ToolCall {
    /// Call id (pairs the call with its result).
    pub id: String,
    /// Tool name.
    pub name: String,
    /// Arguments as the model wrote them (JSON text, possibly invalid).
    pub arguments: String,
}

/// Content of a message.
#[derive(Debug, Clone, PartialEq, Eq)]
pub enum MessageContent {
    /// Plain text.
    Text { text: String },
    /// The result of a tool call.
    ToolResult { tool_call_id: String, content: String },
}

/// A chat message.
#[derive(Debug, Clone, PartialEq, Eq)]
pub struct Message {
    pub role: MessageRole,
    pub content: Option<MessageContent>,
    /// Tool calls (assistant messages only).
    pub tool_calls: Option<Vec<ToolCall>>,
    /// The call a tool message answers.
    pub tool_call_id: Option<String>,
    /// Reasoning text, when the model gives one.
    pub reasoning_content: Option<String>,
}

/// Error classification of a stored message (the database column holds 0 / 1 / 2).
#[derive(Debug, Clone, Copy, PartialEq, Eq, Structural)]
pub enum ErrorType {
    /// No error.
    NoError,
    /// The tool failed.
    ExecutionError,
    /// Interrupted or cancelled.
    Cancelled,
}

/// The classification a database value stands for (unknown values read as no error).
pub open spec fn error_type_of(v: i32) -> ErrorType {
    if v == 1 {
        ErrorType::ExecutionError
    } else if v == 2 {
        ErrorType::Cancelled
    } else {
        ErrorType::NoError
    }
}

/// The database value of a classification.
pub open spec fn error_type_code(e: ErrorType) -> i32 {
    match e {
        ErrorType::NoError => 0,
        ErrorType::ExecutionError => 1,
        ErrorType::Cancelled => 2,
    }
}

impl ErrorType {
    /// The classification of a database value.
    pub fn from_i32(v: i32) -> (e: ErrorType)
        ensures
            e == error_type_of(v),
    {
        if v == 1 {
            ErrorType::ExecutionError
        } else if v == 2 {
            ErrorType::Cancelled
        } else {
            ErrorType::NoError
        }
    }

    /// The database value of the classification.
    pub fn to_i32(self) -> (v: i32)
        ensures
            v == error_type_code(self),
    {
        match self {
            ErrorType::NoError => 0,
            ErrorType::ExecutionError => 1,
            ErrorType::Cancelled => 2,
        }
    }
}

/// Reading back a stored classification gives it again.
pub proof fn lemma_error_type_round_trip(e: ErrorType)
    ensures
        error_type_of(error_type_code(e)) == e,
{
}

/// A stored message: the message and its error classification.
#[derive(Debug, Clone, PartialEq, Eq)]
pub struct StoreMessage {
    pub message: Message,
    pub is_error_type: ErrorType,
    /// Whether the assistant message's tool calls include a sub-agent tool.
    pub is_agent_tool: bool,
}

impl StoreMessage {
    /// A stored message with the given classification.
    pub fn new(message: Message, is_error_type: ErrorType) -> (r: StoreMessage)
        ensures
            r.message == message,
            r.is_error_type == is_error_type,
            !r.is_agent_tool,
    {
        StoreMessage { message, is_error_type, is_agent_tool: false }
    }

    /// A stored message without error.
    pub fn normal(message: Message) -> (r: StoreMessage)
        ensures
            r.message == message,
            r.is_error_type == ErrorType::NoError,
            !r.is_agent_tool,
    {
        StoreMessage::new(message, ErrorType::NoError)
    }
}

/// The in-memory history store: keeps no message, yet hands every appended
/// message an id of its own (history entries are found again by id).
///
/// Ids are the decimal notation of a counter that rises by one per append
/// (wrapping after `u64::MAX`); sharing one store gives unique ids across
/// conversations.
#[derive(Debug)]
pub struct InMemoryStore {
    next: u64,
}

impl InMemoryStore {
    /// The number the next appended message gets.
    pub closed spec fn issued(&self) -> nat {
        self.next as nat
    }

    /// A store whose first id is `0`.
    pub fn new() -> (s: InMemoryStore)
        ensures
            s.issued() == 0,
    {
        InMemoryStore { next: 0 }
    }

    /// What the store holds for a conversation being restored: nothing.
    pub fn load(&self) -> (r: Vec<StoreMessage>)
        ensures
            r@.len() == 0,
    {
        Vec::new()
    }

    /// Takes a message (its content is not kept) and returns its id: the
    /// counter in decimal; the counter moves on by one.
    ///
    /// Successive appends give ids that differ (see
    /// [`crate::text::lemma_decimal_injective`]) until the counter wraps.
    pub fn append(&mut self, _message: &StoreMessage) -> (id: String)
        ensures
            id@ == decimal(old(self).issued()),
            final(self).issued() == if old(self).issued() == u64::MAX as nat {
                0
            } else {
                old(self).issued() + 1
            },
    {
        let id = decimal_text(self.next);
        self.next = self.next.wrapping_add(1);
        id
    }
}

impl Default for InMemoryStore {
    fn default() -> (s: InMemoryStore)
        ensures
            s.issued() == 0,
    {
        InMemoryStore::new()
    }
}

} // verus!

verus! {

/// Model of a tool call.
pub struct ToolCallView {
    pub id: Seq<char>,
    pub name: Seq<char>,
    pub arguments: Seq<char>,
}

impl View for ToolCall {
    type V = ToolCallView;

    open spec fn view(&self) -> ToolCallView {
        ToolCallView { id: self.id@, name: self.name@, arguments: self.arguments@ }
    }
}

/// Model of message content.
pub enum ContentView {
    Text(Seq<char>),
    ToolResult(Seq<char>, Seq<char>),
}

impl View for MessageContent {
    type V = ContentView;

    open spec fn view(&self) -> ContentView {
        match self {
            MessageContent::Text { text } => ContentView::Text(text@),
            MessageContent::ToolResult { tool_call_id, content } => ContentView::ToolResult(
                tool_call_id@,
                content@,
            ),
        }
    }
}

/// Models of tool calls.
pub open spec fn call_views(v: Seq<ToolCall>) -> Seq<ToolCallView> {
    v.map_values(|c: ToolCall| c@)
}

/// Model of a message.
pub struct MessageView {
    pub role: MessageRole,
    pub content: Option<ContentView>,
    pub tool_calls: Option<Seq<ToolCallView>>,
    pub tool_call_id: Option<Seq<char>>,
    pub reasoning_content: Option<Seq<char>>,
}

impl View for Message {
    type V = MessageView;

    open spec fn view(&self) -> MessageView {
        MessageView {
            role: self.role,
            content: match self.content {
                Some(c) => Some(c@),
                None => None,
            },
            tool_calls: match self.tool_calls {
                Some(v) => Some(call_views(v@)),
                None => None,
            },
            tool_call_id: crate::text::opt_text(self.tool_call_id),
            reasoning_content: crate::text::opt_text(self.reasoning_content),
        }
    }
}

/// Model of a stored message.
pub struct StoreMessageView {
    pub message: MessageView,
    pub is_error_type: ErrorType,
    pub is_agent_tool: bool,
}

impl View for StoreMessage {
    type V = StoreMessageView;

    open spec fn view(&self) -> StoreMessageView {
        StoreMessageView {
            message: self.message@,
            is_error_type: self.is_error_type,
            is_agent_tool: self.is_agent_tool,
        }
    }
}

impl ToolCall {
    /// A copy of the call.
    pub fn duplicate(&self) -> (r: ToolCall)
        ensures
            r@ == self@,
    {
        ToolCall { id: self.id.clone(), name: self.name.clone(), arguments: self.arguments.clone() }
    }
}

/// A copy of a list of tool calls.
pub fn copy_calls(v: &Vec<ToolCall>) -> (r: Vec<ToolCall>)
    ensures
        call_views(r@) == call_views(v@),
{
    let mut out: Vec<ToolCall> = Vec::new();
    let mut i: usize = 0;
    while i < v.len()
        invariant
            i <= v@.len(),
            out@.len() == i,
            forall|k: int| 0 <= k < i ==> #[trigger] out@[k]@ == v@[k]@,
        decreases v@.len() - i,
    {
        out.push(v[i].duplicate());
        i = i + 1;
    }
    proof {
        assert(call_views(out@) =~= call_views(v@));
    }
    out
}

impl MessageContent {
    /// A copy of the content.
    pub fn duplicate(&self) -> (r: MessageContent)
        ensures
            r@ == self@,
    {
        match self {
            MessageContent::Text { text } => MessageContent::Text { text: text.clone() },
            MessageContent::ToolResult { tool_call_id, content } => MessageContent::ToolResult {
                tool_call_id: tool_call_id.clone(),
                content: content.clone(),
            },
        }
    }
}

impl Message {
    /// A copy of the message.
    pub fn duplicate(&self) -> (r: Message)
        ensures
            r@ == self@,
    {
        Message {
            role: self.role,
            content: match &self.content {
                Some(c) => Some(c.duplicate()),
                None => None,
            },
            tool_calls: match &self.tool_calls {
                Some(v) => Some(copy_calls(v)),
                None => None,
            },
            tool_call_id: match &self.tool_call_id {
                Some(t) => Some(t.clone()),
                None => None,
            },
            reasoning_content: match &self.reasoning_content {
                Some(t) => Some(t.clone()),
                None => None,
            },
        }
    }

    /// A text message.
    pub fn text(role: MessageRole, text: &str) -> (m: Message)
        ensures
            m@ == (MessageView {
                role,
                content: Some(ContentView::Text(text@)),
                tool_calls: None,
                tool_call_id: None,
                reasoning_content: None,
            }),
    {
        Message {
            role,
            content: Some(MessageContent::Text { text: text.to_owned() }),
            tool_calls: None,
            tool_call_id: None,
            reasoning_content: None,
        }
    }

    /// A tool message answering call `tool_call_id` (the id stands both in the
    /// content and in the message, as the model interface requires).
    pub fn tool_result(tool_call_id: &str, content: &str) -> (m: Message)
        ensures
            m@ == (MessageView {
                role: MessageRole::Tool,
                content: Some(ContentView::ToolResult(tool_call_id@, content@)),
                tool_calls: None,
                tool_call_id: Some(tool_call_id@),
                reasoning_content: None,
            }),
    {
        Message {
            role: MessageRole::Tool,
            content: Some(MessageContent::ToolResult {
                tool_call_id: tool_call_id.to_owned(),
                content: content.to_owned(),
            }),
            tool_calls: None,
            tool_call_id: Some(tool_call_id.to_owned()),
            reasoning_content: None,
        }
    }
}

impl StoreMessage {
    /// A copy of the stored message.
    pub fn duplicate(&self) -> (r: StoreMessage)
        ensures
            r@ == self@,
    {
        StoreMessage {
            message: self.message.duplicate(),
            is_error_type: self.is_error_type,
            is_agent_tool: self.is_agent_tool,
        }
    }
}

} // verus!
