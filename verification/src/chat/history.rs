//! The conversation history held in memory: every message with the id the
//! history store gave it (the empty id for messages that are not stored).
//!
//! Writing to the store is the host's part; the history only records what
//! was written and answers the questions the rounds ask of it.

use vstd::prelude::*;

use crate::chat::message::{
    ErrorType, Message, MessageContent, MessageRole, MessageView, StoreMessage, StoreMessageView,
};

verus! {

/// Id of a message that is not stored (such as the system prompt).
pub const NO_STORE_ID: &'static str = "";

/// The conversation history: messages in order, each with its store id.
#[derive(Debug)]
pub struct History {
    pub entries: Vec<(String, StoreMessage)>,
}

/// Models of the stored messages of a history.
pub open spec fn entry_views(e: Seq<(String, StoreMessage)>) -> Seq<StoreMessageView> {
    e.map_values(|p: (String, StoreMessage)| p.1@)
}

/// Models of the messages of a history.
pub open spec fn message_views(e: Seq<(String, StoreMessage)>) -> Seq<MessageView> {
    e.map_values(|p: (String, StoreMessage)| p.1@.message)
}

/// Whether a stored message is an assistant message calling tool `name`.
pub open spec fn calls_tool(m: StoreMessageView, name: Seq<char>) -> bool {
    &&& m.message.role == MessageRole::Assistant
    &&& m.message.tool_calls is Some
    &&& exists|j: int| 0 <= j < m.message.tool_calls->0.len() && #[trigger] m.message.tool_calls->0[j].name == name
}

/// Position of the last message of the first `n` calling tool `name` (none when absent).
pub open spec fn last_calling(e: Seq<StoreMessageView>, n: int, name: Seq<char>) -> Option<int>
    decreases n,
{
    if n <= 0 {
        None
    } else if calls_tool(e[n - 1], name) {
        Some(n - 1)
    } else {
        last_calling(e, n - 1, name)
    }
}

/// Position of the first call of tool `name` among the first `n` calls (none when absent).
pub open spec fn first_call_named(calls: Seq<crate::chat::message::ToolCallView>, name: Seq<char>, n: int) -> Option<int>
    decreases n,
{
    if n <= 0 {
        None
    } else {
        match first_call_named(calls, name, n - 1) {
            Some(j) => Some(j),
            None => if calls[n - 1].name == name {
                Some(n - 1)
            } else {
                None
            },
        }
    }
}

/// Whether the history already holds a result for call `id`.
pub open spec fn closed(e: Seq<StoreMessageView>, id: Seq<char>) -> bool {
    exists|k: int| 0 <= k < e.len() && #[trigger] e[k].message.role == MessageRole::Tool
        && e[k].message.tool_call_id == Some(id)
}

/// Once a call named `name` is found, looking further finds the same one.
pub proof fn lemma_first_call_named_stays(calls: Seq<crate::chat::message::ToolCallView>, name: Seq<char>, n: int, m: int)
    requires
        0 <= n <= m,
        first_call_named(calls, name, n) is Some,
    ensures
        first_call_named(calls, name, m) == first_call_named(calls, name, n),
    decreases m - n,
{
    if m > n {
        lemma_first_call_named_stays(calls, name, n, m - 1);
    }
}

/// Law: closing a call twice records one result. Once a result for call
/// `id` (such as the message `cancelled_tool_message` gives) is pushed, the
/// history counts the call as closed, and closing it again gives nothing.
pub proof fn lemma_close_once(entries: Seq<(String, StoreMessage)>, store_id: String, m: StoreMessage, id: Seq<char>)
    requires
        m@.message.role == MessageRole::Tool,
        m@.message.tool_call_id == Some(id),
    ensures
        closed(entry_views(entries.push((store_id, m))), id),
{
    let e = entry_views(entries.push((store_id, m)));
    assert(e[entries.len() as int] == m@);
}

impl History {
    /// The history restored from what the store loaded (none of it re-stored).
    pub fn new(loaded: Vec<StoreMessage>) -> (h: History)
        ensures
            entry_views(h.entries@) == loaded@.map_values(|m: StoreMessage| m@),
            forall|k: int| 0 <= k < h.entries@.len() ==> #[trigger] h.entries@[k].0@ == NO_STORE_ID@,
    {
        let mut entries: Vec<(String, StoreMessage)> = Vec::new();
        let mut rest = loaded;
        let ghost all = rest@;
        let mut i: usize = 0;
        let n = rest.len();
        while i < n
            invariant
                n == all.len(),
                i <= n,
                rest@ == all.skip(i as int),
                entries@.len() == i,
                forall|k: int| 0 <= k < i ==> #[trigger] entries@[k].1@ == all[k]@,
                forall|k: int| 0 <= k < i ==> #[trigger] entries@[k].0@ == NO_STORE_ID@,
            decreases n - i,
        {
            let m = rest.remove(0);
            proof {
                assert(rest@ =~= all.skip(i + 1));
            }
            entries.push((NO_STORE_ID.to_owned(), m));
            i = i + 1;
        }
        proof {
            assert(entry_views(entries@) =~= all.map_values(|m: StoreMessage| m@));
        }
        History { entries }
    }

    /// The messages, in order (what a model request is built from).
    pub fn snapshot(&self) -> (r: Vec<Message>)
        ensures
            r@.map_values(|m: Message| m@) == message_views(self.entries@),
    {
        let mut r: Vec<Message> = Vec::new();
        let mut i: usize = 0;
        while i < self.entries.len()
            invariant
                i <= self.entries@.len(),
                r@.len() == i,
                forall|k: int| 0 <= k < i ==> #[trigger] r@[k]@ == self.entries@[k].1@.message,
            decreases self.entries@.len() - i,
        {
            r.push(self.entries[i].1.message.duplicate());
            i = i + 1;
        }
        proof {
            assert(r@.map_values(|m: Message| m@) =~= message_views(self.entries@));
        }
        r
    }

    /// The stored messages, in order (with their error classification).
    pub fn snapshot_store(&self) -> (r: Vec<StoreMessage>)
        ensures
            r@.map_values(|m: StoreMessage| m@) == entry_views(self.entries@),
    {
        let mut r: Vec<StoreMessage> = Vec::new();
        let mut i: usize = 0;
        while i < self.entries.len()
            invariant
                i <= self.entries@.len(),
                r@.len() == i,
                forall|k: int| 0 <= k < i ==> #[trigger] r@[k]@ == self.entries@[k].1@,
            decreases self.entries@.len() - i,
        {
            r.push(self.entries[i].1.duplicate());
            i = i + 1;
        }
        proof {
            assert(r@.map_values(|m: StoreMessage| m@) =~= entry_views(self.entries@));
        }
        r
    }

    /// Whether the first message is a system message.
    pub fn first_is_system(&self) -> (b: bool)
        ensures
            b == (self.entries@.len() > 0 && self.entries@[0].1.message.role == MessageRole::System),
    {
        if self.entries.len() > 0 {
            self.entries[0].1.message.role == MessageRole::System
        } else {
            false
        }
    }

    /// Puts a system message first (not stored: the prompt is injected anew
    /// from its template on every send).
    pub fn push_front_system(&mut self, text: &str)
        ensures
            final(self).entries@.len() == old(self).entries@.len() + 1,
            final(self).entries@[0].0@ == NO_STORE_ID@,
            final(self).entries@[0].1@ == (StoreMessageView {
                message: MessageView {
                    role: MessageRole::System,
                    content: Some(crate::chat::message::ContentView::Text(text@)),
                    tool_calls: None,
                    tool_call_id: None,
                    reasoning_content: None,
                },
                is_error_type: ErrorType::NoError,
                is_agent_tool: false,
            }),
            forall|k: int| 0 < k < final(self).entries@.len() ==> #[trigger] final(self).entries@[k] == old(self).entries@[k - 1],
    {
        let m = StoreMessage::normal(Message::text(MessageRole::System, text));
        self.entries.insert(0, (NO_STORE_ID.to_owned(), m));
    }

    /// Records a message written to the store under `store_id`.
    pub fn push(&mut self, store_id: String, message: StoreMessage)
        ensures
            final(self).entries@ == old(self).entries@.push((store_id, message)),
    {
        self.entries.push((store_id, message));
    }

    /// Drops every message.
    pub fn clear(&mut self)
        ensures
            final(self).entries@.len() == 0,
    {
        self.entries.clear();
    }

    /// Whether the history already holds a result for call `tool_call_id`.
    pub fn has_result_for(&self, tool_call_id: &str) -> (b: bool)
        ensures
            b == closed(entry_views(self.entries@), tool_call_id@),
    {
        let ghost e = entry_views(self.entries@);
        let wanted = tool_call_id.to_owned();
        let mut k: usize = 0;
        while k < self.entries.len()
            invariant
                k <= self.entries@.len(),
                e == entry_views(self.entries@),
                wanted@ == tool_call_id@,
                forall|q: int| 0 <= q < k ==> !(#[trigger] e[q].message.role == MessageRole::Tool
                    && e[q].message.tool_call_id == Some(tool_call_id@)),
            decreases self.entries@.len() - k,
        {
            let m = &self.entries[k].1.message;
            let hit = match (&m.role, &m.tool_call_id) {
                (MessageRole::Tool, Some(id)) => *id == wanted,
                _ => false,
            };
            if hit {
                proof {
                    assert(e[k as int].message.role == MessageRole::Tool);
                }
                return true;
            }
            k = k + 1;
        }
        false
    }

    /// The calls of an assistant message that asks for user action, when it does.
    fn ui_call_position(m: &StoreMessage) -> (r: Option<usize>)
        ensures
            calls_tool(m@, "request_user_action"@) <==> r is Some,
            r matches Some(j) ==> m.message.tool_calls is Some
                && j < m@.message.tool_calls->0.len()
                && first_call_named(m@.message.tool_calls->0, "request_user_action"@, m@.message.tool_calls->0.len() as int) == Some(j as int),
    {
        if m.message.role != MessageRole::Assistant {
            return None;
        }
        match &m.message.tool_calls {
            None => None,
            Some(calls) => {
                let ghost cv = m@.message.tool_calls->0;
                let name = "request_user_action".to_owned();
                let mut j: usize = 0;
                while j < calls.len()
                    invariant
                        j <= calls@.len(),
                        cv == crate::chat::message::call_views(calls@),
                        m@.message.role == MessageRole::Assistant,
                        m.message.tool_calls is Some,
                        m@.message.tool_calls == Some(cv),
                        name@ == "request_user_action"@,
                        forall|q: int| 0 <= q < j ==> #[trigger] cv[q].name != "request_user_action"@,
                        first_call_named(cv, "request_user_action"@, j as int) is None,
                    decreases calls@.len() - j,
                {
                    if calls[j].name == name {
                        proof {
                            assert(cv[j as int].name == "request_user_action"@);
                            assert(first_call_named(cv, "request_user_action"@, j as int + 1) == Some(j as int));
                            lemma_first_call_named_stays(cv, "request_user_action"@, j as int + 1, cv.len() as int);
                            assert(m@.message.role == MessageRole::Assistant);
                            assert(m@.message.tool_calls->0[j as int].name == "request_user_action"@);
                            assert(calls_tool(m@, "request_user_action"@));
                        }
                        return Some(j);
                    }
                    j = j + 1;
                }
                None
            },
        }
    }

    /// Store id of the last assistant message that asks for user action.
    pub fn find_pending_ui_tool_call_id(&self) -> (r: Option<String>)
        ensures
            match last_calling(entry_views(self.entries@), self.entries@.len() as int, "request_user_action"@) {
                Some(k) => r matches Some(id) && id@ == self.entries@[k].0@,
                None => r is None,
            },
    {
        let ghost e = entry_views(self.entries@);
        let mut n: usize = self.entries.len();
        while n > 0
            invariant
                n <= self.entries@.len(),
                e == entry_views(self.entries@),
                last_calling(e, self.entries@.len() as int, "request_user_action"@) == last_calling(e, n as int, "request_user_action"@),
            decreases n,
        {
            if Self::ui_call_position(&self.entries[n - 1].1).is_some() {
                return Some(self.entries[n - 1].0.clone());
            }
            n = n - 1;
        }
        None
    }

    /// Call id of the user-action call of the last assistant message that asks for one.
    pub fn find_pending_tool_call_id(&self) -> (r: Option<String>)
        ensures
            match last_calling(entry_views(self.entries@), self.entries@.len() as int, "request_user_action"@) {
                Some(k) => {
                    let calls = entry_views(self.entries@)[k].message.tool_calls->0;
                    r matches Some(id) && first_call_named(calls, "request_user_action"@, calls.len() as int) matches Some(j)
                        && id@ == calls[j].id
                },
                None => r is None,
            },
    {
        let ghost e = entry_views(self.entries@);
        let mut n: usize = self.entries.len();
        while n > 0
            invariant
                n <= self.entries@.len(),
                e == entry_views(self.entries@),
                last_calling(e, self.entries@.len() as int, "request_user_action"@) == last_calling(e, n as int, "request_user_action"@),
            decreases n,
        {
            let m = &self.entries[n - 1].1;
            match Self::ui_call_position(m) {
                Some(j) => {
                    match &m.message.tool_calls {
                        Some(calls) => {
                            return Some(calls[j].id.clone());
                        },
                        None => {
                            return None;
                        },
                    }
                },
                None => {},
            }
            n = n - 1;
        }
        None
    }

    /// The result message that closes call `tool_call_id` as interrupted, unless
    /// the history already holds a result for it.
    pub fn cancelled_tool_message(&self, tool_call_id: &str, reason: &str) -> (r: Option<StoreMessage>)
        ensures
            closed(entry_views(self.entries@), tool_call_id@) ==> r is None,
            !closed(entry_views(self.entries@), tool_call_id@) ==> (r matches Some(m) && m@ == (StoreMessageView {
                message: MessageView {
                    role: MessageRole::Tool,
                    content: Some(crate::chat::message::ContentView::ToolResult(tool_call_id@, reason@)),
                    tool_calls: None,
                    tool_call_id: Some(tool_call_id@),
                    reasoning_content: None,
                },
                is_error_type: ErrorType::Cancelled,
                is_agent_tool: false,
            })),
    {
        if self.has_result_for(tool_call_id) {
            None
        } else {
            Some(StoreMessage::new(Message::tool_result(tool_call_id, reason), ErrorType::Cancelled))
        }
    }
}

/// The stored form of a tool's result for call `tool_call_id`: a tool message
/// whose content is the result's compact JSON text, with the given error type.
pub fn tool_entry(tool_call_id: &str, content: &crate::json::JsonValue, is_error_type: ErrorType) -> (r: StoreMessage)
    ensures
        r@ == (StoreMessageView {
            message: MessageView {
                role: MessageRole::Tool,
                content: Some(crate::chat::message::ContentView::ToolResult(
                    tool_call_id@,
                    crate::json::json_rendered(content@),
                )),
                tool_calls: None,
                tool_call_id: Some(tool_call_id@),
                reasoning_content: None,
            },
            is_error_type,
            is_agent_tool: false,
        }),
{
    let text = crate::json::json_to_text(content);
    StoreMessage::new(Message::tool_result(tool_call_id, text.as_str()), is_error_type)
}

/// Whether a message calls one of the sub-agent tools named in `agent_tools`.
pub open spec fn calls_sub_agent(m: Message, agent_tools: Seq<Seq<char>>) -> bool {
    match m.tool_calls {
        Some(calls) => exists|j: int| 0 <= j < calls@.len() && agent_tools.contains(#[trigger] calls@[j].name@),
        None => false,
    }
}

/// The stored form of an assistant message: no error, and marked as calling
/// a sub-agent when one of its tool calls names a sub-agent tool.
pub fn assistant_entry(msg: Message, agent_tools: &Vec<String>) -> (r: StoreMessage)
    ensures
        r.message == msg,
        r.is_error_type == ErrorType::NoError,
        r.is_agent_tool == calls_sub_agent(msg, crate::text::views(agent_tools@)),
{
    let mut found = false;
    match &msg.tool_calls {
        Some(calls) => {
            let mut j: usize = 0;
            while j < calls.len()
                invariant
                    j <= calls@.len(),
                    found <==> exists|q: int| 0 <= q < j && crate::text::views(agent_tools@).contains(#[trigger] calls@[q].name@),
                decreases calls@.len() - j,
            {
                if crate::text::contains_text(agent_tools, &calls[j].name) {
                    found = true;
                }
                j = j + 1;
            }
        },
        None => {},
    }
    StoreMessage { message: msg, is_error_type: ErrorType::NoError, is_agent_tool: found }
}

} // verus!
