//! The real tool-call trace of a conversation, exported from its history.
//!
//! The trace comes from what the history recorded, never from what the model
//! says of itself: every call an assistant message declared, in declaration
//! order, paired with its result by call id. Nothing is filtered, cut or
//! rewritten; a tool message that no assistant message declared is ignored.
//! Arguments and outputs are read as JSON; a text that is not JSON is kept
//! as a string, so nothing is dropped.

use vstd::prelude::*;

use crate::chat::message::{ErrorType, Message, MessageContent, MessageRole, StoreMessage, ToolCall};
use crate::json::{read_json_or_text, read_text, JsonValue, JsonView};
use crate::text::opt_text;

verus! {

/// How a tool call ended.
#[derive(Debug, Clone, Copy, PartialEq, Eq, Structural)]
pub enum ToolOutcome {
    /// Returned normally.
    Success,
    /// Failed.
    Error,
    /// Interrupted or cancelled.
    Cancelled,
    /// Declared, but the history holds no result for it.
    Pending,
}

/// The outcome a result's classification stands for.
pub open spec fn outcome_of(e: ErrorType) -> ToolOutcome {
    match e {
        ErrorType::NoError => ToolOutcome::Success,
        ErrorType::ExecutionError => ToolOutcome::Error,
        ErrorType::Cancelled => ToolOutcome::Cancelled,
    }
}

impl ToolOutcome {
    /// The outcome of a result with the given classification.
    pub fn from_error_type(et: ErrorType) -> (o: ToolOutcome)
        ensures
            o == outcome_of(et),
    {
        match et {
            ErrorType::NoError => ToolOutcome::Success,
            ErrorType::ExecutionError => ToolOutcome::Error,
            ErrorType::Cancelled => ToolOutcome::Cancelled,
        }
    }
}

/// One real tool call.
#[derive(Debug, PartialEq, Eq)]
pub struct ToolInvocation {
    /// Call id.
    pub id: String,
    /// Tool name.
    pub name: String,
    /// Arguments as the call carried them, read as JSON.
    pub arguments: JsonValue,
    /// The result's content read as JSON; `None` when no result was observed.
    pub output: Option<JsonValue>,
    pub outcome: ToolOutcome,
}

/// Model of a tool invocation.
pub struct ToolInvocationView {
    pub id: Seq<char>,
    pub name: Seq<char>,
    pub arguments: JsonView,
    pub output: Option<JsonView>,
    pub outcome: ToolOutcome,
}

impl View for ToolInvocation {
    type V = ToolInvocationView;

    open spec fn view(&self) -> ToolInvocationView {
        ToolInvocationView {
            id: self.id@,
            name: self.name@,
            arguments: self.arguments@,
            output: match self.output {
                Some(v) => Some(v@),
                None => None,
            },
            outcome: self.outcome,
        }
    }
}

/// Whether a stored message is the result of call `id`.
pub open spec fn answers(m: StoreMessage, id: Seq<char>) -> bool {
    m.message.role == MessageRole::Tool && opt_text(m.message.tool_call_id) == Some(id)
}

/// Position of the first result of call `id` from position `k` on (none when absent).
pub open spec fn first_result(h: Seq<StoreMessage>, id: Seq<char>, k: nat) -> Option<nat>
    decreases h.len() - k,
{
    if k >= h.len() {
        None
    } else if answers(h[k as int], id) {
        Some(k)
    } else {
        first_result(h, id, k + 1)
    }
}

/// The output text of a result message.
pub open spec fn result_text(m: Message) -> Option<Seq<char>> {
    match m.content {
        Some(MessageContent::ToolResult { content, .. }) => Some(content@),
        _ => None,
    }
}

/// The calls the assistant messages declare, in order.
pub open spec fn declared_calls(h: Seq<StoreMessage>) -> Seq<ToolCall>
    decreases h.len(),
{
    if h.len() == 0 {
        Seq::empty()
    } else {
        declared_calls(h.drop_last()) + if h.last().message.role == MessageRole::Assistant
            && h.last().message.tool_calls is Some {
            h.last().message.tool_calls->0@
        } else {
            Seq::empty()
        }
    }
}

/// A declared call, paired with its first result in the history.
pub open spec fn invocation_of(h: Seq<StoreMessage>, c: ToolCall) -> ToolInvocationView {
    let found = first_result(h, c.id@, 0);
    ToolInvocationView {
        id: c.id@,
        name: c.name@,
        arguments: read_text(c.arguments@),
        output: match found {
            Some(k) => match result_text(h[k as int].message) {
                Some(t) => Some(read_text(t)),
                None => None,
            },
            None => None,
        },
        outcome: match found {
            Some(k) => outcome_of(h[k as int].is_error_type),
            None => ToolOutcome::Pending,
        },
    }
}

/// The trace of a history.
pub open spec fn trace_of(h: Seq<StoreMessage>) -> Seq<ToolInvocationView> {
    declared_calls(h).map_values(|c: ToolCall| invocation_of(h, c))
}

/// Models of a list of invocations.
pub open spec fn invocation_views(v: Seq<ToolInvocation>) -> Seq<ToolInvocationView> {
    v.map_values(|i: ToolInvocation| i@)
}

/// The invocation of one declared call.
fn pair_call(history: &Vec<StoreMessage>, c: &ToolCall) -> (r: ToolInvocation)
    ensures
        r@ == invocation_of(history@, *c),
{
    let ghost h = history@;
    let mut k: usize = 0;
    while k < history.len()
        invariant
            k <= history@.len(),
            h == history@,
            first_result(h, c.id@, 0) == first_result(h, c.id@, k as nat),
        decreases history@.len() - k,
    {
        let m = &history[k];
        let is_answer = match (&m.message.role, &m.message.tool_call_id) {
            (MessageRole::Tool, Some(id)) => *id == c.id,
            _ => false,
        };
        if is_answer {
            let output = match &m.message.content {
                Some(MessageContent::ToolResult { content, .. }) => Some(read_json_or_text(content.as_str())),
                _ => None,
            };
            return ToolInvocation {
                id: c.id.clone(),
                name: c.name.clone(),
                arguments: read_json_or_text(c.arguments.as_str()),
                output,
                outcome: ToolOutcome::from_error_type(m.is_error_type),
            };
        }
        k = k + 1;
    }
    ToolInvocation {
        id: c.id.clone(),
        name: c.name.clone(),
        arguments: read_json_or_text(c.arguments.as_str()),
        output: None,
        outcome: ToolOutcome::Pending,
    }
}

/// Exports the real tool calls of a history: every call an assistant message
/// declared, in declaration order, with its first result (output and outcome
/// by the result's classification) or pending when there is none. An empty
/// trace when nothing was called.
pub fn export_tool_trace(history: &Vec<StoreMessage>) -> (trace: Vec<ToolInvocation>)
    ensures
        invocation_views(trace@) == trace_of(history@),
{
    let ghost h = history@;
    let mut trace: Vec<ToolInvocation> = Vec::new();
    let mut i: usize = 0;
    while i < history.len()
        invariant
            i <= history@.len(),
            h == history@,
            invocation_views(trace@) == declared_calls(h.take(i as int)).map_values(
                |c: ToolCall| invocation_of(h, c),
            ),
        decreases history@.len() - i,
    {
        proof {
            assert(h.take(i + 1).drop_last() =~= h.take(i as int));
            assert(h.take(i + 1).last() == h[i as int]);
        }
        let m = &history[i].message;
        if m.role == MessageRole::Assistant {
            match &m.tool_calls {
                Some(calls) => {
                    let ghost start = trace@;
                    let ghost base = declared_calls(h.take(i as int));
                    let mut j: usize = 0;
                    while j < calls.len()
                        invariant
                            j <= calls@.len(),
                            h == history@,
                            trace@.len() == start.len() + j,
                            forall|q: int| 0 <= q < start.len() ==> #[trigger] trace@[q] == start[q],
                            forall|q: int| 0 <= q < j ==> #[trigger] trace@[start.len() + q]@ == invocation_of(h, calls@[q]),
                        decreases calls@.len() - j,
                    {
                        trace.push(pair_call(history, &calls[j]));
                        j = j + 1;
                    }
                    proof {
                        let target = declared_calls(h.take(i + 1)).map_values(|c: ToolCall| invocation_of(h, c));
                        let d = declared_calls(h.take(i + 1));
                        assert(d =~= base + calls@);
                        assert(invocation_views(start).len() == start.len());
                        assert(start.len() == base.len());
                        assert(target.len() == d.len());
                        assert(trace@.len() == target.len());
                        assert forall|q: int| 0 <= q < trace@.len() implies #[trigger] invocation_views(trace@)[q] == target[q] by {
                            assert(target[q] == invocation_of(h, d[q]));
                            if q < start.len() {
                                assert(trace@[q] == start[q]);
                                assert(invocation_views(start)[q] == start[q]@);
                                assert(invocation_views(start)[q] == base.map_values(|c: ToolCall| invocation_of(h, c))[q]);
                                assert(d[q] == base[q]);
                            } else {
                                let r = q - start.len();
                                assert(trace@[start.len() + r]@ == invocation_of(h, calls@[r]));
                                assert(d[q] == calls@[r]);
                            }
                        }
                        assert(invocation_views(trace@) =~= target);
                    }
                },
                None => {
                    proof {
                        assert(declared_calls(h.take(i + 1)) =~= declared_calls(h.take(i as int)));
                    }
                },
            }
        } else {
            proof {
                assert(declared_calls(h.take(i + 1)) =~= declared_calls(h.take(i as int)));
            }
        }
        i = i + 1;
    }
    proof {
        assert(h.take(h.len() as int) =~= h);
    }
    trace
}

} // verus!

verus! {

/// The trace has one entry per declared call, in declaration order, carrying
/// that call's id, name and arguments; an entry is pending exactly when the
/// history holds no result for its id, and a call without result has no output.
pub proof fn lemma_trace_shape(h: Seq<StoreMessage>)
    ensures
        trace_of(h).len() == declared_calls(h).len(),
        forall|k: int| 0 <= k < trace_of(h).len() ==> {
            let c = declared_calls(h)[k];
            &&& #[trigger] trace_of(h)[k].id == c.id@
            &&& trace_of(h)[k].name == c.name@
            &&& trace_of(h)[k].arguments == read_text(c.arguments@)
            &&& (trace_of(h)[k].outcome == ToolOutcome::Pending) == (first_result(h, c.id@, 0) is None)
            &&& (first_result(h, c.id@, 0) is None ==> trace_of(h)[k].output is None)
        },
{
}

/// A history in which no assistant message declares a call has an empty trace.
pub proof fn lemma_no_call_no_trace(h: Seq<StoreMessage>)
    requires
        forall|k: int| 0 <= k < h.len() ==> #[trigger] h[k].message.role != MessageRole::Assistant
            || h[k].message.tool_calls is None || h[k].message.tool_calls->0@.len() == 0,
    ensures
        trace_of(h).len() == 0,
    decreases h.len(),
{
    if h.len() > 0 {
        let d = h.drop_last();
        assert forall|k: int| 0 <= k < d.len() implies #[trigger] d[k].message.role != MessageRole::Assistant
            || d[k].message.tool_calls is None || d[k].message.tool_calls->0@.len() == 0 by {
            assert(d[k] == h[k]);
            assert(h[k].message.role != MessageRole::Assistant || h[k].message.tool_calls is None
                || h[k].message.tool_calls->0@.len() == 0);
        }
        lemma_no_call_no_trace(d);
        assert(h.last() == h[h.len() - 1]);
    }
}

} // verus!
