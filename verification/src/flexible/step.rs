//! One step: a loop of model requests and tool calls.
//!
//! The host performs the requests and the tool calls; [`StepRun`] decides
//! after each reply and each tool call what comes next, counts rounds, tokens
//! and tool calls, and builds the step's record at the end.

use vstd::prelude::*;

use crate::flexible::event::PlanRunEvent;
use crate::flexible::report::{CallUsage, StepRunRecord, StepRunRecordView, StepStatus};
use crate::flexible::template::PlanStep;
use crate::json::{
    field_of, get_field, json_rendered, json_to_text, read_json_or_text, read_text, JsonValue, JsonView,
};
use crate::text::{first_chars, opt_text, take_chars, trim, trim_end, trim_end_str, trim_str};

verus! {

/// Character cap of an output summary.
pub const SUMMARY_MAX_CHARS: usize = 200;

/// Character cap of the output kept in a step record (the summary travels
/// between steps; this copy is for display and for the result step, and is
/// capped because events and snapshots are pushed whole).
pub const OUTPUT_MAX_CHARS: usize = 8000;

/// Character cap of the one-line rendering of a tool call's arguments.
pub const ARGS_LINE_MAX_CHARS: usize = 120;

/// The text cut to at most `max_chars` characters.
pub fn truncate_chars(text: &str, max_chars: usize) -> (r: String)
    ensures
        r@ == take_chars(text@, max_chars as nat),
{
    first_chars(text, max_chars)
}

/// An output summary: the trimmed text, cut at [`SUMMARY_MAX_CHARS`] characters
/// with `…` appended when it was longer.
pub open spec fn summary_of(text: Seq<char>) -> Seq<char> {
    let t = trim(text);
    if t.len() <= SUMMARY_MAX_CHARS {
        t
    } else {
        t.take(SUMMARY_MAX_CHARS as int) + "…"@
    }
}

/// The summary of an output.
pub fn summarize(text: &str) -> (r: String)
    ensures
        r@ == summary_of(text@),
{
    let trimmed = trim_str(text);
    if trimmed.unicode_len() <= SUMMARY_MAX_CHARS {
        trimmed
    } else {
        let mut head = first_chars(trimmed.as_str(), SUMMARY_MAX_CHARS);
        head.append("…");
        head
    }
}

/// A value as text: a string as written, anything else as compact JSON.
pub open spec fn json_content(v: JsonValue) -> Seq<char> {
    match v {
        JsonValue::Str(t) => t@,
        _ => json_rendered(v@),
    }
}

/// A value as text: a string as written, anything else as compact JSON.
pub fn tool_content(v: &JsonValue) -> (r: String)
    ensures
        r@ == json_content(*v),
{
    match v {
        JsonValue::Str(t) => t.clone(),
        _ => json_to_text(v),
    }
}

/// Values as text, separated by spaces.
pub open spec fn spaced_contents(items: Seq<JsonValue>) -> Seq<char>
    decreases items.len(),
{
    if items.len() == 0 {
        Seq::empty()
    } else if items.len() == 1 {
        json_content(items[0])
    } else {
        spaced_contents(items.drop_last()) + " "@ + json_content(items.last())
    }
}

/// Law: values are joined by single spaces. No value gives nothing, one
/// value gives its text, and the text of two non-empty runs of values put
/// together is the text of the first, a space, and the text of the second;
/// so each value's text stands in the result, in order.
pub proof fn lemma_spaced_joins(a: Seq<JsonValue>, b: Seq<JsonValue>)
    ensures
        spaced_contents(Seq::<JsonValue>::empty()) == Seq::<char>::empty(),
        a.len() == 1 ==> spaced_contents(a) == json_content(a[0]),
        a.len() > 0 && b.len() > 0 ==> spaced_contents(a + b) == spaced_contents(a) + " "@ + spaced_contents(b),
    decreases b.len(),
{
    if a.len() > 0 && b.len() > 0 {
        let ab = a + b;
        if b.len() == 1 {
            assert(ab.drop_last() =~= a);
            assert(ab.last() == b[0]);
        } else {
            lemma_spaced_joins(a, b.drop_last());
            assert(ab.drop_last() =~= a + b.drop_last());
            assert(ab.last() == b.last());
            assert(spaced_contents(ab) =~= spaced_contents(a) + " "@ + spaced_contents(b));
        }
    }
}

/// The `args` part of a command-like argument object.
pub open spec fn args_part(fields: Seq<(String, JsonValue)>) -> Seq<char> {
    match field_of(fields, "args"@) {
        Some(JsonValue::Array(items)) => spaced_contents(items@),
        Some(other) => json_content(other),
        None => Seq::empty(),
    }
}

/// Arguments rendered like a command line: `{"command":"ls","args":["C:/x"]}`
/// gives `ls C:/x`; a single member gives its value; any other object its
/// compact JSON (member names carry meaning); a non-object its text.
pub open spec fn args_rendered(v: JsonValue) -> Seq<char> {
    match v {
        JsonValue::Object(fields) => match field_of(fields@, "command"@) {
            Some(JsonValue::Str(command)) => trim_end(command@ + " "@ + args_part(fields@)),
            _ => if fields@.len() == 1 {
                json_content(fields@[0].1)
            } else {
                json_rendered(v@)
            },
        },
        _ => json_content(v),
    }
}

/// The one-line rendering of a tool call's arguments, cut at
/// [`ARGS_LINE_MAX_CHARS`] characters with `…` appended when longer.
pub open spec fn args_line(v: JsonValue) -> Seq<char> {
    let r = args_rendered(v);
    if r.len() <= ARGS_LINE_MAX_CHARS {
        r
    } else {
        r.take(ARGS_LINE_MAX_CHARS as int) + "…"@
    }
}

fn spaced(items: &Vec<JsonValue>) -> (r: String)
    ensures
        r@ == spaced_contents(items@),
{
    let mut r = String::new();
    let mut i: usize = 0;
    while i < items.len()
        invariant
            i <= items@.len(),
            r@ == spaced_contents(items@.take(i as int)),
        decreases items@.len() - i,
    {
        proof {
            assert(items@.take(i + 1).drop_last() =~= items@.take(i as int));
        }
        if i > 0 {
            r.append(" ");
        }
        let part = tool_content(&items[i]);
        r.append(part.as_str());
        proof {
            assert(r@ =~= spaced_contents(items@.take(i + 1)));
        }
        i = i + 1;
    }
    proof {
        assert(items@.take(items@.len() as int) =~= items@);
    }
    r
}

/// A tool call's arguments as the tool receives them: an empty object for
/// blank text, else the text read as JSON (the text itself, as a string,
/// when it is not JSON: the tool reports the error rather than losing the
/// arguments).
pub open spec fn arguments_of(raw: Seq<char>) -> JsonView {
    if trim(raw).len() == 0 {
        JsonView::Object(Seq::empty())
    } else {
        read_text(raw)
    }
}

/// A tool call's arguments as the tool receives them.
pub fn parse_arguments(raw: &str) -> (r: JsonValue)
    ensures
        r@ == arguments_of(raw@),
{
    let t = trim_str(raw);
    if t.unicode_len() == 0 {
        let fields: Vec<(String, JsonValue)> = Vec::new();
        let r = JsonValue::Object(fields);
        proof {
            assert(crate::json::fields_view(fields@) =~= Seq::<(Seq<char>, JsonView)>::empty());
        }
        r
    } else {
        read_json_or_text(raw)
    }
}

/// Renders a tool call's arguments as the short line a host shows for it.
pub fn describe_tool_args(arguments: &JsonValue) -> (r: String)
    ensures
        r@ == args_line(*arguments),
{
    let rendered = match arguments {
        JsonValue::Object(fields) => {
            match get_field(fields, "command") {
                Some(JsonValue::Str(command)) => {
                    let args = match get_field(fields, "args") {
                        Some(JsonValue::Array(items)) => spaced(items),
                        Some(other) => tool_content(other),
                        None => String::new(),
                    };
                    let mut line = command.clone();
                    line.append(" ");
                    line.append(args.as_str());
                    trim_end_str(line.as_str())
                },
                _ => {
                    if fields.len() == 1 {
                        tool_content(&fields[0].1)
                    } else {
                        json_to_text(arguments)
                    }
                },
            }
        },
        _ => tool_content(arguments),
    };
    if rendered.unicode_len() <= ARGS_LINE_MAX_CHARS {
        rendered
    } else {
        let mut head = first_chars(rendered.as_str(), ARGS_LINE_MAX_CHARS);
        head.append("…");
        head
    }
}

} // verus!

verus! {

/// Token use a model reply reports.
#[derive(Debug, Clone, Copy, PartialEq, Eq, Structural)]
pub struct TokenUsage {
    pub prompt_tokens: u32,
    pub completion_tokens: u32,
}

/// What the step decides on in a model reply.
#[derive(Debug, Clone, PartialEq)]
pub struct ModelReply {
    /// Token use, when the reply reports it.
    pub usage: Option<TokenUsage>,
    /// Whether the reply holds a choice at all.
    pub has_choice: bool,
    /// Text content of the chosen message (empty when there is none).
    pub content: String,
    /// Reasoning text of the chosen message (empty when there is none).
    pub reasoning: String,
    /// Number of tool calls the message asks for.
    pub tool_calls: usize,
}

/// Where a step stands.
#[derive(Debug, Clone, Copy, PartialEq, Eq, Structural)]
pub enum StepStage {
    /// A model request may be made (after a check for a stop).
    Ready,
    /// A request is out; its reply is awaited.
    Awaiting,
    /// The reply asked for tools; they are called one after the other.
    Tools,
    /// The step is over.
    Over,
}

/// The decision state of one step.
#[derive(Debug)]
pub struct StepRun {
    /// Step number (from 1).
    pub index: usize,
    /// Most model requests the step may make.
    pub max_rounds: usize,
    pub stage: StepStage,
    /// Model requests made so far.
    pub rounds: usize,
    /// Token use of each request (0 tokens for a failed one).
    pub call_usages: Vec<CallUsage>,
    /// Tool calls made so far.
    pub tool_calls: usize,
    /// Tool calls of the current reply still to be made.
    pub calls_left: usize,
    /// The step's output once it converged.
    pub output: Option<String>,
    /// Why the step failed.
    pub error: Option<String>,
}

/// Text of a stop requested by the user.
pub open spec fn cancelled_text() -> Seq<char> {
    "用户取消"@
}

/// Text of a failed model request.
pub open spec fn model_failure_text(reason: Seq<char>) -> Seq<char> {
    "LLM 调用失败："@ + reason
}

/// Text of a reply without choices.
pub open spec fn no_choice_text() -> Seq<char> {
    "LLM 响应不含 choices"@
}

/// Text of a step that still asks for tools in its last allowed round.
pub open spec fn round_limit_text(max_rounds: usize) -> Seq<char> {
    "超过每步轮数上限 "@ + crate::text::decimal(max_rounds as nat) + "（末轮仍要求调用工具）"@
}

/// Text of a failed tool call, fed back to the model.
pub open spec fn tool_failure_text(reason: Seq<char>) -> Seq<char> {
    "工具执行失败："@ + reason
}

/// The round bound of a step: its limit, and at least one round.
pub open spec fn round_bound(max_rounds: usize) -> nat {
    if max_rounds == 0 {
        1
    } else {
        max_rounds as nat
    }
}

/// Sum of the prompt tokens of the requests.
pub open spec fn prompt_sum(u: Seq<CallUsage>) -> nat
    decreases u.len(),
{
    if u.len() == 0 {
        0
    } else {
        prompt_sum(u.drop_last()) + u.last().prompt_tokens as nat
    }
}

/// Sum of the completion tokens of the requests.
pub open spec fn completion_sum(u: Seq<CallUsage>) -> nat
    decreases u.len(),
{
    if u.len() == 0 {
        0
    } else {
        completion_sum(u.drop_last()) + u.last().completion_tokens as nat
    }
}

/// A sum over a prefix is at most the sum over the whole.
pub proof fn lemma_sums_grow(u: Seq<CallUsage>, i: int)
    requires
        0 <= i <= u.len(),
    ensures
        prompt_sum(u.take(i)) <= prompt_sum(u),
        completion_sum(u.take(i)) <= completion_sum(u),
    decreases u.len() - i,
{
    if i < u.len() {
        lemma_sums_grow(u, i + 1);
        assert(u.take(i + 1).drop_last() =~= u.take(i));
    } else {
        assert(u.take(i) =~= u);
    }
}

/// A copy of a text.
fn text_of(s: &str) -> (r: String)
    ensures
        r@ == s@,
{
    s.to_owned()
}

impl StepRun {
    /// The step's bookkeeping holds together: one usage per answered request,
    /// numbered from 1; rounds within the bound; an outcome exactly when over.
    pub open spec fn wf(&self) -> bool {
        &&& forall|k: int| 0 <= k < self.call_usages@.len() ==> #[trigger] self.call_usages@[k].round == k + 1
        &&& match self.stage {
            StepStage::Ready => self.call_usages@.len() == self.rounds && self.rounds < round_bound(self.max_rounds),
            StepStage::Tools => self.call_usages@.len() == self.rounds && self.rounds < round_bound(self.max_rounds),
            StepStage::Awaiting => self.call_usages@.len() + 1 == self.rounds && self.rounds <= round_bound(self.max_rounds),
            StepStage::Over => self.rounds <= round_bound(self.max_rounds) && self.call_usages@.len() == self.rounds,
        }
        &&& (self.stage != StepStage::Tools ==> self.calls_left == 0)
        &&& (self.stage != StepStage::Over ==> self.output is None && self.error is None)
        &&& (self.stage == StepStage::Over ==> (self.output is Some) != (self.error is Some))
    }

    /// A step about to make its first request.
    pub fn new(index: usize, max_rounds: usize) -> (r: StepRun)
        ensures
            r.wf(),
            r.index == index,
            r.max_rounds == max_rounds,
            r.stage == StepStage::Ready,
            r.rounds == 0,
            r.call_usages@.len() == 0,
            r.tool_calls == 0,
    {
        StepRun {
            index,
            max_rounds,
            stage: StepStage::Ready,
            rounds: 0,
            call_usages: Vec::new(),
            tool_calls: 0,
            calls_left: 0,
            output: None,
            error: None,
        }
    }

    /// Starts a round unless a stop was requested (then the step fails as
    /// cancelled). Returns whether a request is to be made.
    pub fn begin_round(&mut self, cancelled: bool) -> (go: bool)
        requires
            old(self).wf(),
            old(self).stage == StepStage::Ready,
        ensures
            final(self).wf(),
            go == !cancelled,
            final(self).index == old(self).index,
            final(self).max_rounds == old(self).max_rounds,
            final(self).call_usages@ == old(self).call_usages@,
            final(self).tool_calls == old(self).tool_calls,
            final(self).output is None,
            cancelled ==> final(self).stage == StepStage::Over && final(self).rounds == old(self).rounds
                && opt_text(final(self).error) == Some(cancelled_text()),
            !cancelled ==> final(self).stage == StepStage::Awaiting && final(self).rounds == old(self).rounds + 1
                && final(self).error is None,
    {
        if cancelled {
            self.error = Some(text_of("用户取消"));
            self.stage = StepStage::Over;
            false
        } else {
            self.rounds = self.rounds + 1;
            self.stage = StepStage::Awaiting;
            true
        }
    }

    /// The request failed: its usage is recorded with 0 tokens (so that a
    /// step has one usage per round), and the step fails with the reason.
    pub fn model_failed(&mut self, reason: &str)
        requires
            old(self).wf(),
            old(self).stage == StepStage::Awaiting,
        ensures
            final(self).wf(),
            final(self).stage == StepStage::Over,
            opt_text(final(self).error) == Some(model_failure_text(reason@)),
            final(self).output is None,
            final(self).index == old(self).index,
            final(self).max_rounds == old(self).max_rounds,
            final(self).rounds == old(self).rounds,
            final(self).call_usages@ == old(self).call_usages@.push(CallUsage {
                round: old(self).rounds,
                prompt_tokens: 0,
                completion_tokens: 0,
            }),
            final(self).tool_calls == old(self).tool_calls,
    {
        self.call_usages.push(CallUsage { round: self.rounds, prompt_tokens: 0, completion_tokens: 0 });
        let mut text = text_of("LLM 调用失败：");
        text.append(reason);
        self.error = Some(text);
        self.stage = StepStage::Over;
    }

    /// Takes in a reply: records its token use (0 when it reports none),
    /// returns the thought to show (the reasoning, else the content, when not
    /// empty), and decides:
    /// - no choice: the step fails;
    /// - no tool call: the step is done, with the content (else the reasoning) as output;
    /// - tool calls in the last allowed round: the step fails;
    /// - otherwise the tools are to be called.
    pub fn model_replied(&mut self, reply: &ModelReply) -> (thought: Option<PlanRunEvent>)
        requires
            old(self).wf(),
            old(self).stage == StepStage::Awaiting,
        ensures
            final(self).wf(),
            final(self).index == old(self).index,
            final(self).max_rounds == old(self).max_rounds,
            final(self).rounds == old(self).rounds,
            final(self).tool_calls == old(self).tool_calls,
            final(self).call_usages@ == old(self).call_usages@.push(CallUsage {
                round: old(self).rounds,
                prompt_tokens: match reply.usage { Some(u) => u.prompt_tokens, None => 0 },
                completion_tokens: match reply.usage { Some(u) => u.completion_tokens, None => 0 },
            }),
            !reply.has_choice ==> final(self).stage == StepStage::Over
                && opt_text(final(self).error) == Some(no_choice_text()) && thought is None,
            reply.has_choice ==> ({
                let text = if reply.reasoning@.len() > 0 { reply.reasoning@ } else { reply.content@ };
                &&& (text.len() > 0) == (thought is Some)
                &&& (thought is Some ==> thought->0@ == crate::flexible::event::PlanRunEventView::StepThought {
                    index: old(self).index,
                    round: old(self).rounds,
                    text,
                })
            }),
            reply.has_choice && reply.tool_calls == 0 ==> final(self).stage == StepStage::Over
                && opt_text(final(self).output) == Some(if reply.content@.len() > 0 { reply.content@ } else { reply.reasoning@ })
                && final(self).error is None,
            reply.has_choice && reply.tool_calls > 0 && old(self).rounds >= old(self).max_rounds ==> final(self).stage == StepStage::Over
                && opt_text(final(self).error) == Some(round_limit_text(old(self).max_rounds)),
            reply.has_choice && reply.tool_calls > 0 && old(self).rounds < old(self).max_rounds ==> final(self).stage == StepStage::Tools
                && final(self).error is None && final(self).output is None && final(self).calls_left == reply.tool_calls,
    {
        let (prompt_tokens, completion_tokens) = match reply.usage {
            Some(u) => (u.prompt_tokens, u.completion_tokens),
            None => (0, 0),
        };
        self.call_usages.push(CallUsage { round: self.rounds, prompt_tokens, completion_tokens });
        if !reply.has_choice {
            self.error = Some(text_of("LLM 响应不含 choices"));
            self.stage = StepStage::Over;
            return None;
        }
        let thought_text = if reply.reasoning.unicode_len() > 0 {
            reply.reasoning.clone()
        } else {
            reply.content.clone()
        };
        let thought = if thought_text.unicode_len() > 0 {
            Some(PlanRunEvent::StepThought { index: self.index, round: self.rounds, text: thought_text })
        } else {
            None
        };
        if reply.tool_calls == 0 {
            let answer = if reply.content.unicode_len() > 0 {
                reply.content.clone()
            } else {
                reply.reasoning.clone()
            };
            self.output = Some(answer);
            self.stage = StepStage::Over;
        } else if self.rounds >= self.max_rounds {
            let mut text = text_of("超过每步轮数上限 ");
            let limit = crate::text::decimal_text(self.max_rounds as u64);
            text.append(limit.as_str());
            text.append("（末轮仍要求调用工具）");
            self.error = Some(text);
            self.stage = StepStage::Over;
        } else {
            self.calls_left = reply.tool_calls;
            self.stage = StepStage::Tools;
        }
        thought
    }

    /// Before a tool call: a requested stop ends the step as cancelled.
    /// Returns whether the tool is to be called.
    pub fn before_tool(&mut self, cancelled: bool) -> (go: bool)
        requires
            old(self).wf(),
            old(self).stage == StepStage::Tools,
            old(self).calls_left > 0,
        ensures
            !cancelled ==> final(self).calls_left == old(self).calls_left,
            final(self).wf(),
            go == !cancelled,
            final(self).index == old(self).index,
            final(self).max_rounds == old(self).max_rounds,
            final(self).rounds == old(self).rounds,
            final(self).call_usages@ == old(self).call_usages@,
            final(self).tool_calls == old(self).tool_calls,
            final(self).output is None,
            cancelled ==> final(self).stage == StepStage::Over && opt_text(final(self).error) == Some(cancelled_text()),
            !cancelled ==> final(self).stage == StepStage::Tools && final(self).error is None,
    {
        if cancelled {
            self.error = Some(text_of("用户取消"));
            self.calls_left = 0;
            self.stage = StepStage::Over;
            false
        } else {
            true
        }
    }

    /// A tool call of the reply finished (whether or not the tool reported
    /// an error, its result goes back to the model): counts it and returns
    /// the event to show.
    pub fn tool_done(&mut self, tool: String, args: String, ok: bool) -> (e: PlanRunEvent)
        requires
            old(self).wf(),
            old(self).stage == StepStage::Tools,
            old(self).calls_left > 0,
            old(self).tool_calls < usize::MAX,
        ensures
            final(self).calls_left == old(self).calls_left - 1,
            final(self).wf(),
            final(self).stage == StepStage::Tools,
            final(self).tool_calls == old(self).tool_calls + 1,
            final(self).index == old(self).index,
            final(self).max_rounds == old(self).max_rounds,
            final(self).rounds == old(self).rounds,
            final(self).call_usages@ == old(self).call_usages@,
            final(self).output == old(self).output,
            final(self).error == old(self).error,
            e@ == (crate::flexible::event::PlanRunEventView::StepToolCall {
                index: old(self).index,
                tool: tool@,
                args: args@,
                ok,
            }),
    {
        self.tool_calls = self.tool_calls + 1;
        self.calls_left = self.calls_left - 1;
        PlanRunEvent::StepToolCall { index: self.index, tool, args, ok }
    }

    /// Every tool call of the reply was made: the next round may start.
    pub fn tools_done(&mut self)
        requires
            old(self).wf(),
            old(self).stage == StepStage::Tools,
            old(self).calls_left == 0,
        ensures
            final(self).wf(),
            final(self).stage == StepStage::Ready,
            final(self).index == old(self).index,
            final(self).max_rounds == old(self).max_rounds,
            final(self).rounds == old(self).rounds,
            final(self).call_usages@ == old(self).call_usages@,
            final(self).tool_calls == old(self).tool_calls,
            final(self).output is None,
            final(self).error is None,
    {
        self.stage = StepStage::Ready;
    }
}

/// The text fed back to the model when a tool call itself failed.
pub fn tool_failure_message(reason: &str) -> (r: String)
    ensures
        r@ == tool_failure_text(reason@),
{
    let mut text = text_of("工具执行失败：");
    text.append(reason);
    text
}

} // verus!

verus! {

/// Result of one step.
#[derive(Debug)]
pub struct StepRunResult {
    /// Record for the report (also sent in the events).
    pub record: StepRunRecord,
    /// The whole output, for later steps that reference it; `None` on failure.
    pub output: Option<String>,
}

/// The summary of an optional output.
pub open spec fn opt_summary(o: Option<Seq<char>>) -> Option<Seq<char>> {
    match o {
        Some(t) => Some(summary_of(t)),
        None => None,
    }
}

/// The capped copy of an optional output.
pub open spec fn opt_capped(o: Option<Seq<char>>) -> Option<Seq<char>> {
    match o {
        Some(t) => Some(take_chars(t, OUTPUT_MAX_CHARS as nat)),
        None => None,
    }
}

/// A copy of an optional text.
fn copy_text(o: &Option<String>) -> (r: Option<String>)
    ensures
        opt_text(r) == opt_text(*o),
{
    match o {
        Some(s) => Some(s.clone()),
        None => None,
    }
}

impl StepRun {
    /// Builds the step's record once it is over: tokens summed over the
    /// requests, done exactly when it produced an output, the output kept
    /// whole in the result and capped (with a flag) in the record.
    pub fn finish(&self, step: &PlanStep, intent: &str, duration_ms: u64) -> (r: StepRunResult)
        requires
            self.wf(),
            self.stage == StepStage::Over,
            prompt_sum(self.call_usages@) <= u32::MAX,
            completion_sum(self.call_usages@) <= u32::MAX,
        ensures
            opt_text(r.output) == opt_text(self.output),
            r.record@ == (StepRunRecordView {
                index: self.index,
                result_reference: step.result_reference@,
                intent: intent@,
                expected_output: step.expected_output@,
                status: if self.output is Some { StepStatus::Done } else { StepStatus::Failed },
                duration_ms,
                prompt_tokens: prompt_sum(self.call_usages@) as u32,
                completion_tokens: completion_sum(self.call_usages@) as u32,
                tool_calls: self.tool_calls,
                rounds: self.rounds,
                call_usages: self.call_usages@,
                output_summary: opt_summary(opt_text(self.output)),
                output: opt_capped(opt_text(self.output)),
                output_truncated: self.output is Some && self.output->0@.len() > OUTPUT_MAX_CHARS,
                error: opt_text(self.error),
            }),
            r.record@.call_usages.len() == r.record@.rounds,
            r.record@.rounds <= round_bound(self.max_rounds),
            (r.record@.status == StepStatus::Done) <==> (r.output is Some),
            r.record@.status != StepStatus::Skipped,
    {
        let mut prompt_tokens: u32 = 0;
        let mut completion_tokens: u32 = 0;
        let mut i: usize = 0;
        while i < self.call_usages.len()
            invariant
                i <= self.call_usages@.len(),
                prompt_sum(self.call_usages@) <= u32::MAX,
                completion_sum(self.call_usages@) <= u32::MAX,
                prompt_tokens == prompt_sum(self.call_usages@.take(i as int)),
                completion_tokens == completion_sum(self.call_usages@.take(i as int)),
            decreases self.call_usages@.len() - i,
        {
            proof {
                assert(self.call_usages@.take(i + 1).drop_last() =~= self.call_usages@.take(i as int));
                lemma_sums_grow(self.call_usages@, i + 1);
            }
            prompt_tokens = prompt_tokens + self.call_usages[i].prompt_tokens;
            completion_tokens = completion_tokens + self.call_usages[i].completion_tokens;
            i = i + 1;
        }
        proof {
            assert(self.call_usages@.take(self.call_usages@.len() as int) =~= self.call_usages@);
        }
        let status = if self.error.is_none() && self.output.is_some() {
            StepStatus::Done
        } else {
            StepStatus::Failed
        };
        let (output_summary, record_output, output_truncated) = match &self.output {
            Some(text) => (
                Some(summarize(text.as_str())),
                Some(truncate_chars(text.as_str(), OUTPUT_MAX_CHARS)),
                text.unicode_len() > OUTPUT_MAX_CHARS,
            ),
            None => (None, None, false),
        };
        let record = StepRunRecord {
            index: self.index,
            result_reference: step.result_reference.clone(),
            intent: text_of(intent),
            expected_output: step.expected_output.clone(),
            status,
            duration_ms,
            prompt_tokens,
            completion_tokens,
            tool_calls: self.tool_calls,
            rounds: self.rounds,
            call_usages: crate::flexible::report::copy_usages(&self.call_usages),
            output_summary,
            output: record_output,
            output_truncated,
            error: copy_text(&self.error),
        };
        StepRunResult { record, output: copy_text(&self.output) }
    }
}

/// The bookkeeping of a finished step: one token use per request (a failed
/// request counts with no tokens), never more rounds than its limit (and at
/// least one allowed), and it is done exactly when it has an output, failed
/// exactly when it has an error.
pub proof fn lemma_finished_step(run: StepRun)
    requires
        run.wf(),
        run.stage == StepStage::Over,
    ensures
        run.rounds <= round_bound(run.max_rounds),
        run.call_usages@.len() == run.rounds,
        (run.output is Some) != (run.error is Some),
        forall|k: int| 0 <= k < run.call_usages@.len() ==> #[trigger] run.call_usages@[k].round == k + 1,
{
}

} // verus!
