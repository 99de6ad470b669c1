//! The flexible agent's shared documents: the completeness document filled in
//! step by step, the compressed output of the execute step, and the reading
//! of both out of the model's text.

use vstd::prelude::*;

use crate::chat::message::{ContentView, Message, MessageContent, MessageRole, MessageView};
use crate::flexible::prompt::{join, join_texts};
use crate::text::{chars_before, chars_from, decimal, decimal_text, find_from, find_str, trim, trim_str, views};

verus! {

/// Text shown for a field not filled in yet.
pub const PENDING_TEXT: &'static str = "（待填充）";

/// The completeness document: filled in field by field as the steps finish
/// (an unfilled field is empty); its Markdown goes into the shared context.
#[derive(Debug, Clone, Default, PartialEq)]
pub struct CompletenessDoc {
    /// The requirement (clarity check).
    pub requirement: String,
    /// Input parameter definitions (parameter identification).
    pub input_params: String,
    /// Key execution steps (execute).
    pub execution_steps: String,
    /// Tool paths (execute).
    pub tool_paths: String,
    /// Output format (output suggestion).
    pub output_schema: String,
}

/// A field as shown: itself, or the pending mark when empty.
pub open spec fn or_pending(s: Seq<char>) -> Seq<char> {
    if s.len() == 0 {
        "（待填充）"@
    } else {
        s
    }
}

/// The Markdown of a completeness document.
pub open spec fn doc_markdown(d: CompletenessDoc) -> Seq<char> {
    "## 需求描述\n"@ + or_pending(d.requirement@) + "\n\n## 输入参数\n"@ + or_pending(d.input_params@)
        + "\n\n## 执行步骤\n"@ + or_pending(d.execution_steps@) + "\n\n## 工具路径\n"@ + or_pending(
        d.tool_paths@,
    ) + "\n\n## 输出格式\n"@ + or_pending(d.output_schema@)
}

fn append_field(out: &mut String, s: &String)
    ensures
        final(out)@ == old(out)@ + or_pending(s@),
{
    if s.unicode_len() == 0 {
        out.append("（待填充）");
    } else {
        out.append(s.as_str());
    }
}

/// The value of the section headed `marker` in a text: what follows the
/// marker up to the next `\n##`, trimmed; none when the marker is absent,
/// the value empty or still the pending mark.
pub open spec fn section_value(text: Seq<char>, marker: Seq<char>) -> Option<Seq<char>> {
    match find_from(text, marker, 0) {
        None => None,
        Some(i) => {
            let after = text.subrange(i + marker.len(), text.len() as int);
            let head = match find_from(after, "\n##"@, 0) {
                Some(j) => after.subrange(0, j),
                None => after,
            };
            let v = trim(head);
            if v.len() > 0 && v != "（待填充）"@ {
                Some(v)
            } else {
                None
            }
        },
    }
}

/// The value of the section headed `marker` in `text`.
pub fn read_section(text: &str, marker: &str) -> (r: Option<String>)
    ensures
        match section_value(text@, marker@) {
            Some(v) => r matches Some(s) && s@ == v,
            None => r is None,
        },
{
    let n = text.unicode_len();
    let m = marker.unicode_len();
    match find_str(text, marker) {
        None => None,
        Some(i) => {
            proof {
                assert(i + m <= n);
            }
            let after = chars_from(text, i + m);
            let head = match find_str(after.as_str(), "\n##") {
                Some(j) => chars_before(after.as_str(), j),
                None => after,
            };
            let v = trim_str(head.as_str());
            let pending = "（待填充）".to_owned();
            if v.unicode_len() > 0 && v != pending {
                Some(v)
            } else {
                None
            }
        },
    }
}

impl CompletenessDoc {
    /// The document as Markdown, an unfilled field shown as pending.
    pub fn to_markdown(&self) -> (r: String)
        ensures
            r@ == doc_markdown(*self),
    {
        let mut out = "## 需求描述\n".to_owned();
        append_field(&mut out, &self.requirement);
        out.append("\n\n## 输入参数\n");
        append_field(&mut out, &self.input_params);
        out.append("\n\n## 执行步骤\n");
        append_field(&mut out, &self.execution_steps);
        out.append("\n\n## 工具路径\n");
        append_field(&mut out, &self.tool_paths);
        out.append("\n\n## 输出格式\n");
        append_field(&mut out, &self.output_schema);
        out
    }

    /// Fills in the fields whose sections the text holds (a section left
    /// empty or pending changes nothing).
    pub fn update_from_text(&mut self, text: &str)
        ensures
            final(self).requirement@ == match section_value(text@, "## 需求描述"@) { Some(v) => v, None => old(self).requirement@ },
            final(self).input_params@ == match section_value(text@, "## 输入参数"@) { Some(v) => v, None => old(self).input_params@ },
            final(self).execution_steps@ == match section_value(text@, "## 执行步骤"@) { Some(v) => v, None => old(self).execution_steps@ },
            final(self).tool_paths@ == match section_value(text@, "## 工具路径"@) { Some(v) => v, None => old(self).tool_paths@ },
            final(self).output_schema@ == match section_value(text@, "## 输出格式"@) { Some(v) => v, None => old(self).output_schema@ },
    {
        match read_section(text, "## 需求描述") {
            Some(v) => self.requirement = v,
            None => {},
        }
        match read_section(text, "## 输入参数") {
            Some(v) => self.input_params = v,
            None => {},
        }
        match read_section(text, "## 执行步骤") {
            Some(v) => self.execution_steps = v,
            None => {},
        }
        match read_section(text, "## 工具路径") {
            Some(v) => self.tool_paths = v,
            None => {},
        }
        match read_section(text, "## 输出格式") {
            Some(v) => self.output_schema = v,
            None => {},
        }
    }
}

/// The compressed output of the execute step (tool-call details stay out of
/// the shared context).
#[derive(Debug, Clone, Default, PartialEq)]
pub struct ExecutionOutput {
    /// The execution's result (readable).
    pub execution_result: String,
    /// Key steps (readable).
    pub key_steps: Vec<String>,
    /// Tool-level steps: tool name | key arguments | result in short.
    pub tool_steps: Vec<String>,
}

/// The requirement a clarity check gives: what follows its
/// `## 整理后的需求` heading, trimmed; the whole output when the heading is
/// absent or nothing follows it.
pub open spec fn requirement_of(output: Seq<char>) -> Seq<char> {
    let mark = "## 整理后的需求"@;
    match find_from(output, mark, 0) {
        Some(i) => {
            let rest = trim(output.subrange(i + mark.len(), output.len() as int));
            if rest.len() > 0 {
                rest
            } else {
                output
            }
        },
        None => output,
    }
}

/// Reads the requirement out of a clarity check's output.
pub fn extract_requirement(output: &str) -> (r: String)
    ensures
        r@ == requirement_of(output@),
{
    let mark = "## 整理后的需求";
    let n = output.unicode_len();
    let m = mark.unicode_len();
    match find_str(output, mark) {
        Some(i) => {
            proof {
                assert(i + m <= n);
            }
            let rest = chars_from(output, i + m);
            let trimmed = trim_str(rest.as_str());
            if trimmed.unicode_len() > 0 {
                trimmed
            } else {
                output.to_owned()
            }
        },
        None => output.to_owned(),
    }
}

/// Whether `s` begins with `p`.
pub open spec fn has_prefix(s: Seq<char>, p: Seq<char>) -> bool {
    p.len() <= s.len() && s.subrange(0, p.len() as int) == p
}

/// Whether `s` ends with `p`.
pub open spec fn has_suffix(s: Seq<char>, p: Seq<char>) -> bool {
    p.len() <= s.len() && s.subrange(s.len() - p.len(), s.len() as int) == p
}

/// The JSON text of the execute step's answer: a Markdown code fence around
/// it is taken off (an opening fence marked `json` after trimming, or a bare
/// opening fence at the very start; a closing fence at the end), and the rest
/// is trimmed.
pub open spec fn fenced_json(text: Seq<char>) -> Seq<char> {
    let t = trim(text);
    let body = if has_prefix(t, "```json"@) {
        Some(t.subrange(7, t.len() as int))
    } else if has_prefix(text, "```"@) {
        Some(text.subrange(3, text.len() as int))
    } else {
        None
    };
    match body {
        Some(b) => trim(
            if has_suffix(b, "```"@) {
                b.subrange(0, b.len() - 3)
            } else {
                b
            },
        ),
        None => t,
    }
}

/// Whether `s` begins with `p`.
fn starts_with_text(s: &str, p: &str) -> (b: bool)
    ensures
        b == has_prefix(s@, p@),
{
    let n = s.unicode_len();
    let m = p.unicode_len();
    if m > n {
        return false;
    }
    let head = s.substring_char(0, m).to_owned();
    head == p.to_owned()
}

/// Whether `s` ends with `p`.
fn ends_with_text(s: &str, p: &str) -> (b: bool)
    ensures
        b == has_suffix(s@, p@),
{
    let n = s.unicode_len();
    let m = p.unicode_len();
    if m > n {
        return false;
    }
    let tail = s.substring_char(n - m, n).to_owned();
    tail == p.to_owned()
}

/// The JSON text of the execute step's answer, code fence taken off.
pub fn execution_json(text: &str) -> (r: String)
    ensures
        r@ == fenced_json(text@),
{
    proof {
        reveal_strlit("```json");
        reveal_strlit("```");
    }
    let t = trim_str(text);
    let body: Option<String> = if starts_with_text(t.as_str(), "```json") {
        Some(chars_from(t.as_str(), 7))
    } else if starts_with_text(text, "```") {
        Some(chars_from(text, 3))
    } else {
        None
    };
    match body {
        Some(b) => {
            let n = b.unicode_len();
            if ends_with_text(b.as_str(), "```") {
                let inner = chars_before(b.as_str(), n - 3);
                trim_str(inner.as_str())
            } else {
                trim_str(b.as_str())
            }
        },
        None => t,
    }
}

/// Where the flexible agent's conversation stands.
#[derive(Debug, Clone, Copy, PartialEq, Eq, Structural)]
pub enum FlowStep {
    /// The requirement is not settled: check it for clarity.
    Clarify,
    /// The task was not run yet: run it.
    Execute,
    /// The output type is not confirmed: suggest one.
    OutputSuggest,
    /// The inputs are not identified: identify them.
    ParamIdentify,
    /// Everything is filled in: free conversation.
    Free,
}

/// The step the conversation is at: the first part of the document still
/// missing, in the order requirement, execution, output, inputs.
pub open spec fn flow_step(d: CompletenessDoc, executed: bool) -> FlowStep {
    if d.requirement@.len() == 0 {
        FlowStep::Clarify
    } else if !executed {
        FlowStep::Execute
    } else if d.output_schema@.len() == 0 {
        FlowStep::OutputSuggest
    } else if d.input_params@.len() == 0 {
        FlowStep::ParamIdentify
    } else {
        FlowStep::Free
    }
}

/// The step the conversation is at.
pub fn next_flow_step(doc: &CompletenessDoc, executed: bool) -> (s: FlowStep)
    ensures
        s == flow_step(*doc, executed),
{
    if doc.requirement.unicode_len() == 0 {
        FlowStep::Clarify
    } else if !executed {
        FlowStep::Execute
    } else if doc.output_schema.unicode_len() == 0 {
        FlowStep::OutputSuggest
    } else if doc.input_params.unicode_len() == 0 {
        FlowStep::ParamIdentify
    } else {
        FlowStep::Free
    }
}

/// Whether answering a pending action runs the task first: the requirement
/// is settled and the task was not run yet.
pub fn resume_executes(doc: &CompletenessDoc, executed: bool) -> (b: bool)
    ensures
        b == (doc.requirement@.len() > 0 && !executed),
{
    doc.requirement.unicode_len() > 0 && !executed
}

/// The instruction added to the conversation at a step (empty when none).
pub open spec fn instruction_text(s: FlowStep) -> Seq<char> {
    match s {
        FlowStep::Clarify => "[步骤 1/4：需求清晰度检测]\n请判断以上需求是否明确。若明确，整理需求并输出。"@,
        FlowStep::OutputSuggest => "[步骤 3/4：确认输出类型]\n请根据以上结果推断输出数据类型，并与用户确认。"@,
        FlowStep::ParamIdentify => "[步骤 4/4：识别输入参数]\n请识别可参数化的动态值，并与用户确认。"@,
        _ => ""@,
    }
}

/// The instruction added to the conversation at a step.
pub fn flow_instruction(s: FlowStep) -> (r: &'static str)
    ensures
        r@ == instruction_text(s),
{
    match s {
        FlowStep::Clarify => "[步骤 1/4：需求清晰度检测]\n请判断以上需求是否明确。若明确，整理需求并输出。",
        FlowStep::OutputSuggest => "[步骤 3/4：确认输出类型]\n请根据以上结果推断输出数据类型，并与用户确认。",
        FlowStep::ParamIdentify => "[步骤 4/4：识别输入参数]\n请识别可参数化的动态值，并与用户确认。",
        _ => "",
    }
}

/// The lines `1. a`, `2. b`, … of a list.
pub open spec fn numbered_lines(xs: Seq<Seq<char>>) -> Seq<Seq<char>> {
    Seq::new(xs.len(), |i: int| decimal((i + 1) as nat) + ". "@ + xs[i])
}

/// The note the conversation gets once the task ran: its result and its
/// numbered key steps.
pub open spec fn execution_summary_text(out: ExecutionOutput) -> Seq<char> {
    "[步骤 2/4：执行完成]\n\n执行结果:\n"@ + out.execution_result@ + "\n\n关键步骤:\n"@ + join(
        numbered_lines(views(out.key_steps@)),
        "\n"@,
    )
}

/// The note the conversation gets once the task ran.
pub fn execution_summary(out: &ExecutionOutput) -> (r: String)
    ensures
        r@ == execution_summary_text(*out),
{
    let mut lines: Vec<String> = Vec::new();
    let mut i: usize = 0;
    while i < out.key_steps.len()
        invariant
            i <= out.key_steps@.len(),
            lines@.len() == i,
            views(lines@) == numbered_lines(views(out.key_steps@.take(i as int))),
        decreases out.key_steps@.len() - i,
    {
        let mut line = decimal_text((i + 1) as u64);
        line.append(". ");
        line.append(out.key_steps[i].as_str());
        let ghost before = lines@;
        lines.push(line);
        proof {
            assert(views(lines@) =~= numbered_lines(views(out.key_steps@.take(i + 1)))) by {
                assert forall|k: int| 0 <= k < i + 1 implies #[trigger] views(lines@)[k] == numbered_lines(
                    views(out.key_steps@.take(i + 1)),
                )[k] by {
                    if k < i {
                        assert(lines@[k] == before[k]);
                        assert(views(before)[k] == numbered_lines(views(out.key_steps@.take(i as int)))[k]);
                    }
                }
            }
        }
        i = i + 1;
    }
    proof {
        assert(out.key_steps@.take(out.key_steps@.len() as int) =~= out.key_steps@);
    }
    let mut r = "[步骤 2/4：执行完成]\n\n执行结果:\n".to_owned();
    r.append(out.execution_result.as_str());
    r.append("\n\n关键步骤:\n");
    r.append(join_texts(&lines, "\n").as_str());
    r
}

/// Takes what the task run produced into the document: its key steps and its
/// tool steps, one per line.
pub fn record_execution(doc: &mut CompletenessDoc, out: &ExecutionOutput)
    ensures
        final(doc).execution_steps@ == join(views(out.key_steps@), "\n"@),
        final(doc).tool_paths@ == join(views(out.tool_steps@), "\n"@),
        final(doc).requirement == old(doc).requirement,
        final(doc).input_params == old(doc).input_params,
        final(doc).output_schema == old(doc).output_schema,
{
    doc.execution_steps = join_texts(&out.key_steps, "\n");
    doc.tool_paths = join_texts(&out.tool_steps, "\n");
}

/// The note that shows the document in the conversation.
pub fn completeness_note(doc: &CompletenessDoc) -> (r: String)
    ensures
        r@ == "[完整度文档]\n"@ + doc_markdown(*doc),
{
    let mut r = "[完整度文档]\n".to_owned();
    r.append(doc.to_markdown().as_str());
    r
}

/// The user's opening request: the requirement, then the context of earlier
/// plans under its own heading when there is any.
pub open spec fn opening_request_text(requirement: Seq<char>, context: Option<Seq<char>>) -> Seq<char> {
    match context {
        Some(c) => if c.len() > 0 {
            requirement + "\n\n## 历史计划上下文\n"@ + c
        } else {
            requirement
        },
        None => requirement,
    }
}

/// The user's opening request.
pub fn opening_request(requirement: &str, context: Option<&str>) -> (r: String)
    ensures
        r@ == opening_request_text(requirement@, match context { Some(c) => Some(c@), None => None }),
{
    let mut r = requirement.to_owned();
    match context {
        Some(c) => {
            if c.unicode_len() > 0 {
                r.append("\n\n## 历史计划上下文\n");
                r.append(c);
            }
        },
        None => {},
    }
    r
}

/// The text message of `role` saying `text`, as modelled.
pub open spec fn text_view(role: MessageRole, text: Seq<char>) -> MessageView {
    MessageView { role, content: Some(ContentView::Text(text)), tool_calls: None, tool_call_id: None, reasoning_content: None }
}

/// The user message of a conversation restored from a saved state.
pub const RESUME_NOTE: &'static str = "[恢复对话] 继续之前的工作。";

/// The assistant message shown while the execute step runs.
pub const EXECUTING_NOTE: &'static str = "⚡ 正在执行任务…";

/// A new conversation: the system prompt, the user's opening request, and
/// the (empty) completeness document.
pub fn opening_messages(system_prompt: &str, requirement: &str, context: Option<&str>, doc: &CompletenessDoc) -> (r: Vec<Message>)
    ensures
        r@.len() == 3,
        r@[0]@ == text_view(MessageRole::System, system_prompt@),
        r@[1]@ == text_view(MessageRole::User, opening_request_text(requirement@, match context { Some(c) => Some(c@), None => None })),
        r@[2]@ == text_view(MessageRole::Assistant, "[完整度文档]\n"@ + doc_markdown(*doc)),
{
    let request = opening_request(requirement, context);
    let note = completeness_note(doc);
    vec![
        Message::text(MessageRole::System, system_prompt),
        Message::text(MessageRole::User, request.as_str()),
        Message::text(MessageRole::Assistant, note.as_str()),
    ]
}

/// A conversation restored from a saved document: the system prompt, the
/// note that the conversation resumes, and the document.
pub fn restored_messages(system_prompt: &str, doc: &CompletenessDoc) -> (r: Vec<Message>)
    ensures
        r@.len() == 3,
        r@[0]@ == text_view(MessageRole::System, system_prompt@),
        r@[1]@ == text_view(MessageRole::User, RESUME_NOTE@),
        r@[2]@ == text_view(MessageRole::Assistant, "[完整度文档]\n"@ + doc_markdown(*doc)),
{
    let note = completeness_note(doc);
    vec![
        Message::text(MessageRole::System, system_prompt),
        Message::text(MessageRole::User, RESUME_NOTE),
        Message::text(MessageRole::Assistant, note.as_str()),
    ]
}

/// A section of the execute step's input: its title and body, or nothing
/// when the body is empty.
pub open spec fn opt_section(title: Seq<char>, body: Seq<char>) -> Seq<char> {
    if body.len() == 0 {
        Seq::empty()
    } else {
        "\n## "@ + title + "\n"@ + body + "\n"@
    }
}

/// The input of the execute step: the requirement (or a note that none was
/// given), and the inputs, earlier steps and expected output when known.
pub open spec fn execute_input_text(d: CompletenessDoc) -> Seq<char> {
    "## 需求描述\n"@ + (if d.requirement@.len() == 0 { "（未提供）"@ } else { d.requirement@ }) + "\n"@
        + opt_section("输入参数"@, d.input_params@) + opt_section("历史执行步骤（供参考）"@, d.execution_steps@)
        + opt_section("期望输出格式"@, d.output_schema@) + "\n请执行以上任务。"@
}

fn section(title: &str, body: &String) -> (r: String)
    ensures
        r@ == opt_section(title@, body@),
{
    if body.unicode_len() == 0 {
        String::new()
    } else {
        let mut r = "\n## ".to_owned();
        r.append(title);
        r.append("\n");
        r.append(body.as_str());
        r.append("\n");
        r
    }
}

/// The input of the execute step.
pub fn execute_input(doc: &CompletenessDoc) -> (r: String)
    ensures
        r@ == execute_input_text(*doc),
{
    let mut r = "## 需求描述\n".to_owned();
    if doc.requirement.unicode_len() == 0 {
        r.append("（未提供）");
    } else {
        r.append(doc.requirement.as_str());
    }
    r.append("\n");
    r.append(section("输入参数", &doc.input_params).as_str());
    r.append(section("历史执行步骤（供参考）", &doc.execution_steps).as_str());
    r.append(section("期望输出格式", &doc.output_schema).as_str());
    r.append("\n请执行以上任务。");
    r
}

/// Whether a message is an assistant message with text content.
pub open spec fn assistant_with_text(m: MessageView) -> bool {
    m.role == MessageRole::Assistant && m.content matches Some(ContentView::Text(_))
}

/// The text that follows an inlined user choice.
pub open spec fn inlined_choice(choice: Seq<char>) -> Seq<char> {
    "\n\n---\n\n**"@ + choice + "**\n\n"@
}

/// Puts the user's choice into the last message, when that is an assistant
/// text message (the choice is shown under it).
pub fn inline_user_choice(messages: &mut Vec<Message>, choice: &str)
    ensures
        final(messages)@.len() == old(messages)@.len(),
        forall|k: int| 0 <= k < old(messages)@.len() - 1 ==> #[trigger] final(messages)@[k] == old(messages)@[k],
        old(messages)@.len() > 0 ==> {
            let last = old(messages)@.last();
            let now = final(messages)@.last();
            if assistant_with_text(last@) {
                now@ == (MessageView {
                    content: Some(ContentView::Text(last@.content->0->Text_0 + inlined_choice(choice@))),
                    ..last@
                })
            } else {
                now == last
            }
        },
{
    let n = messages.len();
    if n == 0 {
        return;
    }
    let ghost before = messages@;
    let mut last = messages.remove(n - 1);
    if last.role == MessageRole::Assistant {
        match last.content {
            Some(MessageContent::Text { text }) => {
                let ghost original = text@;
                let mut t = text;
                t.append("\n\n---\n\n**");
                t.append(choice);
                t.append("**\n\n");
                proof {
                    assert(t@ =~= original + inlined_choice(choice@));
                }
                last.content = Some(MessageContent::Text { text: t });
            },
            other => {
                last.content = other;
            },
        }
    }
    messages.push(last);
    proof {
        assert forall|k: int| 0 <= k < before.len() - 1 implies #[trigger] messages@[k] == before[k] by {
            assert(messages@[k] == before.remove(n - 1)[k]);
        }
    }
}

/// The text of the last assistant message (empty when it has no text, or
/// when there is no assistant message).
pub open spec fn latest_assistant_text(h: Seq<MessageView>, n: int) -> Seq<char>
    decreases n,
{
    if n <= 0 {
        Seq::empty()
    } else if h[n - 1].role == MessageRole::Assistant {
        match h[n - 1].content {
            Some(ContentView::Text(t)) => t,
            _ => Seq::empty(),
        }
    } else {
        latest_assistant_text(h, n - 1)
    }
}

/// The text of the last assistant message of a conversation.
pub fn last_assistant_reply(history: &Vec<Message>) -> (r: String)
    ensures
        r@ == latest_assistant_text(history@.map_values(|m: Message| m@), history@.len() as int),
{
    let ghost h = history@.map_values(|m: Message| m@);
    let mut n: usize = history.len();
    while n > 0
        invariant
            n <= history@.len(),
            h == history@.map_values(|m: Message| m@),
            latest_assistant_text(h, history@.len() as int) == latest_assistant_text(h, n as int),
        decreases n,
    {
        let m = &history[n - 1];
        proof {
            assert(h[n - 1] == m@);
        }
        if m.role == MessageRole::Assistant {
            return match &m.content {
                Some(MessageContent::Text { text }) => text.clone(),
                _ => String::new(),
            };
        }
        n = n - 1;
    }
    String::new()
}

} // verus!
