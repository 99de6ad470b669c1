//! Sub-agent results: the chain of result callbacks, the retry budget, the
//! last assistant text of a conversation, and the shaping of a sub-agent's
//! task arguments.

use vstd::prelude::*;

use crate::chat::message::{Message, MessageContent, MessageRole, MessageView, ContentView};
use crate::json::{field_of, fields_view, json_pretty, json_to_pretty_text, JsonValue, JsonView};
use crate::text::{decimal, decimal_text};

verus! {

/// What a result callback decides.
#[derive(Debug, PartialEq, Eq)]
pub enum ResultDecision {
    /// Keep the current outer result and end the chain.
    Accept,
    /// Replace the outer result by this text and end the chain.
    Transform(String),
    /// Reject the result: send this correction to the sub-agent, which runs
    /// again (the chain then starts over).
    Retry(String),
    /// End the call as failed with this reason, without retrying.
    Abort(String),
    /// Hand this value to the next callback (the outer result is unchanged).
    Next(String),
}

/// Model of a decision.
pub enum DecisionView {
    Accept,
    Transform(Seq<char>),
    Retry(Seq<char>),
    Abort(Seq<char>),
    Next(Seq<char>),
}

impl View for ResultDecision {
    type V = DecisionView;

    open spec fn view(&self) -> DecisionView {
        match self {
            ResultDecision::Accept => DecisionView::Accept,
            ResultDecision::Transform(t) => DecisionView::Transform(t@),
            ResultDecision::Retry(t) => DecisionView::Retry(t@),
            ResultDecision::Abort(t) => DecisionView::Abort(t@),
            ResultDecision::Next(t) => DecisionView::Next(t@),
        }
    }
}

/// Where a callback chain leads.
#[derive(Debug, PartialEq, Eq)]
pub enum ChainOutcome {
    /// The outer result is this text.
    Done(String),
    /// Retry with this correction message.
    Retry(String),
    /// The call fails with this reason.
    Abort(String),
}

/// Model of a chain outcome.
pub enum ChainOutcomeView {
    Done(Seq<char>),
    Retry(Seq<char>),
    Abort(Seq<char>),
}

impl View for ChainOutcome {
    type V = ChainOutcomeView;

    open spec fn view(&self) -> ChainOutcomeView {
        match self {
            ChainOutcome::Done(t) => ChainOutcomeView::Done(t@),
            ChainOutcome::Retry(t) => ChainOutcomeView::Retry(t@),
            ChainOutcome::Abort(t) => ChainOutcomeView::Abort(t@),
        }
    }
}

/// Where the decisions `ds` lead, the outer result being `outer`: the first
/// decision that is not `Next` settles it; when every decision is `Next` (or
/// there is none) the outer result stays.
pub open spec fn chain_result(ds: Seq<DecisionView>, outer: Seq<char>) -> ChainOutcomeView
    decreases ds.len(),
{
    if ds.len() == 0 {
        ChainOutcomeView::Done(outer)
    } else {
        match ds[0] {
            DecisionView::Accept => ChainOutcomeView::Done(outer),
            DecisionView::Transform(t) => ChainOutcomeView::Done(t),
            DecisionView::Retry(m) => ChainOutcomeView::Retry(m),
            DecisionView::Abort(r) => ChainOutcomeView::Abort(r),
            DecisionView::Next(_) => chain_result(ds.drop_first(), outer),
        }
    }
}

/// The value the callback after decisions `ds` sees: the last `Next` value,
/// else the original text.
pub open spec fn pipeline_after(ds: Seq<DecisionView>, first: Seq<char>) -> Seq<char>
    decreases ds.len(),
{
    if ds.len() == 0 {
        first
    } else {
        match ds.last() {
            DecisionView::Next(v) => v,
            _ => pipeline_after(ds.drop_last(), first),
        }
    }
}

/// Whether every decision hands on to the next callback.
pub open spec fn all_next(ds: Seq<DecisionView>) -> bool {
    forall|k: int| 0 <= k < ds.len() ==> #[trigger] ds[k] is Next
}

/// A run of a callback chain of `len` callbacks over a sub-agent's text.
///
/// The host calls each callback with [`ChainRun::probe`] and hands its decision
/// to [`ChainRun::decide`], until a decision settles the chain or the chain
/// ends ([`ChainRun::end`]).
pub struct ChainRun {
    /// The value handed down the chain.
    pub pipeline_value: String,
    /// The outer result (only a `Transform` replaces it, and that ends the chain).
    pub final_content: String,
    /// Callbacks run so far.
    pub position: usize,
    /// Number of callbacks.
    pub len: usize,
    /// Decisions taken so far.
    pub taken: Ghost<Seq<DecisionView>>,
}

impl ChainRun {
    /// What the run keeps: the decisions so far all handed on, the value is
    /// the last one handed on, the outer result is the original text.
    pub open spec fn wf(&self) -> bool {
        &&& self.position <= self.len
        &&& self.taken@.len() == self.position
        &&& all_next(self.taken@)
        &&& self.pipeline_value@ == pipeline_after(self.taken@, self.final_content@)
    }

    /// A chain of `len` callbacks over `text`.
    pub fn new(text: &str, len: usize) -> (r: ChainRun)
        ensures
            r.wf(),
            r.final_content@ == text@,
            r.taken@.len() == 0,
            r.position == 0,
            r.len == len,
    {
        ChainRun {
            pipeline_value: text.to_owned(),
            final_content: text.to_owned(),
            position: 0,
            len,
            taken: Ghost(Seq::empty()),
        }
    }

    /// The value the next callback is to see and whether it is the last one;
    /// `None` once every callback ran.
    pub fn probe(&self) -> (r: Option<(String, bool)>)
        ensures
            self.position < self.len ==> (r matches Some(p) && p.0@ == self.pipeline_value@
                && p.1 == (self.position + 1 == self.len)),
            self.position >= self.len ==> r is None,
    {
        if self.position < self.len {
            Some((self.pipeline_value.clone(), self.position + 1 == self.len))
        } else {
            None
        }
    }

    /// Takes the next callback's decision: `Next` hands its value on (and the
    /// chain goes on); any other decision settles the chain.
    pub fn decide(&mut self, d: ResultDecision) -> (r: Option<ChainOutcome>)
        requires
            old(self).wf(),
            old(self).position < old(self).len,
        ensures
            match d@ {
                DecisionView::Next(v) => r is None && final(self).wf()
                    && final(self).final_content@ == old(self).final_content@
                    && final(self).position == old(self).position + 1
                    && final(self).len == old(self).len
                    && final(self).taken@ == old(self).taken@.push(d@),
                _ => r matches Some(o) && o@ == chain_result(old(self).taken@.push(d@), old(self).final_content@),
            },
    {
        let ghost ds = self.taken@;
        proof {
            lemma_chain_skips_next(ds, d@, self.final_content@);
        }
        match d {
            ResultDecision::Accept => Some(ChainOutcome::Done(self.final_content.clone())),
            ResultDecision::Transform(t) => Some(ChainOutcome::Done(t)),
            ResultDecision::Retry(m) => Some(ChainOutcome::Retry(m)),
            ResultDecision::Abort(r) => Some(ChainOutcome::Abort(r)),
            ResultDecision::Next(v) => {
                let ghost dv = DecisionView::Next(v@);
                self.pipeline_value = v;
                self.position = self.position + 1;
                proof {
                    self.taken@ = ds.push(dv);
                    assert(ds.push(dv).drop_last() =~= ds);
                    assert forall|k: int| 0 <= k < self.taken@.len() implies #[trigger] self.taken@[k] is Next by {
                        if k < ds.len() {
                            assert(self.taken@[k] == ds[k]);
                        }
                    }
                }
                None
            },
        }
    }

    /// The chain ran to its end without settling: the outer result stays.
    pub fn end(&self) -> (r: ChainOutcome)
        requires
            self.wf(),
        ensures
            r@ == chain_result(self.taken@, self.final_content@),
            r@ == ChainOutcomeView::Done(self.final_content@),
    {
        proof {
            lemma_all_next_keeps(self.taken@, self.final_content@);
        }
        ChainOutcome::Done(self.final_content.clone())
    }
}

/// Decisions that all hand on leave the outer result as it was.
pub proof fn lemma_all_next_keeps(ds: Seq<DecisionView>, outer: Seq<char>)
    requires
        all_next(ds),
    ensures
        chain_result(ds, outer) == ChainOutcomeView::Done(outer),
    decreases ds.len(),
{
    if ds.len() > 0 {
        assert(ds[0] is Next);
        assert forall|k: int| 0 <= k < ds.drop_first().len() implies #[trigger] ds.drop_first()[k] is Next by {
            assert(ds.drop_first()[k] == ds[k + 1]);
        }
        lemma_all_next_keeps(ds.drop_first(), outer);
    }
}

/// After decisions that all handed on, the next decision settles the chain as
/// it alone would.
pub proof fn lemma_chain_skips_next(ds: Seq<DecisionView>, d: DecisionView, outer: Seq<char>)
    requires
        all_next(ds),
    ensures
        chain_result(ds.push(d), outer) == chain_result(seq![d], outer),
    decreases ds.len(),
{
    if ds.len() > 0 {
        assert(ds.push(d)[0] == ds[0]);
        assert(ds.push(d).drop_first() =~= ds.drop_first().push(d));
        assert forall|k: int| 0 <= k < ds.drop_first().len() implies #[trigger] ds.drop_first()[k] is Next by {
            assert(ds.drop_first()[k] == ds[k + 1]);
        }
        lemma_chain_skips_next(ds.drop_first(), d, outer);
    } else {
        assert(ds.push(d) =~= seq![d]);
    }
    assert(seq![d].drop_first() =~= Seq::<DecisionView>::empty());
}

/// `Accept`, an empty chain and a chain that only hands on all keep the outer
/// result; `Next` never changes it; the first decision that is not `Next`
/// settles the chain whatever follows.
pub proof fn lemma_chain_laws(ds: Seq<DecisionView>, rest: Seq<DecisionView>, outer: Seq<char>)
    requires
        all_next(ds),
    ensures
        chain_result(Seq::empty(), outer) == ChainOutcomeView::Done(outer),
        chain_result(ds, outer) == ChainOutcomeView::Done(outer),
        chain_result(ds.push(DecisionView::Accept) + rest, outer) == ChainOutcomeView::Done(outer),
        forall|t: Seq<char>| #[trigger] chain_result(ds.push(DecisionView::Transform(t)) + rest, outer)
            == ChainOutcomeView::Done(t),
{
    lemma_all_next_keeps(ds, outer);
    lemma_chain_prefix(ds, DecisionView::Accept, rest, outer);
    assert forall|t: Seq<char>| #[trigger] chain_result(ds.push(DecisionView::Transform(t)) + rest, outer)
        == ChainOutcomeView::Done(t) by {
        lemma_chain_prefix(ds, DecisionView::Transform(t), rest, outer);
    }
}

/// Whatever follows a settling decision after hand-ons does not count.
pub proof fn lemma_chain_prefix(ds: Seq<DecisionView>, d: DecisionView, rest: Seq<DecisionView>, outer: Seq<char>)
    requires
        all_next(ds),
        !(d is Next),
    ensures
        chain_result(ds.push(d) + rest, outer) == chain_result(seq![d], outer),
    decreases ds.len(),
{
    if ds.len() > 0 {
        assert((ds.push(d) + rest)[0] == ds[0]);
        assert((ds.push(d) + rest).drop_first() =~= ds.drop_first().push(d) + rest);
        assert forall|k: int| 0 <= k < ds.drop_first().len() implies #[trigger] ds.drop_first()[k] is Next by {
            assert(ds.drop_first()[k] == ds[k + 1]);
        }
        lemma_chain_prefix(ds.drop_first(), d, rest, outer);
    } else {
        assert((ds.push(d) + rest)[0] == d);
    }
}

/// Most times a chain may ask the sub-agent to redo its result.
pub const MAX_RETRIES: u32 = 2;

/// Whether a chain's request to retry is granted after `attempts` retries
/// (when it is not, the original result is used).
pub fn may_retry(attempts: u32) -> (b: bool)
    ensures
        b == (attempts < MAX_RETRIES),
{
    attempts < MAX_RETRIES
}

/// What the host does next while it collects a sub-agent's result.
#[derive(Debug, PartialEq, Eq)]
pub enum CollectNext {
    /// The call ends with this result (`is_error`: a failed result).
    Finish { is_error: bool, content: String },
    /// Run the result chain on the current result text.
    RunChain,
    /// The sub-agent suspended to wait for the user: the session is handed back.
    Suspend,
    /// Send this correction to the sub-agent and wait for it again.
    Resend(String),
}

/// Collecting a sub-agent's result: the retries used and the current result
/// text (the last assistant text of its conversation).
#[derive(Debug)]
pub struct CollectRun {
    pub attempts: u32,
    pub last_text: String,
}

impl CollectRun {
    /// The retries stay within their budget.
    pub open spec fn wf(&self) -> bool {
        self.attempts <= MAX_RETRIES
    }

    /// The sub-agent's conversation ended with `outcome`, leaving `last_text`:
    /// completed with no result callback, the text is the result; completed
    /// with callbacks, the chain runs; suspended, the session is handed back;
    /// failed, the call fails with the reason.
    pub fn start(outcome: crate::chat::service::SendOutcome, last_text: String, has_callbacks: bool) -> (r: (CollectRun, CollectNext))
        ensures
            r.0.wf(),
            r.0.attempts == 0,
            r.0.last_text@ == last_text@,
            match outcome {
                crate::chat::service::SendOutcome::Completed => if has_callbacks {
                    r.1 == CollectNext::RunChain
                } else {
                    r.1 matches CollectNext::Finish { is_error, content } && !is_error && content@ == last_text@
                },
                crate::chat::service::SendOutcome::Suspended { .. } => r.1 == CollectNext::Suspend,
                crate::chat::service::SendOutcome::Failed(e) => r.1 matches CollectNext::Finish { is_error, content }
                    && is_error && content@ == sub_agent_failure_text(e@),
            },
    {
        let next = match outcome {
            crate::chat::service::SendOutcome::Completed => if has_callbacks {
                CollectNext::RunChain
            } else {
                CollectNext::Finish { is_error: false, content: last_text.clone() }
            },
            crate::chat::service::SendOutcome::Suspended { .. } => CollectNext::Suspend,
            crate::chat::service::SendOutcome::Failed(e) => CollectNext::Finish {
                is_error: true,
                content: sub_agent_failure(e.as_str()),
            },
        };
        (CollectRun { attempts: 0, last_text }, next)
    }

    /// The chain ended with `outcome`: its text is the result; an abort fails
    /// the call with the reason; a retry sends the correction while retries
    /// are left (counting one), else the current text is the result.
    pub fn after_chain(&mut self, outcome: ChainOutcome) -> (n: CollectNext)
        requires
            old(self).wf(),
        ensures
            final(self).wf(),
            final(self).last_text == old(self).last_text,
            match outcome {
                ChainOutcome::Done(t) => final(self).attempts == old(self).attempts
                    && (n matches CollectNext::Finish { is_error, content } && !is_error && content@ == t@),
                ChainOutcome::Abort(t) => final(self).attempts == old(self).attempts
                    && (n matches CollectNext::Finish { is_error, content } && is_error && content@ == t@),
                ChainOutcome::Retry(m) => if old(self).attempts < MAX_RETRIES {
                    final(self).attempts == old(self).attempts + 1 && (n matches CollectNext::Resend(x) && x@ == m@)
                } else {
                    final(self).attempts == old(self).attempts && (n matches CollectNext::Finish { is_error, content }
                        && !is_error && content@ == old(self).last_text@)
                },
            },
    {
        match outcome {
            ChainOutcome::Done(t) => CollectNext::Finish { is_error: false, content: t },
            ChainOutcome::Abort(t) => CollectNext::Finish { is_error: true, content: t },
            ChainOutcome::Retry(m) => {
                if may_retry(self.attempts) {
                    self.attempts = self.attempts + 1;
                    CollectNext::Resend(m)
                } else {
                    CollectNext::Finish { is_error: false, content: self.last_text.clone() }
                }
            },
        }
    }

    /// The correction was answered: `Some(text)` when the conversation
    /// completed again (the text is the new result and the chain runs
    /// again); `None` when it did not complete or could not be sent (the
    /// current text is the result).
    pub fn after_retry(&mut self, completed: Option<String>) -> (n: CollectNext)
        requires
            old(self).wf(),
        ensures
            final(self).wf(),
            final(self).attempts == old(self).attempts,
            match completed {
                Some(t) => final(self).last_text@ == t@ && n == CollectNext::RunChain,
                None => final(self).last_text == old(self).last_text && (n matches CollectNext::Finish { is_error, content }
                    && !is_error && content@ == old(self).last_text@),
            },
    {
        match completed {
            Some(t) => {
                self.last_text = t;
                CollectNext::RunChain
            },
            None => CollectNext::Finish { is_error: false, content: self.last_text.clone() },
        }
    }
}

/// Text of a sub-agent call that failed.
pub open spec fn sub_agent_failure_text(reason: Seq<char>) -> Seq<char> {
    "子 agent 执行失败: "@ + reason
}

/// The result text of a sub-agent that failed.
pub fn sub_agent_failure(reason: &str) -> (r: String)
    ensures
        r@ == sub_agent_failure_text(reason@),
{
    let mut r = "子 agent 执行失败: ".to_owned();
    r.append(reason);
    r
}

/// The non-empty text of an assistant text message.
pub open spec fn assistant_text(m: MessageView) -> Option<Seq<char>> {
    if m.role == MessageRole::Assistant {
        match m.content {
            Some(ContentView::Text(t)) => if t.len() > 0 {
                Some(t)
            } else {
                None
            },
            _ => None,
        }
    } else {
        None
    }
}

/// The last non-empty assistant text among the first `n` messages (empty when none).
pub open spec fn last_assistant_text(h: Seq<MessageView>, n: int) -> Seq<char>
    decreases n,
{
    if n <= 0 {
        Seq::empty()
    } else {
        match assistant_text(h[n - 1]) {
            Some(t) => t,
            None => last_assistant_text(h, n - 1),
        }
    }
}

/// The last non-empty assistant text of a conversation (empty when there is none).
pub fn extract_last_assistant_text(history: &Vec<Message>) -> (r: String)
    ensures
        r@ == last_assistant_text(history@.map_values(|m: Message| m@), history@.len() as int),
{
    let ghost h = history@.map_values(|m: Message| m@);
    let mut n: usize = history.len();
    while n > 0
        invariant
            n <= history@.len(),
            h == history@.map_values(|m: Message| m@),
            last_assistant_text(h, history@.len() as int) == last_assistant_text(h, n as int),
        decreases n,
    {
        let m = &history[n - 1];
        proof {
            assert(h[n - 1] == m@);
        }
        if m.role == MessageRole::Assistant {
            match &m.content {
                Some(MessageContent::Text { text }) => {
                    if text.unicode_len() > 0 {
                        return text.clone();
                    }
                },
                _ => {},
            }
        }
        n = n - 1;
    }
    String::new()
}

} // verus!

verus! {

/// Position of the first member named `key` (none when absent).
pub open spec fn key_position(fields: Seq<(String, JsonValue)>, key: Seq<char>, k: nat) -> Option<nat>
    decreases fields.len() - k,
{
    if k >= fields.len() {
        None
    } else if fields[k as int].0@ == key {
        Some(k)
    } else {
        key_position(fields, key, k + 1)
    }
}

/// The members with `(key, value)` set: the first member of that name takes
/// the value, or the pair is appended.
pub open spec fn with_member(fields: Seq<(String, JsonValue)>, member: (String, JsonValue)) -> Seq<
    (String, JsonValue),
> {
    match key_position(fields, member.0@, 0) {
        Some(i) => fields.update(i as int, member),
        None => fields.push(member),
    }
}

/// The members once every member of `extra` was set, in order.
pub open spec fn with_members(fields: Seq<(String, JsonValue)>, extra: Seq<(String, JsonValue)>) -> Seq<
    (String, JsonValue),
>
    decreases extra.len(),
{
    if extra.len() == 0 {
        fields
    } else {
        with_members(with_member(fields, extra[0]), extra.drop_first())
    }
}

/// The first member named `key` from position `k` on is the one
/// [`key_position`] finds.
proof fn lemma_field_at_position(f: Seq<(String, JsonValue)>, key: Seq<char>, k: nat)
    requires
        k <= f.len(),
    ensures
        field_of(f.subrange(k as int, f.len() as int), key) == match key_position(f, key, k) {
            Some(i) => Some(f[i as int].1),
            None => None,
        },
        key_position(f, key, k) matches Some(i) ==> k <= i < f.len() && f[i as int].0@ == key
            && forall|j: int| k <= j < i ==> f[j].0@ != key,
        key_position(f, key, k) is None ==> forall|j: int| k <= j < f.len() ==> f[j].0@ != key,
    decreases f.len() - k,
{
    let sub = f.subrange(k as int, f.len() as int);
    if k < f.len() {
        assert(sub[0] == f[k as int]);
        assert(sub.drop_first() =~= f.subrange(k + 1int, f.len() as int));
        lemma_field_at_position(f, key, k + 1);
    }
}

/// The first member named `key`, found by position.
proof fn lemma_field_by_position(f: Seq<(String, JsonValue)>, key: Seq<char>)
    ensures
        field_of(f, key) == match key_position(f, key, 0) {
            Some(i) => Some(f[i as int].1),
            None => None,
        },
        key_position(f, key, 0) matches Some(i) ==> i < f.len() && f[i as int].0@ == key
            && forall|j: int| 0 <= j < i ==> f[j].0@ != key,
        key_position(f, key, 0) is None ==> forall|j: int| 0 <= j < f.len() ==> f[j].0@ != key,
{
    lemma_field_at_position(f, key, 0);
    assert(f.subrange(0, f.len() as int) =~= f);
}

/// A position found by scanning is the first one carrying the key.
proof fn lemma_position_first(f: Seq<(String, JsonValue)>, key: Seq<char>, i: nat)
    requires
        i < f.len(),
        f[i as int].0@ == key,
        forall|j: int| 0 <= j < i ==> f[j].0@ != key,
    ensures
        key_position(f, key, 0) == Some(i),
{
    lemma_field_by_position(f, key);
    if key_position(f, key, 0) is None {
        assert(f[i as int].0@ != key);
    }
}

/// A member set under its key is what that key then reads.
proof fn lemma_with_member_same(f: Seq<(String, JsonValue)>, m: (String, JsonValue))
    ensures
        field_of(with_member(f, m), m.0@) == Some(m.1),
{
    lemma_field_by_position(f, m.0@);
    let g = with_member(f, m);
    match key_position(f, m.0@, 0) {
        Some(i) => {
            lemma_position_first(g, m.0@, i);
        },
        None => {
            lemma_position_first(g, m.0@, f.len());
        },
    }
    lemma_field_by_position(g, m.0@);
}

/// Setting a member leaves every other key as it read.
proof fn lemma_with_member_other(f: Seq<(String, JsonValue)>, m: (String, JsonValue), key: Seq<char>)
    requires
        key != m.0@,
    ensures
        field_of(with_member(f, m), key) == field_of(f, key),
{
    lemma_field_by_position(f, key);
    lemma_field_by_position(f, m.0@);
    let g = with_member(f, m);
    lemma_field_by_position(g, key);
    match key_position(f, key, 0) {
        Some(j) => {
            lemma_position_first(g, key, j);
        },
        None => {
            if key_position(g, key, 0) is Some {
                let j = key_position(g, key, 0)->0;
                assert(g[j as int].0@ == key);
                if j < f.len() {
                    assert(f[j as int].0@ != key);
                    assert(g[j as int] == f[j as int] || g[j as int] == m);
                }
            }
        },
    }
}

/// Members of the base whose key the injected object does not hold read as
/// before the merge.
pub proof fn lemma_merge_keeps_other(b: Seq<(String, JsonValue)>, e: Seq<(String, JsonValue)>, key: Seq<char>)
    requires
        field_of(e, key) is None,
    ensures
        field_of(with_members(b, e), key) == field_of(b, key),
    decreases e.len(),
{
    if e.len() > 0 {
        lemma_with_member_other(b, e[0], key);
        lemma_merge_keeps_other(with_member(b, e[0]), e.drop_first(), key);
    }
}

/// The injected data wins: a key the injected object holds (its keys
/// distinct, as in any JSON object) reads the injected value after the
/// merge, whatever the base held under it.
pub proof fn lemma_merge_injected_wins(b: Seq<(String, JsonValue)>, e: Seq<(String, JsonValue)>, key: Seq<char>)
    requires
        field_of(e, key) is Some,
        forall|i: int, j: int| 0 <= i < j < e.len() ==> e[i].0@ != e[j].0@,
    ensures
        field_of(with_members(b, e), key) == field_of(e, key),
    decreases e.len(),
{
    let rest = e.drop_first();
    assert forall|i: int, j: int| 0 <= i < j < rest.len() implies rest[i].0@ != rest[j].0@ by {
        assert(rest[i] == e[i + 1] && rest[j] == e[j + 1]);
    }
    if e[0].0@ == key {
        lemma_with_member_same(b, e[0]);
        if field_of(rest, key) is Some {
            lemma_field_by_position(rest, key);
            let j = key_position(rest, key, 0)->0;
            assert(rest[j as int] == e[j + 1int]);
        }
        lemma_merge_keeps_other(with_member(b, e[0]), rest, key);
    } else {
        lemma_with_member_other(b, e[0], key);
        lemma_merge_injected_wins(with_member(b, e[0]), rest, key);
    }
}

fn set_member(fields: &mut Vec<(String, JsonValue)>, member: (String, JsonValue))
    ensures
        final(fields)@ == with_member(old(fields)@, member),
{
    let ghost f0 = fields@;
    let mut k: usize = 0;
    while k < fields.len()
        invariant
            k <= fields@.len(),
            fields@ == f0,
            f0 == old(fields)@,
            key_position(f0, member.0@, 0) == key_position(f0, member.0@, k as nat),
        decreases fields@.len() - k,
    {
        if fields[k].0 == member.0 {
            proof {
                assert(f0[k as int].0@ == member.0@);
                assert(key_position(f0, member.0@, k as nat) == Some(k as nat));
            }
            fields.set(k, member);
            return;
        }
        k = k + 1;
    }
    fields.push(member);
}

/// Sets every member of `extra` into `fields`, in order.
pub fn set_members(fields: &mut Vec<(String, JsonValue)>, extra: Vec<(String, JsonValue)>)
    ensures
        final(fields)@ == with_members(old(fields)@, extra@),
{
    let mut rest = extra;
    let ghost all = rest@;
    let ghost f0 = fields@;
    let n = rest.len();
    let mut i: usize = 0;
    proof {
        assert(all.skip(0) =~= all);
    }
    while i < n
        invariant
            n == all.len(),
            i <= n,
            f0 == old(fields)@,
            rest@ == all.skip(i as int),
            with_members(f0, all) == with_members(fields@, all.skip(i as int)),
        decreases n - i,
    {
        let member = rest.remove(0);
        proof {
            assert(all.skip(i as int)[0] == member);
            assert(all.skip(i as int).drop_first() =~= all.skip(i + 1));
            assert(rest@ =~= all.skip(i + 1));
        }
        set_member(fields, member);
        i = i + 1;
    }
    proof {
        assert(all.skip(n as int) =~= Seq::<(String, JsonValue)>::empty());
    }
}

/// Merges the top-level members of `extra` into `base`: members of other
/// names are kept, a member of the same name is replaced whole. Nothing
/// happens unless both are objects.
pub fn merge_into_object(base: &mut JsonValue, extra: JsonValue)
    ensures
        match (*old(base), extra) {
            (JsonValue::Object(b), JsonValue::Object(e)) => *final(base) matches JsonValue::Object(f)
                && f@ == with_members(b@, e@),
            _ => *final(base) == *old(base),
        },
{
    match extra {
        JsonValue::Object(members) => {
            let mut taken = JsonValue::Null;
            std::mem::swap(&mut taken, base);
            match taken {
                JsonValue::Object(mut fields) => {
                    set_members(&mut fields, members);
                    *base = JsonValue::Object(fields);
                },
                other => {
                    *base = other;
                },
            }
        },
        _ => {},
    }
}

/// The members whose names are not listed.
pub open spec fn without_keys(fields: Seq<(String, JsonValue)>, hidden: Seq<String>) -> Seq<(String, JsonValue)>
    decreases fields.len(),
{
    if fields.len() == 0 {
        Seq::empty()
    } else {
        let rest = without_keys(fields.drop_last(), hidden);
        if crate::text::views(hidden).contains(fields.last().0@) {
            rest
        } else {
            rest.push(fields.last())
        }
    }
}

/// The arguments a sub-agent sees: the listed members taken out of an object
/// (anything else, or an empty list, leaves them as they are).
pub fn strip_hidden_args(args: JsonValue, hidden: &Vec<String>) -> (r: JsonValue)
    ensures
        hidden@.len() > 0 && args is Object ==> (r matches JsonValue::Object(f) && args matches JsonValue::Object(a)
            && f@ == without_keys(a@, hidden@)),
        !(hidden@.len() > 0 && args is Object) ==> r == args,
{
    if hidden.len() == 0 {
        return args;
    }
    match args {
        JsonValue::Object(fields) => {
            let ghost all = fields@;
            let mut rest = fields;
            let mut kept: Vec<(String, JsonValue)> = Vec::new();
            let n = rest.len();
            let mut i: usize = 0;
            while i < n
                invariant
                    n == all.len(),
                    i <= n,
                    rest@ == all.skip(i as int),
                    kept@ == without_keys(all.take(i as int), hidden@),
                decreases n - i,
            {
                let member = rest.remove(0);
                proof {
                    assert(all.skip(i as int)[0] == member);
                    assert(member == all[i as int]);
                    assert(rest@ =~= all.skip(i + 1));
                    assert(all.take(i + 1).drop_last() =~= all.take(i as int));
                }
                if !crate::text::contains_text(hidden, &member.0) {
                    kept.push(member);
                }
                i = i + 1;
            }
            proof {
                assert(all.take(n as int) =~= all);
            }
            JsonValue::Object(kept)
        },
        other => other,
    }
}

/// What a callback run before a sub-agent starts decides.
#[derive(Debug)]
pub enum BeforeDecision {
    /// Merge the top-level members of this object into the task arguments
    /// (a member of the same name is replaced: the injected data wins; a
    /// value that is not an object is ignored).
    Inject(JsonValue),
    /// Leave the arguments as they are.
    Continue,
    /// Do not start the sub-agent: this text is the failed result.
    Abort(String),
}

/// How a sub-agent call starts.
#[derive(Debug, PartialEq, Eq)]
pub enum StartPlan {
    /// The sub-agent is not started; the text is the call's failed result.
    Refuse(String),
    /// Start the sub-agent; the text is what it is asked to do.
    Send(String),
}

/// The refusal of a call nested too deep.
pub open spec fn depth_limit_text(depth: u32, max_depth: u32) -> Seq<char> {
    "子 agent 嵌套深度 "@ + decimal(depth as nat) + " 已达上限 "@ + decimal(max_depth as nat)
}

/// Position of the first `Abort` from position `k` on (none when absent).
pub open spec fn first_abort(ds: Seq<BeforeDecision>, k: nat) -> Option<nat>
    decreases ds.len() - k,
{
    if k >= ds.len() {
        None
    } else if ds[k as int] is Abort {
        Some(k)
    } else {
        first_abort(ds, k + 1)
    }
}

/// The members once each decision's injection was merged in, in order.
pub open spec fn injected_members(fields: Seq<(String, JsonValue)>, ds: Seq<BeforeDecision>) -> Seq<(String, JsonValue)>
    decreases ds.len(),
{
    if ds.len() == 0 {
        fields
    } else {
        let rest = injected_members(fields, ds.drop_last());
        match ds.last() {
            BeforeDecision::Inject(JsonValue::Object(e)) => with_members(rest, e@),
            _ => rest,
        }
    }
}

/// The task arguments: the call's arguments without the hidden members,
/// with every injection merged in (arguments that are not an object stay
/// as they are).
pub open spec fn task_view(args: JsonValue, hidden: Seq<String>, ds: Seq<BeforeDecision>) -> JsonView {
    match args {
        JsonValue::Object(a) => JsonView::Object(fields_view(injected_members(
            if hidden.len() > 0 { without_keys(a@, hidden) } else { a@ },
            ds,
        ))),
        _ => args@,
    }
}

/// The task text sent to the sub-agent: the task arguments as indented
/// JSON, or a fixed request when they cannot be written.
pub open spec fn task_text(v: JsonView) -> Seq<char> {
    match json_pretty(v) {
        Some(t) => t,
        None => "请完成指定任务"@,
    }
}

/// No `Abort` from `k` to `i` leaves the first `Abort` where it is.
proof fn lemma_first_abort_from(ds: Seq<BeforeDecision>, k: nat, i: nat)
    requires
        k <= i <= ds.len(),
        forall|j: int| k <= j < i ==> !(#[trigger] ds[j] is Abort),
    ensures
        first_abort(ds, k) == first_abort(ds, i),
    decreases i - k,
{
    if k < i {
        lemma_first_abort_from(ds, k + 1, i);
    }
}

/// How a sub-agent call at nesting `depth` starts: refused with the depth
/// limit at `max_depth` or beyond; else the before-callbacks' decisions are
/// taken in order on the arguments without their `hidden` members (an
/// injection is merged in, injected members winning; the first `Abort`
/// refuses the call with its reason); the task is the result as indented
/// JSON.
pub fn start_plan(
    depth: u32,
    max_depth: u32,
    arguments: JsonValue,
    hidden: &Vec<String>,
    decisions: Vec<BeforeDecision>,
) -> (r: StartPlan)
    ensures
        depth >= max_depth ==> (r matches StartPlan::Refuse(t) && t@ == depth_limit_text(depth, max_depth)),
        depth < max_depth ==> match first_abort(decisions@, 0) {
            Some(k) => r matches StartPlan::Refuse(t) && (decisions@[k as int] matches BeforeDecision::Abort(reason)
                && t@ == reason@),
            None => r matches StartPlan::Send(t) && t@ == task_text(task_view(arguments, hidden@, decisions@)),
        },
{
    if depth >= max_depth {
        let mut t = "子 agent 嵌套深度 ".to_owned();
        let d = decimal_text(depth as u64);
        t.append(d.as_str());
        t.append(" 已达上限 ");
        let m = decimal_text(max_depth as u64);
        t.append(m.as_str());
        return StartPlan::Refuse(t);
    }
    let ghost args = arguments;
    let mut task = strip_hidden_args(arguments, hidden);
    let ghost start = task;
    let ghost ds = decisions@;
    let mut rest = decisions;
    let n = rest.len();
    let mut i: usize = 0;
    while i < n
        invariant
            depth < max_depth,
            ds == decisions@,
            n == ds.len(),
            i <= n,
            rest@ == ds.skip(i as int),
            forall|j: int| 0 <= j < i ==> !(#[trigger] ds[j] is Abort),
            start is Object ==> (task matches JsonValue::Object(f) && f@ == injected_members(start->Object_0@, ds.take(i as int))),
            !(start is Object) ==> task == start,
        decreases n - i,
    {
        let d = rest.remove(0);
        proof {
            assert(ds.skip(i as int)[0] == d);
            assert(d == ds[i as int]);
            assert(rest@ =~= ds.skip(i + 1));
            assert(ds.take(i + 1).drop_last() =~= ds.take(i as int));
            assert(ds.take(i + 1).last() == d);
        }
        match d {
            BeforeDecision::Continue => {},
            BeforeDecision::Inject(extra) => {
                merge_into_object(&mut task, extra);
            },
            BeforeDecision::Abort(reason) => {
                proof {
                    lemma_first_abort_from(ds, 0, i as nat);
                    assert(first_abort(ds, i as nat) == Some(i as nat));
                }
                return StartPlan::Refuse(reason);
            },
        }
        i = i + 1;
    }
    proof {
        lemma_first_abort_from(ds, 0, n as nat);
        assert(ds.take(n as int) =~= ds);
    }
    let text = match json_to_pretty_text(&task) {
        Some(t) => t,
        None => "请完成指定任务".to_owned(),
    };
    proof {
        assert(task@ == task_view(args, hidden@, ds));
    }
    StartPlan::Send(text)
}

} // verus!
