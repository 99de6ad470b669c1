//! Streamed model replies: text and reasoning deltas, and tool calls that
//! arrive in pieces (by index) and are put together; and the handling of
//! stream errors.

use vstd::prelude::*;

use crate::chat::message::ToolCall;
use crate::text::{decimal, decimal_text};

verus! {

/// One piece of a streamed tool call.
#[derive(Debug, Clone, PartialEq, Eq)]
pub struct ToolCallDelta {
    /// Which call of the reply the piece belongs to.
    pub index: u32,
    pub id: Option<String>,
    pub name: Option<String>,
    pub arguments: Option<String>,
}

/// The delta of one choice of a streamed chunk.
#[derive(Debug, Clone, PartialEq, Eq)]
pub struct ChunkDelta {
    pub content: Option<String>,
    pub reasoning_content: Option<String>,
    pub tool_calls: Option<Vec<ToolCallDelta>>,
}

/// What the host is to send on while a reply streams in.
#[derive(Debug, Clone, PartialEq, Eq)]
pub enum StreamEmit {
    TextDelta(String),
    ReasoningDelta(String),
    /// A tool call's id and name are known.
    ToolCallStart { id: String, name: String },
    /// A piece of a started tool call's arguments.
    ToolCallArgsDelta { id: String, delta: String },
}

/// Model of an emitted notice.
pub enum EmitView {
    TextDelta(Seq<char>),
    ReasoningDelta(Seq<char>),
    ToolCallStart(Seq<char>, Seq<char>),
    ToolCallArgsDelta(Seq<char>, Seq<char>),
}

impl View for StreamEmit {
    type V = EmitView;

    open spec fn view(&self) -> EmitView {
        match self {
            StreamEmit::TextDelta(t) => EmitView::TextDelta(t@),
            StreamEmit::ReasoningDelta(t) => EmitView::ReasoningDelta(t@),
            StreamEmit::ToolCallStart { id, name } => EmitView::ToolCallStart(id@, name@),
            StreamEmit::ToolCallArgsDelta { id, delta } => EmitView::ToolCallArgsDelta(id@, delta@),
        }
    }
}

/// Models of notices.
pub open spec fn emit_views(v: Seq<StreamEmit>) -> Seq<EmitView> {
    v.map_values(|e: StreamEmit| e@)
}

/// A tool call being put together from its pieces.
#[derive(Debug)]
pub struct ToolCallAccumulator {
    pub id: String,
    pub name: String,
    pub arguments: String,
    /// Whether the call's start was sent on.
    pub start_emitted: bool,
    /// Argument pieces held back until the start is sent on.
    pub pending_deltas: Vec<String>,
}

/// Model of an accumulator.
pub struct AccView {
    pub id: Seq<char>,
    pub name: Seq<char>,
    pub arguments: Seq<char>,
    pub start_emitted: bool,
    pub pending: Seq<Seq<char>>,
}

impl View for ToolCallAccumulator {
    type V = AccView;

    open spec fn view(&self) -> AccView {
        AccView {
            id: self.id@,
            name: self.name@,
            arguments: self.arguments@,
            start_emitted: self.start_emitted,
            pending: crate::text::views(self.pending_deltas@),
        }
    }
}

impl ToolCallAccumulator {
    /// An empty accumulator.
    pub fn new() -> (a: ToolCallAccumulator)
        ensures
            a@ == (AccView {
                id: Seq::empty(),
                name: Seq::empty(),
                arguments: Seq::empty(),
                start_emitted: false,
                pending: Seq::empty(),
            }),
    {
        let a = ToolCallAccumulator {
            id: String::new(),
            name: String::new(),
            arguments: String::new(),
            start_emitted: false,
            pending_deltas: Vec::new(),
        };
        proof {
            assert(crate::text::views(a.pending_deltas@) =~= Seq::<Seq<char>>::empty());
        }
        a
    }
}

/// The piece `d` taken into accumulator `a`: id and name are kept from their
/// first non-empty arrival, argument text is appended; before the start is
/// sent on, argument pieces are held back (but only once the id is known).
pub open spec fn absorbed(a: AccView, id: Option<Seq<char>>, name: Option<Seq<char>>, args: Option<Seq<char>>) -> AccView {
    let id1 = match id {
        Some(i) => if a.id.len() == 0 { i } else { a.id },
        None => a.id,
    };
    let name1 = match name {
        Some(n) => if a.name.len() == 0 { n } else { a.name },
        None => a.name,
    };
    let (arguments1, pending1) = match args {
        Some(x) => if x.len() > 0 {
            (a.arguments + x, if !a.start_emitted && id1.len() > 0 { a.pending.push(x) } else { a.pending })
        } else {
            (a.arguments, a.pending)
        },
        None => (a.arguments, a.pending),
    };
    let ready = id1.len() > 0 && name1.len() > 0 && !a.start_emitted;
    AccView {
        id: id1,
        name: name1,
        arguments: arguments1,
        start_emitted: a.start_emitted || ready,
        pending: if ready { Seq::empty() } else { pending1 },
    }
}

/// What taking in the piece sends on: the argument piece itself once the call
/// started; the start (then every held-back piece) once id and name are known.
pub open spec fn absorb_emits(a: AccView, id: Option<Seq<char>>, name: Option<Seq<char>>, args: Option<Seq<char>>) -> Seq<EmitView> {
    let id1 = match id {
        Some(i) => if a.id.len() == 0 { i } else { a.id },
        None => a.id,
    };
    let name1 = match name {
        Some(n) => if a.name.len() == 0 { n } else { a.name },
        None => a.name,
    };
    let direct = match args {
        Some(x) => if x.len() > 0 && a.start_emitted {
            seq![EmitView::ToolCallArgsDelta(id1, x)]
        } else {
            Seq::empty()
        },
        None => Seq::empty(),
    };
    let pending1 = match args {
        Some(x) => if x.len() > 0 && !a.start_emitted && id1.len() > 0 { a.pending.push(x) } else { a.pending },
        None => a.pending,
    };
    let ready = id1.len() > 0 && name1.len() > 0 && !a.start_emitted;
    direct + if ready {
        seq![EmitView::ToolCallStart(id1, name1)] + pending1.map_values(|p: Seq<char>| EmitView::ToolCallArgsDelta(id1, p))
    } else {
        Seq::empty()
    }
}

/// The start of a call is sent at most once: once it was sent, no later
/// piece sends it again, and the call stays started.
pub proof fn lemma_start_sent_once(
    a: AccView,
    id: Option<Seq<char>>,
    name: Option<Seq<char>>,
    args: Option<Seq<char>>,
)
    requires
        a.start_emitted,
    ensures
        absorbed(a, id, name, args).start_emitted,
        forall|k: int| 0 <= k < absorb_emits(a, id, name, args).len() ==> !(#[trigger] absorb_emits(a, id, name, args)[k] is ToolCallStart),
{
}

/// Once the call's id is known, no argument piece is lost: after the start
/// it is sent on at once; before, it is held back; and when the start is
/// sent, every held piece follows it in arrival order and none stays held.
pub proof fn lemma_pieces_kept(a: AccView, id: Option<Seq<char>>, name: Option<Seq<char>>, piece: Seq<char>)
    requires
        piece.len() > 0,
        absorbed(a, id, name, Some(piece)).id.len() > 0,
    ensures
        ({
            let b = absorbed(a, id, name, Some(piece));
            let e = absorb_emits(a, id, name, Some(piece));
            &&& b.arguments == a.arguments + piece
            &&& a.start_emitted ==> e == seq![EmitView::ToolCallArgsDelta(b.id, piece)] && b.pending == a.pending
            &&& !a.start_emitted && !b.start_emitted ==> e.len() == 0 && b.pending == a.pending.push(piece)
            &&& !a.start_emitted && b.start_emitted ==> b.pending.len() == 0 && e == seq![EmitView::ToolCallStart(b.id, b.name)]
                + a.pending.push(piece).map_values(|p: Seq<char>| EmitView::ToolCallArgsDelta(b.id, p))
        }),
{
    let e = absorb_emits(a, id, name, Some(piece));
    if a.start_emitted {
        assert(e =~= seq![EmitView::ToolCallArgsDelta(absorbed(a, id, name, Some(piece)).id, piece)]);
    } else if !absorbed(a, id, name, Some(piece)).start_emitted {
        assert(e =~= Seq::<EmitView>::empty());
    } else {
        let b = absorbed(a, id, name, Some(piece));
        assert(e =~= seq![EmitView::ToolCallStart(b.id, b.name)] + a.pending.push(piece).map_values(
            |p: Seq<char>| EmitView::ToolCallArgsDelta(b.id, p),
        ));
    }
}

impl ToolCallAccumulator {
    /// Takes in one piece of the call; returns what to send on.
    pub fn absorb(&mut self, id: &Option<String>, name: &Option<String>, args: &Option<String>) -> (out: Vec<StreamEmit>)
        ensures
            final(self)@ == absorbed(old(self)@, crate::text::opt_text(*id), crate::text::opt_text(*name), crate::text::opt_text(*args)),
            emit_views(out@) == absorb_emits(old(self)@, crate::text::opt_text(*id), crate::text::opt_text(*name), crate::text::opt_text(*args)),
    {
        let ghost a = self@;
        let mut out: Vec<StreamEmit> = Vec::new();
        match id {
            Some(i) => {
                if self.id.unicode_len() == 0 {
                    self.id = i.clone();
                }
            },
            None => {},
        }
        match name {
            Some(n) => {
                if self.name.unicode_len() == 0 {
                    self.name = n.clone();
                }
            },
            None => {},
        }
        match args {
            Some(x) => {
                if x.unicode_len() > 0 {
                    self.arguments.append(x.as_str());
                    if self.start_emitted {
                        out.push(StreamEmit::ToolCallArgsDelta { id: self.id.clone(), delta: x.clone() });
                    } else if self.id.unicode_len() > 0 {
                        let ghost before = self.pending_deltas@;
                        self.pending_deltas.push(x.clone());
                        proof {
                            assert(crate::text::views(self.pending_deltas@) =~= crate::text::views(before).push(x@));
                        }
                    }
                }
            },
            None => {},
        }
        let ghost direct = out@;
        let ghost pend = self@.pending;
        if self.id.unicode_len() > 0 && self.name.unicode_len() > 0 && !self.start_emitted {
            out.push(StreamEmit::ToolCallStart { id: self.id.clone(), name: self.name.clone() });
            self.start_emitted = true;
            let ghost mid = self@;
            let mut k: usize = 0;
            while k < self.pending_deltas.len()
                invariant
                    k <= self.pending_deltas@.len(),
                    self@ == mid,
                    pend == crate::text::views(self.pending_deltas@),
                    out@.len() == direct.len() + 1 + k,
                    forall|q: int| 0 <= q < direct.len() ==> #[trigger] out@[q] == direct[q],
                    out@[direct.len() as int]@ == EmitView::ToolCallStart(self.id@, self.name@),
                    forall|q: int| 0 <= q < k ==> #[trigger] out@[direct.len() + 1 + q]@ == EmitView::ToolCallArgsDelta(self.id@, pend[q]),
                decreases self.pending_deltas@.len() - k,
            {
                out.push(StreamEmit::ToolCallArgsDelta { id: self.id.clone(), delta: self.pending_deltas[k].clone() });
                k = k + 1;
            }
            self.pending_deltas = Vec::new();
            proof {
                assert(crate::text::views(self.pending_deltas@) =~= Seq::<Seq<char>>::empty());
                let target = absorb_emits(a, crate::text::opt_text(*id), crate::text::opt_text(*name), crate::text::opt_text(*args));
                assert forall|q: int| 0 <= q < out@.len() implies #[trigger] emit_views(out@)[q] == target[q] by {
                    if q < direct.len() {
                        assert(out@[q] == direct[q]);
                    } else if q == direct.len() {
                    } else {
                        assert(out@[direct.len() + 1 + (q - direct.len() - 1)]@ == EmitView::ToolCallArgsDelta(self.id@, pend[q - direct.len() - 1]));
                    }
                }
                assert(emit_views(out@) =~= target);
            }
        } else {
            proof {
                assert(emit_views(out@) =~= absorb_emits(a, crate::text::opt_text(*id), crate::text::opt_text(*name), crate::text::opt_text(*args)));
            }
        }
        out
    }
}

} // verus!

verus! {

/// Models of indexed accumulators.
pub open spec fn acc_views(v: Seq<(u32, ToolCallAccumulator)>) -> Seq<(u32, AccView)> {
    v.map_values(|p: (u32, ToolCallAccumulator)| (p.0, p.1@))
}

/// Model of an empty accumulator.
pub open spec fn empty_acc() -> AccView {
    AccView {
        id: Seq::empty(),
        name: Seq::empty(),
        arguments: Seq::empty(),
        start_emitted: false,
        pending: Seq::empty(),
    }
}

/// Position of the first accumulator indexed at least `idx`, from `k` on.
pub open spec fn first_at_least(accs: Seq<(u32, AccView)>, idx: u32, k: nat) -> nat
    decreases accs.len() - k,
{
    if k >= accs.len() {
        accs.len()
    } else if accs[k as int].0 >= idx {
        k
    } else {
        first_at_least(accs, idx, k + 1)
    }
}

/// Whether the accumulators hold one for `idx` where it is looked up.
pub open spec fn has_slot(accs: Seq<(u32, AccView)>, idx: u32) -> bool {
    let p = first_at_least(accs, idx, 0);
    p < accs.len() && accs[p as int].0 == idx
}

/// The accumulators with one for `idx` (an empty one inserted in index order
/// when there is none).
pub open spec fn with_slot(accs: Seq<(u32, AccView)>, idx: u32) -> Seq<(u32, AccView)> {
    if has_slot(accs, idx) {
        accs
    } else {
        accs.insert(first_at_least(accs, idx, 0) as int, (idx, empty_acc()))
    }
}

/// The state of a streamed reply being read.
#[derive(Debug)]
pub struct StreamState {
    /// Text received.
    pub text: String,
    /// Reasoning received.
    pub reasoning: String,
    /// Whether any non-empty text piece came.
    pub has_content: bool,
    /// Whether any non-empty reasoning piece came.
    pub has_reasoning: bool,
    /// Tool calls being put together, in index order.
    pub accumulators: Vec<(u32, ToolCallAccumulator)>,
    /// Stream errors in a row.
    pub consecutive_errors: u32,
    /// The last stream error's text.
    pub last_error: String,
}

/// Model of a stream state.
pub struct StreamView {
    pub text: Seq<char>,
    pub reasoning: Seq<char>,
    pub has_content: bool,
    pub has_reasoning: bool,
    pub accs: Seq<(u32, AccView)>,
    pub consecutive_errors: u32,
    pub last_error: Seq<char>,
}

impl View for StreamState {
    type V = StreamView;

    open spec fn view(&self) -> StreamView {
        StreamView {
            text: self.text@,
            reasoning: self.reasoning@,
            has_content: self.has_content,
            has_reasoning: self.has_reasoning,
            accs: acc_views(self.accumulators@),
            consecutive_errors: self.consecutive_errors,
            last_error: self.last_error@,
        }
    }
}

/// The state after one tool-call piece, and what it sends on.
pub open spec fn after_delta(s: StreamView, d: ToolCallDelta) -> (StreamView, Seq<EmitView>) {
    let accs1 = with_slot(s.accs, d.index);
    let p = first_at_least(s.accs, d.index, 0) as int;
    let a = accs1[p].1;
    let id = crate::text::opt_text(d.id);
    let name = crate::text::opt_text(d.name);
    let args = crate::text::opt_text(d.arguments);
    (
        StreamView { accs: accs1.update(p, (d.index, absorbed(a, id, name, args))), ..s },
        absorb_emits(a, id, name, args),
    )
}

/// The state after the first `n` tool-call pieces, and what they send on.
pub open spec fn after_deltas(s: StreamView, ds: Seq<ToolCallDelta>, n: int) -> (StreamView, Seq<EmitView>)
    decreases n,
{
    if n <= 0 {
        (s, Seq::empty())
    } else {
        let (s1, e1) = after_deltas(s, ds, n - 1);
        let (s2, e2) = after_delta(s1, ds[n - 1]);
        (s2, e1 + e2)
    }
}

/// The state after a choice's text piece, and what it sends on.
pub open spec fn after_text(s: StreamView, c: ChunkDelta) -> (StreamView, Seq<EmitView>) {
    match c.content {
        Some(t) => if t@.len() > 0 {
            (StreamView { text: s.text + t@, has_content: true, ..s }, seq![EmitView::TextDelta(t@)])
        } else {
            (s, Seq::empty())
        },
        None => (s, Seq::empty()),
    }
}

/// The state after a choice's reasoning piece, and what it sends on.
pub open spec fn after_reasoning(s: StreamView, c: ChunkDelta) -> (StreamView, Seq<EmitView>) {
    match c.reasoning_content {
        Some(r) => if r@.len() > 0 {
            (StreamView { reasoning: s.reasoning + r@, has_reasoning: true, ..s }, seq![EmitView::ReasoningDelta(r@)])
        } else {
            (s, Seq::empty())
        },
        None => (s, Seq::empty()),
    }
}

/// The state after one choice's delta (text, then reasoning, then tool-call
/// pieces), and what it sends on.
pub open spec fn after_choice(s: StreamView, c: ChunkDelta) -> (StreamView, Seq<EmitView>) {
    let (s1, e1) = after_text(s, c);
    let (s2, e2) = after_reasoning(s1, c);
    match c.tool_calls {
        Some(ds) => {
            let (s3, e3) = after_deltas(s2, ds@, ds@.len() as int);
            (s3, e1 + e2 + e3)
        },
        None => (s2, e1 + e2),
    }
}

/// The state after the first `n` choices of a chunk, and what they send on.
pub open spec fn after_choices(s: StreamView, cs: Seq<ChunkDelta>, n: int) -> (StreamView, Seq<EmitView>)
    decreases n,
{
    if n <= 0 {
        (s, Seq::empty())
    } else {
        let (s1, e1) = after_choices(s, cs, n - 1);
        let (s2, e2) = after_choice(s1, cs[n - 1]);
        (s2, e1 + e2)
    }
}

/// The text piece of a choice (nothing when it has none).
pub open spec fn text_piece() -> spec_fn(ChunkDelta) -> Seq<char> {
    |c: ChunkDelta| match c.content {
        Some(t) => t@,
        None => Seq::empty(),
    }
}

/// The reasoning piece of a choice (nothing when it has none).
pub open spec fn reasoning_piece() -> spec_fn(ChunkDelta) -> Seq<char> {
    |c: ChunkDelta| match c.reasoning_content {
        Some(r) => r@,
        None => Seq::empty(),
    }
}

/// Tool-call pieces leave the text and the reasoning alone.
proof fn lemma_deltas_keep_text(s: StreamView, ds: Seq<ToolCallDelta>, n: int)
    ensures
        after_deltas(s, ds, n).0.text == s.text,
        after_deltas(s, ds, n).0.reasoning == s.reasoning,
    decreases n,
{
    if n > 0 {
        lemma_deltas_keep_text(s, ds, n - 1);
    }
}

/// Law: after the first `n` choices the reply's text is the text so far
/// followed by every choice's text piece, in order, none lost or repeated;
/// the same holds of the reasoning.
pub proof fn lemma_choices_append_text(s: StreamView, cs: Seq<ChunkDelta>, n: int)
    requires
        0 <= n <= cs.len(),
    ensures
        after_choices(s, cs, n).0.text == s.text + cs.take(n).map_values(text_piece()).flatten(),
        after_choices(s, cs, n).0.reasoning == s.reasoning + cs.take(n).map_values(reasoning_piece()).flatten(),
    decreases n,
{
    let ts = cs.take(n).map_values(text_piece());
    let rs = cs.take(n).map_values(reasoning_piece());
    ts.lemma_flatten_and_flatten_alt_are_equivalent();
    rs.lemma_flatten_and_flatten_alt_are_equivalent();
    if n == 0 {
        assert(ts =~= Seq::<Seq<char>>::empty());
        assert(rs =~= Seq::<Seq<char>>::empty());
        assert(s.text + Seq::<char>::empty() =~= s.text);
        assert(s.reasoning + Seq::<char>::empty() =~= s.reasoning);
    } else {
        lemma_choices_append_text(s, cs, n - 1);
        let ts0 = cs.take(n - 1).map_values(text_piece());
        let rs0 = cs.take(n - 1).map_values(reasoning_piece());
        ts0.lemma_flatten_and_flatten_alt_are_equivalent();
        rs0.lemma_flatten_and_flatten_alt_are_equivalent();
        assert(ts.drop_last() =~= ts0);
        assert(rs.drop_last() =~= rs0);
        let c = cs[n - 1];
        assert(ts.last() == text_piece()(c));
        assert(rs.last() == reasoning_piece()(c));
        let s1 = after_choices(s, cs, n - 1).0;
        let t1 = after_text(s1, c).0;
        let r1 = after_reasoning(t1, c).0;
        match c.tool_calls {
            Some(ds) => lemma_deltas_keep_text(r1, ds@, ds@.len() as int),
            None => {},
        }
        assert(after_choices(s, cs, n).0.text =~= s.text + ts.flatten());
        assert(after_choices(s, cs, n).0.reasoning =~= s.reasoning + rs.flatten());
    }
}

/// Position of the first accumulator indexed at least `idx`.
fn slot_position(accs: &Vec<(u32, ToolCallAccumulator)>, idx: u32) -> (k: usize)
    ensures
        k == first_at_least(acc_views(accs@), idx, 0),
{
    let ghost v = acc_views(accs@);
    let mut k: usize = 0;
    while k < accs.len()
        invariant
            k <= accs@.len(),
            v == acc_views(accs@),
            first_at_least(v, idx, 0) == first_at_least(v, idx, k as nat),
        decreases accs@.len() - k,
    {
        if accs[k].0 >= idx {
            return k;
        }
        k = k + 1;
    }
    k
}

/// A found position lies within the list.
proof fn lemma_first_at_least(accs: Seq<(u32, AccView)>, idx: u32, k: nat)
    ensures
        k <= accs.len() ==> k <= first_at_least(accs, idx, k) <= accs.len(),
    decreases accs.len() - k,
{
    if k < accs.len() && accs[k as int].0 < idx {
        lemma_first_at_least(accs, idx, k + 1);
    }
}

impl StreamState {
    /// Nothing received yet.
    pub fn new() -> (s: StreamState)
        ensures
            s@ == (StreamView {
                text: Seq::empty(),
                reasoning: Seq::empty(),
                has_content: false,
                has_reasoning: false,
                accs: Seq::empty(),
                consecutive_errors: 0,
                last_error: Seq::empty(),
            }),
    {
        let s = StreamState {
            text: String::new(),
            reasoning: String::new(),
            has_content: false,
            has_reasoning: false,
            accumulators: Vec::new(),
            consecutive_errors: 0,
            last_error: String::new(),
        };
        proof {
            assert(acc_views(s.accumulators@) =~= Seq::<(u32, AccView)>::empty());
        }
        s
    }

    /// Takes in one tool-call piece.
    fn take_delta(&mut self, d: &ToolCallDelta) -> (out: Vec<StreamEmit>)
        ensures
            (final(self)@, emit_views(out@)) == after_delta(old(self)@, *d),
    {
        let ghost s0 = self@;
        let p = slot_position(&self.accumulators, d.index);
        proof {
            lemma_first_at_least(s0.accs, d.index, 0);
        }
        let present = p < self.accumulators.len() && self.accumulators[p].0 == d.index;
        if !present {
            let ghost before = self.accumulators@;
            self.accumulators.insert(p, (d.index, ToolCallAccumulator::new()));
            proof {
                assert(acc_views(self.accumulators@) =~= acc_views(before).insert(p as int, (d.index, empty_acc())));
            }
        }
        let ghost before = self.accumulators@;
        let (idx, mut acc) = self.accumulators.remove(p);
        let out = acc.absorb(&d.id, &d.name, &d.arguments);
        let ghost absorbed_acc = acc;
        self.accumulators.insert(p, (idx, acc));
        proof {
            assert(self.accumulators@ =~= before.update(p as int, (idx, absorbed_acc)));
            assert(acc_views(self.accumulators@) =~= acc_views(before).update(p as int, (d.index, absorbed_acc@)));
        }
        out
    }

    /// Takes in one choice's delta; returns what to send on.
    fn take_choice(&mut self, c: &ChunkDelta) -> (out: Vec<StreamEmit>)
        ensures
            (final(self)@, emit_views(out@)) == after_choice(old(self)@, *c),
    {
        let mut out: Vec<StreamEmit> = Vec::new();
        match &c.content {
            Some(t) => {
                if t.unicode_len() > 0 {
                    self.has_content = true;
                    self.text.append(t.as_str());
                    out.push(StreamEmit::TextDelta(t.clone()));
                }
            },
            None => {},
        }
        match &c.reasoning_content {
            Some(r) => {
                if r.unicode_len() > 0 {
                    self.has_reasoning = true;
                    self.reasoning.append(r.as_str());
                    out.push(StreamEmit::ReasoningDelta(r.clone()));
                }
            },
            None => {},
        }
        proof {
            let (s1, e1) = after_text(old(self)@, *c);
            let (s2, e2) = after_reasoning(s1, *c);
            assert(self@ == s2);
            assert(emit_views(out@) =~= e1 + e2);
        }
        match &c.tool_calls {
            Some(ds) => {
                let ghost s2 = self@;
                let ghost e12 = emit_views(out@);
                let mut k: usize = 0;
                while k < ds.len()
                    invariant
                        k <= ds@.len(),
                        (self@, emit_views(out@)) == ({
                            let (sk, ek) = after_deltas(s2, ds@, k as int);
                            (sk, e12 + ek)
                        }),
                    decreases ds@.len() - k,
                {
                    let ghost prev_out = out@;
                    let more = self.take_delta(&ds[k]);
                    let mut m: usize = 0;
                    let ghost mid_out = out@;
                    while m < more.len()
                        invariant
                            m <= more@.len(),
                            out@ == mid_out + more@.take(m as int),
                        decreases more@.len() - m,
                    {
                        out.push(more[m].clone_emit());
                        proof {
                            assert(out@ =~= mid_out + more@.take(m + 1));
                        }
                        m = m + 1;
                    }
                    proof {
                        assert(more@.take(more@.len() as int) =~= more@);
                        assert(emit_views(out@) =~= emit_views(prev_out) + emit_views(more@));
                        let (sk, ek) = after_deltas(s2, ds@, k as int);
                        assert(emit_views(out@) =~= e12 + (ek + emit_views(more@)));
                    }
                    k = k + 1;
                }
            },
            None => {},
        }
        out
    }
}

impl StreamEmit {
    /// A copy of the notice.
    pub fn clone_emit(&self) -> (r: StreamEmit)
        ensures
            r == *self,
    {
        match self {
            StreamEmit::TextDelta(t) => StreamEmit::TextDelta(t.clone()),
            StreamEmit::ReasoningDelta(t) => StreamEmit::ReasoningDelta(t.clone()),
            StreamEmit::ToolCallStart { id, name } => StreamEmit::ToolCallStart { id: id.clone(), name: name.clone() },
            StreamEmit::ToolCallArgsDelta { id, delta } => StreamEmit::ToolCallArgsDelta { id: id.clone(), delta: delta.clone() },
        }
    }
}

} // verus!

verus! {

/// Most stream errors in a row before the reply is given up.
pub const MAX_STREAM_ERRORS: u32 = 5;

/// Text of the `n`-th stream error in a row (of at most `max`).
pub open spec fn stream_error_text(n: u32, max: u32, error: Seq<char>) -> Seq<char> {
    "Stream chunk error ("@ + decimal(n as nat) + "/"@ + decimal(max as nat) + "): "@ + error
}

/// The tool calls put together (those whose id is known), in index order.
pub open spec fn collected_calls(accs: Seq<(u32, AccView)>) -> Seq<(Seq<char>, Seq<char>, Seq<char>)>
    decreases accs.len(),
{
    if accs.len() == 0 {
        Seq::empty()
    } else {
        let rest = collected_calls(accs.drop_last());
        let a = accs.last().1;
        if a.id.len() > 0 {
            rest.push((a.id, a.name, a.arguments))
        } else {
            rest
        }
    }
}

/// Whether an accumulator has its id.
pub open spec fn has_id() -> spec_fn((u32, AccView)) -> bool {
    |p: (u32, AccView)| p.1.id.len() > 0
}

/// The call an accumulator stands for: id, name and argument text.
pub open spec fn call_of() -> spec_fn((u32, AccView)) -> (Seq<char>, Seq<char>, Seq<char>) {
    |p: (u32, AccView)| (p.1.id, p.1.name, p.1.arguments)
}

/// Law: the calls put together are one per accumulator whose id is known,
/// in accumulator order, each with its name and its argument text whatever
/// that text is (empty included); so there are as many calls as
/// accumulators with an id, and each of them is among the calls.
pub proof fn lemma_collected_calls_are_identified(accs: Seq<(u32, AccView)>)
    ensures
        collected_calls(accs) == accs.filter(has_id()).map_values(call_of()),
        collected_calls(accs).len() == accs.filter(has_id()).len(),
        forall|k: int|
            0 <= k < accs.len() && (#[trigger] accs[k]).1.id.len() > 0 ==> collected_calls(accs).contains(
                (accs[k].1.id, accs[k].1.name, accs[k].1.arguments),
            ),
    decreases accs.len(),
{
    let p = has_id();
    let f = call_of();
    if accs.len() == 0 {
        reveal(Seq::filter);
        assert(accs.filter(p).map_values(f) =~= Seq::empty());
    } else {
        let t = accs.drop_last();
        lemma_collected_calls_are_identified(t);
        assert(t.push(accs.last()) =~= accs);
        t.lemma_filter_push(accs.last(), p);
        if p(accs.last()) {
            assert(t.filter(p).push(accs.last()).map_values(f) =~= t.filter(p).map_values(f).push(f(accs.last())));
        }
    }
    let out = accs.filter(p).map_values(f);
    assert forall|k: int|
        0 <= k < accs.len() && (#[trigger] accs[k]).1.id.len() > 0 implies collected_calls(accs).contains(
            (accs[k].1.id, accs[k].1.name, accs[k].1.arguments),
        ) by {
        accs.lemma_filter_contains(p, k);
        let j = choose|j: int| 0 <= j < accs.filter(p).len() && accs.filter(p)[j] == accs[k];
        assert(out[j] == f(accs[k]));
    }
}

impl StreamState {
    /// Takes in a chunk (which ends a run of stream errors); returns what to
    /// send on, in order.
    pub fn take_chunk(&mut self, choices: &Vec<ChunkDelta>) -> (out: Vec<StreamEmit>)
        ensures
            ({
                let (s, e) = after_choices(
                    StreamView { consecutive_errors: 0, ..old(self)@ },
                    choices@,
                    choices@.len() as int,
                );
                final(self)@ == s && emit_views(out@) == e
            }),
    {
        self.consecutive_errors = 0;
        let ghost s0 = self@;
        let mut out: Vec<StreamEmit> = Vec::new();
        let mut k: usize = 0;
        while k < choices.len()
            invariant
                k <= choices@.len(),
                (self@, emit_views(out@)) == after_choices(s0, choices@, k as int),
            decreases choices@.len() - k,
        {
            let ghost prev_out = out@;
            let more = self.take_choice(&choices[k]);
            let ghost mid_out = out@;
            let mut m: usize = 0;
            while m < more.len()
                invariant
                    m <= more@.len(),
                    out@ == mid_out + more@.take(m as int),
                decreases more@.len() - m,
            {
                out.push(more[m].clone_emit());
                proof {
                    assert(out@ =~= mid_out + more@.take(m + 1));
                }
                m = m + 1;
            }
            proof {
                assert(more@.take(more@.len() as int) =~= more@);
                assert(emit_views(out@) =~= emit_views(prev_out) + emit_views(more@));
            }
            k = k + 1;
        }
        out
    }

    /// Takes in a stream error: counts it and keeps its text; returns whether
    /// the reply is to be given up (`max` errors in a row).
    pub fn process_stream_error(&mut self, error: &str, max: u32) -> (stop: bool)
        requires
            old(self).consecutive_errors < u32::MAX,
        ensures
            final(self)@ == (StreamView {
                consecutive_errors: (old(self).consecutive_errors + 1) as u32,
                last_error: stream_error_text((old(self).consecutive_errors + 1) as u32, max, error@),
                ..old(self)@
            }),
            stop == (old(self).consecutive_errors + 1 >= max),
    {
        self.consecutive_errors = self.consecutive_errors + 1;
        let mut msg = "Stream chunk error (".to_owned();
        msg.append(decimal_text(self.consecutive_errors as u64).as_str());
        msg.append("/");
        msg.append(decimal_text(max as u64).as_str());
        msg.append("): ");
        msg.append(error);
        self.last_error = msg;
        self.consecutive_errors >= max
    }

    /// The tool calls put together (id known), in index order.
    pub fn tool_calls(&self) -> (calls: Vec<ToolCall>)
        ensures
            calls@.map_values(|c: ToolCall| (c.id@, c.name@, c.arguments@)) == collected_calls(self@.accs),
    {
        let ghost v = self@.accs;
        let mut calls: Vec<ToolCall> = Vec::new();
        let mut i: usize = 0;
        while i < self.accumulators.len()
            invariant
                i <= self.accumulators@.len(),
                v == acc_views(self.accumulators@),
                calls@.map_values(|c: ToolCall| (c.id@, c.name@, c.arguments@)) == collected_calls(v.take(i as int)),
            decreases self.accumulators@.len() - i,
        {
            proof {
                assert(v.take(i + 1).drop_last() =~= v.take(i as int));
            }
            let acc = &self.accumulators[i].1;
            if acc.id.unicode_len() > 0 {
                let ghost before = calls@;
                calls.push(ToolCall { id: acc.id.clone(), name: acc.name.clone(), arguments: acc.arguments.clone() });
                proof {
                    assert(calls@.map_values(|c: ToolCall| (c.id@, c.name@, c.arguments@)) =~= before.map_values(
                        |c: ToolCall| (c.id@, c.name@, c.arguments@),
                    ).push((acc.id@, acc.name@, acc.arguments@)));
                }
            }
            i = i + 1;
        }
        proof {
            assert(v.take(v.len() as int) =~= v);
        }
        calls
    }
}

} // verus!
