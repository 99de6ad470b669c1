//! The service's table: the latest snapshot of each session and the
//! subscribers that are told of every change.
//!
//! There is one writer (the service loop); readers query it at any time.
//! A subscriber is registered together with the handle its updates go
//! through; the host delivers them and unregisters a subscriber whose
//! receiving end is gone.

use vstd::prelude::*;

use super::control::opt_snapshot;
use crate::text::chars_of;
use super::types::{filter_matches, RunSnapshot, RunSnapshotView, RunUpdate, SessionFilter};

verus! {

/// The map that a list of keyed entries stands for.
pub open spec fn keyed_map<K, V>(s: Seq<(K, V)>) -> Map<K, V>
    decreases s.len(),
{
    if s.len() == 0 {
        Map::empty()
    } else {
        keyed_map(s.drop_last()).insert(s.last().0, s.last().1)
    }
}

/// Whether no key occurs twice in a list of entries.
pub open spec fn keys_distinct<K, V>(s: Seq<(K, V)>) -> bool {
    forall|i: int, j: int| 0 <= i < j < s.len() ==> s[i].0 != s[j].0
}

/// A key is in the map exactly when an entry carries it.
pub proof fn lemma_keyed_map_has<K, V>(s: Seq<(K, V)>, k: K)
    ensures
        keyed_map(s).contains_key(k) <==> exists|i: int| 0 <= i < s.len() && s[i].0 == k,
    decreases s.len(),
{
    if s.len() > 0 {
        let t = s.drop_last();
        lemma_keyed_map_has(t, k);
        if keyed_map(s).contains_key(k) && s.last().0 != k {
            let i = choose|i: int| 0 <= i < t.len() && t[i].0 == k;
            assert(s[i].0 == k);
        }
        if exists|i: int| 0 <= i < s.len() && s[i].0 == k {
            let i = choose|i: int| 0 <= i < s.len() && s[i].0 == k;
            if i < s.len() - 1 {
                assert(t[i].0 == k);
            }
        }
    }
}

/// With distinct keys, each entry is what the map holds under its key.
pub proof fn lemma_keyed_map_at<K, V>(s: Seq<(K, V)>, i: int)
    requires
        keys_distinct(s),
        0 <= i < s.len(),
    ensures
        keyed_map(s).contains_key(s[i].0),
        keyed_map(s)[s[i].0] == s[i].1,
    decreases s.len(),
{
    if i < s.len() - 1 {
        let t = s.drop_last();
        assert(keys_distinct(t));
        lemma_keyed_map_at(t, i);
        assert(t[i] == s[i]);
        assert(s.last().0 != s[i].0);
    }
}

/// With distinct keys, dropping an entry drops its key from the map.
pub proof fn lemma_keyed_map_remove<K, V>(s: Seq<(K, V)>, i: int)
    requires
        keys_distinct(s),
        0 <= i < s.len(),
    ensures
        keyed_map(s.remove(i)) == keyed_map(s).remove(s[i].0),
        keys_distinct(s.remove(i)),
    decreases s.len(),
{
    let t = s.drop_last();
    assert(keys_distinct(t));
    if i == s.len() - 1 {
        assert(s.remove(i) =~= t);
        lemma_keyed_map_has(t, s[i].0);
        if t.len() > 0 && keyed_map(t).contains_key(s[i].0) {
            let j = choose|j: int| 0 <= j < t.len() && t[j].0 == s[i].0;
            assert(s[j].0 == s[i].0);
        }
        assert(keyed_map(s).remove(s[i].0) =~= keyed_map(t));
    } else {
        lemma_keyed_map_remove(t, i);
        assert(s.remove(i) =~= t.remove(i).push(s.last()));
        assert(s.remove(i).drop_last() =~= t.remove(i));
        assert(s.last().0 != s[i].0);
        assert(keyed_map(s.remove(i)) =~= keyed_map(s).remove(s[i].0));
    }
    assert forall|a: int, b: int| 0 <= a < b < s.remove(i).len() implies s.remove(i)[a].0
        != s.remove(i)[b].0 by {
        let a2 = if a < i { a } else { a + 1 };
        let b2 = if b < i { b } else { b + 1 };
        assert(s.remove(i)[a] == s[a2]);
        assert(s.remove(i)[b] == s[b2]);
    }
}

/// With distinct keys, the map has as many keys as there are entries.
pub proof fn lemma_keyed_map_len<K, V>(s: Seq<(K, V)>)
    requires
        keys_distinct(s),
    ensures
        keyed_map(s).dom().finite(),
        keyed_map(s).dom().len() == s.len(),
    decreases s.len(),
{
    if s.len() > 0 {
        let t = s.drop_last();
        assert(keys_distinct(t));
        lemma_keyed_map_len(t);
        lemma_keyed_map_has(t, s.last().0);
        if keyed_map(t).contains_key(s.last().0) {
            let j = choose|j: int| 0 <= j < t.len() && t[j].0 == s.last().0;
            assert(s[j].0 == s[s.len() - 1].0);
        }
        assert(keyed_map(s).dom() =~= keyed_map(t).dom().insert(s.last().0));
    }
}

/// The map after a write under key `k`: the written value, or no value when
/// the write deletes.
pub open spec fn written(
    m: Map<Seq<char>, RunSnapshotView>,
    k: Seq<char>,
    w: Option<RunSnapshotView>,
) -> Map<Seq<char>, RunSnapshotView> {
    match w {
        Some(v) => m.insert(k, v),
        None => m.remove(k),
    }
}

/// A read after a write gives back what was written (nothing after a
/// delete), and a write under one session leaves every other session as it was.
pub proof fn lemma_read_after_write(
    m: Map<Seq<char>, RunSnapshotView>,
    k: Seq<char>,
    w: Option<RunSnapshotView>,
    other: Seq<char>,
)
    ensures
        written(m, k, w).get(k) == w,
        other != k ==> written(m, k, w).get(other) == m.get(other),
{
}

/// The snapshots of a list of updates.
pub open spec fn update_views(s: Seq<RunUpdate>) -> Seq<RunSnapshotView> {
    s.map_values(|u: RunUpdate| u.snapshot@)
}

/// The snapshots, in order, of the entries whose own session id `filter` covers.
pub open spec fn matching_views(s: Seq<RunEntry>, filter: SessionFilter) -> Seq<RunSnapshotView>
    decreases s.len(),
{
    if s.len() == 0 {
        Seq::empty()
    } else if filter_matches(filter, s.last().snapshot@.session_id) {
        matching_views(s.drop_last(), filter).push(s.last().snapshot@)
    } else {
        matching_views(s.drop_last(), filter)
    }
}

/// A snapshot is among the matching ones exactly when a covered entry holds it.
pub proof fn lemma_matching_views_has(s: Seq<RunEntry>, filter: SessionFilter, v: RunSnapshotView)
    ensures
        matching_views(s, filter).contains(v) <==> exists|e: int| 0 <= e < s.len()
            && filter_matches(filter, s[e].snapshot@.session_id) && s[e].snapshot@ == v,
    decreases s.len(),
{
    if s.len() > 0 {
        let t = s.drop_last();
        lemma_matching_views_has(t, filter, v);
        let m = matching_views(s, filter);
        let mt = matching_views(t, filter);
        if m.contains(v) {
            let j = choose|j: int| 0 <= j < m.len() && m[j] == v;
            if j < mt.len() {
                assert(mt[j] == v);
                let e = choose|e: int| 0 <= e < t.len() && filter_matches(filter, t[e].snapshot@.session_id) && t[e].snapshot@ == v;
                assert(s[e] == t[e]);
            } else {
                assert(s[s.len() - 1].snapshot@ == v);
            }
        }
        if exists|e: int| 0 <= e < s.len() && filter_matches(filter, s[e].snapshot@.session_id) && s[e].snapshot@ == v {
            let e = choose|e: int| 0 <= e < s.len() && filter_matches(filter, s[e].snapshot@.session_id) && s[e].snapshot@ == v;
            if e < t.len() {
                assert(t[e] == s[e]);
                let j = choose|j: int| 0 <= j < mt.len() && mt[j] == v;
                assert(m[j] == v);
            } else {
                assert(m[m.len() - 1] == v);
            }
        }
    }
}

/// The numbers, in order, of the subscribers that cover `session`.
pub open spec fn matching_ids<S>(s: Seq<Subscription<S>>, session: Seq<char>) -> Seq<u64>
    decreases s.len(),
{
    if s.len() == 0 {
        Seq::empty()
    } else if filter_matches(s.last().filter, session) {
        matching_ids(s.drop_last(), session).push(s.last().id)
    } else {
        matching_ids(s.drop_last(), session)
    }
}

/// A number is among the matching ones exactly when a covering subscriber carries it.
pub proof fn lemma_matching_ids_has<S>(s: Seq<Subscription<S>>, session: Seq<char>, id: u64)
    ensures
        matching_ids(s, session).contains(id) <==> exists|j: int| 0 <= j < s.len() && s[j].id == id
            && filter_matches(s[j].filter, session),
    decreases s.len(),
{
    if s.len() > 0 {
        let t = s.drop_last();
        lemma_matching_ids_has(t, session, id);
        let m = matching_ids(s, session);
        let mt = matching_ids(t, session);
        if m.contains(id) {
            let j = choose|j: int| 0 <= j < m.len() && m[j] == id;
            if j < mt.len() {
                assert(mt[j] == id);
                let e = choose|e: int| 0 <= e < t.len() && t[e].id == id && filter_matches(t[e].filter, session);
                assert(s[e] == t[e]);
            } else {
                assert(s[s.len() - 1].id == id);
            }
        }
        if exists|e: int| 0 <= e < s.len() && s[e].id == id && filter_matches(s[e].filter, session) {
            let e = choose|e: int| 0 <= e < s.len() && s[e].id == id && filter_matches(s[e].filter, session);
            if e < t.len() {
                assert(t[e] == s[e]);
                let j = choose|j: int| 0 <= j < mt.len() && mt[j] == id;
                assert(m[j] == id);
            } else {
                assert(m[m.len() - 1] == id);
            }
        }
    }
}

/// With distinct subscriber numbers, no number is listed twice.
pub proof fn lemma_matching_ids_distinct<S>(s: Seq<Subscription<S>>, session: Seq<char>)
    requires
        keys_distinct(sub_pairs(s)),
    ensures
        matching_ids(s, session).no_duplicates(),
    decreases s.len(),
{
    if s.len() > 0 {
        let t = s.drop_last();
        assert(sub_pairs(t) =~= sub_pairs(s).drop_last());
        lemma_matching_ids_distinct(t, session);
        let last = s.last();
        if filter_matches(last.filter, session) {
            lemma_matching_ids_has(t, session, last.id);
            if matching_ids(t, session).contains(last.id) {
                let j = choose|j: int| 0 <= j < t.len() && t[j].id == last.id && filter_matches(t[j].filter, session);
                assert(sub_pairs(s)[j].0 == sub_pairs(s)[s.len() - 1].0);
            }
            let m = matching_ids(s, session);
            let mt = matching_ids(t, session);
            assert forall|a: int, b: int| 0 <= a < m.len() && 0 <= b < m.len() && a != b implies m[a] != m[b] by {
                if a < mt.len() && b < mt.len() {
                    assert(m[a] == mt[a] && m[b] == mt[b]);
                } else if a < mt.len() {
                    assert(m[a] == mt[a]);
                    assert(mt.contains(mt[a]));
                } else if b < mt.len() {
                    assert(m[b] == mt[b]);
                    assert(mt.contains(mt[b]));
                }
            }
        }
    }
}

/// Whether subscriber numbers rise along the list.
pub open spec fn ids_ascending<S>(s: Seq<Subscription<S>>) -> bool {
    forall|i: int, j: int| 0 <= i < j < s.len() ==> s[i].id < s[j].id
}

/// With numbers rising along the list, the matching numbers rise too.
pub proof fn lemma_matching_ids_ascending<S>(s: Seq<Subscription<S>>, session: Seq<char>)
    requires
        ids_ascending(s),
    ensures
        forall|a: int, b: int|
            0 <= a < b < matching_ids(s, session).len() ==> matching_ids(s, session)[a]
                < matching_ids(s, session)[b],
    decreases s.len(),
{
    if s.len() > 0 {
        let t = s.drop_last();
        lemma_matching_ids_ascending(t, session);
        let m = matching_ids(s, session);
        let mt = matching_ids(t, session);
        if filter_matches(s.last().filter, session) {
            assert forall|a: int, b: int| 0 <= a < b < m.len() implies m[a] < m[b] by {
                if b < mt.len() {
                    assert(m[a] == mt[a] && m[b] == mt[b]);
                } else {
                    assert(m[a] == mt[a]);
                    assert(mt.contains(mt[a]));
                    lemma_matching_ids_has(t, session, mt[a]);
                    let j = choose|j: int| 0 <= j < t.len() && t[j].id == mt[a]
                        && filter_matches(t[j].filter, session);
                    assert(s[j] == t[j]);
                }
            }
        }
    }
}

/// Whether text `a` sorts strictly before text `b`: at the first character
/// where they differ the smaller one wins, and a proper prefix comes first.
pub open spec fn text_before(a: Seq<char>, b: Seq<char>) -> bool
    decreases a.len(),
{
    if b.len() == 0 {
        false
    } else if a.len() == 0 {
        true
    } else if a[0] != b[0] {
        (a[0] as u32) < (b[0] as u32)
    } else {
        text_before(a.drop_first(), b.drop_first())
    }
}

/// The text order is transitive.
pub proof fn lemma_text_before_trans(a: Seq<char>, b: Seq<char>, c: Seq<char>)
    requires
        text_before(a, b),
        text_before(b, c),
    ensures
        text_before(a, c),
    decreases a.len(),
{
    if a.len() > 0 && a[0] == b[0] && b[0] == c[0] {
        lemma_text_before_trans(a.drop_first(), b.drop_first(), c.drop_first());
    }
}

/// The text order is asymmetric.
pub proof fn lemma_text_before_asym(a: Seq<char>, b: Seq<char>)
    requires
        text_before(a, b),
    ensures
        !text_before(b, a),
    decreases a.len(),
{
    if a.len() > 0 && a[0] == b[0] {
        lemma_text_before_asym(a.drop_first(), b.drop_first());
    }
}

/// Whether snapshot `x` is listed before `y`: earlier start first, and on the
/// same start the smaller session id first.
pub open spec fn run_before(x: RunSnapshotView, y: RunSnapshotView) -> bool {
    x.started_at_ms < y.started_at_ms || (x.started_at_ms == y.started_at_ms && text_before(
        x.session_id,
        y.session_id,
    ))
}

/// The listing order is transitive and asymmetric.
pub proof fn lemma_run_before(x: RunSnapshotView, y: RunSnapshotView, z: RunSnapshotView)
    ensures
        run_before(x, y) && run_before(y, z) ==> run_before(x, z),
        run_before(x, y) ==> !run_before(y, x),
{
    if run_before(x, y) && run_before(y, z) && x.started_at_ms == y.started_at_ms
        && y.started_at_ms == z.started_at_ms {
        lemma_text_before_trans(x.session_id, y.session_id, z.session_id);
    }
    if run_before(x, y) && x.started_at_ms == y.started_at_ms {
        lemma_text_before_asym(x.session_id, y.session_id);
    }
}

/// Whether text `a` sorts strictly before text `b`.
pub fn text_less(a: &String, b: &String) -> (r: bool)
    ensures
        r == text_before(a@, b@),
{
    let x = chars_of(a.as_str());
    let y = chars_of(b.as_str());
    let mut i: usize = 0;
    proof {
        assert(x@.skip(0) =~= x@);
        assert(y@.skip(0) =~= y@);
    }
    while i < x.len() && i < y.len()
        invariant
            i <= x@.len(),
            i <= y@.len(),
            text_before(x@, y@) == text_before(x@.skip(i as int), y@.skip(i as int)),
            x@ == a@,
            y@ == b@,
        decreases x@.len() - i,
    {
        if x[i] != y[i] {
            proof {
                assert(x@.skip(i as int)[0] == x@[i as int]);
                assert(y@.skip(i as int)[0] == y@[i as int]);
                assert(x@.skip(i as int)[0] != y@.skip(i as int)[0]);
                assert(text_before(x@.skip(i as int), y@.skip(i as int)) == ((x@[i as int] as u32) < (y@[i as int] as u32)));
            }
            let cx = x[i] as u32;
            let cy = y[i] as u32;
            assert(cx == (x@[i as int] as u32));
            assert(cy == (y@[i as int] as u32));
            assert(text_before(x@, y@) == (cx < cy));
            return cx < cy;
        }
        proof {
            assert(x@.skip(i as int).drop_first() =~= x@.skip(i + 1));
            assert(y@.skip(i as int).drop_first() =~= y@.skip(i + 1));
        }
        i = i + 1;
    }
    i < y.len()
}

/// Whether snapshot `x` is listed before `y`.
pub fn listed_before(x: &RunSnapshot, y: &RunSnapshot) -> (r: bool)
    ensures
        r == run_before(x@, y@),
{
    if x.started_at_ms != y.started_at_ms {
        x.started_at_ms < y.started_at_ms
    } else {
        text_less(&x.session_id, &y.session_id)
    }
}

/// Whether some session's snapshot is `v`.
pub open spec fn held(m: Map<Seq<char>, RunSnapshotView>, v: RunSnapshotView) -> bool {
    exists|k: Seq<char>| #[trigger] m.contains_key(k) && m[k] == v
}

/// The snapshots of a list.
pub open spec fn snapshot_views(s: Seq<RunSnapshot>) -> Seq<RunSnapshotView> {
    s.map_values(|r: RunSnapshot| r@)
}

/// The snapshots of a list of entries.
pub open spec fn entry_views(s: Seq<RunEntry>) -> Seq<RunSnapshotView> {
    s.map_values(|e: RunEntry| e.snapshot@)
}

/// Once a subscriber is unregistered it is told of no change to any session,
/// and unregistering it again finds nothing.
pub proof fn lemma_unsubscribed_hears_nothing<S>(
    subs: Map<u64, (SessionFilter, S)>,
    id: u64,
    session: Seq<char>,
)
    ensures
        !receives(subs.remove(id), id, session),
        !subs.remove(id).contains_key(id),
{
}

/// A session's stored snapshot, under the key it was written with.
pub struct RunEntry {
    pub key: String,
    pub snapshot: RunSnapshot,
}

/// A subscriber: its number, the sessions it covers, and the handle its
/// updates are delivered through.
pub struct Subscription<S> {
    pub id: u64,
    pub filter: SessionFilter,
    pub sink: S,
}

/// The latest snapshot of each session, and the subscribers.
pub struct RunStore<S> {
    entries: Vec<RunEntry>,
    subs: Vec<Subscription<S>>,
    /// The last subscriber number handed out (numbers start at 1).
    issued: u64,
}

/// Model of the table: snapshots by session, subscribers by number.
pub struct RunStoreView<S> {
    pub runs: Map<Seq<char>, RunSnapshotView>,
    pub subs: Map<u64, (SessionFilter, S)>,
    pub issued: u64,
}

/// The keyed entries of the snapshot list.
pub open spec fn entry_pairs(s: Seq<RunEntry>) -> Seq<(Seq<char>, RunSnapshotView)> {
    s.map_values(|e: RunEntry| (e.key@, e.snapshot@))
}

/// The keyed entries of the subscriber list.
pub open spec fn sub_pairs<S>(s: Seq<Subscription<S>>) -> Seq<(u64, (SessionFilter, S))> {
    s.map_values(|x: Subscription<S>| (x.id, (x.filter, x.sink)))
}

/// Whether subscriber `id` is told of changes to `session`.
pub open spec fn receives<S>(subs: Map<u64, (SessionFilter, S)>, id: u64, session: Seq<char>) -> bool {
    subs.contains_key(id) && filter_matches(subs[id].0, session)
}

impl<S> View for RunStore<S> {
    type V = RunStoreView<S>;

    closed spec fn view(&self) -> RunStoreView<S> {
        RunStoreView {
            runs: keyed_map(entry_pairs(self.entries@)),
            subs: keyed_map(sub_pairs(self.subs@)),
            issued: self.issued,
        }
    }
}

impl<S> RunStore<S> {
    /// Well-formedness: one entry per session, one per subscriber number,
    /// numbers rising in the order of registration, and no number above the
    /// last one handed out.
    pub closed spec fn wf(&self) -> bool {
        &&& keys_distinct(entry_pairs(self.entries@))
        &&& keys_distinct(sub_pairs(self.subs@))
        &&& forall|i: int| 0 <= i < self.subs@.len() ==> self.subs@[i].id <= self.issued
        &&& ids_ascending(self.subs@)
    }

    /// The snapshot stored under `k`, as it is held.
    pub closed spec fn stored(&self, k: Seq<char>) -> Option<RunSnapshot> {
        if exists|i: int| 0 <= i < self.entries@.len() && self.entries@[i].key@ == k {
            Some(
                self.entries@[choose|i: int|
                    0 <= i < self.entries@.len() && self.entries@[i].key@ == k].snapshot,
            )
        } else {
            None
        }
    }

    /// An empty table.
    pub fn new() -> (r: RunStore<S>)
        ensures
            r.wf(),
            r@.runs == Map::<Seq<char>, RunSnapshotView>::empty(),
            r@.subs == Map::<u64, (SessionFilter, S)>::empty(),
            r@.issued == 0,
    {
        let r = RunStore { entries: Vec::new(), subs: Vec::new(), issued: 0 };
        proof {
            assert(entry_pairs(r.entries@) =~= Seq::empty());
            assert(sub_pairs(r.subs@) =~= Seq::empty());
        }
        r
    }

    /// Position of the entry of session `key`, if there is one.
    fn position(&self, key: &str) -> (r: Option<usize>)
        requires
            self.wf(),
        ensures
            match r {
                Some(i) => i < self.entries@.len() && self.entries@[i as int].key@ == key@,
                None => forall|i: int| 0 <= i < self.entries@.len() ==> self.entries@[i].key@ != key@,
            },
    {
        let wanted = key.to_owned();
        let mut i: usize = 0;
        while i < self.entries.len()
            invariant
                i <= self.entries@.len(),
                wanted@ == key@,
                forall|j: int| 0 <= j < i ==> self.entries@[j].key@ != key@,
            decreases self.entries@.len() - i,
        {
            if self.entries[i].key == wanted {
                return Some(i);
            }
            i = i + 1;
        }
        None
    }

    /// The stored snapshot of entry `i` is what the model holds under its key.
    proof fn lemma_entry(&self, i: int)
        requires
            self.wf(),
            0 <= i < self.entries@.len(),
        ensures
            self@.runs.contains_key(self.entries@[i].key@),
            self@.runs[self.entries@[i].key@] == self.entries@[i].snapshot@,
            self.stored(self.entries@[i].key@) == Some(self.entries@[i].snapshot),
    {
        let pairs = entry_pairs(self.entries@);
        lemma_keyed_map_at(pairs, i);
        assert(pairs[i] == (self.entries@[i].key@, self.entries@[i].snapshot@));
        let k = self.entries@[i].key@;
        assert forall|j: int| 0 <= j < self.entries@.len() && self.entries@[j].key@ == k implies j
            == i by {
            assert(pairs[j] == (self.entries@[j].key@, self.entries@[j].snapshot@));
            if j != i {
                assert(pairs[j].0 == pairs[i].0);
            }
        }
    }

    /// A session without an entry is absent from the model.
    proof fn lemma_absent(&self, k: Seq<char>)
        requires
            self.wf(),
            forall|i: int| 0 <= i < self.entries@.len() ==> self.entries@[i].key@ != k,
        ensures
            !self@.runs.contains_key(k),
            self.stored(k) is None,
    {
        let pairs = entry_pairs(self.entries@);
        lemma_keyed_map_has(pairs, k);
        if self@.runs.contains_key(k) {
            let j = choose|j: int| 0 <= j < pairs.len() && pairs[j].0 == k;
            assert(self.entries@[j].key@ == k);
        }
    }

    /// The current snapshot of a session (a copy); `None` for an unknown session.
    pub fn snapshot(&self, session_id: &str) -> (r: Option<RunSnapshot>)
        requires
            self.wf(),
        ensures
            opt_snapshot(r) == self@.runs.get(session_id@),
    {
        match self.position(session_id) {
            Some(i) => {
                proof {
                    self.lemma_entry(i as int);
                }
                Some(self.entries[i].snapshot.duplicate())
            },
            None => {
                proof {
                    self.lemma_absent(session_id@);
                }
                None
            },
        }
    }

    /// Rewrites a session's snapshot as a whole and returns the new value.
    ///
    /// `mutate` receives the current snapshot (`None` for an unknown
    /// session); returning `None` deletes the session's entry.
    pub fn update<F>(&mut self, session_id: &str, mutate: F) -> (r: Option<RunSnapshot>) where
        F: FnOnce(Option<RunSnapshot>) -> Option<RunSnapshot>,

        requires
            old(self).wf(),
            forall|c: Option<RunSnapshot>| call_requires(mutate, (c,)),
        ensures
            final(self).wf(),
            opt_snapshot(old(self).stored(session_id@)) == old(self)@.runs.get(session_id@),
            call_ensures(mutate, (old(self).stored(session_id@),), r),
            final(self)@.runs == written(old(self)@.runs, session_id@, opt_snapshot(r)),
            final(self)@.subs == old(self)@.subs,
            final(self)@.issued == old(self)@.issued,
    {
        let ghost before = *self;
        let current = match self.position(session_id) {
            Some(i) => {
                proof {
                    self.lemma_entry(i as int);
                    lemma_keyed_map_remove(entry_pairs(self.entries@), i as int);
                    assert(entry_pairs(self.entries@).remove(i as int) =~= entry_pairs(
                        self.entries@.remove(i as int),
                    ));
                }
                let entry = self.entries.remove(i);
                Some(entry.snapshot)
            },
            None => {
                proof {
                    self.lemma_absent(session_id@);
                    assert(self@.runs.remove(session_id@) =~= self@.runs);
                }
                None
            },
        };
        assert(current == before.stored(session_id@));
        assert(self@.runs == before@.runs.remove(session_id@));
        let next = mutate(current);
        match next {
            Some(snapshot) => {
                let ghost mid = self.entries@;
                let copy = snapshot.duplicate();
                self.entries.push(RunEntry { key: session_id.to_owned(), snapshot: copy });
                proof {
                    let pairs = entry_pairs(self.entries@);
                    assert(pairs.drop_last() =~= entry_pairs(mid));
                    lemma_keyed_map_has(entry_pairs(mid), session_id@);
                    assert forall|a: int, b: int| 0 <= a < b < pairs.len() implies pairs[a].0
                        != pairs[b].0 by {
                        if b == pairs.len() - 1 {
                            assert(pairs[a] == entry_pairs(mid)[a]);
                        } else {
                            assert(pairs[a] == entry_pairs(mid)[a]);
                            assert(pairs[b] == entry_pairs(mid)[b]);
                        }
                    }
                    assert(self@.runs =~= before@.runs.insert(session_id@, snapshot@));
                }
                Some(snapshot)
            },
            None => None,
        }
    }

    /// Position of subscriber `id`, if it is registered.
    fn sub_position(&self, id: u64) -> (r: Option<usize>)
        requires
            self.wf(),
        ensures
            match r {
                Some(i) => i < self.subs@.len() && self.subs@[i as int].id == id,
                None => forall|i: int| 0 <= i < self.subs@.len() ==> self.subs@[i].id != id,
            },
    {
        let mut i: usize = 0;
        while i < self.subs.len()
            invariant
                i <= self.subs@.len(),
                forall|j: int| 0 <= j < i ==> self.subs@[j].id != id,
            decreases self.subs@.len() - i,
        {
            if self.subs[i].id == id {
                return Some(i);
            }
            i = i + 1;
        }
        None
    }

    /// Subscriber entry `i` is what the model holds under its number.
    proof fn lemma_sub(&self, i: int)
        requires
            self.wf(),
            0 <= i < self.subs@.len(),
        ensures
            self@.subs.contains_key(self.subs@[i].id),
            self@.subs[self.subs@[i].id] == (self.subs@[i].filter, self.subs@[i].sink),
    {
        let pairs = sub_pairs(self.subs@);
        lemma_keyed_map_at(pairs, i);
        assert(pairs[i] == (self.subs@[i].id, (self.subs@[i].filter, self.subs@[i].sink)));
    }

    /// A number without an entry is not registered.
    proof fn lemma_sub_absent(&self, id: u64)
        requires
            self.wf(),
            forall|i: int| 0 <= i < self.subs@.len() ==> self.subs@[i].id != id,
        ensures
            !self@.subs.contains_key(id),
    {
        let pairs = sub_pairs(self.subs@);
        lemma_keyed_map_has(pairs, id);
        if self@.subs.contains_key(id) {
            let j = choose|j: int| 0 <= j < pairs.len() && pairs[j].0 == id;
            assert(self.subs@[j].id == id);
        }
    }

    /// The updates that a new subscriber with `filter` is sent at once: the
    /// current snapshot of every session it covers (by the snapshot's own
    /// session id).
    fn replay(&self, filter: &SessionFilter) -> (r: Vec<RunUpdate>)
        requires
            self.wf(),
        ensures
            forall|j: int| #![trigger r@[j]] 0 <= j < r@.len() ==> {
                &&& filter_matches(*filter, r@[j].session_id@)
                &&& r@[j].session_id@ == r@[j].snapshot@.session_id
                &&& exists|k: Seq<char>| #[trigger] self@.runs.contains_key(k) && self@.runs[k] == r@[j].snapshot@
            },
            forall|k: Seq<char>| #[trigger] self@.runs.contains_key(k) && filter_matches(*filter, self@.runs[k].session_id)
                ==> exists|j: int| 0 <= j < r@.len() && r@[j].snapshot@ == self@.runs[k],
    {
        let mut out: Vec<RunUpdate> = Vec::new();
        let mut i: usize = 0;
        while i < self.entries.len()
            invariant
                i <= self.entries@.len(),
                update_views(out@) == matching_views(self.entries@.take(i as int), *filter),
                forall|j: int| #![trigger out@[j]] 0 <= j < out@.len() ==> filter_matches(*filter, out@[j].session_id@)
                    && out@[j].session_id@ == out@[j].snapshot@.session_id,
            decreases self.entries@.len() - i,
        {
            let snapshot = &self.entries[i].snapshot;
            proof {
                assert(self.entries@.take(i + 1).drop_last() =~= self.entries@.take(i as int));
            }
            if filter.matches(snapshot.session_id.as_str()) {
                let ghost prev = out@;
                out.push(RunUpdate { session_id: snapshot.session_id.clone(), snapshot: snapshot.duplicate() });
                proof {
                    assert(update_views(out@) =~= update_views(prev).push(self.entries@[i as int].snapshot@));
                    assert forall|j: int| #![trigger out@[j]] 0 <= j < out@.len() implies filter_matches(*filter, out@[j].session_id@)
                        && out@[j].session_id@ == out@[j].snapshot@.session_id by {
                        if j < prev.len() {
                            assert(out@[j] == prev[j]);
                        }
                    }
                }
            }
            i = i + 1;
        }
        proof {
            assert(self.entries@.take(self.entries@.len() as int) =~= self.entries@);
            let mv = matching_views(self.entries@, *filter);
            assert forall|j: int| #![trigger out@[j]] 0 <= j < out@.len() implies exists|k: Seq<char>|
                #[trigger] self@.runs.contains_key(k) && self@.runs[k] == out@[j].snapshot@ by {
                assert(update_views(out@)[j] == out@[j].snapshot@);
                lemma_matching_views_has(self.entries@, *filter, out@[j].snapshot@);
                assert(mv[j] == out@[j].snapshot@);
                let e = choose|e: int| 0 <= e < self.entries@.len() && filter_matches(*filter, self.entries@[e].snapshot@.session_id)
                    && self.entries@[e].snapshot@ == out@[j].snapshot@;
                self.lemma_entry(e);
            }
            assert forall|k: Seq<char>| #[trigger] self@.runs.contains_key(k) && filter_matches(*filter, self@.runs[k].session_id)
                implies exists|j: int| 0 <= j < out@.len() && out@[j].snapshot@ == self@.runs[k] by {
                let pairs = entry_pairs(self.entries@);
                lemma_keyed_map_has(pairs, k);
                let e = choose|e: int| 0 <= e < pairs.len() && pairs[e].0 == k;
                self.lemma_entry(e);
                assert(self.entries@[e].key@ == k);
                lemma_matching_views_has(self.entries@, *filter, self@.runs[k]);
                let j = choose|j: int| 0 <= j < mv.len() && mv[j] == self@.runs[k];
                assert(update_views(out@)[j] == out@[j].snapshot@);
            }
        }
        out
    }

    /// Registers a subscriber and returns its number together with the
    /// current snapshot of every session it covers, to be sent to it at once.
    pub fn subscribe(&mut self, filter: SessionFilter, sink: S) -> (r: (u64, Vec<RunUpdate>))
        requires
            old(self).wf(),
            old(self)@.issued < u64::MAX,
        ensures
            final(self).wf(),
            r.0 == old(self)@.issued + 1,
            !old(self)@.subs.contains_key(r.0),
            final(self)@.subs == old(self)@.subs.insert(r.0, (filter, sink)),
            final(self)@.subs.dom().finite(),
            final(self)@.subs.dom().len() == old(self)@.subs.dom().len() + 1,
            final(self)@.issued == r.0,
            final(self)@.runs == old(self)@.runs,
            forall|j: int| 0 <= j < r.1@.len() ==> {
                &&& filter_matches(filter, r.1@[j].session_id@)
                &&& r.1@[j].session_id@ == r.1@[j].snapshot@.session_id
                &&& exists|k: Seq<char>| #[trigger] old(self)@.runs.contains_key(k) && old(self)@.runs[k] == r.1@[j].snapshot@
            },
            forall|k: Seq<char>| #[trigger] old(self)@.runs.contains_key(k) && filter_matches(filter, old(self)@.runs[k].session_id)
                ==> exists|j: int| 0 <= j < r.1@.len() && r.1@[j].snapshot@ == old(self)@.runs[k],
    {
        let updates = self.replay(&filter);
        let id = self.issued + 1;
        proof {
            if self@.subs.contains_key(id) {
                let pairs = sub_pairs(self.subs@);
                lemma_keyed_map_has(pairs, id);
                let j = choose|j: int| 0 <= j < pairs.len() && pairs[j].0 == id;
                assert(self.subs@[j].id == id);
            }
        }
        let ghost prev = self.subs@;
        self.subs.push(Subscription { id, filter, sink });
        self.issued = id;
        proof {
            let pairs = sub_pairs(self.subs@);
            assert(pairs.drop_last() =~= sub_pairs(prev));
            assert forall|a: int, b: int| 0 <= a < b < pairs.len() implies pairs[a].0 != pairs[b].0 by {
                assert(pairs[a] == sub_pairs(prev)[a]);
                if b < pairs.len() - 1 {
                    assert(pairs[b] == sub_pairs(prev)[b]);
                } else {
                    assert(prev[a].id <= id - 1);
                }
            }
            assert forall|a: int, b: int| 0 <= a < b < self.subs@.len() implies self.subs@[a].id
                < self.subs@[b].id by {
                assert(self.subs@[a] == prev[a]);
                if b < self.subs@.len() - 1 {
                    assert(self.subs@[b] == prev[b]);
                }
            }
            lemma_keyed_map_len(sub_pairs(prev));
            lemma_keyed_map_len(pairs);
        }
        (id, updates)
    }

    /// Unregisters subscriber `id`; whether it was registered (a second call
    /// answers `false`).
    pub fn unsubscribe(&mut self, id: u64) -> (r: bool)
        requires
            old(self).wf(),
        ensures
            final(self).wf(),
            r == old(self)@.subs.contains_key(id),
            final(self)@.subs == old(self)@.subs.remove(id),
            final(self)@.subs.dom().finite(),
            final(self)@.subs.dom().len() == if r {
                old(self)@.subs.dom().len() - 1
            } else {
                old(self)@.subs.dom().len() as int
            },
            final(self)@.runs == old(self)@.runs,
            final(self)@.issued == old(self)@.issued,
    {
        match self.sub_position(id) {
            Some(i) => {
                proof {
                    self.lemma_sub(i as int);
                    lemma_keyed_map_remove(sub_pairs(self.subs@), i as int);
                    assert(sub_pairs(self.subs@).remove(i as int) =~= sub_pairs(self.subs@.remove(i as int)));
                    lemma_keyed_map_len(sub_pairs(self.subs@));
                    lemma_keyed_map_len(sub_pairs(self.subs@.remove(i as int)));
                }
                let ghost prev = self.subs@;
                let _gone = self.subs.remove(i);
                proof {
                    assert forall|a: int, b: int| 0 <= a < b < self.subs@.len() implies self.subs@[a].id
                        < self.subs@[b].id by {
                        let a2 = if a < i { a } else { a + 1 };
                        let b2 = if b < i { b } else { b + 1 };
                        assert(self.subs@[a] == prev[a2]);
                        assert(self.subs@[b] == prev[b2]);
                    }
                }
                true
            },
            None => {
                proof {
                    self.lemma_sub_absent(id);
                    assert(self@.subs.remove(id) =~= self@.subs);
                    lemma_keyed_map_len(sub_pairs(self.subs@));
                }
                false
            },
        }
    }

    /// The subscribers to be told of a change to `session_id`, in the order
    /// they registered (numbers are handed out rising, so that order is
    /// ascending by number).
    pub fn recipients(&self, session_id: &str) -> (r: Vec<u64>)
        requires
            self.wf(),
        ensures
            forall|id: u64| r@.contains(id) <==> receives(self@.subs, id, session_id@),
            r@.no_duplicates(),
            forall|a: int, b: int| 0 <= a < b < r@.len() ==> r@[a] < r@[b],
    {
        let mut out: Vec<u64> = Vec::new();
        let mut i: usize = 0;
        while i < self.subs.len()
            invariant
                i <= self.subs@.len(),
                out@ == matching_ids(self.subs@.take(i as int), session_id@),
            decreases self.subs@.len() - i,
        {
            proof {
                assert(self.subs@.take(i + 1).drop_last() =~= self.subs@.take(i as int));
            }
            if self.subs[i].filter.matches(session_id) {
                out.push(self.subs[i].id);
            }
            i = i + 1;
        }
        proof {
            assert(self.subs@.take(self.subs@.len() as int) =~= self.subs@);
            lemma_matching_ids_distinct(self.subs@, session_id@);
            lemma_matching_ids_ascending(self.subs@, session_id@);
            assert forall|id: u64| out@.contains(id) <==> receives(self@.subs, id, session_id@) by {
                lemma_matching_ids_has(self.subs@, session_id@, id);
                if out@.contains(id) {
                    let j = choose|j: int| 0 <= j < self.subs@.len() && self.subs@[j].id == id
                        && filter_matches(self.subs@[j].filter, session_id@);
                    self.lemma_sub(j);
                }
                if receives(self@.subs, id, session_id@) {
                    let pairs = sub_pairs(self.subs@);
                    lemma_keyed_map_has(pairs, id);
                    let j = choose|j: int| 0 <= j < pairs.len() && pairs[j].0 == id;
                    self.lemma_sub(j);
                    assert(self.subs@[j].id == id);
                }
            }
        }
        out
    }

    /// The delivery handle of subscriber `id`, if it is registered.
    pub fn sink(&self, id: u64) -> (r: Option<&S>)
        requires
            self.wf(),
        ensures
            match r {
                Some(s) => self@.subs.contains_key(id) && *s == self@.subs[id].1,
                None => !self@.subs.contains_key(id),
            },
    {
        match self.sub_position(id) {
            Some(i) => {
                proof {
                    self.lemma_sub(i as int);
                }
                Some(&self.subs[i].sink)
            },
            None => {
                proof {
                    self.lemma_sub_absent(id);
                }
                None
            },
        }
    }

    /// Every session's snapshot (copies), earliest start first; on the same
    /// start, by session id.
    pub fn snapshots(&self) -> (r: Vec<RunSnapshot>)
        requires
            self.wf(),
        ensures
            r@.len() == self@.runs.dom().len(),
            forall|j: int| 0 <= j < r@.len() ==> held(self@.runs, #[trigger] r@[j]@),
            forall|k: Seq<char>| #[trigger] self@.runs.contains_key(k) ==> exists|j: int|
                0 <= j < r@.len() && r@[j]@ == self@.runs[k],
            forall|a: int, b: int| 0 <= a < b < r@.len() ==> !run_before(#[trigger] r@[b]@, #[trigger] r@[a]@),
    {
        let mut out: Vec<RunSnapshot> = Vec::new();
        proof {
            assert(entry_views(self.entries@.take(0)) =~= Seq::<RunSnapshotView>::empty());
            assert(snapshot_views(out@) =~= Seq::<RunSnapshotView>::empty());
        }
        let mut idx: usize = 0;
        while idx < self.entries.len()
            invariant
                idx <= self.entries@.len(),
                snapshot_views(out@).to_multiset() == entry_views(self.entries@.take(idx as int)).to_multiset(),
                forall|a: int, b: int| 0 <= a < b < out@.len() ==> !run_before(#[trigger] out@[b]@, #[trigger] out@[a]@),
            decreases self.entries@.len() - idx,
        {
            let next = &self.entries[idx].snapshot;
            let mut p: usize = 0;
            while p < out.len() && !listed_before(next, &out[p])
                invariant
                    p <= out@.len(),
                    forall|q: int| 0 <= q < p ==> !run_before(next@, #[trigger] out@[q]@),
                decreases out@.len() - p,
            {
                p = p + 1;
            }
            let ghost prev = out@;
            out.insert(p, next.duplicate());
            proof {
                let n = next@;
                assert(snapshot_views(out@) =~= snapshot_views(prev).insert(p as int, n));
                assert(entry_views(self.entries@.take(idx + 1)) =~= entry_views(self.entries@.take(idx as int)).push(n));
                vstd::seq_lib::to_multiset_insert(snapshot_views(prev), p as int, n);
                vstd::seq_lib::to_multiset_build(entry_views(self.entries@.take(idx as int)), n);
                assert forall|a: int, b: int| 0 <= a < b < out@.len() implies !run_before(#[trigger] out@[b]@, #[trigger] out@[a]@) by {
                    if b < p {
                        assert(out@[a] == prev[a] && out@[b] == prev[b]);
                    } else if b == p {
                        assert(out@[a] == prev[a]);
                    } else if a > p {
                        assert(out@[a] == prev[a - 1] && out@[b] == prev[b - 1]);
                    } else if a == p {
                        assert(out@[b] == prev[b - 1]);
                        assert(run_before(n, prev[p as int]@));
                        lemma_run_before(prev[b - 1]@, n, prev[p as int]@);
                        if b - 1 > p {
                            assert(!run_before(prev[b - 1]@, prev[p as int]@));
                        }
                    } else {
                        assert(out@[a] == prev[a] && out@[b] == prev[b - 1]);
                    }
                }
            }
            idx = idx + 1;
        }
        proof {
            assert(self.entries@.take(self.entries@.len() as int) =~= self.entries@);
            let ov = snapshot_views(out@);
            let ev = entry_views(self.entries@);
            lemma_keyed_map_len(entry_pairs(self.entries@));
            vstd::seq_lib::to_multiset_len(ov);
            vstd::seq_lib::to_multiset_len(ev);
            assert(ov.len() == out@.len());
            assert forall|j: int| 0 <= j < out@.len() implies held(self@.runs, #[trigger] out@[j]@) by {
                assert(ov[j] == out@[j]@);
                assert(ov.len() == ev.len());
                assert(ov.contains(out@[j]@));
                vstd::seq_lib::to_multiset_contains(ov, out@[j]@);
                vstd::seq_lib::to_multiset_contains(ev, out@[j]@);
                let e = choose|e: int| 0 <= e < ev.len() && ev[e] == out@[j]@;
                self.lemma_entry(e);
            }
            assert forall|k: Seq<char>| #[trigger] self@.runs.contains_key(k) implies exists|j: int|
                0 <= j < out@.len() && out@[j]@ == self@.runs[k] by {
                let pairs = entry_pairs(self.entries@);
                lemma_keyed_map_has(pairs, k);
                let e = choose|e: int| 0 <= e < pairs.len() && pairs[e].0 == k;
                self.lemma_entry(e);
                assert(self.entries@[e].key@ == k);
                assert(ev[e] == self@.runs[k]);
                assert(ev.contains(self@.runs[k]));
                vstd::seq_lib::to_multiset_contains(ov, self@.runs[k]);
                vstd::seq_lib::to_multiset_contains(ev, self@.runs[k]);
                let j = choose|j: int| 0 <= j < ov.len() && ov[j] == self@.runs[k];
            }
        }
        out
    }

    /// The last subscriber number handed out (0 before the first).
    pub fn issued(&self) -> (n: u64)
        ensures
            n == self@.issued,
    {
        self.issued
    }

    /// Number of subscribers.
    pub fn subscriber_count(&self) -> (n: usize)
        requires
            self.wf(),
        ensures
            self@.subs.dom().finite(),
            n == self@.subs.dom().len(),
    {
        proof {
            lemma_keyed_map_len(sub_pairs(self.subs@));
        }
        self.subs.len()
    }
}

} // verus!
