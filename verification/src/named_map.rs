//! A small map from text keys to values, kept as an insertion-ordered list
//! with unique keys; its model is a `Map` from key text to value.

use vstd::prelude::*;

verus! {

/// The map that an entry list denotes (a later entry wins over an earlier one).
pub open spec fn entries_map<V>(e: Seq<(String, V)>) -> Map<Seq<char>, V>
    decreases e.len(),
{
    if e.len() == 0 {
        Map::empty()
    } else {
        entries_map(e.drop_last()).insert(e.last().0@, e.last().1)
    }
}

/// No key occurs twice in the entry list.
pub open spec fn keys_unique<V>(e: Seq<(String, V)>) -> bool {
    forall|i: int, j: int| 0 <= i < j < e.len() ==> e[i].0@ != e[j].0@
}

/// The map contains exactly the listed keys, each bound to its listed value.
pub proof fn lemma_entries_map<V>(e: Seq<(String, V)>)
    requires
        keys_unique(e),
    ensures
        forall|k: Seq<char>|
            entries_map(e).contains_key(k) <==> exists|i: int| 0 <= i < e.len() && e[i].0@ == k,
        forall|i: int| 0 <= i < e.len() ==> #[trigger] entries_map(e)[e[i].0@] == e[i].1,
        entries_map(e).dom().finite(),
        entries_map(e).dom().len() == e.len(),
    decreases e.len(),
{
    if e.len() > 0 {
        let d = e.drop_last();
        assert(keys_unique(d)) by {
            assert forall|i: int, j: int| 0 <= i < j < d.len() implies d[i].0@ != d[j].0@ by {
                assert(d[i] == e[i] && d[j] == e[j]);
            }
        }
        lemma_entries_map(d);
        let m = entries_map(e);
        assert forall|k: Seq<char>| m.contains_key(k) <==> exists|i: int|
            0 <= i < e.len() && e[i].0@ == k by {
            if m.contains_key(k) {
                if k == e.last().0@ {
                    assert(e[e.len() - 1].0@ == k);
                } else {
                    let i = choose|i: int| 0 <= i < d.len() && d[i].0@ == k;
                    assert(e[i] == d[i]);
                }
            }
            if exists|i: int| 0 <= i < e.len() && e[i].0@ == k {
                let i = choose|i: int| 0 <= i < e.len() && e[i].0@ == k;
                if i < e.len() - 1 {
                    assert(d[i] == e[i]);
                }
            }
        }
        assert forall|i: int| 0 <= i < e.len() implies #[trigger] m[e[i].0@] == e[i].1 by {
            if i < e.len() - 1 {
                assert(d[i] == e[i]);
                assert(e[i].0@ != e.last().0@);
            }
        }
        assert(!entries_map(d).contains_key(e.last().0@)) by {
            if entries_map(d).contains_key(e.last().0@) {
                let i = choose|i: int| 0 <= i < d.len() && d[i].0@ == e.last().0@;
                assert(d[i] == e[i]);
            }
        }
    }
}

/// Mapping values after an insertion is inserting the mapped value.
pub proof fn lemma_map_values_insert<K, A, B>(m: Map<K, A>, k: K, a: A, f: spec_fn(A) -> B)
    ensures
        m.insert(k, a).map_values(f) == m.map_values(f).insert(k, f(a)),
{
    assert(m.insert(k, a).map_values(f) =~= m.map_values(f).insert(k, f(a)));
}

/// Text-keyed map with unique keys, in insertion order.
#[derive(Debug)]
pub struct NamedMap<V> {
    entries: Vec<(String, V)>,
}

impl<V> View for NamedMap<V> {
    type V = Map<Seq<char>, V>;

    closed spec fn view(&self) -> Map<Seq<char>, V> {
        entries_map(self.entries@)
    }
}

impl<V> NamedMap<V> {
    #[verifier::type_invariant]
    closed spec fn inv(self) -> bool {
        keys_unique(self.entries@)
    }

    /// An empty map.
    pub fn new() -> (m: Self)
        ensures
            m@ == Map::<Seq<char>, V>::empty(),
    {
        NamedMap { entries: Vec::new() }
    }

    /// Number of keys.
    pub fn len(&self) -> (n: usize)
        ensures
            self@.dom().finite(),
            n == self@.dom().len(),
    {
        proof {
            use_type_invariant(self);
            lemma_entries_map(self.entries@);
        }
        self.entries.len()
    }

    /// Position of `key` in the entry list, if present.
    fn position(&self, key: &String) -> (r: Option<usize>)
        ensures
            match r {
                Some(i) => i < self.entries@.len() && self.entries@[i as int].0@ == key@,
                None => forall|i: int|
                    0 <= i < self.entries@.len() ==> self.entries@[i].0@ != key@,
            },
    {
        let mut i: usize = 0;
        while i < self.entries.len()
            invariant
                i <= self.entries@.len(),
                forall|k: int| 0 <= k < i ==> self.entries@[k].0@ != key@,
            decreases self.entries@.len() - i,
        {
            if self.entries[i].0 == *key {
                return Some(i);
            }
            i = i + 1;
        }
        None
    }

    /// The value bound to `key`.
    pub fn get(&self, key: &String) -> (r: Option<&V>)
        ensures
            match r {
                Some(v) => self@.contains_key(key@) && self@[key@] == *v,
                None => !self@.contains_key(key@),
            },
    {
        proof {
            use_type_invariant(self);
            lemma_entries_map(self.entries@);
        }
        match self.position(key) {
            Some(i) => Some(&self.entries[i].1),
            None => None,
        }
    }

    /// Binds `key` to `value`, replacing an earlier binding of the same key.
    pub fn insert(&mut self, key: String, value: V)
        ensures
            final(self)@ == old(self)@.insert(key@, value),
    {
        proof {
            use_type_invariant(&*self);
            lemma_entries_map(self.entries@);
        }
        let ghost old_entries = self.entries@;
        match self.position(&key) {
            Some(i) => {
                let mut entries: Vec<(String, V)> = Vec::new();
                std::mem::swap(&mut entries, &mut self.entries);
                entries.set(i, (key, value));
                proof {
                    assert(keys_unique(entries@)) by {
                        assert forall|a: int, b: int| 0 <= a < b < entries@.len() implies entries@[
                            a].0@ != entries@[b].0@ by {
                            assert(old_entries[a].0@ != old_entries[b].0@);
                        }
                    }
                    lemma_entries_map(entries@);
                    assert(entries_map(entries@) =~= entries_map(old_entries).insert(
                        key@,
                        value,
                    )) by {
                        assert forall|k: Seq<char>| #[trigger]
                            entries_map(entries@).contains_key(k) == entries_map(
                                old_entries,
                            ).insert(key@, value).contains_key(k) by {
                            if entries_map(entries@).contains_key(k) {
                                let j = choose|j: int| 0 <= j < entries@.len() && entries@[j].0@ == k;
                                assert(j == i || old_entries[j].0@ == k);
                            }
                            if entries_map(old_entries).contains_key(k) {
                                let j = choose|j: int|
                                    0 <= j < old_entries.len() && old_entries[j].0@ == k;
                                assert(entries@[j].0@ == k);
                            }
                        }
                        assert forall|k: Seq<char>| #[trigger]
                            entries_map(entries@).contains_key(k) implies entries_map(entries@)[k]
                            == entries_map(old_entries).insert(key@, value)[k] by {
                            let j = choose|j: int| 0 <= j < entries@.len() && entries@[j].0@ == k;
                            assert(entries_map(entries@)[entries@[j].0@] == entries@[j].1);
                            if j != i {
                                assert(entries_map(old_entries)[old_entries[j].0@]
                                    == old_entries[j].1);
                            }
                        }
                    }
                }
                self.entries = entries;
            },
            None => {
                let mut entries: Vec<(String, V)> = Vec::new();
                std::mem::swap(&mut entries, &mut self.entries);
                entries.push((key, value));
                proof {
                    assert(entries@.drop_last() =~= old_entries);
                    assert(keys_unique(entries@)) by {
                        assert forall|a: int, b: int| 0 <= a < b < entries@.len() implies entries@[
                            a].0@ != entries@[b].0@ by {
                            if b < old_entries.len() {
                                assert(old_entries[a].0@ != old_entries[b].0@);
                            } else {
                                assert(entries@[a] == old_entries[a]);
                            }
                        }
                    }
                }
                self.entries = entries;
            },
        }
    }

    /// The entries, in insertion order.
    pub fn entries(&self) -> (r: &Vec<(String, V)>)
        ensures
            entries_map(r@) == self@,
            keys_unique(r@),
    {
        proof {
            use_type_invariant(self);
        }
        &self.entries
    }

    /// The keys, in insertion order.
    pub fn keys(&self) -> (ks: Vec<String>)
        ensures
            ks@.len() == self@.dom().len(),
            forall|k: Seq<char>| self@.contains_key(k) <==> exists|i: int|
                0 <= i < ks@.len() && ks@[i]@ == k,
    {
        proof {
            use_type_invariant(self);
            lemma_entries_map(self.entries@);
        }
        let mut ks: Vec<String> = Vec::new();
        let mut i: usize = 0;
        while i < self.entries.len()
            invariant
                i <= self.entries@.len(),
                ks@.len() == i,
                forall|k: int| 0 <= k < i ==> ks@[k]@ == self.entries@[k].0@,
            decreases self.entries@.len() - i,
        {
            ks.push(self.entries[i].0.clone());
            i = i + 1;
        }
        proof {
            assert forall|k: Seq<char>| self@.contains_key(k) <==> exists|j: int|
                0 <= j < ks@.len() && ks@[j]@ == k by {
                if self@.contains_key(k) {
                    let j = choose|j: int|
                        0 <= j < self.entries@.len() && self.entries@[j].0@ == k;
                    assert(ks@[j]@ == k);
                }
                if exists|j: int| 0 <= j < ks@.len() && ks@[j]@ == k {
                    let j = choose|j: int| 0 <= j < ks@.len() && ks@[j]@ == k;
                    assert(self.entries@[j].0@ == k);
                }
            }
        }
        ks
    }
}

} // verus!
