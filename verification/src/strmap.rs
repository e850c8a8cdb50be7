//! A map keyed by strings that keeps its entries in insertion order.
//!
//! Entries live in a vector of `(key, value)` pairs whose keys are pairwise
//! distinct. Inserting a new key appends it; inserting an existing key
//! replaces its value in place; removing a key keeps the order of the rest.

use vstd::prelude::*;
use crate::text::str_eq;

verus! {

/// Keys of an entry sequence are pairwise distinct.
pub open spec fn keys_unique<V>(s: Seq<(Seq<char>, V)>) -> bool {
    forall|i: int, j: int| 0 <= i < s.len() && 0 <= j < s.len() && i != j ==> s[i].0 != s[j].0
}

/// Some entry has key `k`.
pub open spec fn seq_has_key<V>(s: Seq<(Seq<char>, V)>, k: Seq<char>) -> bool {
    exists|i: int| 0 <= i < s.len() && s[i].0 == k
}

/// Position of an entry with key `k` (meaningful when one exists).
pub open spec fn seq_index<V>(s: Seq<(Seq<char>, V)>, k: Seq<char>) -> int {
    choose|i: int| 0 <= i < s.len() && s[i].0 == k
}

/// The value stored under `k`, if any.
pub open spec fn seq_get<V>(s: Seq<(Seq<char>, V)>, k: Seq<char>) -> Option<V> {
    if seq_has_key(s, k) {
        Some(s[seq_index(s, k)].1)
    } else {
        None
    }
}

/// With distinct keys, the entry at position `i` is the one found for its key.
pub proof fn lemma_index_unique<V>(s: Seq<(Seq<char>, V)>, i: int)
    requires
        keys_unique(s),
        0 <= i < s.len(),
    ensures
        seq_has_key(s, s[i].0),
        seq_index(s, s[i].0) == i,
        seq_get(s, s[i].0) == Some(s[i].1),
{
    let k = s[i].0;
    assert(0 <= i < s.len() && s[i].0 == k);
    let j = seq_index(s, k);
    assert(0 <= j < s.len() && s[j].0 == k);
}

/// Appending an entry under a fresh key.
pub proof fn lemma_push_fresh<V>(s: Seq<(Seq<char>, V)>, k: Seq<char>, v: V)
    requires
        keys_unique(s),
        !seq_has_key(s, k),
    ensures
        keys_unique(s.push((k, v))),
        forall|q: Seq<char>| #[trigger] seq_get(s.push((k, v)), q) == if q == k { Some(v) } else { seq_get(s, q) },
{
    let t = s.push((k, v));
    assert forall|i: int, j: int| 0 <= i < t.len() && 0 <= j < t.len() && i != j implies t[i].0 != t[j].0 by {
        if i < s.len() && j < s.len() {
        } else if i == s.len() {
            assert(s[j].0 == t[j].0);
        } else {
            assert(s[i].0 == t[i].0);
        }
    }
    assert forall|q: Seq<char>| #[trigger] seq_get(t, q) == if q == k { Some(v) } else { seq_get(s, q) } by {
        if q == k {
            lemma_index_unique(t, s.len() as int);
        } else if seq_has_key(s, q) {
            let i = seq_index(s, q);
            lemma_index_unique(s, i);
            assert(t[i] == s[i]);
            lemma_index_unique(t, i);
        } else {
            if seq_has_key(t, q) {
                let i = seq_index(t, q);
                assert(i < s.len());
                assert(s[i].0 == q);
            }
        }
    }
}

/// Replacing the value at position `i`.
pub proof fn lemma_update_value<V>(s: Seq<(Seq<char>, V)>, i: int, v: V)
    requires
        keys_unique(s),
        0 <= i < s.len(),
    ensures
        keys_unique(s.update(i, (s[i].0, v))),
        forall|q: Seq<char>| #[trigger] seq_get(s.update(i, (s[i].0, v)), q) == if q == s[i].0 { Some(v) } else { seq_get(s, q) },
{
    let k = s[i].0;
    let t = s.update(i, (k, v));
    assert forall|a: int, b: int| 0 <= a < t.len() && 0 <= b < t.len() && a != b implies t[a].0 != t[b].0 by {
        assert(t[a].0 == s[a].0);
        assert(t[b].0 == s[b].0);
    }
    assert forall|q: Seq<char>| #[trigger] seq_get(t, q) == if q == k { Some(v) } else { seq_get(s, q) } by {
        if q == k {
            lemma_index_unique(t, i);
        } else if seq_has_key(s, q) {
            let j = seq_index(s, q);
            lemma_index_unique(s, j);
            assert(t[j] == s[j]);
            lemma_index_unique(t, j);
        } else {
            if seq_has_key(t, q) {
                let j = seq_index(t, q);
                assert(s[j].0 == q);
            }
        }
    }
}

/// Removing the entry at position `i`.
pub proof fn lemma_remove_at<V>(s: Seq<(Seq<char>, V)>, i: int)
    requires
        keys_unique(s),
        0 <= i < s.len(),
    ensures
        keys_unique(s.remove(i)),
        forall|q: Seq<char>| #[trigger] seq_get(s.remove(i), q) == if q == s[i].0 { None } else { seq_get(s, q) },
{
    let k = s[i].0;
    let t = s.remove(i);
    assert forall|a: int, b: int| 0 <= a < t.len() && 0 <= b < t.len() && a != b implies t[a].0 != t[b].0 by {
        let a2 = if a < i { a } else { a + 1 };
        let b2 = if b < i { b } else { b + 1 };
        assert(t[a] == s[a2]);
        assert(t[b] == s[b2]);
    }
    assert forall|q: Seq<char>| #[trigger] seq_get(t, q) == if q == k { None } else { seq_get(s, q) } by {
        if seq_has_key(t, q) {
            let j = seq_index(t, q);
            let j2 = if j < i { j } else { j + 1 };
            assert(t[j] == s[j2]);
            lemma_index_unique(s, j2);
            lemma_index_unique(t, j);
        } else {
            if seq_has_key(s, q) && q != k {
                let j = seq_index(s, q);
                assert(j != i);
                let j2 = if j < i { j } else { j - 1 };
                assert(t[j2] == s[j]);
            }
        }
    }
}

/// String-keyed map with insertion order.
#[derive(Debug)]
pub struct StrMap<V> {
    entries: Vec<(String, V)>,
}

impl<V> View for StrMap<V> {
    type V = Seq<(Seq<char>, V)>;

    closed spec fn view(&self) -> Seq<(Seq<char>, V)> {
        self.entries@.map_values(|e: (String, V)| (e.0@, e.1))
    }
}

impl<V> StrMap<V> {
    #[verifier::type_invariant]
    spec fn unique(self) -> bool {
        keys_unique(self@)
    }

    /// The value stored under `k`, if any.
    pub open spec fn spec_get(&self, k: Seq<char>) -> Option<V> {
        seq_get(self@, k)
    }

    /// Whether `k` is a key of the map.
    pub open spec fn spec_contains(&self, k: Seq<char>) -> bool {
        seq_has_key(self@, k)
    }

    /// The keys are pairwise distinct.
    pub fn keys_distinct(&self)
        ensures
            keys_unique(self@),
    {
        proof { use_type_invariant(self); }
    }

    /// An empty map.
    pub fn new() -> (m: Self)
        ensures
            m@ == Seq::<(Seq<char>, V)>::empty(),
    {
        let m = StrMap { entries: Vec::new() };
        assert(m@ =~= Seq::<(Seq<char>, V)>::empty());
        m
    }

    /// Number of entries.
    pub fn len(&self) -> (r: usize)
        ensures
            r == self@.len(),
    {
        self.entries.len()
    }

    /// Whether the map has no entries.
    pub fn is_empty(&self) -> (r: bool)
        ensures
            r == (self@.len() == 0),
    {
        self.entries.len() == 0
    }

    /// Position of the entry with the given key.
    pub fn index_of(&self, key: &str) -> (r: Option<usize>)
        ensures
            r is None <==> !self.spec_contains(key@),
            r matches Some(i) ==> i < self@.len() && self@[i as int].0 == key@ && seq_index(self@, key@) == i
                && self.spec_get(key@) == Some(self@[i as int].1),
    {
        proof { use_type_invariant(self); }
        let n = self.entries.len();
        let mut i: usize = 0;
        while i < n
            invariant
                n == self@.len(),
                n == self.entries@.len(),
                keys_unique(self@),
                i <= n,
                forall|j: int| 0 <= j < i ==> self@[j].0 != key@,
            decreases n - i,
        {
            if str_eq(self.entries[i].0.as_str(), key) {
                proof {
                    assert(self@[i as int].0 == self.entries@[i as int].0@);
                    lemma_index_unique(self@, i as int);
                }
                return Some(i);
            }
            assert(self@[i as int].0 == self.entries@[i as int].0@);
            i = i + 1;
        }
        None
    }

    /// Whether `key` is a key of the map.
    pub fn contains_key(&self, key: &str) -> (r: bool)
        ensures
            r == self.spec_contains(key@),
    {
        self.index_of(key).is_some()
    }

    /// The value stored under `key`, if any.
    pub fn get(&self, key: &str) -> (r: Option<&V>)
        ensures
            r is Some <==> self.spec_contains(key@),
            r matches Some(v) ==> self.spec_get(key@) == Some(*v),
    {
        match self.index_of(key) {
            Some(i) => Some(&self.entries[i].1),
            None => None,
        }
    }

    /// The key of the entry at position `i`.
    pub fn key_at(&self, i: usize) -> (r: &String)
        requires
            i < self@.len(),
        ensures
            r@ == self@[i as int].0,
    {
        &self.entries[i].0
    }

    /// The value of the entry at position `i`.
    pub fn value_at(&self, i: usize) -> (r: &V)
        requires
            i < self@.len(),
        ensures
            *r == self@[i as int].1,
    {
        &self.entries[i].1
    }

    /// Replaces the value of the entry at position `i`; returns the value it
    /// replaces.
    pub fn replace_value_at(&mut self, i: usize, value: V) -> (r: V)
        requires
            i < old(self)@.len(),
        ensures
            r == old(self)@[i as int].1,
            final(self)@ == old(self)@.update(i as int, (old(self)@[i as int].0, value)),
            forall|q: Seq<char>| #[trigger] seq_get(final(self)@, q)
                == if q == old(self)@[i as int].0 { Some(value) } else { seq_get(old(self)@, q) },
    {
        proof { use_type_invariant(&*self); }
        let ghost old_view = self@;
        let mut entries: Vec<(String, V)> = Vec::new();
        std::mem::swap(&mut entries, &mut self.entries);
        let (k, old_value) = entries.remove(i);
        entries.insert(i, (k, value));
        proof {
            lemma_update_value(old_view, i as int, value);
            assert(entries@.map_values(|e: (String, V)| (e.0@, e.1)) =~= old_view.update(i as int, (old_view[i as int].0, value)));
        }
        self.entries = entries;
        old_value
    }

    /// Stores `value` under `key`; returns the value it replaces, if any.
    /// A new key is appended at the end.
    pub fn insert(&mut self, key: String, value: V) -> (r: Option<V>)
        ensures
            r == old(self).spec_get(key@),
            final(self)@ == if old(self).spec_contains(key@) {
                old(self)@.update(seq_index(old(self)@, key@), (key@, value))
            } else {
                old(self)@.push((key@, value))
            },
            forall|q: Seq<char>| #[trigger] seq_get(final(self)@, q) == if q == key@ { Some(value) } else { seq_get(old(self)@, q) },
    {
        proof { use_type_invariant(&*self); }
        let ghost old_view = self@;
        match self.index_of(key.as_str()) {
            Some(i) => {
                let mut entries: Vec<(String, V)> = Vec::new();
                std::mem::swap(&mut entries, &mut self.entries);
                let (k, old_value) = entries.remove(i);
                entries.insert(i, (k, value));
                proof {
                    lemma_update_value(old_view, i as int, value);
                    assert(entries@.map_values(|e: (String, V)| (e.0@, e.1)) =~= old_view.update(i as int, (key@, value)));
                }
                self.entries = entries;
                Some(old_value)
            },
            None => {
                let ghost kv = key@;
                let mut entries: Vec<(String, V)> = Vec::new();
                std::mem::swap(&mut entries, &mut self.entries);
                entries.push((key, value));
                proof {
                    lemma_push_fresh(old_view, kv, value);
                    assert(entries@.map_values(|e: (String, V)| (e.0@, e.1)) =~= old_view.push((kv, value)));
                }
                self.entries = entries;
                None
            },
        }
    }

    /// Removes the entry with the given key; returns its value, if any.
    pub fn remove(&mut self, key: &str) -> (r: Option<V>)
        ensures
            r == old(self).spec_get(key@),
            final(self)@ == if old(self).spec_contains(key@) {
                old(self)@.remove(seq_index(old(self)@, key@))
            } else {
                old(self)@
            },
            forall|q: Seq<char>| #[trigger] seq_get(final(self)@, q) == if q == key@ { None } else { seq_get(old(self)@, q) },
    {
        proof { use_type_invariant(&*self); }
        let ghost old_view = self@;
        match self.index_of(key) {
            Some(i) => {
                let mut entries: Vec<(String, V)> = Vec::new();
                std::mem::swap(&mut entries, &mut self.entries);
                let (_k, old_value) = entries.remove(i);
                proof {
                    lemma_remove_at(old_view, i as int);
                    assert(entries@.map_values(|e: (String, V)| (e.0@, e.1)) =~= old_view.remove(i as int));
                }
                self.entries = entries;
                Some(old_value)
            },
            None => {
                
                None
            },
        }
    }

    /// Removes every entry.
    pub fn clear(&mut self)
        ensures
            final(self)@ == Seq::<(Seq<char>, V)>::empty(),
    {
        self.entries = Vec::new();
        assert(self@ =~= Seq::<(Seq<char>, V)>::empty());
    }
}

} // verus!
