//! A map keyed by strings, kept as a vector of entries sorted by key.
//! Iterating it yields entries in key order, as an ordered map does.
use vstd::prelude::*;

use crate::text::{
    lemma_seq_less_asymmetric, lemma_seq_less_irreflexive, lemma_seq_less_total,
    lemma_seq_less_transitive, seq_less, str_equal, str_less,
};

verus! {

/// Entries sorted strictly by key, so that no key occurs twice.
#[derive(Clone, Debug, PartialEq, Eq)]
pub struct StrMap<V> {
    pub entries: Vec<(String, V)>,
}

/// Keys strictly increase along the sequence.
pub open spec fn keys_sorted<V>(s: Seq<(String, V)>) -> bool {
    forall|i: int, j: int| 0 <= i < j < s.len() ==> seq_less(#[trigger] s[i].0@, #[trigger] s[j].0@)
}

/// Some entry has key `k`.
pub open spec fn has_key<V>(s: Seq<(String, V)>, k: Seq<char>) -> bool {
    exists|i: int| 0 <= i < s.len() && #[trigger] s[i].0@ == k
}

/// The index of an entry with key `k`, when there is one.
pub open spec fn key_index<V>(s: Seq<(String, V)>, k: Seq<char>) -> int {
    choose|i: int| 0 <= i < s.len() && #[trigger] s[i].0@ == k
}

/// The entries as a map from key characters to values.
pub open spec fn entries_map<V>(s: Seq<(String, V)>) -> Map<Seq<char>, V> {
    Map::new(|k: Seq<char>| has_key(s, k), |k: Seq<char>| s[key_index(s, k)].1)
}

/// In sorted entries, an index holding key `k` is the only one.
pub proof fn lemma_sorted_unique<V>(s: Seq<(String, V)>, i: int, j: int)
    requires
        keys_sorted(s),
        0 <= i < s.len(),
        0 <= j < s.len(),
        s[i].0@ == s[j].0@,
    ensures
        i == j,
{
    if i < j {
        lemma_seq_less_irreflexive(s[i].0@);
    } else if j < i {
        lemma_seq_less_irreflexive(s[i].0@);
    }
}

impl<V> View for StrMap<V> {
    type V = Map<Seq<char>, V>;

    open spec fn view(&self) -> Map<Seq<char>, V> {
        entries_map(self.entries@)
    }
}

impl<V> StrMap<V> {
    /// Entries are sorted by key.
    pub open spec fn wf(&self) -> bool {
        keys_sorted(self.entries@)
    }

    /// An empty map.
    pub fn new() -> (r: Self)
        ensures
            r.wf(),
            r.entries@.len() == 0,
            r@ == Map::<Seq<char>, V>::empty(),
    {
        let r = StrMap { entries: Vec::new() };
        assert(r@ =~= Map::<Seq<char>, V>::empty());
        r
    }

    /// Number of keys.
    pub fn len(&self) -> (r: usize)
        ensures
            r == self.entries@.len(),
    {
        self.entries.len()
    }

    /// Index of the entry with key `key`.
    pub fn find(&self, key: &str) -> (r: Option<usize>)
        requires
            self.wf(),
        ensures
            match r {
                Some(i) => i < self.entries@.len() && self.entries@[i as int].0@ == key@,
                None => !has_key(self.entries@, key@),
            },
            r is Some <==> self@.contains_key(key@),
            r matches Some(i) ==> self@[key@] == self.entries@[i as int].1,
    {
        let mut i: usize = 0;
        while i < self.entries.len()
            invariant
                i <= self.entries@.len(),
                keys_sorted(self.entries@),
                forall|j: int| 0 <= j < i ==> #[trigger] self.entries@[j].0@ != key@,
            decreases self.entries@.len() - i,
        {
            if str_equal(self.entries[i].0.as_str(), key) {
                proof {
                    assert(self.entries@[i as int].0@ == key@);
                    assert(has_key(self.entries@, key@));
                    let k = key_index(self.entries@, key@);
                    lemma_sorted_unique(self.entries@, k, i as int);
                }
                return Some(i);
            }
            i = i + 1;
        }
        None
    }

    /// The value stored for `key`.
    pub fn get(&self, key: &str) -> (r: Option<&V>)
        requires
            self.wf(),
        ensures
            r is Some <==> self@.contains_key(key@),
            r matches Some(v) ==> *v == self@[key@],
    {
        match self.find(key) {
            Some(i) => Some(&self.entries[i].1),
            None => None,
        }
    }

    /// Whether `key` is present.
    pub fn contains(&self, key: &str) -> (r: bool)
        requires
            self.wf(),
        ensures
            r == self@.contains_key(key@),
    {
        self.find(key).is_some()
    }

    /// Position at which `key` is, or would be inserted.
    fn insertion_point(&self, key: &str) -> (r: usize)
        requires
            self.wf(),
        ensures
            r <= self.entries@.len(),
            forall|j: int| 0 <= j < r ==> seq_less(#[trigger] self.entries@[j].0@, key@),
            r < self.entries@.len() ==> !seq_less(self.entries@[r as int].0@, key@),
    {
        let mut i: usize = 0;
        while i < self.entries.len()
            invariant
                i <= self.entries@.len(),
                forall|j: int| 0 <= j < i ==> seq_less(#[trigger] self.entries@[j].0@, key@),
            decreases self.entries@.len() - i,
        {
            if !str_less(self.entries[i].0.as_str(), key) {
                return i;
            }
            i = i + 1;
        }
        i
    }

    /// Sets the value of `key`, returning the value it replaced.
    pub fn insert(&mut self, key: String, value: V) -> (r: Option<V>)
        requires
            old(self).wf(),
        ensures
            final(self).wf(),
            final(self)@ == old(self)@.insert(key@, value),
            r is Some <==> old(self)@.contains_key(key@),
            r matches Some(v) ==> v == old(self)@[key@],
    {
        let p = self.insertion_point(key.as_str());
        let ghost old_entries = self.entries@;
        if p < self.entries.len() && str_equal(self.entries[p].0.as_str(), key.as_str()) {
            let (_, previous) = self.entries.remove(p);
            self.entries.insert(p, (key, value));
            proof {
                assert(self.entries@ =~= old_entries.update(p as int, (self.entries@[p as int].0, value)));
                assert forall|i: int, j: int| 0 <= i < j < self.entries@.len() implies seq_less(
                    #[trigger] self.entries@[i].0@,
                    #[trigger] self.entries@[j].0@,
                ) by {
                    assert(old_entries[i].0@ == self.entries@[i].0@);
                    assert(old_entries[j].0@ == self.entries@[j].0@);
                }
                let ki = key_index(old_entries, key@);
                lemma_sorted_unique(old_entries, ki, p as int);
                assert forall|k: Seq<char>| #[trigger] has_key(self.entries@, k) == has_key(old_entries, k) by {
                    if has_key(self.entries@, k) {
                        let i = choose|i: int| 0 <= i < self.entries@.len() && #[trigger] self.entries@[i].0@ == k;
                        assert(old_entries[i].0@ == k);
                    }
                    if has_key(old_entries, k) {
                        let i = choose|i: int| 0 <= i < old_entries.len() && #[trigger] old_entries[i].0@ == k;
                        assert(self.entries@[i].0@ == k);
                    }
                }
                assert forall|k: Seq<char>| has_key(self.entries@, k) implies self.entries@[key_index(self.entries@, k)].1
                    == (if k == key@ { value } else { old_entries[key_index(old_entries, k)].1 }) by {
                    let a = key_index(self.entries@, k);
                    let b = key_index(old_entries, k);
                    assert(old_entries[a].0@ == k);
                    lemma_sorted_unique(old_entries, a, b);
                    if k == key@ {
                        lemma_sorted_unique(old_entries, a, p as int);
                    } else {
                        assert(a != p);
                    }
                }
                assert(self@ =~= old(self)@.insert(key@, value));
            }
            Some(previous)
        } else {
            let ghost kv = key@;
            self.entries.insert(p, (key, value));
            proof {
                assert(self.entries@ =~= old_entries.insert(p as int, (self.entries@[p as int].0, value)));
                if p < old_entries.len() {
                    lemma_seq_less_total(old_entries[p as int].0@, kv);
                }
                assert forall|i: int, j: int| 0 <= i < j < self.entries@.len() implies seq_less(
                    #[trigger] self.entries@[i].0@,
                    #[trigger] self.entries@[j].0@,
                ) by {
                    if j < p {
                    } else if j == p {
                    } else if i < p {
                        if j - 1 > p {
                            lemma_seq_less_transitive(kv, old_entries[p as int].0@, old_entries[j - 1].0@);
                        }
                        lemma_seq_less_transitive(old_entries[i].0@, kv, old_entries[j - 1].0@);
                    } else if i == p {
                        if j - 1 > p {
                            lemma_seq_less_transitive(kv, old_entries[p as int].0@, old_entries[j - 1].0@);
                        }
                    } else {
                        assert(old_entries[i - 1].0@ == self.entries@[i].0@);
                        assert(old_entries[j - 1].0@ == self.entries@[j].0@);
                    }
                }
                assert(!has_key(old_entries, kv)) by {
                    if has_key(old_entries, kv) {
                        let i = choose|i: int| 0 <= i < old_entries.len() && #[trigger] old_entries[i].0@ == kv;
                        if i < p {
                            lemma_seq_less_irreflexive(kv);
                        } else if i > p {
                            lemma_seq_less_transitive(kv, old_entries[p as int].0@, old_entries[i].0@);
                            lemma_seq_less_irreflexive(kv);
                        }
                    }
                }
                assert forall|k: Seq<char>| #[trigger] has_key(self.entries@, k) == (has_key(old_entries, k) || k == kv) by {
                    if has_key(self.entries@, k) {
                        let i = choose|i: int| 0 <= i < self.entries@.len() && #[trigger] self.entries@[i].0@ == k;
                        if i < p {
                            assert(old_entries[i].0@ == k);
                        } else if i > p {
                            assert(old_entries[i - 1].0@ == k);
                        }
                    }
                    if has_key(old_entries, k) {
                        let i = choose|i: int| 0 <= i < old_entries.len() && #[trigger] old_entries[i].0@ == k;
                        if i < p {
                            assert(self.entries@[i].0@ == k);
                        } else {
                            assert(self.entries@[i + 1].0@ == k);
                        }
                    }
                    if k == kv {
                        assert(self.entries@[p as int].0@ == k);
                    }
                }
                assert forall|k: Seq<char>| has_key(self.entries@, k) implies self.entries@[key_index(self.entries@, k)].1
                    == (if k == kv { value } else { old_entries[key_index(old_entries, k)].1 }) by {
                    let a = key_index(self.entries@, k);
                    if k == kv {
                        lemma_sorted_unique(self.entries@, a, p as int);
                    } else {
                        let b = key_index(old_entries, k);
                        if a < p {
                            lemma_sorted_unique(old_entries, a, b);
                        } else if a > p {
                            lemma_sorted_unique(old_entries, a - 1, b);
                        } else {
                        }
                    }
                }
                assert(self@ =~= old(self)@.insert(kv, value));
            }
            None
        }
    }

    /// Replaces the value at entry `i`, keeping its key.
    pub fn set_value_at(&mut self, i: usize, value: V)
        requires
            old(self).wf(),
            i < old(self).entries@.len(),
        ensures
            final(self).wf(),
            final(self).entries@.len() == old(self).entries@.len(),
            final(self).entries@[i as int].1 == value,
            final(self).entries@[i as int].0 == old(self).entries@[i as int].0,
            forall|j: int| 0 <= j < old(self).entries@.len() && j != i ==> #[trigger] final(self).entries@[j] == old(self).entries@[j],
            final(self)@ == old(self)@.insert(old(self).entries@[i as int].0@, value),
    {
        let ghost old_entries = self.entries@;
        let (k, _) = self.entries.remove(i);
        self.entries.insert(i, (k, value));
        proof {
            assert(self.entries@ =~= old_entries.update(i as int, (old_entries[i as int].0, value)));
            let kv = old_entries[i as int].0@;
            assert forall|a: int, b: int| 0 <= a < b < self.entries@.len() implies seq_less(
                #[trigger] self.entries@[a].0@,
                #[trigger] self.entries@[b].0@,
            ) by {
                assert(old_entries[a].0@ == self.entries@[a].0@);
                assert(old_entries[b].0@ == self.entries@[b].0@);
            }
            assert forall|k: Seq<char>| #[trigger] has_key(self.entries@, k) == has_key(old_entries, k) by {
                if has_key(self.entries@, k) {
                    let j = choose|j: int| 0 <= j < self.entries@.len() && #[trigger] self.entries@[j].0@ == k;
                    assert(old_entries[j].0@ == k);
                }
                if has_key(old_entries, k) {
                    let j = choose|j: int| 0 <= j < old_entries.len() && #[trigger] old_entries[j].0@ == k;
                    assert(self.entries@[j].0@ == k);
                }
            }
            assert forall|k: Seq<char>| has_key(self.entries@, k) implies self.entries@[key_index(self.entries@, k)].1
                == (if k == kv { value } else { old_entries[key_index(old_entries, k)].1 }) by {
                let a = key_index(self.entries@, k);
                let b = key_index(old_entries, k);
                assert(old_entries[a].0@ == k);
                lemma_sorted_unique(old_entries, a, b);
                if k == kv {
                    lemma_sorted_unique(old_entries, a, i as int);
                }
            }
            assert(self@ =~= old(self)@.insert(kv, value));
        }
    }
    /// Removes entry `i`, returning its key and value.
    pub fn remove_at(&mut self, i: usize) -> (r: (String, V))
        requires
            old(self).wf(),
            i < old(self).entries@.len(),
        ensures
            final(self).wf(),
            r == old(self).entries@[i as int],
            final(self).entries@ == old(self).entries@.remove(i as int),
            final(self)@ == old(self)@.remove(r.0@),
    {
        let ghost old_entries = self.entries@;
        let r = self.entries.remove(i);
        proof {
            let kv = r.0@;
            assert forall|a: int, b: int| 0 <= a < b < self.entries@.len() implies seq_less(
                #[trigger] self.entries@[a].0@,
                #[trigger] self.entries@[b].0@,
            ) by {
                let a0 = if a < i { a } else { a + 1 };
                let b0 = if b < i { b } else { b + 1 };
                assert(self.entries@[a] == old_entries[a0]);
                assert(self.entries@[b] == old_entries[b0]);
            }
            assert forall|k: Seq<char>| #[trigger] has_key(self.entries@, k) == (has_key(old_entries, k) && k != kv) by {
                if has_key(self.entries@, k) {
                    let j = choose|j: int| 0 <= j < self.entries@.len() && #[trigger] self.entries@[j].0@ == k;
                    let j0 = if j < i { j } else { j + 1 };
                    assert(old_entries[j0].0@ == k);
                    if k == kv {
                        lemma_sorted_unique(old_entries, j0, i as int);
                    }
                }
                if has_key(old_entries, k) && k != kv {
                    let j = choose|j: int| 0 <= j < old_entries.len() && #[trigger] old_entries[j].0@ == k;
                    let j1 = if j < i { j } else { j - 1 };
                    assert(j != i);
                    assert(self.entries@[j1].0@ == k);
                }
            }
            assert forall|k: Seq<char>| has_key(self.entries@, k) implies self.entries@[key_index(self.entries@, k)].1
                == old_entries[key_index(old_entries, k)].1 by {
                let a = key_index(self.entries@, k);
                let b = key_index(old_entries, k);
                let a0 = if a < i { a } else { a + 1 };
                assert(old_entries[a0].0@ == k);
                lemma_sorted_unique(old_entries, a0, b);
            }
            assert(self@ =~= old(self)@.remove(kv));
        }
        r
    }
}

} // verus!
