//! `NameMap`: a map from names to values, kept sorted by name.
//!
//! Iteration follows the lexicographic order of the names, so every list
//! that the library builds by walking a `NameMap` comes out in a fixed,
//! name-sorted order.

use vstd::prelude::*;

use crate::text::{
    lemma_str_lt_asymmetric, lemma_str_lt_irreflexive, lemma_str_lt_total, lemma_str_lt_transitive,
    str_eq, str_less, str_lt,
};

verus! {

/// Every key sorts strictly before the keys after it (so no key repeats).
pub open spec fn sorted_keys<V>(s: Seq<(String, V)>) -> bool {
    forall|i: int, j: int| 0 <= i < j < s.len() ==> str_lt(#[trigger] s[i].0@, #[trigger] s[j].0@)
}

/// Some entry of `s` has key `k`.
pub open spec fn has_key<V>(s: Seq<(String, V)>, k: Seq<char>) -> bool {
    exists|i: int| 0 <= i < s.len() && #[trigger] s[i].0@ == k
}

/// The index of an entry with key `k` (meaningful when `has_key`).
pub open spec fn key_index<V>(s: Seq<(String, V)>, k: Seq<char>) -> int {
    choose|i: int| 0 <= i < s.len() && #[trigger] s[i].0@ == k
}

/// The value stored under `k`, if any.
pub open spec fn lookup<V>(s: Seq<(String, V)>, k: Seq<char>) -> Option<V> {
    if has_key(s, k) {
        Some(s[key_index(s, k)].1)
    } else {
        None
    }
}

/// The keys of `s`, in order.
pub open spec fn key_views<V>(s: Seq<(String, V)>) -> Seq<Seq<char>> {
    s.map_values(|p: (String, V)| p.0@)
}

/// The number of keys of `s` that sort strictly before `k`.
pub open spec fn rank<V>(s: Seq<(String, V)>, k: Seq<char>) -> int
    decreases s.len(),
{
    if s.len() == 0 {
        0
    } else {
        rank(s.drop_last(), k) + if str_lt(s.last().0@, k) {
            1int
        } else {
            0int
        }
    }
}

/// In a sorted sequence the entry with a given key is unique.
pub proof fn lemma_key_index_unique<V>(s: Seq<(String, V)>, i: int)
    requires
        sorted_keys(s),
        0 <= i < s.len(),
    ensures
        has_key(s, s[i].0@),
        key_index(s, s[i].0@) == i,
        lookup(s, s[i].0@) == Some(s[i].1),
{
    let k = s[i].0@;
    assert(s[i].0@ == k);
    let j = key_index(s, k);
    if j != i {
        lemma_str_lt_irreflexive(k);
        if j < i {
            assert(str_lt(s[j].0@, s[i].0@));
        } else {
            assert(str_lt(s[i].0@, s[j].0@));
        }
    }
}

/// A sorted sequence with `x` put at the position of its rank stays sorted.
pub proof fn lemma_insert_sorted<V>(s: Seq<(String, V)>, i: int, x: (String, V))
    requires
        sorted_keys(s),
        0 <= i <= s.len(),
        forall|j: int| 0 <= j < i ==> str_lt(#[trigger] s[j].0@, x.0@),
        forall|j: int| i <= j < s.len() ==> str_lt(x.0@, #[trigger] s[j].0@),
    ensures
        sorted_keys(s.insert(i, x)),
{
    let t = s.insert(i, x);
    assert forall|a: int, b: int| 0 <= a < b < t.len() implies str_lt(#[trigger] t[a].0@, #[trigger] t[b].0@) by {
        if a < i && b < i {
            assert(t[a] == s[a] && t[b] == s[b]);
        } else if a < i && b == i {
            assert(t[a] == s[a]);
        } else if a < i && b > i {
            assert(t[a] == s[a] && t[b] == s[b - 1]);
        } else if a == i {
            assert(t[b] == s[b - 1]);
        } else {
            assert(t[a] == s[a - 1] && t[b] == s[b - 1]);
        }
    }
}

/// Removing an entry keeps a sequence sorted.
pub proof fn lemma_remove_sorted<V>(s: Seq<(String, V)>, i: int)
    requires
        sorted_keys(s),
        0 <= i < s.len(),
    ensures
        sorted_keys(s.remove(i)),
{
    let t = s.remove(i);
    assert forall|a: int, b: int| 0 <= a < b < t.len() implies str_lt(#[trigger] t[a].0@, #[trigger] t[b].0@) by {
        if b < i {
            assert(t[a] == s[a] && t[b] == s[b]);
        } else if a < i {
            assert(t[a] == s[a] && t[b] == s[b + 1]);
        } else {
            assert(t[a] == s[a + 1] && t[b] == s[b + 1]);
        }
    }
}

/// Replacing the value of an entry keeps a sequence sorted.
pub proof fn lemma_update_sorted<V>(s: Seq<(String, V)>, i: int, x: (String, V))
    requires
        sorted_keys(s),
        0 <= i < s.len(),
        x.0@ == s[i].0@,
    ensures
        sorted_keys(s.update(i, x)),
{
    let t = s.update(i, x);
    assert forall|a: int, b: int| 0 <= a < b < t.len() implies str_lt(#[trigger] t[a].0@, #[trigger] t[b].0@) by {
        assert(t[a].0@ == s[a].0@ && t[b].0@ == s[b].0@);
    }
}

/// A map from names to values whose entries are kept sorted by name.
#[derive(Debug)]
pub struct NameMap<V> {
    entries: Vec<(String, V)>,
}

impl<V> NameMap<V> {
    #[verifier::type_invariant]
    spec fn inv(&self) -> bool {
        sorted_keys(self.entries@)
    }

    /// The entries, in name order.
    pub closed spec fn items(&self) -> Seq<(String, V)> {
        self.entries@
    }

    /// An empty map.
    pub fn new() -> (m: Self)
        ensures
            m.items() == Seq::<(String, V)>::empty(),
    {
        NameMap { entries: Vec::new() }
    }

    /// The number of entries.
    pub fn len(&self) -> (n: usize)
        ensures
            n == self.items().len(),
            sorted_keys(self.items()),
    {
        proof {
            use_type_invariant(self);
        }
        self.entries.len()
    }

    /// Whether the map has no entries.
    pub fn is_empty(&self) -> (b: bool)
        ensures
            b == (self.items().len() == 0),
            sorted_keys(self.items()),
    {
        proof {
            use_type_invariant(self);
        }
        self.entries.len() == 0
    }

    /// The key and value of the `i`-th entry in name order.
    pub fn entry(&self, i: usize) -> (r: (&String, &V))
        requires
            i < self.items().len(),
        ensures
            *r.0 == self.items()[i as int].0,
            *r.1 == self.items()[i as int].1,
            sorted_keys(self.items()),
    {
        proof {
            use_type_invariant(self);
        }
        let e = &self.entries[i];
        (&e.0, &e.1)
    }

    /// The position of the entry named `k`, if there is one.
    pub fn find(&self, k: &str) -> (r: Option<usize>)
        ensures
            sorted_keys(self.items()),
            match r {
                Some(i) => i < self.items().len() && self.items()[i as int].0@ == k@
                    && key_index(self.items(), k@) == i,
                None => !has_key(self.items(), k@),
            },
    {
        proof {
            use_type_invariant(self);
        }
        let n = self.entries.len();
        let mut i: usize = 0;
        while i < n
            invariant
                n == self.entries@.len(),
                i <= n,
                sorted_keys(self.entries@),
                forall|j: int| 0 <= j < i ==> self.entries@[j].0@ != k@,
            decreases n - i,
        {
            if str_eq(self.entries[i].0.as_str(), k) {
                proof {
                    lemma_key_index_unique(self.entries@, i as int);
                }
                return Some(i);
            }
            i += 1;
        }
        None
    }

    /// Whether there is an entry named `k`.
    pub fn contains_key(&self, k: &str) -> (b: bool)
        ensures
            b == has_key(self.items(), k@),
            sorted_keys(self.items()),
    {
        self.find(k).is_some()
    }

    /// The value stored under `k`.
    pub fn get(&self, k: &str) -> (r: Option<&V>)
        ensures
            sorted_keys(self.items()),
            match r {
                Some(v) => lookup(self.items(), k@) == Some(*v),
                None => lookup(self.items(), k@) == None::<V>,
            },
    {
        match self.find(k) {
            Some(i) => {
                proof {
                    lemma_key_index_unique(self.items(), i as int);
                }
                Some(&self.entries[i].1)
            },
            None => None,
        }
    }

    /// Stores `v` under `k`, keeping the name order; returns the value it
    /// replaces.
    pub fn insert(&mut self, k: String, v: V) -> (r: Option<V>)
        ensures
            sorted_keys(final(self).items()),
            r == lookup(old(self).items(), k@),
            has_key(old(self).items(), k@) ==> final(self).items() == old(self).items().update(
                key_index(old(self).items(), k@),
                (k, v),
            ),
            !has_key(old(self).items(), k@) ==> final(self).items() == old(self).items().insert(
                rank(old(self).items(), k@),
                (k, v),
            ),
            lookup(final(self).items(), k@) == Some(v),
            forall|q: Seq<char>| q != k@ ==> lookup(final(self).items(), q) == lookup(
                old(self).items(),
                q,
            ),
            final(self).items().len() == old(self).items().len() + if has_key(old(self).items(), k@) {
                0int
            } else {
                1int
            },
    {
        proof {
            use_type_invariant(&*self);
        }
        let mut e: Vec<(String, V)> = Vec::new();
        std::mem::swap(&mut e, &mut self.entries);
        let ghost s = e@;
        let n = e.len();
        let mut i: usize = 0;
        while i < n && str_less(e[i].0.as_str(), k.as_str())
            invariant
                e@ == s,
                sorted_keys(s),
                n == s.len(),
                i <= n,
                forall|j: int| 0 <= j < i ==> str_lt(#[trigger] s[j].0@, k@),
                rank(s.subrange(0, i as int), k@) == i,
            decreases n - i,
        {
            assert(s.subrange(0, i + 1).drop_last() =~= s.subrange(0, i as int));
            i += 1;
        }
        proof {
            // Every key from `i` on is at least `k`.
            assert forall|j: int| i <= j < n implies !str_lt(#[trigger] s[j].0@, k@) by {
                if i < n {
                    assert(!str_lt(s[i as int].0@, k@));
                    if j > i {
                        assert(str_lt(s[i as int].0@, s[j].0@));
                        lemma_str_lt_total(s[i as int].0@, k@);
                        lemma_str_lt_asymmetric(s[j].0@, k@);
                        if str_lt(s[j].0@, k@) {
                            if s[i as int].0@ == k@ {
                                lemma_str_lt_asymmetric(s[i as int].0@, s[j].0@);
                            } else {
                                lemma_str_lt_transitive(k@, s[i as int].0@, s[j].0@);
                                lemma_str_lt_asymmetric(k@, s[j].0@);
                            }
                        }
                    }
                }
            }
            lemma_rank_split(s, i as int, k@);
        }
        let result;
        if i < n && str_eq(e[i].0.as_str(), k.as_str()) {
            proof {
                lemma_key_index_unique(s, i as int);
                lemma_update_sorted(s, i as int, (k, v));
            }
            let old_entry = e.remove(i);
            e.insert(i, (k, v));
            assert(e@ =~= s.update(i as int, (k, v)));
            result = Some(old_entry.1);
        } else {
            proof {
                assert forall|j: int| i <= j < n implies str_lt(k@, #[trigger] s[j].0@) by {
                    assert(!str_lt(s[j].0@, k@));
                    lemma_str_lt_total(s[j].0@, k@);
                    if j > i {
                        assert(str_lt(s[i as int].0@, s[j].0@));
                        assert(s[i as int].0@ != k@);
                        lemma_str_lt_total(s[i as int].0@, k@);
                        if s[j].0@ == k@ {
                            lemma_str_lt_transitive(k@, s[i as int].0@, s[j].0@);
                            lemma_str_lt_irreflexive(k@);
                        }
                    }
                }
                lemma_insert_sorted(s, i as int, (k, v));
                assert forall|j: int| 0 <= j < n implies #[trigger] s[j].0@ != k@ by {
                    if j < i {
                        lemma_str_lt_irreflexive(k@);
                    } else {
                        lemma_str_lt_irreflexive(k@);
                    }
                }
            }
            e.insert(i, (k, v));
            result = None;
        }
        proof {
            let t = e@;
            lemma_key_index_unique(t, i as int);
            assert forall|q: Seq<char>| q != k@ implies lookup(t, q) == lookup(s, q) by {
                if has_key(s, q) {
                    let a = key_index(s, q);
                    lemma_key_index_unique(s, a);
                    let b = if result is Some || a < i {
                        a
                    } else {
                        a + 1
                    };
                    assert(t[b] == s[a]);
                    lemma_key_index_unique(t, b);
                } else if has_key(t, q) {
                    let b = key_index(t, q);
                    if result is Some || b < i {
                        assert(s[b] == t[b]);
                    } else {
                        assert(b != i);
                        assert(s[b - 1] == t[b]);
                    }
                }
            }
        }
        std::mem::swap(&mut e, &mut self.entries);
        result
    }

    /// Removes the entry named `k`, returning its value.
    pub fn remove(&mut self, k: &str) -> (r: Option<V>)
        ensures
            sorted_keys(final(self).items()),
            r == lookup(old(self).items(), k@),
            has_key(old(self).items(), k@) ==> final(self).items() == old(self).items().remove(
                key_index(old(self).items(), k@),
            ),
            !has_key(old(self).items(), k@) ==> final(self).items() == old(self).items(),
            lookup(final(self).items(), k@) == None::<V>,
            forall|q: Seq<char>| q != k@ ==> lookup(final(self).items(), q) == lookup(
                old(self).items(),
                q,
            ),
            final(self).items().len() == old(self).items().len() - if has_key(old(self).items(), k@) {
                1int
            } else {
                0int
            },
    {
        proof {
            use_type_invariant(&*self);
        }
        match self.find(k) {
            None => None,
            Some(i) => {
                let mut e: Vec<(String, V)> = Vec::new();
                std::mem::swap(&mut e, &mut self.entries);
                let ghost s = e@;
                proof {
                    lemma_key_index_unique(s, i as int);
                    lemma_remove_sorted(s, i as int);
                }
                let old_entry = e.remove(i);
                proof {
                    let t = e@;
                    assert forall|q: Seq<char>| q != k@ implies lookup(t, q) == lookup(s, q) by {
                        if has_key(s, q) {
                            let a = key_index(s, q);
                            lemma_key_index_unique(s, a);
                            assert(a != i);
                            let b = if a < i {
                                a
                            } else {
                                a - 1
                            };
                            assert(t[b] == s[a]);
                            lemma_key_index_unique(t, b);
                        } else if has_key(t, q) {
                            let b = key_index(t, q);
                            if b < i {
                                assert(s[b] == t[b]);
                            } else {
                                assert(s[b + 1] == t[b]);
                            }
                        }
                    }
                    if has_key(t, k@) {
                        let b = key_index(t, k@);
                        if b < i {
                            assert(s[b] == t[b]);
                        } else {
                            assert(s[b + 1] == t[b]);
                        }
                        lemma_str_lt_irreflexive(k@);
                    }
                }
                std::mem::swap(&mut e, &mut self.entries);
                Some(old_entry.1)
            },
        }
    }

    /// Removes every entry.
    pub fn clear(&mut self)
        ensures
            final(self).items() == Seq::<(String, V)>::empty(),
    {
        self.entries = Vec::new();
    }
}

/// Splitting the rank at the first key that is not smaller than `k`.
pub proof fn lemma_rank_split<V>(s: Seq<(String, V)>, i: int, k: Seq<char>)
    requires
        0 <= i <= s.len(),
        rank(s.subrange(0, i), k) == i,
        forall|j: int| i <= j < s.len() ==> !str_lt(#[trigger] s[j].0@, k),
    ensures
        rank(s, k) == i,
    decreases s.len() - i,
{
    if i < s.len() {
        let t = s.drop_last();
        assert(t.subrange(0, i) =~= s.subrange(0, i));
        lemma_rank_split(t, i, k);
    } else {
        assert(s.subrange(0, i) =~= s);
    }
}

impl<V> NameMap<V> {
    /// The values of all entries, in name order.
    pub fn values(&self) -> (r: Vec<&V>)
        ensures
            r@.len() == self.items().len(),
            forall|i: int| 0 <= i < r@.len() ==> *(#[trigger] r@[i]) == self.items()[i].1,
    {
        let n = self.entries.len();
        let mut r: Vec<&V> = Vec::new();
        let mut i: usize = 0;
        while i < n
            invariant
                n == self.entries@.len(),
                i <= n,
                r@.len() == i,
                forall|j: int| 0 <= j < i ==> *(#[trigger] r@[j]) == self.entries@[j].1,
            decreases n - i,
        {
            r.push(&self.entries[i].1);
            i += 1;
        }
        r
    }
}

impl<V> NameMap<V> {
    /// The names of all entries, in order.
    pub fn keys(&self) -> (r: Vec<String>)
        ensures
            r@.len() == self.items().len(),
            forall|i: int| 0 <= i < r@.len() ==> #[trigger] r@[i] == self.items()[i].0,
            sorted_keys(self.items()),
    {
        proof {
            use_type_invariant(self);
        }
        let n = self.entries.len();
        let mut r: Vec<String> = Vec::new();
        let mut i: usize = 0;
        while i < n
            invariant
                n == self.entries@.len(),
                i <= n,
                r@.len() == i,
                forall|j: int| 0 <= j < i ==> #[trigger] r@[j] == self.entries@[j].0,
            decreases n - i,
        {
            r.push(self.entries[i].0.clone());
            i += 1;
        }
        r
    }
}

} // verus!

verus! {

impl Clone for NameMap<String> {
    fn clone(&self) -> (r: Self)
        ensures
            r.items() == self.items(),
    {
        proof {
            use_type_invariant(self);
        }
        let n = self.entries.len();
        let mut entries: Vec<(String, String)> = Vec::new();
        let mut i: usize = 0;
        while i < n
            invariant
                n == self.entries@.len(),
                i <= n,
                entries@ =~= self.entries@.subrange(0, i as int),
            decreases n - i,
        {
            let e = &self.entries[i];
            entries.push((e.0.clone(), e.1.clone()));
            i += 1;
        }
        assert(entries@ =~= self.entries@);
        NameMap { entries }
    }
}

} // verus!
