//! A small map from service ids to values that remembers insertion order.
//! Each id occurs at most once; updating an id keeps its position.

use vstd::prelude::*;
use crate::text::same_text;

verus! {

/// No id occurs twice.
pub open spec fn keys_unique<T>(s: Seq<(Seq<char>, T)>) -> bool {
    forall|i: int, j: int|
        #![trigger s[i], s[j]]
        0 <= i < s.len() && 0 <= j < s.len() && i != j ==> s[i].0 != s[j].0
}

/// Some entry has id `k`.
pub open spec fn has_key<T>(s: Seq<(Seq<char>, T)>, k: Seq<char>) -> bool {
    exists|i: int| 0 <= i < s.len() && #[trigger] s[i].0 == k
}

/// The position of the entry with id `k` (meaningful when `has_key`).
pub open spec fn key_pos<T>(s: Seq<(Seq<char>, T)>, k: Seq<char>) -> int {
    choose|i: int| 0 <= i < s.len() && #[trigger] s[i].0 == k
}

/// The value stored under `k`, if any.
pub open spec fn lookup<T>(s: Seq<(Seq<char>, T)>, k: Seq<char>) -> Option<T> {
    if has_key(s, k) {
        Some(s[key_pos(s, k)].1)
    } else {
        None
    }
}

/// `s` with `k` mapped to `v`: in place when `k` is present, else appended.
pub open spec fn upsert<T>(s: Seq<(Seq<char>, T)>, k: Seq<char>, v: T) -> Seq<(Seq<char>, T)> {
    if has_key(s, k) {
        s.update(key_pos(s, k), (k, v))
    } else {
        s.push((k, v))
    }
}

/// An update keeps ids unique, stores `v` under `k` and leaves other ids alone.
pub proof fn lemma_upsert<T>(s: Seq<(Seq<char>, T)>, k: Seq<char>, v: T)
    requires
        keys_unique(s),
    ensures
        keys_unique(upsert(s, k, v)),
        lookup(upsert(s, k, v), k) == Some(v),
        forall|k2: Seq<char>| k2 != k ==> lookup(upsert(s, k, v), k2) == lookup(s, k2),
        upsert(s, k, v).len() == if has_key(s, k) { s.len() } else { s.len() + 1 },
{
    let u = upsert(s, k, v);
    if has_key(s, k) {
        let p = key_pos(s, k);
        assert(u[p].0 == k);
        assert forall|k2: Seq<char>| k2 != k implies lookup(u, k2) == lookup(s, k2) by {
            if has_key(s, k2) {
                let q = key_pos(s, k2);
                assert(u[q].0 == k2);
                assert(has_key(u, k2));
                let q2 = key_pos(u, k2);
                assert(q2 != p);
                assert(u[q2] == s[q2]);
            }
            if has_key(u, k2) {
                let q2 = key_pos(u, k2);
                assert(q2 != p);
                assert(s[q2].0 == k2);
            }
        }
    } else {
        assert(u[s.len() as int].0 == k);
        assert forall|k2: Seq<char>| k2 != k implies lookup(u, k2) == lookup(s, k2) by {
            if has_key(s, k2) {
                let q = key_pos(s, k2);
                assert(u[q].0 == k2);
            }
            if has_key(u, k2) {
                let q2 = key_pos(u, k2);
                assert(q2 != s.len());
                assert(s[q2].0 == k2);
            }
        }
    }
}

/// Id-keyed entries in insertion order.
pub struct Keyed<T> {
    entries: Vec<(String, T)>,
}

impl<T: Copy> Keyed<T> {
    /// The entries as (id, value) pairs, in insertion order.
    pub closed spec fn view(&self) -> Seq<(Seq<char>, T)> {
        self.entries@.map_values(|e: (String, T)| (e.0@, e.1))
    }

    pub fn new() -> (r: Self)
        ensures
            r.view() == Seq::<(Seq<char>, T)>::empty(),
    {
        let r = Keyed { entries: Vec::new() };
        assert(r.view() =~= Seq::<(Seq<char>, T)>::empty());
        r
    }

    pub fn len(&self) -> (r: usize)
        ensures
            r == self.view().len(),
    {
        self.entries.len()
    }

    /// The id stored at position `i`.
    pub fn key_at(&self, i: usize) -> (r: &String)
        requires
            i < self.view().len(),
        ensures
            r@ == self.view()[i as int].0,
    {
        &self.entries[i].0
    }

    /// The value stored at position `i`.
    pub fn value_at(&self, i: usize) -> (r: T)
        requires
            i < self.view().len(),
        ensures
            r == self.view()[i as int].1,
    {
        self.entries[i].1
    }

    /// The position of `key`, if present.
    pub fn find(&self, key: &str) -> (r: Option<usize>)
        requires
            keys_unique(self.view()),
        ensures
            r is None ==> !has_key(self.view(), key@),
            r matches Some(i) ==> has_key(self.view(), key@) && i == key_pos(self.view(), key@) && i
                < self.view().len(),
    {
        let mut i: usize = 0;
        while i < self.entries.len()
            invariant
                i <= self.entries@.len(),
                keys_unique(self.view()),
                forall|j: int| 0 <= j < i ==> #[trigger] self.view()[j].0 != key@,
            decreases self.entries@.len() - i,
        {
            if same_text(self.entries[i].0.as_str(), key) {
                assert(self.view()[i as int].0 == key@);
                assert(has_key(self.view(), key@));
                let ghost p = key_pos(self.view(), key@);
                assert(0 <= p < self.view().len() && self.view()[p].0 == key@);
                proof {
                    if p != i as int {
                        assert(self.view()[p].0 != self.view()[i as int].0);
                    }
                }
                return Some(i);
            }
            i = i + 1;
        }
        assert forall|j: int| 0 <= j < self.view().len() implies #[trigger] self.view()[j].0 != key@ by {}
        None
    }

    /// The value stored under `key`.
    pub fn get(&self, key: &str) -> (r: Option<T>)
        requires
            keys_unique(self.view()),
        ensures
            r == lookup(self.view(), key@),
    {
        match self.find(key) {
            Some(i) => Some(self.entries[i].1),
            None => None,
        }
    }

    /// Stores `v` under `key`; returns what was stored there before.
    pub fn insert(&mut self, key: &str, v: T) -> (r: Option<T>)
        requires
            keys_unique(old(self).view()),
        ensures
            final(self).view() == upsert(old(self).view(), key@, v),
            keys_unique(final(self).view()),
            r == lookup(old(self).view(), key@),
    {
        proof {
            lemma_upsert(self.view(), key@, v);
        }
        let k = String::from_str(key);
        match self.find(key) {
            Some(i) => {
                let prev = self.entries[i].1;
                self.entries.set(i, (k, v));
                assert(self.view() =~= upsert(old(self).view(), key@, v));
                Some(prev)
            },
            None => {
                self.entries.push((k, v));
                assert(self.view() =~= upsert(old(self).view(), key@, v));
                None
            },
        }
    }
}

} // verus!
