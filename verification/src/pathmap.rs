//! A map from path strings to values, with arbitrary-order eviction.
//!
//! The process-wide stores of the detector (snapshots, last-operation
//! index, temp-content cache, rapid-sequence cache) are maps keyed by path.
//! This one is backed by a vector of entries with pairwise-distinct keys;
//! its view is a `Map<Seq<char>, V>`. Eviction removes the oldest entries
//! first, which is all the store policies ask for.

use vstd::prelude::*;

verus! {

/// The map denoted by an entry sequence with distinct keys.
pub closed spec fn entries_map<V>(s: Seq<(String, V)>) -> Map<Seq<char>, V> {
    Map::new(
        |k: Seq<char>| exists|i: int| 0 <= i < s.len() && (#[trigger] s[i]).0@ == k,
        |k: Seq<char>|
            {
                let i = choose|i: int| 0 <= i < s.len() && (#[trigger] s[i]).0@ == k;
                s[i].1
            },
    )
}

/// Path-keyed store.
pub struct PathMap<V> {
    entries: Vec<(String, V)>,
}

impl<V> PathMap<V> {
    /// Keys are pairwise distinct.
    pub closed spec fn wf(&self) -> bool {
        forall|i: int, j: int|
            0 <= i < j < self.entries@.len() ==> (#[trigger] self.entries@[i]).0@ != (
            #[trigger] self.entries@[j]).0@
    }

    /// Number of entries held.
    pub closed spec fn spec_len(&self) -> nat {
        self.entries@.len()
    }

    pub fn new() -> (r: Self)
        ensures
            r.wf(),
            r@ == Map::<Seq<char>, V>::empty(),
            r.spec_len() == 0,
    {
        let r = PathMap { entries: Vec::new() };
        proof {
            assert(r@ =~= Map::<Seq<char>, V>::empty());
        }
        r
    }

    pub fn len(&self) -> (r: usize)
        ensures
            r == self.spec_len(),
    {
        self.entries.len()
    }

    proof fn lemma_value_at(s: Seq<(String, V)>, k: Seq<char>, i: int)
        requires
            forall|a: int, b: int|
                0 <= a < b < s.len() ==> (#[trigger] s[a]).0@ != (#[trigger] s[b]).0@,
            0 <= i < s.len(),
            s[i].0@ == k,
        ensures
            entries_map(s).contains_key(k),
            entries_map(s)[k] == s[i].1,
    {
        let j = choose|j: int| 0 <= j < s.len() && (#[trigger] s[j]).0@ == k;
        if i < j {
            assert(s[i].0@ != s[j].0@);
        }
        if j < i {
            assert(s[j].0@ != s[i].0@);
        }
    }

    fn index_of(&self, key: &String) -> (r: Option<usize>)
        ensures
            match r {
                Some(i) => i < self.entries@.len() && self.entries@[i as int].0@ == key@,
                None => forall|i: int|
                    0 <= i < self.entries@.len() ==> (#[trigger] self.entries@[i]).0@ != key@,
            },
    {
        let len = self.entries.len();
        let mut i: usize = 0;
        while i < len
            invariant
                len == self.entries@.len(),
                i <= len,
                forall|j: int| 0 <= j < i ==> (#[trigger] self.entries@[j]).0@ != key@,
            decreases len - i,
        {
            if self.entries[i].0 == *key {
                return Some(i);
            }
            i = i + 1;
        }
        None
    }

    /// Whether the map holds `key`.
    pub fn contains_key(&self, key: &String) -> (r: bool)
        requires
            self.wf(),
        ensures
            r == self@.contains_key(key@),
    {
        match self.index_of(key) {
            Some(i) => {
                proof {
                    Self::lemma_value_at(self.entries@, key@, i as int);
                }
                true
            },
            None => {
                assert(!self@.contains_key(key@));
                false
            },
        }
    }

    /// The value held for `key`, if any.
    pub fn get(&self, key: &String) -> (r: Option<&V>)
        requires
            self.wf(),
        ensures
            match r {
                Some(v) => self@.contains_key(key@) && *v == self@[key@],
                None => !self@.contains_key(key@),
            },
    {
        match self.index_of(key) {
            Some(i) => {
                proof {
                    Self::lemma_value_at(self.entries@, key@, i as int);
                }
                Some(&self.entries[i].1)
            },
            None => {
                assert(!self@.contains_key(key@));
                None
            },
        }
    }

    /// Binds `key` to `value`, replacing any previous binding.
    pub fn insert(&mut self, key: String, value: V)
        requires
            old(self).wf(),
        ensures
            final(self).wf(),
            final(self)@ == old(self)@.insert(key@, value),
            final(self).spec_len() == old(self).spec_len() + if old(self)@.contains_key(key@) {
                0int
            } else {
                1int
            },
    {
        let ghost old_entries = self.entries@;
        match self.index_of(&key) {
            Some(i) => {
                proof {
                    Self::lemma_value_at(old_entries, key@, i as int);
                }
                self.entries.set(i, (key, value));
                proof {
                    assert(self@ =~= entries_map(old_entries).insert(
                        self.entries@[i as int].0@,
                        value,
                    )) by {
                        assert forall|k: Seq<char>| self@.contains_key(k) implies entries_map(
                            old_entries,
                        ).insert(self.entries@[i as int].0@, value).contains_key(k) && self@[k]
                            == entries_map(old_entries).insert(
                            self.entries@[i as int].0@,
                            value,
                        )[k] by {
                            let w = choose|w: int|
                                0 <= w < self.entries@.len() && (#[trigger] self.entries@[w]).0@
                                    == k;
                            if w == i {
                                Self::lemma_value_at(self.entries@, k, i as int);
                            } else {
                                Self::lemma_value_at(self.entries@, k, w);
                                Self::lemma_value_at(old_entries, k, w);
                            }
                        }
                        assert forall|k: Seq<char>|
                            entries_map(old_entries).insert(
                                self.entries@[i as int].0@,
                                value,
                            ).contains_key(k) implies self@.contains_key(k) by {
                            if k == self.entries@[i as int].0@ {
                                assert(self.entries@[i as int].0@ == k);
                            } else {
                                let w0 = choose|w0: int|
                                    0 <= w0 < old_entries.len() && (#[trigger] old_entries[w0]).0@
                                        == k;
                                assert(self.entries@[w0].0@ == k);
                            }
                        }
                    }
                }
            },
            None => {
                self.entries.push((key, value));
                proof {
                    let n = self.entries@.len() - 1;
                    assert(self@ =~= entries_map(old_entries).insert(
                        self.entries@[n].0@,
                        value,
                    )) by {
                        assert forall|k: Seq<char>| self@.contains_key(k) implies entries_map(
                            old_entries,
                        ).insert(self.entries@[n].0@, value).contains_key(k) && self@[k]
                            == entries_map(old_entries).insert(self.entries@[n].0@, value)[k] by {
                            let w = choose|w: int|
                                0 <= w < self.entries@.len() && (#[trigger] self.entries@[w]).0@
                                    == k;
                            if w == n {
                                Self::lemma_value_at(self.entries@, k, n);
                            } else {
                                Self::lemma_value_at(self.entries@, k, w);
                                Self::lemma_value_at(old_entries, k, w);
                            }
                        }
                        assert forall|k: Seq<char>|
                            entries_map(old_entries).insert(
                                self.entries@[n].0@,
                                value,
                            ).contains_key(k) implies self@.contains_key(k) by {
                            if k == self.entries@[n].0@ {
                                assert(self.entries@[n].0@ == k);
                            } else {
                                let w0 = choose|w0: int|
                                    0 <= w0 < old_entries.len() && (#[trigger] old_entries[w0]).0@
                                        == k;
                                assert(self.entries@[w0].0@ == k);
                            }
                        }
                    }
                    assert(!entries_map(old_entries).contains_key(self.entries@[n].0@));
                }
            },
        }
    }

    /// Drops the binding for `key`, handing back its value.
    pub fn remove(&mut self, key: &String) -> (r: Option<V>)
        requires
            old(self).wf(),
        ensures
            final(self).wf(),
            final(self)@ == old(self)@.remove(key@),
            match r {
                Some(v) => {
                    &&& old(self)@.contains_key(key@)
                    &&& v == old(self)@[key@]
                    &&& final(self).spec_len() == old(self).spec_len() - 1
                },
                None => {
                    &&& !old(self)@.contains_key(key@)
                    &&& final(self).spec_len() == old(self).spec_len()
                },
            },
    {
        let ghost old_entries = self.entries@;
        match self.index_of(key) {
            Some(i) => {
                proof {
                    Self::lemma_value_at(old_entries, key@, i as int);
                }
                let (_, v) = self.entries.remove(i);
                proof {
                    assert(self@ =~= entries_map(old_entries).remove(key@)) by {
                        assert forall|k: Seq<char>| self@.contains_key(k) implies entries_map(
                            old_entries,
                        ).remove(key@).contains_key(k) && self@[k] == entries_map(
                            old_entries,
                        ).remove(key@)[k] by {
                            let w = choose|w: int|
                                0 <= w < self.entries@.len() && (#[trigger] self.entries@[w]).0@
                                    == k;
                            let w0 = if w < i { w } else { w + 1 };
                            assert(old_entries[w0].0@ == k);
                            Self::lemma_value_at(self.entries@, k, w);
                            Self::lemma_value_at(old_entries, k, w0);
                        }
                        assert forall|k: Seq<char>|
                            entries_map(old_entries).remove(key@).contains_key(
                                k,
                            ) implies self@.contains_key(k) by {
                            let w0 = choose|w0: int|
                                0 <= w0 < old_entries.len() && (#[trigger] old_entries[w0]).0@
                                    == k;
                            assert(w0 != i);
                            let w = if w0 < i { w0 } else { w0 - 1 };
                            assert(self.entries@[w].0@ == k);
                        }
                    }
                }
                Some(v)
            },
            None => {
                proof {
                    assert(!self@.contains_key(key@));
                    assert(self@ =~= self@.remove(key@));
                }
                None
            },
        }
    }

    /// Moves the binding of `from` to `to`: afterwards `to` holds what
    /// `from` held, and `from` holds nothing. Without a binding for
    /// `from`, nothing changes.
    pub fn move_entry(&mut self, from: &String, to: String) -> (moved: bool)
        requires
            old(self).wf(),
        ensures
            final(self).wf(),
            moved == old(self)@.contains_key(from@),
            final(self)@ == if old(self)@.contains_key(from@) {
                old(self)@.remove(from@).insert(to@, old(self)@[from@])
            } else {
                old(self)@
            },
            final(self).spec_len() <= old(self).spec_len(),
    {
        match self.remove(from) {
            Some(v) => {
                self.insert(to, v);
                true
            },
            None => false,
        }
    }

    /// Removes oldest entries until at most `limit` remain. Every
    /// surviving binding is one the map already had.
    pub fn evict_to(&mut self, limit: usize)
        requires
            old(self).wf(),
        ensures
            final(self).wf(),
            final(self).spec_len() == if old(self).spec_len() <= limit {
                old(self).spec_len()
            } else {
                limit as nat
            },
            forall|k: Seq<char>|
                #[trigger] final(self)@.contains_key(k) ==> old(self)@.contains_key(k)
                    && final(self)@[k] == old(self)@[k],
            old(self).spec_len() <= limit ==> final(self)@ == old(self)@,
    {
        let ghost orig_entries = self.entries@;
        while self.entries.len() > limit
            invariant
                forall|i: int, j: int|
                    0 <= i < j < orig_entries.len() ==> (#[trigger] orig_entries[i]).0@ != (
                    #[trigger] orig_entries[j]).0@,
                self.entries@.len() <= orig_entries.len(),
                self.entries@ == orig_entries.skip(orig_entries.len() - self.entries@.len()),
                self.entries@.len() >= limit || self.entries@.len() == orig_entries.len(),
            decreases self.entries@.len(),
        {
            let ghost prev = self.entries@;
            self.entries.remove(0);
            proof {
                let d = orig_entries.len() - prev.len();
                assert(self.entries@ =~= orig_entries.skip(d + 1));
            }
        }
        proof {
            let d = orig_entries.len() - self.entries@.len();
            assert forall|i: int, j: int|
                0 <= i < j < self.entries@.len() implies (#[trigger] self.entries@[i]).0@ != (
                #[trigger] self.entries@[j]).0@ by {
                assert(self.entries@[i] == orig_entries[i + d]);
                assert(self.entries@[j] == orig_entries[j + d]);
            }
            assert forall|k: Seq<char>| self@.contains_key(k) implies old(self)@.contains_key(k)
                && self@[k] == old(self)@[k] by {
                let w = choose|w: int|
                    0 <= w < self.entries@.len() && (#[trigger] self.entries@[w]).0@ == k;
                assert(orig_entries[w + d].0@ == k);
                Self::lemma_value_at(self.entries@, k, w);
                Self::lemma_value_at(orig_entries, k, w + d);
            }
            if old(self).spec_len() <= limit {
                assert(self.entries@ =~= orig_entries);
            }
        }
    }
}

impl<V> View for PathMap<V> {
    type V = Map<Seq<char>, V>;

    closed spec fn view(&self) -> Map<Seq<char>, V> {
        entries_map(self.entries@)
    }
}

} // verus!
