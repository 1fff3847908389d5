//! A map from strings to values, held as a vector of distinct keys.

use vstd::prelude::*;

verus! {

/// Whether the keys of `s` are pairwise distinct.
pub open spec fn keys_distinct<V>(s: Seq<(String, V)>) -> bool {
    forall|i: int, j: int|
        0 <= i < s.len() && 0 <= j < s.len() && i != j ==> (#[trigger] s[i]).0@ != (
        #[trigger] s[j]).0@
}

/// Whether `k` is the key at some index of `s`.
pub open spec fn has_key<V>(s: Seq<(String, V)>, k: Seq<char>) -> bool {
    exists|i: int| 0 <= i < s.len() && (#[trigger] s[i]).0@ == k
}

/// An index of `s` whose key is `k`.
pub open spec fn key_index<V>(s: Seq<(String, V)>, k: Seq<char>) -> int {
    choose|i: int| 0 <= i < s.len() && (#[trigger] s[i]).0@ == k
}

/// The map that the entries `s` hold.
pub open spec fn map_of<V>(s: Seq<(String, V)>) -> Map<Seq<char>, V> {
    Map::new(|k: Seq<char>| has_key(s, k), |k: Seq<char>| s[key_index(s, k)].1)
}

/// With distinct keys, the entry at index `i` is the map's value for its key.
pub proof fn lemma_map_of_index<V>(s: Seq<(String, V)>, i: int)
    requires
        keys_distinct(s),
        0 <= i < s.len(),
    ensures
        map_of(s).dom().contains(s[i].0@),
        map_of(s)[s[i].0@] == s[i].1,
        key_index(s, s[i].0@) == i,
{
    assert(has_key(s, s[i].0@));
    let j = key_index(s, s[i].0@);
    assert(s[j].0@ == s[i].0@);
}

/// Appending a new key adds it to the map.
pub proof fn lemma_map_of_push<V>(s: Seq<(String, V)>, k: String, v: V)
    requires
        keys_distinct(s),
        !has_key(s, k@),
    ensures
        keys_distinct(s.push((k, v))),
        map_of(s.push((k, v))) == map_of(s).insert(k@, v),
{
    let t = s.push((k, v));
    assert forall|i: int, j: int|
        0 <= i < t.len() && 0 <= j < t.len() && i != j implies (#[trigger] t[i]).0@ != (
        #[trigger] t[j]).0@ by {
        if i < s.len() && j < s.len() {
            assert(t[i] == s[i] && t[j] == s[j]);
        } else if i < s.len() {
            assert(t[i] == s[i]);
        } else {
            assert(t[j] == s[j]);
        }
    }
    assert forall|q: Seq<char>| #[trigger] map_of(t).dom().contains(q) <==> map_of(s).insert(
        k@,
        v,
    ).dom().contains(q) by {
        if has_key(s, q) {
            let i = key_index(s, q);
            assert(t[i] == s[i]);
        }
        if has_key(t, q) && q != k@ {
            let i = key_index(t, q);
            assert(i < s.len());
            assert(s[i] == t[i]);
        }
        if q == k@ {
            assert(t[s.len() as int].0@ == k@);
        }
    }
    assert forall|q: Seq<char>| #[trigger] map_of(t).dom().contains(q) implies map_of(t)[q]
        == map_of(s).insert(k@, v)[q] by {
        if q == k@ {
            lemma_map_of_index(t, s.len() as int);
        } else {
            let i = key_index(t, q);
            lemma_map_of_index(t, i);
            assert(i < s.len());
            assert(s[i] == t[i]);
            lemma_map_of_index(s, i);
        }
    }
    assert(map_of(t) =~= map_of(s).insert(k@, v));
}

/// Overwriting the entry at `i` with the same key changes only its value.
pub proof fn lemma_map_of_update<V>(s: Seq<(String, V)>, i: int, k: String, v: V)
    requires
        keys_distinct(s),
        0 <= i < s.len(),
        s[i].0@ == k@,
    ensures
        keys_distinct(s.update(i, (k, v))),
        map_of(s.update(i, (k, v))) == map_of(s).insert(k@, v),
{
    let t = s.update(i, (k, v));
    assert forall|a: int, b: int|
        0 <= a < t.len() && 0 <= b < t.len() && a != b implies (#[trigger] t[a]).0@ != (
        #[trigger] t[b]).0@ by {
        assert(t[a].0@ == s[a].0@);
        assert(t[b].0@ == s[b].0@);
    }
    assert forall|q: Seq<char>| #[trigger] map_of(t).dom().contains(q) <==> map_of(s).insert(
        k@,
        v,
    ).dom().contains(q) by {
        if has_key(s, q) {
            let j = key_index(s, q);
            assert(t[j].0@ == s[j].0@);
        }
        if has_key(t, q) {
            let j = key_index(t, q);
            assert(t[j].0@ == s[j].0@);
        }
        if q == k@ {
            assert(t[i].0@ == k@);
        }
    }
    assert forall|q: Seq<char>| #[trigger] map_of(t).dom().contains(q) implies map_of(t)[q]
        == map_of(s).insert(k@, v)[q] by {
        let j = key_index(t, q);
        lemma_map_of_index(t, j);
        if q != k@ {
            assert(j != i);
            assert(t[j] == s[j]);
            lemma_map_of_index(s, j);
        } else {
            assert(j == i);
        }
    }
    assert(map_of(t) =~= map_of(s).insert(k@, v));
}

/// Deleting the entry at `i` removes its key from the map.
pub proof fn lemma_map_of_remove<V>(s: Seq<(String, V)>, i: int)
    requires
        keys_distinct(s),
        0 <= i < s.len(),
    ensures
        keys_distinct(s.remove(i)),
        map_of(s.remove(i)) == map_of(s).remove(s[i].0@),
{
    let t = s.remove(i);
    let k = s[i].0@;
    assert forall|a: int| 0 <= a < t.len() implies #[trigger] t[a] == s[if a < i {
        a
    } else {
        a + 1
    }] by {}
    assert forall|a: int, b: int|
        0 <= a < t.len() && 0 <= b < t.len() && a != b implies (#[trigger] t[a]).0@ != (
        #[trigger] t[b]).0@ by {
        let a2 = if a < i { a } else { a + 1 };
        let b2 = if b < i { b } else { b + 1 };
        assert(t[a] == s[a2]);
        assert(t[b] == s[b2]);
    }
    assert forall|q: Seq<char>| #[trigger] map_of(t).dom().contains(q) <==> map_of(s).remove(
        k,
    ).dom().contains(q) by {
        if has_key(t, q) {
            let a = key_index(t, q);
            let a2 = if a < i { a } else { a + 1 };
            assert(t[a] == s[a2]);
            assert(a2 != i);
        }
        if has_key(s, q) && q != k {
            let a2 = key_index(s, q);
            assert(a2 != i);
            let a = if a2 < i { a2 } else { a2 - 1 };
            assert(t[a] == s[a2]);
        }
    }
    assert forall|q: Seq<char>| #[trigger] map_of(t).dom().contains(q) implies map_of(t)[q]
        == map_of(s).remove(k)[q] by {
        let a = key_index(t, q);
        lemma_map_of_index(t, a);
        let a2 = if a < i { a } else { a + 1 };
        assert(t[a] == s[a2]);
        lemma_map_of_index(s, a2);
    }
    assert(map_of(t) =~= map_of(s).remove(k));
}

/// A finite map from strings to values, in insertion order.
pub struct StringMap<V> {
    entries: Vec<(String, V)>,
}

impl<V> StringMap<V> {
    #[verifier::type_invariant]
    closed spec fn distinct(&self) -> bool {
        keys_distinct(self.entries@)
    }

    /// The entries, with pairwise distinct keys.
    pub closed spec fn entries_view(&self) -> Seq<(String, V)> {
        self.entries@
    }

    /// The map this value holds.
    pub open spec fn view(&self) -> Map<Seq<char>, V> {
        map_of(self.entries_view())
    }

    /// An empty map.
    pub fn new() -> (r: Self)
        ensures
            r.view() == Map::<Seq<char>, V>::empty(),
            r.entries_view().len() == 0,
    {
        let r = StringMap { entries: Vec::new() };
        assert(r.view() =~= Map::<Seq<char>, V>::empty());
        r
    }

    /// The entries have distinct keys.
    pub fn distinct_keys(&self)
        ensures
            keys_distinct(self.entries_view()),
    {
        proof {
            use_type_invariant(self);
        }
    }

    /// Number of entries, which is the number of keys.
    pub fn len(&self) -> (r: usize)
        ensures
            r == self.entries_view().len(),
            self.view().dom().finite(),
            r == self.view().dom().len(),
    {
        proof {
            use_type_invariant(self);
            let s = self.entries_view();
            let keys = Seq::new(s.len(), |i: int| s[i].0@);
            assert forall|i: int, j: int| 0 <= i < j < keys.len() implies keys[i] != keys[j] by {
                assert(s[i].0@ != s[j].0@);
            }
            assert(keys.no_duplicates());
            assert forall|q: Seq<char>| #[trigger] self.view().dom().contains(q)
                <==> keys.to_set().contains(q) by {
                if self.view().dom().contains(q) {
                    let i = key_index(s, q);
                    assert(keys[i] == q);
                }
                if keys.to_set().contains(q) {
                    let i = choose|i: int| 0 <= i < keys.len() && keys[i] == q;
                    assert(s[i].0@ == q);
                }
            }
            assert(self.view().dom() =~= keys.to_set());
            keys.unique_seq_to_set();
        }
        self.entries.len()
    }

    /// Index of the entry with key `k`, if any.
    fn position(&self, k: &[char]) -> (r: Option<usize>)
        ensures
            match r {
                Some(i) => i < self.entries_view().len() && self.entries_view()[i as int].0@ == k@,
                None => !self.view().dom().contains(k@),
            },
    {
        let mut i: usize = 0;
        while i < self.entries.len()
            invariant
                0 <= i <= self.entries@.len(),
                forall|j: int| 0 <= j < i ==> (#[trigger] self.entries@[j]).0@ != k@,
            decreases self.entries@.len() - i,
        {
            let key = crate::text::chars_of(self.entries[i].0.as_str());
            if crate::text::chars_equal(key.as_slice(), k) {
                return Some(i);
            }
            i = i + 1;
        }
        None
    }

    /// The value stored under `k`.
    pub fn get(&self, k: &str) -> (r: Option<&V>)
        ensures
            match r {
                Some(v) => self.view().dom().contains(k@) && *v == self.view()[k@],
                None => !self.view().dom().contains(k@),
            },
    {
        proof {
            use_type_invariant(self);
        }
        let kc = crate::text::chars_of(k);
        match self.position(kc.as_slice()) {
            Some(i) => {
                proof {
                    lemma_map_of_index(self.entries@, i as int);
                }
                Some(&self.entries[i].1)
            },
            None => None,
        }
    }

    /// Whether `k` is a key.
    pub fn contains_key(&self, k: &str) -> (r: bool)
        ensures
            r == self.view().dom().contains(k@),
    {
        proof {
            use_type_invariant(self);
        }
        let kc = crate::text::chars_of(k);
        match self.position(kc.as_slice()) {
            Some(i) => {
                proof {
                    lemma_map_of_index(self.entries@, i as int);
                }
                true
            },
            None => false,
        }
    }

    /// Stores `v` under `k`, returning the value it replaces.
    pub fn insert(&mut self, k: String, v: V) -> (r: Option<V>)
        ensures
            final(self).view() == old(self).view().insert(k@, v),
            match r {
                Some(p) => old(self).view().dom().contains(k@) && p == old(self).view()[k@],
                None => !old(self).view().dom().contains(k@),
            },
    {
        proof {
            use_type_invariant(&*self);
        }
        let kc = crate::text::chars_of(k.as_str());
        let pos = self.position(kc.as_slice());
        let mut entries: Vec<(String, V)> = Vec::new();
        std::mem::swap(&mut entries, &mut self.entries);
        let r = match pos {
            Some(i) => {
                proof {
                    lemma_map_of_index(entries@, i as int);
                    lemma_map_of_update(entries@, i as int, k, v);
                }
                let (_, previous) = entries.remove(i);
                entries.insert(i, (k, v));
                proof {
                    assert(entries@ =~= old(self).entries@.update(i as int, (k, v)));
                }
                Some(previous)
            },
            None => {
                proof {
                    if has_key(entries@, k@) {
                        assert(map_of(entries@).dom().contains(k@));
                    }
                    lemma_map_of_push(entries@, k, v);
                }
                entries.push((k, v));
                None
            },
        };
        self.entries = entries;
        r
    }

    /// Removes `k`, returning its value.
    pub fn remove(&mut self, k: &str) -> (r: Option<V>)
        ensures
            final(self).view() == old(self).view().remove(k@),
            match r {
                Some(p) => old(self).view().dom().contains(k@) && p == old(self).view()[k@],
                None => !old(self).view().dom().contains(k@),
            },
    {
        proof {
            use_type_invariant(&*self);
        }
        let kc = crate::text::chars_of(k);
        match self.position(kc.as_slice()) {
            Some(i) => {
                proof {
                    lemma_map_of_index(self.entries@, i as int);
                    lemma_map_of_remove(self.entries@, i as int);
                }
                let mut entries: Vec<(String, V)> = Vec::new();
                std::mem::swap(&mut entries, &mut self.entries);
                let (_, previous) = entries.remove(i);
                self.entries = entries;
                Some(previous)
            },
            None => {
                proof {
                    assert(old(self).view().remove(k@) =~= old(self).view());
                }
                None
            },
        }
    }

    /// Removes every entry.
    pub fn clear(&mut self)
        ensures
            final(self).view() == Map::<Seq<char>, V>::empty(),
            final(self).entries_view().len() == 0,
    {
        self.entries = Vec::new();
        assert(self.view() =~= Map::<Seq<char>, V>::empty());
    }

    /// The entries in insertion order.
    pub fn entries(&self) -> (r: &Vec<(String, V)>)
        ensures
            r@ == self.entries_view(),
            keys_distinct(r@),
    {
        proof {
            use_type_invariant(self);
        }
        &self.entries
    }
}

impl StringMap<String> {
    /// A copy of this map.
    pub fn duplicate(&self) -> (r: Self)
        ensures
            r.view() == self.view(),
    {
        proof {
            use_type_invariant(self);
        }
        let mut out: StringMap<String> = StringMap::new();
        let mut i: usize = 0;
        while i < self.entries.len()
            invariant
                keys_distinct(self.entries@),
                0 <= i <= self.entries@.len(),
                out.view() == map_of(self.entries@.take(i as int)),
            decreases self.entries@.len() - i,
        {
            let k = self.entries[i].0.clone();
            let v = self.entries[i].1.clone();
            proof {
                let t = self.entries@.take(i as int);
                assert(keys_distinct(t));
                assert(!has_key(t, k@)) by {
                    if has_key(t, k@) {
                        let j = key_index(t, k@);
                        assert(self.entries@[j].0@ == self.entries@[i as int].0@);
                    }
                }
                lemma_map_of_push(t, k, v);
                assert(self.entries@.take(i + 1) =~= t.push((k, v)));
            }
            let _ = out.insert(k, v);
            i = i + 1;
        }
        assert(self.entries@.take(self.entries@.len() as int) =~= self.entries@);
        out
    }
}

} // verus!
