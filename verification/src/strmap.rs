//! A map from text keys to values, kept as a list of entries with distinct keys.

use crate::text::str_eq;
use vstd::prelude::*;

verus! {

/// Whether no two entries of `s` have the same key.
pub open spec fn distinct_keys<V>(s: Seq<(String, V)>) -> bool {
    forall|i: int, j: int|
        0 <= i < s.len() && 0 <= j < s.len() && i != j ==> (#[trigger] s[i]).0@ != (
        #[trigger] s[j]).0@
}

/// Whether some entry of `s` has the key `k`.
pub open spec fn has_key<V>(s: Seq<(String, V)>, k: Seq<char>) -> bool {
    exists|i: int| 0 <= i < s.len() && (#[trigger] s[i]).0@ == k
}

/// The index of an entry of `s` with the key `k`.
pub open spec fn index_of_key<V>(s: Seq<(String, V)>, k: Seq<char>) -> int {
    choose|i: int| 0 <= i < s.len() && (#[trigger] s[i]).0@ == k
}

/// The map that a list of entries stands for.
pub open spec fn entries_map<V>(s: Seq<(String, V)>) -> Map<Seq<char>, V> {
    Map::new(|k: Seq<char>| has_key(s, k), |k: Seq<char>| s[index_of_key(s, k)].1)
}

/// With distinct keys, each entry is what the map holds under its key.
pub proof fn lemma_entry_in_map<V>(s: Seq<(String, V)>, i: int)
    requires
        distinct_keys(s),
        0 <= i < s.len(),
    ensures
        entries_map(s).contains_key(s[i].0@),
        entries_map(s)[s[i].0@] == s[i].1,
{
    let k = s[i].0@;
    assert(has_key(s, k));
    let j = index_of_key(s, k);
    assert(j == i);
}

/// A map keyed by text. Each key occurs once; a later `insert` under a key
/// replaces the value.
#[derive(Debug)]
pub struct StrMap<V> {
    entries: Vec<(String, V)>,
}

impl<V> View for StrMap<V> {
    type V = Map<Seq<char>, V>;

    closed spec fn view(&self) -> Map<Seq<char>, V> {
        entries_map(self.entries@)
    }
}

impl<V> StrMap<V> {
    #[verifier::type_invariant]
    spec fn inv(self) -> bool {
        distinct_keys(self.entries@)
    }

    /// The empty map.
    pub fn new() -> (m: Self)
        ensures
            m@ == Map::<Seq<char>, V>::empty(),
    {
        let m = StrMap { entries: Vec::new() };
        assert(m@ =~= Map::<Seq<char>, V>::empty());
        m
    }

    /// The number of keys.
    pub fn len(&self) -> (n: usize)
        ensures
            n == self@.len(),
            self@.dom().finite(),
    {
        proof {
            use_type_invariant(self);
            lemma_entries_len(self.entries@);
        }
        self.entries.len()
    }

    /// The position of `key` among the entries, if it is there.
    fn position(&self, key: &str) -> (at: Option<usize>)
        ensures
            match at {
                Some(i) => i < self.entries@.len() && self.entries@[i as int].0@ == key@,
                None => !has_key(self.entries@, key@),
            },
    {
        let mut i: usize = 0;
        while i < self.entries.len()
            invariant
                i <= self.entries@.len(),
                forall|j: int| 0 <= j < i ==> (#[trigger] self.entries@[j]).0@ != key@,
            decreases self.entries@.len() - i,
        {
            if str_eq(self.entries[i].0.as_str(), key) {
                return Some(i);
            }
            i += 1;
        }
        None
    }

    /// Whether the map has the key.
    pub fn contains_key(&self, key: &str) -> (found: bool)
        ensures
            found == self@.contains_key(key@),
    {
        self.position(key).is_some()
    }

    /// The value under `key`, if the map has the key.
    pub fn get(&self, key: &str) -> (value: Option<&V>)
        ensures
            match value {
                Some(v) => self@.contains_key(key@) && *v == self@[key@],
                None => !self@.contains_key(key@),
            },
    {
        match self.position(key) {
            Some(i) => {
                proof {
                    use_type_invariant(self);
                    lemma_entry_in_map(self.entries@, i as int);
                }
                Some(&self.entries[i].1)
            },
            None => None,
        }
    }

    /// Puts `value` under `key`, in place of the value that was there, if any.
    pub fn insert(&mut self, key: String, value: V)
        ensures
            final(self)@ == old(self)@.insert(key@, value),
    {
        proof {
            use_type_invariant(&*self);
        }
        let at = self.position(key.as_str());
        let mut entries: Vec<(String, V)> = Vec::new();
        core::mem::swap(&mut entries, &mut self.entries);
        let ghost before = entries@;
        match at {
            Some(i) => {
                entries.set(i, (key, value));
                proof {
                    lemma_replace_entry(before, i as int, entries@[i as int]);
                }
            },
            None => {
                entries.push((key, value));
                proof {
                    lemma_push_entry(before, entries@[before.len() as int]);
                }
            },
        }
        self.entries = entries;
    }

    /// Adds every entry of `other`; where both maps have a key, the value of
    /// `other` stays.
    pub fn extend(&mut self, other: Self)
        ensures
            final(self)@ == old(self)@.union_prefer_right(other@),
    {
        proof {
            use_type_invariant(&other);
        }
        let mut rest = other.entries;
        let ghost all = rest@;
        let ghost start = self@;
        assert(self@ =~= start.union_prefer_right(
            entries_map(all.subrange(all.len() as int, all.len() as int)),
        ));
        while rest.len() > 0
            invariant
                distinct_keys(all),
                rest@ == all.subrange(0, rest@.len() as int),
                rest@.len() <= all.len(),
                self@ == start.union_prefer_right(
                    entries_map(all.subrange(rest@.len() as int, all.len() as int)),
                ),
            decreases rest@.len(),
        {
            let ghost n = rest@.len() as int;
            let entry = rest.pop().unwrap();
            let ghost before = self@;
            assert(entry == all[n - 1]);
            self.insert(entry.0, entry.1);
            proof {
                lemma_map_of_tail(all, n - 1);
                assert(self@ =~= start.union_prefer_right(
                    entries_map(all.subrange(n - 1, all.len() as int)),
                ));
            }
        }
        assert(all.subrange(0, all.len() as int) =~= all);
    }
}

impl<V: Clone> Clone for StrMap<V> {
    /// A map with the same keys, each with a clone of its value.
    fn clone(&self) -> (res: Self)
        ensures
            res@.dom() == self@.dom(),
            forall|k: Seq<char>|
                self@.contains_key(k) ==> cloned::<V>(self@[k], #[trigger] res@[k]),
    {
        proof {
            use_type_invariant(self);
        }
        let mut entries: Vec<(String, V)> = Vec::new();
        let mut i: usize = 0;
        while i < self.entries.len()
            invariant
                i <= self.entries@.len(),
                entries@.len() == i,
                distinct_keys(self.entries@),
                forall|j: int| 0 <= j < i ==> (#[trigger] entries@[j]).0@ == self.entries@[j].0@,
                forall|j: int|
                    0 <= j < i ==> cloned::<V>(self.entries@[j].1, (#[trigger] entries@[j]).1),
            decreases self.entries@.len() - i,
        {
            let key = self.entries[i].0.clone();
            let value = self.entries[i].1.clone();
            entries.push((key, value));
            i += 1;
        }
        proof {
            assert forall|a: int, b: int|
                0 <= a < entries@.len() && 0 <= b < entries@.len() && a != b implies (
            #[trigger] entries@[a]).0@ != (#[trigger] entries@[b]).0@ by {
                assert(self.entries@[a].0@ != self.entries@[b].0@);
            }
            assert forall|k: Seq<char>| has_key(entries@, k) <==> has_key(self.entries@, k) by {
                if has_key(entries@, k) {
                    let j = index_of_key(entries@, k);
                    assert(self.entries@[j].0@ == k);
                }
                if has_key(self.entries@, k) {
                    let j = index_of_key(self.entries@, k);
                    assert(entries@[j].0@ == k);
                }
            }
            assert(entries_map(entries@).dom() =~= entries_map(self.entries@).dom());
            assert forall|k: Seq<char>| entries_map(self.entries@).contains_key(k) implies cloned::<
                V,
            >(entries_map(self.entries@)[k], #[trigger] entries_map(entries@)[k]) by {
                let j = index_of_key(self.entries@, k);
                lemma_entry_in_map(self.entries@, j);
                assert(entries@[j].0@ == k);
                lemma_entry_in_map(entries@, j);
            }
        }
        StrMap { entries }
    }
}

/// With distinct keys, the map has as many keys as the list has entries.
pub proof fn lemma_entries_len<V>(s: Seq<(String, V)>)
    requires
        distinct_keys(s),
    ensures
        entries_map(s).dom().finite(),
        entries_map(s).len() == s.len(),
    decreases s.len(),
{
    if s.len() == 0 {
        assert(entries_map(s).dom() =~= Set::<Seq<char>>::empty());
    } else {
        let front = s.drop_last();
        let last = s.last();
        lemma_entries_len(front);
        assert(s =~= front.push(last));
        lemma_push_entry(front, last);
        assert(entries_map(s).dom() =~= entries_map(front).dom().insert(last.0@));
    }
}

/// Replacing the entry at `i` by one with the same key puts its value under that key.
pub proof fn lemma_replace_entry<V>(s: Seq<(String, V)>, i: int, e: (String, V))
    requires
        distinct_keys(s),
        0 <= i < s.len(),
        e.0@ == s[i].0@,
    ensures
        distinct_keys(s.update(i, e)),
        entries_map(s.update(i, e)) == entries_map(s).insert(e.0@, e.1),
{
    let t = s.update(i, e);
    assert forall|a: int, b: int|
        0 <= a < t.len() && 0 <= b < t.len() && a != b implies (#[trigger] t[a]).0@ != (
    #[trigger] t[b]).0@ by {
        assert(t[a].0@ == s[a].0@);
        assert(t[b].0@ == s[b].0@);
    }
    let m = entries_map(s).insert(e.0@, e.1);
    assert forall|k: Seq<char>| entries_map(t).contains_key(k) <==> m.contains_key(k) by {
        if has_key(t, k) {
            let j = index_of_key(t, k);
            assert(s[j].0@ == k);
        }
        if has_key(s, k) {
            let j = index_of_key(s, k);
            assert(t[j].0@ == k);
        }
        if k == e.0@ {
            assert(t[i].0@ == k);
        }
    }
    assert forall|k: Seq<char>| entries_map(t).contains_key(k) implies entries_map(t)[k]
        == m[k] by {
        let j = index_of_key(t, k);
        lemma_entry_in_map(t, j);
        if j != i {
            assert(s[j].0@ == k);
            lemma_entry_in_map(s, j);
        }
    }
    assert(entries_map(t) =~= m);
}

/// Appending an entry with a new key puts its value under that key.
pub proof fn lemma_push_entry<V>(s: Seq<(String, V)>, e: (String, V))
    requires
        distinct_keys(s),
        !has_key(s, e.0@),
    ensures
        distinct_keys(s.push(e)),
        entries_map(s.push(e)) == entries_map(s).insert(e.0@, e.1),
{
    let t = s.push(e);
    assert forall|a: int, b: int|
        0 <= a < t.len() && 0 <= b < t.len() && a != b implies (#[trigger] t[a]).0@ != (
    #[trigger] t[b]).0@ by {
        if a < s.len() {
            assert(t[a] == s[a]);
        }
        if b < s.len() {
            assert(t[b] == s[b]);
        }
    }
    let m = entries_map(s).insert(e.0@, e.1);
    assert forall|k: Seq<char>| entries_map(t).contains_key(k) <==> m.contains_key(k) by {
        if has_key(t, k) {
            let j = index_of_key(t, k);
            if j < s.len() {
                assert(s[j].0@ == k);
            }
        }
        if has_key(s, k) {
            let j = index_of_key(s, k);
            assert(t[j].0@ == k);
        }
        if k == e.0@ {
            assert(t[s.len() as int].0@ == k);
        }
    }
    assert forall|k: Seq<char>| entries_map(t).contains_key(k) implies entries_map(t)[k]
        == m[k] by {
        let j = index_of_key(t, k);
        lemma_entry_in_map(t, j);
        if j < s.len() {
            assert(s[j].0@ == k);
            lemma_entry_in_map(s, j);
        }
    }
    assert(entries_map(t) =~= m);
}

/// The map of the entries from `i` on is the map of those after `i` with the
/// entry at `i` put in.
pub proof fn lemma_map_of_tail<V>(s: Seq<(String, V)>, i: int)
    requires
        distinct_keys(s),
        0 <= i < s.len(),
    ensures
        entries_map(s.subrange(i, s.len() as int)) == entries_map(
            s.subrange(i + 1, s.len() as int),
        ).insert(s[i].0@, s[i].1),
{
    let whole = s.subrange(i, s.len() as int);
    let tail = s.subrange(i + 1, s.len() as int);
    let m = entries_map(tail).insert(s[i].0@, s[i].1);
    assert forall|a: int, b: int| 0 <= a < whole.len() && 0 <= b < whole.len() && a != b implies (
    #[trigger] whole[a]).0@ != (#[trigger] whole[b]).0@ by {
        assert(whole[a] == s[a + i]);
        assert(whole[b] == s[b + i]);
    }
    assert forall|a: int, b: int| 0 <= a < tail.len() && 0 <= b < tail.len() && a != b implies (
    #[trigger] tail[a]).0@ != (#[trigger] tail[b]).0@ by {
        assert(tail[a] == s[a + i + 1]);
        assert(tail[b] == s[b + i + 1]);
    }
    assert forall|k: Seq<char>| entries_map(whole).contains_key(k) <==> m.contains_key(k) by {
        if has_key(whole, k) {
            let j = index_of_key(whole, k);
            if j > 0 {
                assert(tail[j - 1].0@ == k);
            }
        }
        if has_key(tail, k) {
            let j = index_of_key(tail, k);
            assert(whole[j + 1].0@ == k);
        }
        if k == s[i].0@ {
            assert(whole[0].0@ == k);
        }
    }
    assert forall|k: Seq<char>| entries_map(whole).contains_key(k) implies entries_map(whole)[k]
        == m[k] by {
        let j = index_of_key(whole, k);
        lemma_entry_in_map(whole, j);
        if j > 0 {
            assert(tail[j - 1].0@ == k);
            lemma_entry_in_map(tail, j - 1);
        }
    }
    assert(entries_map(whole) =~= m);
}

} // verus!
