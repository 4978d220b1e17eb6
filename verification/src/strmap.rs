//! A small map keyed by strings, kept as a list of entries with distinct keys.

use vstd::prelude::*;

verus! {

/// Whether no two entries share a key.
pub open spec fn distinct_keys<V>(entries: Seq<(String, V)>) -> bool {
    forall|i: int, j: int|
        0 <= i < j < entries.len() ==> (#[trigger] entries[i]).0@ != (#[trigger] entries[j]).0@
}

/// Whether some entry has the key `k`.
pub open spec fn has_key<V>(entries: Seq<(String, V)>, k: Seq<char>) -> bool {
    exists|i: int| 0 <= i < entries.len() && (#[trigger] entries[i]).0@ == k
}

/// The index of an entry with the key `k`.
pub open spec fn index_of<V>(entries: Seq<(String, V)>, k: Seq<char>) -> int {
    choose|i: int| 0 <= i < entries.len() && (#[trigger] entries[i]).0@ == k
}

/// The map that a list of entries stands for.
pub open spec fn map_of<V: View>(entries: Seq<(String, V)>) -> Map<Seq<char>, V::V> {
    Map::new(|k: Seq<char>| has_key(entries, k), |k: Seq<char>| entries[index_of(entries, k)].1@)
}

/// With distinct keys, each entry is what the map holds under its key.
pub proof fn lemma_entry<V: View>(entries: Seq<(String, V)>, i: int)
    requires
        distinct_keys(entries),
        0 <= i < entries.len(),
    ensures
        map_of(entries).contains_key(entries[i].0@),
        map_of(entries)[entries[i].0@] == entries[i].1@,
        index_of(entries, entries[i].0@) == i,
{
    let k = entries[i].0@;
    assert(has_key(entries, k));
    let c = index_of(entries, k);
    if c < i {
        assert(entries[c].0@ != entries[i].0@);
    } else if i < c {
        assert(entries[i].0@ != entries[c].0@);
    }
}

/// The keys of a list of entries, in order.
pub open spec fn keys_of<V>(entries: Seq<(String, V)>) -> Seq<Seq<char>> {
    entries.map_values(|e: (String, V)| e.0@)
}

/// With distinct keys, the map holds as many keys as there are entries.
pub proof fn lemma_len<V: View>(entries: Seq<(String, V)>)
    requires
        distinct_keys(entries),
    ensures
        map_of(entries).dom().finite(),
        map_of(entries).dom().len() == entries.len(),
{
    let keys = keys_of(entries);
    assert forall|i: int, j: int| 0 <= i < keys.len() && 0 <= j < keys.len() && i
        != j implies keys[i] != keys[j] by {
        if i < j {
            assert(entries[i].0@ != entries[j].0@);
        } else {
            assert(entries[j].0@ != entries[i].0@);
        }
    }
    keys.unique_seq_to_set();
    vstd::seq_lib::seq_to_set_is_finite(keys);
    assert forall|k: Seq<char>| map_of(entries).dom().contains(k) <==> keys.to_set().contains(
        k,
    ) by {
        if has_key(entries, k) {
            let i = index_of(entries, k);
            assert(keys[i] == k);
        }
        if keys.contains(k) {
            let i = choose|i: int| 0 <= i < keys.len() && keys[i] == k;
            assert(entries[i].0@ == k);
        }
    }
    assert(map_of(entries).dom() =~= keys.to_set());
}

/// A map from strings to values of type `V`.
pub struct StrMap<V> {
    entries: Vec<(String, V)>,
}

impl<V> StrMap<V> {
    #[verifier::type_invariant]
    spec fn well_formed(self) -> bool {
        distinct_keys(self.entries@)
    }

    /// The entries of the map, in the order in which their keys came.
    pub closed spec fn spec_entries(&self) -> Seq<(String, V)> {
        self.entries@
    }
}

impl<V: View> View for StrMap<V> {
    type V = Map<Seq<char>, V::V>;

    open spec fn view(&self) -> Map<Seq<char>, V::V> {
        map_of(self.spec_entries())
    }
}

/// The index of the entry with the key `key`, if there is one.
fn find<V>(entries: &Vec<(String, V)>, key: &String) -> (r: Option<usize>)
    ensures
        match r {
            Some(i) => i < entries.len() && entries[i as int].0@ == key@,
            None => !has_key(entries@, key@),
        },
{
    let mut i: usize = 0;
    while i < entries.len()
        invariant
            i <= entries.len(),
            forall|k: int| 0 <= k < i ==> (#[trigger] entries[k]).0@ != key@,
        decreases entries.len() - i,
    {
        if entries[i].0 == *key {
            return Some(i);
        }
        i += 1;
    }
    None
}

impl<V: View> StrMap<V> {
    /// An empty map.
    pub fn new() -> (m: Self)
        ensures
            m@ == Map::<Seq<char>, V::V>::empty(),
            m.spec_entries().len() == 0,
    {
        let m = StrMap { entries: Vec::new() };
        assert(m@ =~= Map::<Seq<char>, V::V>::empty());
        m
    }

    /// The entries of the map: their keys are distinct, and each entry is
    /// what the map holds under its key.
    pub fn entries(&self) -> (r: &Vec<(String, V)>)
        ensures
            r@ == self.spec_entries(),
            distinct_keys(r@),
            forall|i: int|
                0 <= i < r.len() ==> self@.contains_key((#[trigger] r[i]).0@) && self@[r[i].0@]
                    == r[i].1@,
            forall|k: Seq<char>| self@.contains_key(k) ==> has_key(r@, k),
    {
        proof {
            use_type_invariant(self);
            assert forall|i: int| 0 <= i < self.entries.len() implies self@.contains_key(
                (#[trigger] self.entries[i]).0@,
            ) && self@[self.entries[i].0@] == self.entries[i].1@ by {
                lemma_entry(self.entries@, i);
            }
        }
        &self.entries
    }

    /// How many keys the map holds.
    pub fn len(&self) -> (r: usize)
        ensures
            r == self.spec_entries().len(),
            self@.dom().finite(),
            r == self@.len(),
    {
        proof {
            use_type_invariant(self);
            lemma_len(self.entries@);
        }
        self.entries.len()
    }

    /// Whether the map holds `key`.
    pub fn contains_key(&self, key: &str) -> (r: bool)
        ensures
            r == self@.contains_key(key@),
    {
        let needle = key.to_owned();
        find(&self.entries, &needle).is_some()
    }

    /// The value under `key`, if the map holds the key.
    pub fn get(&self, key: &str) -> (r: Option<&V>)
        ensures
            match r {
                Some(v) => self@.contains_key(key@) && self@[key@] == v@,
                None => !self@.contains_key(key@),
            },
    {
        proof {
            use_type_invariant(self);
        }
        let needle = key.to_owned();
        match find(&self.entries, &needle) {
            Some(i) => {
                proof {
                    lemma_entry(self.entries@, i as int);
                }
                Some(&self.entries[i].1)
            },
            None => None,
        }
    }

    /// Puts `value` under `key`, in place of what was there.
    pub fn insert(&mut self, key: String, value: V)
        ensures
            final(self)@ == old(self)@.insert(key@, value@),
    {
        proof {
            use_type_invariant(&*self);
        }
        let mut entries: Vec<(String, V)> = Vec::new();
        std::mem::swap(&mut entries, &mut self.entries);
        let ghost before = entries@;
        let ghost k = key@;
        let ghost v = value@;
        match find(&entries, &key) {
            Some(i) => {
                entries.set(i, (key, value));
                proof {
                    let after = entries@;
                    assert(distinct_keys(after)) by {
                        assert forall|a: int, b: int| 0 <= a < b < after.len() implies (
                        #[trigger] after[a]).0@ != (#[trigger] after[b]).0@ by {
                            assert(after[a].0@ == before[a].0@);
                            assert(after[b].0@ == before[b].0@);
                        }
                    }
                    assert forall|x: Seq<char>| #[trigger]
                        map_of(after).contains_key(x) == map_of(before).insert(
                            k,
                            v,
                        ).contains_key(x) by {
                        if has_key(after, x) {
                            let c = index_of(after, x);
                            assert(before[c].0@ == x);
                        }
                        if has_key(before, x) {
                            let c = index_of(before, x);
                            assert(after[c].0@ == x);
                        }
                        if x == k {
                            assert(after[i as int].0@ == x);
                        }
                    }
                    assert forall|x: Seq<char>| #[trigger]
                        map_of(after).contains_key(x) implies map_of(after)[x] == map_of(
                        before,
                    ).insert(k, v)[x] by {
                        let c = index_of(after, x);
                        lemma_entry(after, c);
                        if c != i {
                            assert(before[c].0@ == x);
                            lemma_entry(before, c);
                        }
                    }
                    assert(map_of(after) =~= map_of(before).insert(k, v));
                }
            },
            None => {
                entries.push((key, value));
                proof {
                    let after = entries@;
                    let n = before.len() as int;
                    assert(distinct_keys(after)) by {
                        assert forall|a: int, b: int| 0 <= a < b < after.len() implies (
                        #[trigger] after[a]).0@ != (#[trigger] after[b]).0@ by {
                            assert(after[a] == before[a]);
                            if b < n {
                                assert(after[b] == before[b]);
                            }
                        }
                    }
                    assert forall|x: Seq<char>| #[trigger]
                        map_of(after).contains_key(x) == map_of(before).insert(
                            k,
                            v,
                        ).contains_key(x) by {
                        if has_key(after, x) {
                            let c = index_of(after, x);
                            if c < n {
                                assert(before[c].0@ == x);
                            }
                        }
                        if has_key(before, x) {
                            let c = index_of(before, x);
                            assert(after[c].0@ == x);
                        }
                        if x == k {
                            assert(after[n].0@ == x);
                        }
                    }
                    assert forall|x: Seq<char>| #[trigger]
                        map_of(after).contains_key(x) implies map_of(after)[x] == map_of(
                        before,
                    ).insert(k, v)[x] by {
                        let c = index_of(after, x);
                        lemma_entry(after, c);
                        if c < n {
                            assert(before[c].0@ == x);
                            lemma_entry(before, c);
                        }
                    }
                    assert(map_of(after) =~= map_of(before).insert(k, v));
                }
            },
        }
        self.entries = entries;
    }

    /// Takes `key` and its value out of the map; nothing changes where the
    /// map does not hold the key.
    pub fn remove(&mut self, key: &str)
        ensures
            final(self)@ == old(self)@.remove(key@),
    {
        proof {
            use_type_invariant(&*self);
        }
        let mut entries: Vec<(String, V)> = Vec::new();
        std::mem::swap(&mut entries, &mut self.entries);
        let ghost before = entries@;
        let ghost k = key@;
        let needle = key.to_owned();
        match find(&entries, &needle) {
            Some(i) => {
                entries.remove(i);
                proof {
                    let after = entries@;
                    assert forall|a: int| 0 <= a < after.len() implies #[trigger] after[a] == (if a
                        < i {
                        before[a]
                    } else {
                        before[a + 1]
                    }) by {}
                    assert(distinct_keys(after)) by {
                        assert forall|a: int, b: int| 0 <= a < b < after.len() implies (
                        #[trigger] after[a]).0@ != (#[trigger] after[b]).0@ by {
                            let a2 = if a < i {
                                a
                            } else {
                                a + 1
                            };
                            let b2 = if b < i {
                                b
                            } else {
                                b + 1
                            };
                            assert(before[a2].0@ != before[b2].0@);
                        }
                    }
                    assert forall|x: Seq<char>| #[trigger]
                        map_of(after).contains_key(x) == map_of(before).remove(k).contains_key(
                            x,
                        ) by {
                        if has_key(after, x) {
                            let c = index_of(after, x);
                            let c2 = if c < i {
                                c
                            } else {
                                c + 1
                            };
                            assert(before[c2].0@ == x);
                            if x == k {
                                if c2 < i {
                                    assert(before[c2].0@ != before[i as int].0@);
                                } else {
                                    assert(before[i as int].0@ != before[c2].0@);
                                }
                            }
                        }
                        if has_key(before, x) && x != k {
                            let c = index_of(before, x);
                            let c2 = if c < i {
                                c
                            } else {
                                c - 1
                            };
                            assert(after[c2].0@ == x);
                        }
                    }
                    assert forall|x: Seq<char>| #[trigger]
                        map_of(after).contains_key(x) implies map_of(after)[x] == map_of(
                        before,
                    ).remove(k)[x] by {
                        let c = index_of(after, x);
                        lemma_entry(after, c);
                        let c2 = if c < i {
                            c
                        } else {
                            c + 1
                        };
                        assert(before[c2].0@ == x);
                        lemma_entry(before, c2);
                    }
                    assert(map_of(after) =~= map_of(before).remove(k));
                }
            },
            None => {
                assert(map_of(before) =~= map_of(before).remove(k));
            },
        }
        self.entries = entries;
    }
}

} // verus!
