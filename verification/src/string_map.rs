use vstd::prelude::*;

use crate::text::str_eq;

verus! {

/// The map that a list of entries stands for: each key to the value of its
/// last entry.
pub open spec fn map_of<V>(entries: Seq<(String, V)>) -> Map<Seq<char>, V>
    decreases entries.len(),
{
    if entries.len() == 0 {
        Map::empty()
    } else {
        map_of(entries.drop_last()).insert(entries.last().0@, entries.last().1)
    }
}

/// No two entries have the same key.
pub open spec fn distinct_keys<V>(entries: Seq<(String, V)>) -> bool {
    forall|i: int, j: int|
        0 <= i < entries.len() && 0 <= j < entries.len() && i != j ==> entries[i].0@ != entries[j].0@
}

/// The map of a list of entries holds exactly the entries' keys, and each key
/// maps to the value of its entry when the keys are distinct.
pub proof fn lemma_map_of<V>(entries: Seq<(String, V)>)
    requires
        distinct_keys(entries),
    ensures
        forall|k: Seq<char>|
            #[trigger] map_of(entries).dom().contains(k) <==> exists|i: int|
                0 <= i < entries.len() && entries[i].0@ == k,
        forall|i: int| 0 <= i < entries.len() ==> map_of(entries)[#[trigger] entries[i].0@] == entries[i].1,
        map_of(entries).dom().finite(),
        map_of(entries).dom().len() == entries.len(),
    decreases entries.len(),
{
    if entries.len() > 0 {
        let rest = entries.drop_last();
        assert(distinct_keys(rest));
        lemma_map_of(rest);
        let last = entries.last();
        assert(!map_of(rest).dom().contains(last.0@)) by {
            if map_of(rest).dom().contains(last.0@) {
                let i = choose|i: int| 0 <= i < rest.len() && rest[i].0@ == last.0@;
                assert(entries[i].0@ == entries[entries.len() - 1].0@);
            }
        }
        assert forall|k: Seq<char>|
            #[trigger] map_of(entries).dom().contains(k) <==> exists|i: int|
                0 <= i < entries.len() && entries[i].0@ == k by {
            if map_of(entries).dom().contains(k) {
                if k == last.0@ {
                    assert(entries[entries.len() - 1].0@ == k);
                } else {
                    let i = choose|i: int| 0 <= i < rest.len() && rest[i].0@ == k;
                    assert(entries[i].0@ == k);
                }
            }
            if exists|i: int| 0 <= i < entries.len() && entries[i].0@ == k {
                let i = choose|i: int| 0 <= i < entries.len() && entries[i].0@ == k;
                if i < entries.len() - 1 {
                    assert(rest[i].0@ == k);
                }
            }
        }
        assert forall|i: int| 0 <= i < entries.len() implies map_of(entries)[#[trigger] entries[i].0@]
            == entries[i].1 by {
            if i < entries.len() - 1 {
                assert(rest[i] == entries[i]);
            }
        }
    }
}

/// A finite map from strings to values, keeping its entries in insertion order.
#[derive(Debug)]
pub struct StringMap<V> {
    entries: Vec<(String, V)>,
}

impl<V> StringMap<V> {
    /// The entries in order.
    pub closed spec fn entries(&self) -> Seq<(String, V)> {
        self.entries@
    }

    /// The map from keys to values.
    pub open spec fn map(&self) -> Map<Seq<char>, V> {
        map_of(self.entries())
    }

    /// The keys are distinct.
    pub open spec fn wf(&self) -> bool {
        distinct_keys(self.entries())
    }

    /// The empty map.
    pub fn new() -> (m: StringMap<V>)
        ensures
            m.wf(),
            m.entries() == Seq::<(String, V)>::empty(),
            m.map() == Map::<Seq<char>, V>::empty(),
    {
        StringMap { entries: Vec::new() }
    }

    /// The entries, in order.
    pub fn into_entries(self) -> (entries: Vec<(String, V)>)
        ensures
            entries@ == self.entries(),
    {
        self.entries
    }

    /// The entries, in order.
    pub fn as_entries(&self) -> (entries: &Vec<(String, V)>)
        ensures
            entries@ == self.entries(),
    {
        &self.entries
    }

    /// The number of entries.
    pub fn len(&self) -> (n: usize)
        requires
            self.wf(),
        ensures
            n == self.entries().len(),
            n == self.map().dom().len(),
    {
        proof {
            lemma_map_of(self.entries());
        }
        self.entries.len()
    }

    /// Whether there are no entries.
    pub fn is_empty(&self) -> (r: bool)
        requires
            self.wf(),
        ensures
            r == (self.map().dom().len() == 0),
            r == (self.map() == Map::<Seq<char>, V>::empty()),
    {
        proof {
            lemma_map_of(self.entries());
            if self.entries().len() > 0 {
                assert(self.map().dom().contains(self.entries()[0].0@));
            } else {
                assert(self.map() =~= Map::<Seq<char>, V>::empty());
            }
        }
        self.entries.len() == 0
    }

    /// The position of the entry with the given key.
    pub fn index_of(&self, key: &str) -> (r: Option<usize>)
        requires
            self.wf(),
        ensures
            r is None <==> !self.map().dom().contains(key@),
            r matches Some(i) ==> i < self.entries().len() && self.entries()[i as int].0@ == key@
                && self.map()[key@] == self.entries()[i as int].1,
    {
        proof {
            lemma_map_of(self.entries());
        }
        let mut i: usize = 0;
        while i < self.entries.len()
            invariant
                self.wf(),
                0 <= i <= self.entries@.len(),
                forall|j: int| 0 <= j < i ==> self.entries@[j].0@ != key@,
            decreases self.entries@.len() - i,
        {
            if str_eq(self.entries[i].0.as_str(), key) {
                proof {
                    lemma_map_of(self.entries());
                }
                return Some(i);
            }
            i = i + 1;
        }
        proof {
            lemma_map_of(self.entries());
        }
        None
    }

    /// Whether there is an entry with the given key.
    pub fn contains_key(&self, key: &str) -> (r: bool)
        requires
            self.wf(),
        ensures
            r == self.map().dom().contains(key@),
    {
        self.index_of(key).is_some()
    }

    /// The value of the given key.
    pub fn get(&self, key: &str) -> (r: Option<&V>)
        requires
            self.wf(),
        ensures
            r is None <==> !self.map().dom().contains(key@),
            r matches Some(v) ==> *v == self.map()[key@],
    {
        match self.index_of(key) {
            Some(i) => Some(&self.entries[i].1),
            None => None,
        }
    }

    /// Removes the entry of the given key, giving back its value.
    pub fn remove(&mut self, key: &str) -> (r: Option<V>)
        requires
            old(self).wf(),
        ensures
            final(self).wf(),
            final(self).map() == old(self).map().remove(key@),
            r is None <==> !old(self).map().dom().contains(key@),
            r matches Some(v) ==> v == old(self).map()[key@],
            r is None ==> final(self).entries() == old(self).entries(),
            r is Some ==> exists|i: int|
                0 <= i < old(self).entries().len() && old(self).entries()[i].0@ == key@
                    && final(self).entries() == old(self).entries().remove(i),
    {
        match self.index_of(key) {
            None => {
                proof {
                    assert(old(self).map().remove(key@) =~= old(self).map());
                }
                None
            },
            Some(i) => {
                let ghost before = self.entries@;
                let (_, value) = self.entries.remove(i);
                proof {
                    let after = self.entries@;
                    assert(after =~= before.remove(i as int));
                    assert(distinct_keys(after)) by {
                        assert forall|a: int, b: int|
                            0 <= a < after.len() && 0 <= b < after.len() && a != b implies after[a].0@
                            != after[b].0@ by {
                            let a0 = if a < i { a } else { a + 1 };
                            let b0 = if b < i { b } else { b + 1 };
                            assert(after[a] == before[a0]);
                            assert(after[b] == before[b0]);
                        }
                    }
                    lemma_map_of(before);
                    lemma_map_of(after);
                    assert(map_of(after) =~= map_of(before).remove(key@)) by {
                        assert forall|k: Seq<char>| #[trigger] map_of(after).dom().contains(k) <==> map_of(
                            before,
                        ).remove(key@).dom().contains(k) by {
                            if map_of(after).dom().contains(k) {
                                let a = choose|a: int| 0 <= a < after.len() && after[a].0@ == k;
                                let a0 = if a < i { a } else { a + 1 };
                                assert(after[a] == before[a0]);
                                assert(a0 != i);
                            }
                            if map_of(before).remove(key@).dom().contains(k) {
                                let b = choose|b: int| 0 <= b < before.len() && before[b].0@ == k;
                                assert(b != i);
                                let a = if b < i { b } else { b - 1 };
                                assert(after[a] == before[b]);
                            }
                        }
                        assert forall|k: Seq<char>| #[trigger] map_of(after).dom().contains(k) implies map_of(
                            after,
                        )[k] == map_of(before).remove(key@)[k] by {
                            let a = choose|a: int| 0 <= a < after.len() && after[a].0@ == k;
                            let a0 = if a < i { a } else { a + 1 };
                            assert(after[a] == before[a0]);
                        }
                    }
                }
                Some(value)
            },
        }
    }

    /// Sets the value of the given key, giving back the value it replaced.  A
    /// new key is added at the end; an existing key keeps its position.
    pub fn insert(&mut self, key: String, value: V) -> (r: Option<V>)
        requires
            old(self).wf(),
        ensures
            final(self).wf(),
            final(self).map() == old(self).map().insert(key@, value),
            r is None <==> !old(self).map().dom().contains(key@),
            r matches Some(v) ==> v == old(self).map()[key@],
            r is None ==> final(self).entries() == old(self).entries().push((key, value)),
    {
        match self.index_of(key.as_str()) {
            None => {
                let ghost before = self.entries@;
                let ghost k = key;
                let ghost v = value;
                self.entries.push((key, value));
                proof {
                    let after = self.entries@;
                    lemma_map_of(before);
                    assert(after.drop_last() =~= before);
                    assert(distinct_keys(after)) by {
                        assert forall|a: int, b: int|
                            0 <= a < after.len() && 0 <= b < after.len() && a != b implies after[a].0@
                            != after[b].0@ by {
                            if a < before.len() && b < before.len() {
                                assert(after[a] == before[a] && after[b] == before[b]);
                            } else if a < before.len() {
                                assert(after[a] == before[a]);
                                assert(map_of(before).dom().contains(before[a].0@));
                            } else {
                                assert(after[b] == before[b]);
                                assert(map_of(before).dom().contains(before[b].0@));
                            }
                        }
                    }
                }
                None
            },
            Some(i) => {
                let ghost before = self.entries@;
                let ghost k = key@;
                let ghost v = value;
                let mut old_entry = (key, value);
                std::mem::swap(&mut self.entries[i], &mut old_entry);
                proof {
                    let after = self.entries@;
                    assert(after =~= before.update(i as int, after[i as int]));
                    assert(distinct_keys(after)) by {
                        assert forall|a: int, b: int|
                            0 <= a < after.len() && 0 <= b < after.len() && a != b implies after[a].0@
                            != after[b].0@ by {
                            if a != i && b != i {
                                assert(after[a] == before[a] && after[b] == before[b]);
                            } else if a == i {
                                assert(after[b] == before[b]);
                            } else {
                                assert(after[a] == before[a]);
                            }
                        }
                    }
                    lemma_map_of(before);
                    lemma_map_of(after);
                    assert(map_of(after) =~= map_of(before).insert(k, v)) by {
                        assert forall|kk: Seq<char>| #[trigger] map_of(after).dom().contains(kk) <==> map_of(
                            before,
                        ).insert(k, v).dom().contains(kk) by {
                            if map_of(after).dom().contains(kk) {
                                let a = choose|a: int| 0 <= a < after.len() && after[a].0@ == kk;
                                if a != i {
                                    assert(after[a] == before[a]);
                                }
                            }
                            if map_of(before).insert(k, v).dom().contains(kk) && kk != k {
                                let b = choose|b: int| 0 <= b < before.len() && before[b].0@ == kk;
                                assert(after[b] == before[b]);
                            }
                        }
                        assert forall|kk: Seq<char>| #[trigger] map_of(after).dom().contains(kk) implies map_of(
                            after,
                        )[kk] == map_of(before).insert(k, v)[kk] by {
                            let a = choose|a: int| 0 <= a < after.len() && after[a].0@ == kk;
                            if a != i {
                                assert(after[a] == before[a]);
                            }
                        }
                    }
                }
                Some(old_entry.1)
            },
        }
    }
}

} // verus!
