use vstd::prelude::*;

use crate::string_map::{lemma_map_of, StringMap};
use crate::text::owned;

verus! {

/// The pairs of a two-level map: `(topic, reference)` to the value stored
/// under the reference in the topic's inner map.
pub open spec fn flatten<V>(by_topic: Map<Seq<char>, StringMap<V>>) -> Map<(Seq<char>, Seq<char>), V> {
    Map::new(
        |k: (Seq<char>, Seq<char>)| by_topic.dom().contains(k.0) && by_topic[k.0].map().dom().contains(k.1),
        |k: (Seq<char>, Seq<char>)| by_topic[k.0].map()[k.1],
    )
}

/// A map is well formed and holds at least one key.
pub open spec fn inner_ok<V>(inner: StringMap<V>) -> bool {
    inner.wf() && inner.map().dom().len() > 0
}

/// Values filed by topic and then by a reference within the topic, as the
/// socket files pending joins, joined channels and reply waiters.  No topic
/// is kept without a value under it.
pub struct ByTopic<V> {
    by_topic: StringMap<StringMap<V>>,
}

impl<V> ByTopic<V> {
    /// The inner map of each topic.
    pub closed spec fn topics(&self) -> Map<Seq<char>, StringMap<V>> {
        self.by_topic.map()
    }

    /// Every `(topic, reference)` pair and its value.
    pub open spec fn view(&self) -> Map<(Seq<char>, Seq<char>), V> {
        flatten(self.topics())
    }

    /// The keys are distinct at both levels and no topic maps to an empty map.
    pub closed spec fn wf(&self) -> bool {
        &&& self.by_topic.wf()
        &&& forall|t: Seq<char>| #[trigger] self.by_topic.map().dom().contains(t) ==> inner_ok(self.by_topic.map()[t])
    }

    /// The topics that hold values.
    pub open spec fn topic_set(&self) -> Set<Seq<char>> {
        self.topics().dom()
    }

    /// A topic is kept exactly while some value is filed under it.
    pub proof fn lemma_topics(&self)
        requires
            self.wf(),
        ensures
            forall|t: Seq<char>| #[trigger] self.topic_set().contains(t) <==> exists|r: Seq<char>| self.view().dom().contains((t, r)),
    {
        assert forall|t: Seq<char>| #[trigger] self.topic_set().contains(t) implies exists|r: Seq<char>| self.view().dom().contains((t, r)) by {
            let inner = self.by_topic.map()[t];
            lemma_map_of(inner.entries());
            assert(inner.entries().len() > 0);
            assert(inner.map().dom().contains(inner.entries()[0].0@));
            assert(self.view().dom().contains((t, inner.entries()[0].0@)));
        }
    }

    /// Nothing filed.
    pub fn new() -> (m: ByTopic<V>)
        ensures
            m.wf(),
            m.view() == Map::<(Seq<char>, Seq<char>), V>::empty(),
    {
        let m = ByTopic { by_topic: StringMap::new() };
        assert(m.view() =~= Map::<(Seq<char>, Seq<char>), V>::empty());
        m
    }

    /// Whether nothing is filed.
    pub fn is_empty(&self) -> (r: bool)
        requires
            self.wf(),
        ensures
            r == (self.view() == Map::<(Seq<char>, Seq<char>), V>::empty()),
    {
        let r = self.by_topic.is_empty();
        proof {
            if r {
                assert(self.view() =~= Map::<(Seq<char>, Seq<char>), V>::empty());
            } else {
                lemma_map_of(self.by_topic.entries());
                let t = self.by_topic.entries()[0].0@;
                assert(self.by_topic.map().dom().contains(t));
                self.lemma_topics();
                assert(self.topic_set().contains(t));
                let k = choose|r: Seq<char>| self.view().dom().contains((t, r));
                assert(self.view().dom().contains((t, k)));
            }
        }
        r
    }

    /// The value filed under `topic` and `reference`.
    pub fn get(&self, topic: &str, reference: &str) -> (r: Option<&V>)
        requires
            self.wf(),
        ensures
            r is None <==> !self.view().dom().contains((topic@, reference@)),
            r matches Some(v) ==> *v == self.view()[(topic@, reference@)],
    {
        match self.by_topic.get(topic) {
            None => None,
            Some(inner) => inner.get(reference),
        }
    }

    /// Whether some value is filed under `topic`.
    pub fn has_topic(&self, topic: &str) -> (r: bool)
        requires
            self.wf(),
        ensures
            r == self.topic_set().contains(topic@),
    {
        self.by_topic.contains_key(topic)
    }

    /// Files `value` under `topic` and `reference`, giving back the value it
    /// replaced.
    pub fn insert(&mut self, topic: &str, reference: &str, value: V) -> (r: Option<V>)
        requires
            old(self).wf(),
        ensures
            final(self).wf(),
            final(self).view() == old(self).view().insert((topic@, reference@), value),
            r is None <==> !old(self).view().dom().contains((topic@, reference@)),
            r matches Some(v) ==> v == old(self).view()[(topic@, reference@)],
    {
        let ghost before = self.by_topic.map();
        let mut inner = match self.by_topic.remove(topic) {
            Some(inner) => inner,
            None => StringMap::new(),
        };
        let ghost inner_before = inner.map();
        let replaced = inner.insert(owned(reference), value);
        proof {
            lemma_map_of(inner.entries());
            assert(inner.map().dom().contains(reference@));
            let i = choose|i: int| 0 <= i < inner.entries().len() && inner.entries()[i].0@ == reference@;
            assert(inner.entries().len() > 0);
        }
        let _ = self.by_topic.insert(owned(topic), inner);
        proof {
            assert forall|t: Seq<char>| #[trigger] self.by_topic.map().dom().contains(t) implies inner_ok(
                self.by_topic.map()[t],
            ) by {
                if t != topic@ {
                    assert(before.dom().contains(t));
                }
            }
            assert(self.view() =~= old(self).view().insert((topic@, reference@), value)) by {
                assert forall|k: (Seq<char>, Seq<char>)| #[trigger] self.view().dom().contains(k) <==> old(self).view().insert(
                    (topic@, reference@),
                    value,
                ).dom().contains(k) by {
                    if k.0 == topic@ {
                        if before.dom().contains(topic@) {
                            assert(inner_before == before[topic@].map());
                        }
                    }
                }
            }
            if before.dom().contains(topic@) {
                assert(inner_before == before[topic@].map());
            }
        }
        replaced
    }

    /// Takes out the value filed under `topic` and `reference`; a topic left
    /// without values is dropped.
    pub fn remove(&mut self, topic: &str, reference: &str) -> (r: Option<V>)
        requires
            old(self).wf(),
        ensures
            final(self).wf(),
            final(self).view() == old(self).view().remove((topic@, reference@)),
            r is None <==> !old(self).view().dom().contains((topic@, reference@)),
            r matches Some(v) ==> v == old(self).view()[(topic@, reference@)],
    {
        let ghost before = self.by_topic.map();
        match self.by_topic.remove(topic) {
            None => {
                assert(self.view() =~= old(self).view().remove((topic@, reference@)));
                None
            },
            Some(mut inner) => {
                let ghost inner_before = inner.map();
                let removed = inner.remove(reference);
                if !inner.is_empty() {
                    let _ = self.by_topic.insert(owned(topic), inner);
                }
                proof {
                    assert forall|t: Seq<char>| #[trigger] self.by_topic.map().dom().contains(t) implies inner_ok(
                        self.by_topic.map()[t],
                    ) by {
                        if t != topic@ {
                            assert(before.dom().contains(t));
                        }
                    }
                    assert(self.view() =~= old(self).view().remove((topic@, reference@))) by {
                        assert forall|k: (Seq<char>, Seq<char>)| #[trigger] self.view().dom().contains(k) <==> old(
                            self,
                        ).view().remove((topic@, reference@)).dom().contains(k) by {
                            if k.0 == topic@ && inner.map().dom().len() == 0 && inner_before.dom().contains(k.1)
                                && k.1 != reference@ {
                                assert(inner.map().dom().contains(k.1));
                                vstd::set_lib::lemma_set_empty_equivalency_len(inner.map().dom());
                            }
                        }
                    }
                }
                removed
            },
        }
    }

    /// Every filed value, leaving nothing filed.
    pub fn drain(&mut self) -> (values: Vec<V>)
        requires
            old(self).wf(),
        ensures
            final(self).wf(),
            final(self).view() == Map::<(Seq<char>, Seq<char>), V>::empty(),
            forall|k: (Seq<char>, Seq<char>)| #[trigger] old(self).view().dom().contains(k) ==> values@.contains(old(self).view()[k]),
            forall|i: int| 0 <= i < values@.len() ==> has_value(old(self).view(), #[trigger] values@[i]),
    {
        let ghost all = self.view();
        let mut taken: StringMap<StringMap<V>> = StringMap::new();
        std::mem::swap(&mut taken, &mut self.by_topic);
        let ghost outer_map = taken.map();
        proof {
            lemma_map_of(taken.entries());
        }
        let mut outer = taken.into_entries();
        let ghost outer0 = outer@;
        let mut values: Vec<V> = Vec::new();
        while outer.len() > 0
            invariant
                outer@.len() <= outer0.len(),
                outer@ == outer0.subrange(0, outer@.len() as int),
                all == flatten(outer_map),
                forall|t: Seq<char>| #[trigger] outer_map.dom().contains(t) ==> inner_ok(outer_map[t]),
                forall|j: int| 0 <= j < outer0.len() ==> outer_map.dom().contains(#[trigger] outer0[j].0@),
                forall|j: int| 0 <= j < outer0.len() ==> outer_map[#[trigger] outer0[j].0@] == outer0[j].1,
                forall|j: int, r: Seq<char>|
                    outer@.len() <= j < outer0.len() && #[trigger] outer0[j].1.map().dom().contains(r) ==> values@.contains(
                        outer0[j].1.map()[r],
                    ),
                forall|n: int| 0 <= n < values@.len() ==> has_value(all, #[trigger] values@[n]),
            decreases outer@.len(),
        {
            let ghost j0 = outer@.len() - 1;
            let (_, inner) = outer.pop().unwrap();
            let ghost t = outer0[j0].0@;
            assert(outer0[j0] == (outer0[j0].0, inner));
            assert(outer_map.dom().contains(t));
            assert(outer_map[t] == inner);
            proof {
                lemma_map_of(inner.entries());
            }
            let ghost inner_map = inner.map();
            let mut entries = inner.into_entries();
            let ghost entries0 = entries@;
            let ghost prefix = values@;
            while entries.len() > 0
                invariant
                    entries@.len() <= entries0.len(),
                    entries@ == entries0.subrange(0, entries@.len() as int),
                    outer_map.dom().contains(t),
                    inner_map == outer_map[t].map(),
                    all == flatten(outer_map),
                    forall|m: int| 0 <= m < entries0.len() ==> inner_map.dom().contains(#[trigger] entries0[m].0@),
                    forall|m: int| 0 <= m < entries0.len() ==> inner_map[#[trigger] entries0[m].0@] == entries0[m].1,
                    values@.len() == prefix.len() + (entries0.len() - entries@.len()),
                    values@.subrange(0, prefix.len() as int) == prefix,
                    forall|m: int| entries@.len() <= m < entries0.len() ==> values@[prefix.len() + (entries0.len() - 1 - m)] == #[trigger] entries0[m].1,
                    forall|n: int| 0 <= n < values@.len() ==> has_value(all, #[trigger] values@[n]),
                decreases entries@.len(),
            {
                let ghost m0 = entries@.len() - 1;
                let (_, value) = entries.pop().unwrap();
                let ghost r = entries0[m0].0@;
                assert(entries0[m0] == (entries0[m0].0, value));
                assert(inner_map.dom().contains(r));
                assert(all.dom().contains((t, r)));
                let ghost before = values@;
                values.push(value);
                proof {
                    assert(values@.subrange(0, prefix.len() as int) =~= before.subrange(0, prefix.len() as int));
                    assert forall|n: int| 0 <= n < values@.len() implies has_value(all, #[trigger] values@[n]) by {
                        if n == values@.len() - 1 {
                            assert(all[(t, r)] == values@[n]);
                        } else {
                            assert(values@[n] == before[n]);
                        }
                    }
                    assert forall|m: int| entries@.len() <= m < entries0.len() implies values@[prefix.len() + (entries0.len() - 1 - m)] == #[trigger] entries0[m].1 by {
                        if m != m0 {
                            assert(values@[prefix.len() + (entries0.len() - 1 - m)] == before[prefix.len() + (entries0.len() - 1 - m)]);
                        }
                    }
                }
            }
            proof {
                assert forall|j: int, r: Seq<char>|
                    outer@.len() <= j < outer0.len() && #[trigger] outer0[j].1.map().dom().contains(r) implies values@.contains(
                        outer0[j].1.map()[r],
                    ) by {
                    if j == j0 {
                        let m = choose|m: int| 0 <= m < entries0.len() && entries0[m].0@ == r;
                        assert(values@[prefix.len() + (entries0.len() - 1 - m)] == entries0[m].1);
                    } else {
                        assert(prefix.contains(outer0[j].1.map()[r]));
                        let n = choose|n: int| 0 <= n < prefix.len() && prefix[n] == outer0[j].1.map()[r];
                        assert(values@.subrange(0, prefix.len() as int)[n] == values@[n]);
                    }
                }
            }
        }
        proof {
            assert forall|k: (Seq<char>, Seq<char>)| #[trigger] all.dom().contains(k) implies values@.contains(all[k]) by {
                let j = choose|j: int| 0 <= j < outer0.len() && outer0[j].0@ == k.0;
                assert(outer0[j].1.map().dom().contains(k.1));
            }
            assert(self.view() =~= Map::<(Seq<char>, Seq<char>), V>::empty());
        }
        values
    }
}

/// Some key of `m` maps to `v`.
pub open spec fn has_value<K, V>(m: Map<K, V>, v: V) -> bool {
    exists|k: K| #[trigger] m.dom().contains(k) && m[k] == v
}

/// The triples of a three-level map: `(topic, join reference, reference)` to
/// the value stored under the reference.
pub open spec fn flatten3<V>(by_join: Map<(Seq<char>, Seq<char>), StringMap<V>>) -> Map<(Seq<char>, Seq<char>, Seq<char>), V> {
    Map::new(
        |k: (Seq<char>, Seq<char>, Seq<char>)| by_join.dom().contains((k.0, k.1)) && by_join[(k.0, k.1)].map().dom().contains(k.2),
        |k: (Seq<char>, Seq<char>, Seq<char>)| by_join[(k.0, k.1)].map()[k.2],
    )
}

/// Values filed by topic, then by join reference, then by message reference,
/// as the socket files the callers waiting for replies.  No topic or join
/// reference is kept without a value under it.
pub struct ByMessage<V> {
    by_join: ByTopic<StringMap<V>>,
}

impl<V> ByMessage<V> {
    /// The reference map of each `(topic, join reference)` pair.
    pub closed spec fn leaves(&self) -> Map<(Seq<char>, Seq<char>), StringMap<V>> {
        self.by_join.view()
    }

    /// Every `(topic, join reference, reference)` triple and its value.
    pub open spec fn view(&self) -> Map<(Seq<char>, Seq<char>, Seq<char>), V> {
        flatten3(self.leaves())
    }

    /// The keys are distinct at every level and no level is kept empty.
    pub closed spec fn wf(&self) -> bool {
        &&& self.by_join.wf()
        &&& forall|p: (Seq<char>, Seq<char>)| #[trigger] self.by_join.view().dom().contains(p) ==> inner_ok(self.by_join.view()[p])
    }

    /// Nothing filed.
    pub fn new() -> (m: ByMessage<V>)
        ensures
            m.wf(),
            m.view() == Map::<(Seq<char>, Seq<char>, Seq<char>), V>::empty(),
    {
        let m = ByMessage { by_join: ByTopic::new() };
        assert(m.view() =~= Map::<(Seq<char>, Seq<char>, Seq<char>), V>::empty());
        m
    }

    /// Files `value` under `topic`, `join_reference` and `reference`, giving
    /// back the value it replaced.
    pub fn insert(&mut self, topic: &str, join_reference: &str, reference: &str, value: V) -> (r: Option<V>)
        requires
            old(self).wf(),
        ensures
            final(self).wf(),
            final(self).view() == old(self).view().insert((topic@, join_reference@, reference@), value),
            r is None <==> !old(self).view().dom().contains((topic@, join_reference@, reference@)),
            r matches Some(v) ==> v == old(self).view()[(topic@, join_reference@, reference@)],
    {
        let ghost before = self.by_join.view();
        let mut leaf = match self.by_join.remove(topic, join_reference) {
            Some(leaf) => leaf,
            None => StringMap::new(),
        };
        let ghost leaf_before = leaf.map();
        let replaced = leaf.insert(owned(reference), value);
        proof {
            lemma_map_of(leaf.entries());
            assert(leaf.map().dom().contains(reference@));
            let i = choose|i: int| 0 <= i < leaf.entries().len() && leaf.entries()[i].0@ == reference@;
        }
        let _ = self.by_join.insert(topic, join_reference, leaf);
        proof {
            assert forall|p: (Seq<char>, Seq<char>)| #[trigger] self.by_join.view().dom().contains(p) implies inner_ok(
                self.by_join.view()[p],
            ) by {
                if p != (topic@, join_reference@) {
                    assert(before.dom().contains(p));
                }
            }
            if before.dom().contains((topic@, join_reference@)) {
                assert(leaf_before == before[(topic@, join_reference@)].map());
            }
            assert(self.view() =~= old(self).view().insert((topic@, join_reference@, reference@), value)) by {
                assert forall|k: (Seq<char>, Seq<char>, Seq<char>)| #[trigger] self.view().dom().contains(k) <==> old(
                    self,
                ).view().insert((topic@, join_reference@, reference@), value).dom().contains(k) by {
                    if (k.0, k.1) == (topic@, join_reference@) {
                        if before.dom().contains((topic@, join_reference@)) {
                            assert(leaf_before == before[(topic@, join_reference@)].map());
                        }
                    }
                }
            }
        }
        replaced
    }

    /// Takes out the value filed under `topic`, `join_reference` and
    /// `reference`; a level left without values is dropped.
    pub fn remove(&mut self, topic: &str, join_reference: &str, reference: &str) -> (r: Option<V>)
        requires
            old(self).wf(),
        ensures
            final(self).wf(),
            final(self).view() == old(self).view().remove((topic@, join_reference@, reference@)),
            r is None <==> !old(self).view().dom().contains((topic@, join_reference@, reference@)),
            r matches Some(v) ==> v == old(self).view()[(topic@, join_reference@, reference@)],
    {
        let ghost before = self.by_join.view();
        match self.by_join.remove(topic, join_reference) {
            None => {
                assert(self.view() =~= old(self).view().remove((topic@, join_reference@, reference@)));
                None
            },
            Some(mut leaf) => {
                let ghost leaf_before = leaf.map();
                let removed = leaf.remove(reference);
                if !leaf.is_empty() {
                    let _ = self.by_join.insert(topic, join_reference, leaf);
                }
                proof {
                    assert forall|p: (Seq<char>, Seq<char>)| #[trigger] self.by_join.view().dom().contains(p) implies inner_ok(
                        self.by_join.view()[p],
                    ) by {
                        if p != (topic@, join_reference@) {
                            assert(before.dom().contains(p));
                        }
                    }
                    assert(self.view() =~= old(self).view().remove((topic@, join_reference@, reference@))) by {
                        assert forall|k: (Seq<char>, Seq<char>, Seq<char>)| #[trigger] self.view().dom().contains(k) <==> old(
                            self,
                        ).view().remove((topic@, join_reference@, reference@)).dom().contains(k) by {
                            if (k.0, k.1) == (topic@, join_reference@) && leaf.map().dom().len() == 0
                                && leaf_before.dom().contains(k.2) && k.2 != reference@ {
                                assert(leaf.map().dom().contains(k.2));
                                vstd::set_lib::lemma_set_empty_equivalency_len(leaf.map().dom());
                            }
                        }
                    }
                }
                removed
            },
        }
    }

    /// Every filed value, leaving nothing filed.
    pub fn drain(&mut self) -> (values: Vec<V>)
        requires
            old(self).wf(),
        ensures
            final(self).wf(),
            final(self).view() == Map::<(Seq<char>, Seq<char>, Seq<char>), V>::empty(),
            forall|k: (Seq<char>, Seq<char>, Seq<char>)| #[trigger] old(self).view().dom().contains(k) ==> values@.contains(old(self).view()[k]),
            forall|i: int| 0 <= i < values@.len() ==> has_value(old(self).view(), #[trigger] values@[i]),
    {
        let ghost all = self.view();
        let ghost leaves_map = self.by_join.view();
        let mut leaves = self.by_join.drain();
        let ghost leaves0 = leaves@;
        let mut values: Vec<V> = Vec::new();
        while leaves.len() > 0
            invariant
                self.wf(),
                self.view() == Map::<(Seq<char>, Seq<char>, Seq<char>), V>::empty(),
                leaves@.len() <= leaves0.len(),
                leaves@ == leaves0.subrange(0, leaves@.len() as int),
                all == flatten3(leaves_map),
                forall|p: (Seq<char>, Seq<char>)| #[trigger] leaves_map.dom().contains(p) ==> inner_ok(leaves_map[p]),
                forall|p: (Seq<char>, Seq<char>)| #[trigger] leaves_map.dom().contains(p) ==> leaves0.contains(leaves_map[p]),
                forall|j: int| 0 <= j < leaves0.len() ==> has_value(leaves_map, #[trigger] leaves0[j]),
                forall|j: int, r: Seq<char>|
                    leaves@.len() <= j < leaves0.len() && #[trigger] leaves0[j].map().dom().contains(r) ==> values@.contains(
                        leaves0[j].map()[r],
                    ),
                forall|n: int| 0 <= n < values@.len() ==> has_value(all, #[trigger] values@[n]),
            decreases leaves@.len(),
        {
            let ghost j0 = leaves@.len() - 1;
            let leaf = leaves.pop().unwrap();
            assert(leaf == leaves0[j0]);
            assert(has_value(leaves_map, leaves0[j0]));
            let ghost p = choose|p: (Seq<char>, Seq<char>)| #[trigger] leaves_map.dom().contains(p) && leaves_map[p] == leaves0[j0];
            proof {
                lemma_map_of(leaf.entries());
            }
            let ghost leaf_map = leaf.map();
            let mut entries = leaf.into_entries();
            let ghost entries0 = entries@;
            let ghost prefix = values@;
            while entries.len() > 0
                invariant
                    entries@.len() <= entries0.len(),
                    entries@ == entries0.subrange(0, entries@.len() as int),
                    leaves_map.dom().contains(p),
                    leaf_map == leaves_map[p].map(),
                    all == flatten3(leaves_map),
                    forall|m: int| 0 <= m < entries0.len() ==> leaf_map.dom().contains(#[trigger] entries0[m].0@),
                    forall|m: int| 0 <= m < entries0.len() ==> leaf_map[#[trigger] entries0[m].0@] == entries0[m].1,
                    values@.len() == prefix.len() + (entries0.len() - entries@.len()),
                    values@.subrange(0, prefix.len() as int) == prefix,
                    forall|m: int| entries@.len() <= m < entries0.len() ==> values@[prefix.len() + (entries0.len() - 1 - m)] == #[trigger] entries0[m].1,
                    forall|n: int| 0 <= n < values@.len() ==> has_value(all, #[trigger] values@[n]),
                decreases entries@.len(),
            {
                let ghost m0 = entries@.len() - 1;
                let (_, value) = entries.pop().unwrap();
                let ghost r = entries0[m0].0@;
                assert(entries0[m0] == (entries0[m0].0, value));
                assert(leaf_map.dom().contains(r));
                assert(all.dom().contains((p.0, p.1, r)));
                let ghost before = values@;
                values.push(value);
                proof {
                    assert(values@.subrange(0, prefix.len() as int) =~= before.subrange(0, prefix.len() as int));
                    assert forall|n: int| 0 <= n < values@.len() implies has_value(all, #[trigger] values@[n]) by {
                        if n == values@.len() - 1 {
                            assert(all[(p.0, p.1, r)] == values@[n]);
                        } else {
                            assert(values@[n] == before[n]);
                        }
                    }
                    assert forall|m: int| entries@.len() <= m < entries0.len() implies values@[prefix.len() + (entries0.len() - 1 - m)] == #[trigger] entries0[m].1 by {
                        if m != m0 {
                            assert(values@[prefix.len() + (entries0.len() - 1 - m)] == before[prefix.len() + (entries0.len() - 1 - m)]);
                        }
                    }
                }
            }
            proof {
                assert forall|j: int, r: Seq<char>|
                    leaves@.len() <= j < leaves0.len() && #[trigger] leaves0[j].map().dom().contains(r) implies values@.contains(
                        leaves0[j].map()[r],
                    ) by {
                    if j == j0 {
                        let m = choose|m: int| 0 <= m < entries0.len() && entries0[m].0@ == r;
                        assert(values@[prefix.len() + (entries0.len() - 1 - m)] == entries0[m].1);
                    } else {
                        assert(prefix.contains(leaves0[j].map()[r]));
                        let n = choose|n: int| 0 <= n < prefix.len() && prefix[n] == leaves0[j].map()[r];
                        assert(values@.subrange(0, prefix.len() as int)[n] == values@[n]);
                    }
                }
            }
        }
        proof {
            assert forall|k: (Seq<char>, Seq<char>, Seq<char>)| #[trigger] all.dom().contains(k) implies values@.contains(all[k]) by {
                let p = (k.0, k.1);
                assert(leaves_map.dom().contains(p));
                assert(leaves0.contains(leaves_map[p]));
                let j = choose|j: int| 0 <= j < leaves0.len() && leaves0[j] == leaves_map[p];
                assert(leaves0[j].map().dom().contains(k.2));
            }
        }
        values
    }
}

} // verus!
