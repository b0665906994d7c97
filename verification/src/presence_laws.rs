use vstd::prelude::*;

use crate::presence::{
    apply_joins, apply_leaves, join_references, merge_join, metas_without, sync_joins, sync_leaves,
    vanished, MetaView, PresenceByKey,
};

verus! {

broadcast use vstd::seq_lib::group_seq_properties;

/// The metas of a key, or none when the key has no presence.
pub open spec fn metas_of(presences: Map<Seq<char>, Seq<MetaView>>, key: Seq<char>) -> Seq<MetaView> {
    if presences.contains_key(key) {
        presences[key]
    } else {
        Seq::empty()
    }
}

/// Whether one of the metas has the join reference `reference`.
pub open spec fn has_reference(metas: Seq<MetaView>, reference: Seq<char>) -> bool {
    join_references(metas).contains(reference)
}

/// No two entries have the same key.
pub open spec fn distinct_entry_keys(entries: Seq<(Seq<char>, Seq<MetaView>)>) -> bool {
    forall|i: int, j: int| 0 <= i < entries.len() && 0 <= j < entries.len() && i != j ==> entries[i].0 != entries[j].0
}

/// Some entry has the key `key`.
pub open spec fn has_key(entries: Seq<(Seq<char>, Seq<MetaView>)>, key: Seq<char>) -> bool {
    exists|i: int| 0 <= i < entries.len() && entries[i].0 == key
}

proof fn lemma_has_reference_push(metas: Seq<MetaView>, meta: MetaView, reference: Seq<char>)
    ensures
        has_reference(metas.push(meta), reference) <==> (has_reference(metas, reference) || meta.join_reference == reference),
{
    assert(join_references(metas.push(meta)) =~= join_references(metas).push(meta.join_reference));
}

/// The join references of the metas kept by `metas_without`.
proof fn lemma_has_reference_without(metas: Seq<MetaView>, references: Seq<Seq<char>>, reference: Seq<char>)
    ensures
        has_reference(metas_without(metas, references), reference) <==> (has_reference(metas, reference)
            && !references.contains(reference)),
    decreases metas.len(),
{
    let pred = |m: MetaView| !references.contains(m.join_reference);
    if metas.len() == 0 {
        assert(metas_without(metas, references) =~= metas) by {
            reveal(Seq::filter);
        }
    } else {
        let rest = metas.drop_last();
        let last = metas.last();
        assert(metas =~= rest.push(last));
        rest.lemma_filter_push(last, pred);
        lemma_has_reference_without(rest, references, reference);
        lemma_has_reference_push(rest, last, reference);
        if pred(last) {
            lemma_has_reference_push(metas_without(rest, references), last, reference);
        }
    }
}

/// The join references of two lists of metas together.
proof fn lemma_has_reference_add(a: Seq<MetaView>, b: Seq<MetaView>, reference: Seq<char>)
    ensures
        has_reference(a + b, reference) <==> (has_reference(a, reference) || has_reference(b, reference)),
    decreases b.len(),
{
    if b.len() == 0 {
        assert(a + b =~= a);
    } else {
        let rest = b.drop_last();
        assert(a + b =~= (a + rest).push(b.last()));
        assert(b =~= rest.push(b.last()));
        lemma_has_reference_add(a, rest, reference);
        lemma_has_reference_push(a + rest, b.last(), reference);
        lemma_has_reference_push(rest, b.last(), reference);
    }
}

/// Metas with a join reference are not empty.
proof fn lemma_has_reference_nonempty(metas: Seq<MetaView>, reference: Seq<char>)
    requires
        has_reference(metas, reference),
    ensures
        metas.len() > 0,
{
}

/// What applying joins with distinct keys does to one key.
proof fn lemma_apply_joins_at(
    state: Map<Seq<char>, Seq<MetaView>>,
    joins: Seq<(Seq<char>, Seq<MetaView>)>,
    key: Seq<char>,
)
    requires
        distinct_entry_keys(joins),
    ensures
        !has_key(joins, key) ==> apply_joins(state, joins).get(key) == state.get(key),
        forall|i: int| 0 <= i < joins.len() && joins[i].0 == key ==> apply_joins(state, joins).get(key)
            == Some(merge_join(joins[i].1, state.get(key))),
    decreases joins.len(),
{
    if joins.len() > 0 {
        let rest = joins.drop_last();
        assert(distinct_entry_keys(rest));
        lemma_apply_joins_at(state, rest, key);
        let last = joins.last();
        if last.0 == key {
            assert(!has_key(rest, key)) by {
                if has_key(rest, key) {
                    let i = choose|i: int| 0 <= i < rest.len() && rest[i].0 == key;
                    assert(joins[i].0 == joins[joins.len() - 1].0);
                }
            }
            assert forall|i: int| 0 <= i < joins.len() && joins[i].0 == key implies i == joins.len() - 1 by {
                if i != joins.len() - 1 {
                    assert(joins[i].0 != joins[joins.len() - 1].0);
                }
            }
        } else {
            if has_key(joins, key) {
                let i = choose|i: int| 0 <= i < joins.len() && joins[i].0 == key;
                assert(rest[i] == joins[i]);
            }
            assert forall|i: int| 0 <= i < joins.len() && joins[i].0 == key implies apply_joins(state, joins).get(key)
                == Some(merge_join(joins[i].1, state.get(key))) by {
                assert(rest[i] == joins[i]);
            }
        }
    }
}

/// What applying leaves with distinct keys does to one key.
proof fn lemma_apply_leaves_at(
    state: Map<Seq<char>, Seq<MetaView>>,
    leaves: Seq<(Seq<char>, Seq<MetaView>)>,
    key: Seq<char>,
)
    requires
        distinct_entry_keys(leaves),
    ensures
        !has_key(leaves, key) ==> apply_leaves(state, leaves).get(key) == state.get(key),
        forall|i: int| 0 <= i < leaves.len() && leaves[i].0 == key ==> apply_leaves(state, leaves).get(key)
            == (if state.contains_key(key) {
                let remaining = metas_without(state[key], join_references(leaves[i].1));
                if remaining.len() == 0 {
                    None
                } else {
                    Some(remaining)
                }
            } else {
                None::<Seq<MetaView>>
            }),
    decreases leaves.len(),
{
    if leaves.len() > 0 {
        let rest = leaves.drop_last();
        assert(distinct_entry_keys(rest));
        lemma_apply_leaves_at(state, rest, key);
        let last = leaves.last();
        if last.0 == key {
            assert(!has_key(rest, key)) by {
                if has_key(rest, key) {
                    let i = choose|i: int| 0 <= i < rest.len() && rest[i].0 == key;
                    assert(leaves[i].0 == leaves[leaves.len() - 1].0);
                }
            }
            assert forall|i: int| 0 <= i < leaves.len() && leaves[i].0 == key implies i == leaves.len() - 1 by {
                if i != leaves.len() - 1 {
                    assert(leaves[i].0 != leaves[leaves.len() - 1].0);
                }
            }
        } else {
            if has_key(leaves, key) {
                let i = choose|i: int| 0 <= i < leaves.len() && leaves[i].0 == key;
                assert(rest[i] == leaves[i]);
            }
            assert forall|i: int| 0 <= i < leaves.len() && leaves[i].0 == key implies #[trigger] apply_leaves(state, leaves).get(key)
                == (if state.contains_key(key) {
                    let remaining = metas_without(state[key], join_references(leaves[i].1));
                    if remaining.len() == 0 {
                        None
                    } else {
                        Some(remaining)
                    }
                } else {
                    None::<Seq<MetaView>>
                }) by {
                assert(rest[i] == leaves[i]);
            }
        }
    }
}

/// The entries of a keyed presence state have distinct keys and agree with
/// its presences.
proof fn lemma_entries_agree(p: PresenceByKey)
    requires
        p.wf(),
    ensures
        distinct_entry_keys(p.entries()),
        forall|i: int| 0 <= i < p.entries().len() ==> p.presences().contains_key(#[trigger] p.entries()[i].0)
            && p.presences()[p.entries()[i].0] == p.entries()[i].1,
        forall|k: Seq<char>| #[trigger] p.presences().contains_key(k) ==> has_key(p.entries(), k),
{
    crate::string_map::lemma_map_of(p.map.entries());
    assert forall|k: Seq<char>| #[trigger] p.presences().contains_key(k) implies has_key(p.entries(), k) by {
        let i = choose|i: int| 0 <= i < p.map.entries().len() && p.map.entries()[i].0@ == k;
        assert(p.entries()[i].0 == k);
    }
}

/// The joined metas that a new presence state gives a key.
pub open spec fn joined_part(
    state: Map<Seq<char>, Seq<MetaView>>,
    entry: (Seq<char>, Seq<MetaView>),
) -> Seq<MetaView> {
    if state.contains_key(entry.0) {
        metas_without(entry.1, join_references(state[entry.0]))
    } else {
        entry.1
    }
}

/// The metas that leave a key in a new presence state.
pub open spec fn left_part(
    state: Map<Seq<char>, Seq<MetaView>>,
    entry: (Seq<char>, Seq<MetaView>),
) -> Seq<MetaView> {
    metas_without(state[entry.0], join_references(entry.1))
}

proof fn lemma_sync_joins(
    state: Map<Seq<char>, Seq<MetaView>>,
    new_entries: Seq<(Seq<char>, Seq<MetaView>)>,
)
    requires
        distinct_entry_keys(new_entries),
    ensures
        distinct_entry_keys(sync_joins(state, new_entries)),
        forall|j: int| 0 <= j < sync_joins(state, new_entries).len() ==> exists|i: int|
            0 <= i < new_entries.len() && new_entries[i].0 == (#[trigger] sync_joins(state, new_entries)[j]).0
                && sync_joins(state, new_entries)[j].1 == joined_part(state, new_entries[i])
                && (state.contains_key(new_entries[i].0) ==> sync_joins(state, new_entries)[j].1.len() > 0),
        forall|i: int| 0 <= i < new_entries.len() && (!state.contains_key(new_entries[i].0)
            || joined_part(state, new_entries[i]).len() > 0) ==> has_key(
            sync_joins(state, new_entries),
            #[trigger] new_entries[i].0,
        ),
    decreases new_entries.len(),
{
    if new_entries.len() > 0 {
        let rest = new_entries.drop_last();
        let last = new_entries.last();
        let n = new_entries.len() - 1;
        assert(distinct_entry_keys(rest));
        lemma_sync_joins(state, rest);
        let before = sync_joins(state, rest);
        let after = sync_joins(state, new_entries);
        assert(!has_key(before, last.0)) by {
            if has_key(before, last.0) {
                let j = choose|j: int| 0 <= j < before.len() && before[j].0 == last.0;
                let i = choose|i: int| 0 <= i < rest.len() && rest[i].0 == before[j].0 && before[j].1 == joined_part(state, rest[i])
                    && (state.contains_key(rest[i].0) ==> before[j].1.len() > 0);
                assert(new_entries[i].0 != new_entries[n].0);
            }
        }
        assert forall|j: int| 0 <= j < after.len() implies exists|i: int|
            0 <= i < new_entries.len() && new_entries[i].0 == (#[trigger] after[j]).0
                && after[j].1 == joined_part(state, new_entries[i])
                && (state.contains_key(new_entries[i].0) ==> after[j].1.len() > 0) by {
            if j < before.len() {
                assert(after[j] == before[j]);
                let i = choose|i: int| 0 <= i < rest.len() && rest[i].0 == before[j].0 && before[j].1 == joined_part(state, rest[i])
                    && (state.contains_key(rest[i].0) ==> before[j].1.len() > 0);
                assert(new_entries[i] == rest[i]);
            } else {
                assert(after[j].0 == new_entries[n].0);
            }
        }
        assert forall|i: int| 0 <= i < new_entries.len() && (!state.contains_key(new_entries[i].0)
            || joined_part(state, new_entries[i]).len() > 0) implies has_key(after, #[trigger] new_entries[i].0) by {
            if i < n {
                assert(rest[i] == new_entries[i]);
                assert(has_key(before, rest[i].0));
                let j = choose|j: int| 0 <= j < before.len() && before[j].0 == rest[i].0;
                assert(after[j] == before[j]);
            } else {
                assert(after[after.len() - 1].0 == last.0);
            }
        }
        assert forall|a: int, b: int| 0 <= a < after.len() && 0 <= b < after.len() && a != b implies after[a].0 != after[b].0 by {
            if a < before.len() && b < before.len() {
                assert(after[a] == before[a] && after[b] == before[b]);
            } else if a < before.len() {
                assert(after[a] == before[a]);
            } else {
                assert(after[b] == before[b]);
            }
        }
    }
}

proof fn lemma_sync_leaves(
    state: Map<Seq<char>, Seq<MetaView>>,
    new_entries: Seq<(Seq<char>, Seq<MetaView>)>,
)
    requires
        distinct_entry_keys(new_entries),
    ensures
        distinct_entry_keys(sync_leaves(state, new_entries)),
        forall|j: int| 0 <= j < sync_leaves(state, new_entries).len() ==> exists|i: int|
            0 <= i < new_entries.len() && new_entries[i].0 == (#[trigger] sync_leaves(state, new_entries)[j]).0
                && state.contains_key(new_entries[i].0)
                && sync_leaves(state, new_entries)[j].1 == left_part(state, new_entries[i])
                && sync_leaves(state, new_entries)[j].1.len() > 0,
        forall|i: int| 0 <= i < new_entries.len() && state.contains_key(new_entries[i].0)
            && left_part(state, new_entries[i]).len() > 0 ==> has_key(
            sync_leaves(state, new_entries),
            #[trigger] new_entries[i].0,
        ),
    decreases new_entries.len(),
{
    if new_entries.len() > 0 {
        let rest = new_entries.drop_last();
        let last = new_entries.last();
        let n = new_entries.len() - 1;
        assert(distinct_entry_keys(rest));
        lemma_sync_leaves(state, rest);
        let before = sync_leaves(state, rest);
        let after = sync_leaves(state, new_entries);
        assert(!has_key(before, last.0)) by {
            if has_key(before, last.0) {
                let j = choose|j: int| 0 <= j < before.len() && before[j].0 == last.0;
                let i = choose|i: int| 0 <= i < rest.len() && rest[i].0 == before[j].0 && state.contains_key(rest[i].0) && before[j].1 == left_part(state, rest[i])
                    && before[j].1.len() > 0;
                assert(new_entries[i].0 != new_entries[n].0);
            }
        }
        assert forall|j: int| 0 <= j < after.len() implies exists|i: int|
            0 <= i < new_entries.len() && new_entries[i].0 == (#[trigger] after[j]).0
                && state.contains_key(new_entries[i].0)
                && after[j].1 == left_part(state, new_entries[i])
                && after[j].1.len() > 0 by {
            if j < before.len() {
                assert(after[j] == before[j]);
                let i = choose|i: int| 0 <= i < rest.len() && rest[i].0 == before[j].0 && state.contains_key(rest[i].0) && before[j].1 == left_part(state, rest[i])
                    && before[j].1.len() > 0;
                assert(new_entries[i] == rest[i]);
            } else {
                assert(after[j].0 == new_entries[n].0);
            }
        }
        assert forall|i: int| 0 <= i < new_entries.len() && state.contains_key(new_entries[i].0)
            && left_part(state, new_entries[i]).len() > 0 implies has_key(after, #[trigger] new_entries[i].0) by {
            if i < n {
                assert(rest[i] == new_entries[i]);
                assert(has_key(before, rest[i].0));
                let j = choose|j: int| 0 <= j < before.len() && before[j].0 == rest[i].0;
                assert(after[j] == before[j]);
            } else {
                assert(after[after.len() - 1].0 == last.0);
            }
        }
        assert forall|a: int, b: int| 0 <= a < after.len() && 0 <= b < after.len() && a != b implies after[a].0 != after[b].0 by {
            if a < before.len() && b < before.len() {
                assert(after[a] == before[a] && after[b] == before[b]);
            } else if a < before.len() {
                assert(after[a] == before[a]);
            } else {
                assert(after[b] == before[b]);
            }
        }
    }
}

/// The entries that `vanished` keeps have distinct keys, come from the
/// entries, and have keys without a new presence.
proof fn lemma_vanished(
    entries: Seq<(Seq<char>, Seq<MetaView>)>,
    new: Map<Seq<char>, Seq<MetaView>>,
)
    requires
        distinct_entry_keys(entries),
    ensures
        distinct_entry_keys(vanished(entries, new)),
        forall|j: int| 0 <= j < vanished(entries, new).len() ==> !new.contains_key(
            (#[trigger] vanished(entries, new)[j]).0,
        ) && has_key(entries, vanished(entries, new)[j].0),
    decreases entries.len(),
{
    broadcast use vstd::seq_lib::group_filter_ensures;

    let pred = |e: (Seq<char>, Seq<MetaView>)| !new.contains_key(e.0);
    if entries.len() == 0 {
        assert(vanished(entries, new) =~= entries) by {
            reveal(Seq::filter);
        }
    } else {
        let rest = entries.drop_last();
        let last = entries.last();
        assert(entries =~= rest.push(last));
        assert(distinct_entry_keys(rest));
        lemma_vanished(rest, new);
        rest.lemma_filter_push(last, pred);
        let before = vanished(rest, new);
        let after = vanished(entries, new);
        assert forall|a: int, b: int| 0 <= a < after.len() && 0 <= b < after.len() && a != b implies after[a].0 != after[b].0 by {
            if a < before.len() && b < before.len() {
                assert(after[a] == before[a] && after[b] == before[b]);
            } else if a < before.len() {
                assert(after[a] == before[a]);
                let i = choose|i: int| 0 <= i < rest.len() && rest[i].0 == before[a].0;
                assert(entries[i].0 != entries[entries.len() - 1].0);
            } else {
                assert(after[b] == before[b]);
                let i = choose|i: int| 0 <= i < rest.len() && rest[i].0 == before[b].0;
                assert(entries[i].0 != entries[entries.len() - 1].0);
            }
        }
        assert forall|j: int| 0 <= j < after.len() implies !new.contains_key((#[trigger] after[j]).0)
            && has_key(entries, after[j].0) by {
            if j < before.len() {
                assert(after[j] == before[j]);
                let i = choose|i: int| 0 <= i < rest.len() && rest[i].0 == before[j].0;
                assert(entries[i] == rest[i]);
            } else {
                assert(entries[entries.len() - 1].0 == after[j].0);
            }
        }
    }
}

/// The sync of a full state, worked out on the old presences restricted to
/// the keys of the new state.
proof fn lemma_sync_tracks_state_on_kept(old: PresenceByKey, new: PresenceByKey)
    requires
        old.wf(),
        new.wf(),
    ensures
        ({
            let kept = old.presences().restrict(new.presences().dom());
            let joins = sync_joins(kept, new.entries());
            let leaves = vanished(old.entries(), new.presences()) + sync_leaves(kept, new.entries());
            let result = apply_leaves(apply_joins(kept, joins), leaves);
            &&& distinct_entry_keys(leaves)
            &&& forall|key: Seq<char>| #[trigger] result.contains_key(key) ==> new.presences().contains_key(key)
            &&& forall|key: Seq<char>, reference: Seq<char>|
                #[trigger] has_reference(metas_of(result, key), reference) <==> has_reference(
                    metas_of(new.presences(), key),
                    reference,
                )
        }),
{
    let new_presences = new.presences();
    let new_entries = new.entries();
    let kept = old.presences().restrict(new_presences.dom());
    let joins = sync_joins(kept, new_entries);
    let vanished_entries = vanished(old.entries(), new_presences);
    let tail = sync_leaves(kept, new_entries);
    let leaves = vanished_entries + tail;
    let joined = apply_joins(kept, joins);
    let result = apply_leaves(joined, leaves);
    lemma_entries_agree(old);
    lemma_entries_agree(new);
    lemma_sync_joins(kept, new_entries);
    lemma_sync_leaves(kept, new_entries);
    lemma_vanished(old.entries(), new_presences);
    assert(distinct_entry_keys(leaves)) by {
        assert forall|a: int, b: int| 0 <= a < leaves.len() && 0 <= b < leaves.len() && a != b implies leaves[a].0 != leaves[b].0 by {
            if a < vanished_entries.len() && b < vanished_entries.len() {
                assert(leaves[a] == vanished_entries[a] && leaves[b] == vanished_entries[b]);
            } else if a >= vanished_entries.len() && b >= vanished_entries.len() {
                assert(leaves[a] == tail[a - vanished_entries.len()] && leaves[b] == tail[b - vanished_entries.len()]);
            } else if a < vanished_entries.len() {
                assert(leaves[a] == vanished_entries[a]);
                assert(leaves[b] == tail[b - vanished_entries.len()]);
                let j = b - vanished_entries.len();
                let i = choose|i: int| 0 <= i < new_entries.len() && new_entries[i].0 == tail[j].0 && kept.contains_key(new_entries[i].0) && tail[j].1 == left_part(kept, new_entries[i]) && tail[j].1.len() > 0;
                assert(new_presences.contains_key(new_entries[i].0));
            } else {
                assert(leaves[b] == vanished_entries[b]);
                assert(leaves[a] == tail[a - vanished_entries.len()]);
                let j = a - vanished_entries.len();
                let i = choose|i: int| 0 <= i < new_entries.len() && new_entries[i].0 == tail[j].0 && kept.contains_key(new_entries[i].0) && tail[j].1 == left_part(kept, new_entries[i]) && tail[j].1.len() > 0;
                assert(new_presences.contains_key(new_entries[i].0));
            }
        }
    }
    assert forall|key: Seq<char>| #[trigger] result.contains_key(key) implies new_presences.contains_key(key) by {
        lemma_apply_joins_at(kept, joins, key);
        lemma_apply_leaves_at(joined, leaves, key);
        if !new_presences.contains_key(key) {
            assert(!has_key(joins, key)) by {
                if has_key(joins, key) {
                    let j = choose|j: int| 0 <= j < joins.len() && joins[j].0 == key;
                    let i = choose|i: int| 0 <= i < new_entries.len() && new_entries[i].0 == joins[j].0 && joins[j].1 == joined_part(kept, new_entries[i]) && (kept.contains_key(new_entries[i].0) ==> joins[j].1.len() > 0);
                }
            }
            assert(!joined.contains_key(key));
            if has_key(leaves, key) {
                let j = choose|j: int| 0 <= j < leaves.len() && leaves[j].0 == key;
                assert(result.get(key) == None::<Seq<MetaView>>);
            }
        }
    }
    assert forall|key: Seq<char>, reference: Seq<char>|
        #[trigger] has_reference(metas_of(result, key), reference) <==> has_reference(
            metas_of(new_presences, key),
            reference,
        ) by {
        lemma_apply_joins_at(kept, joins, key);
        lemma_apply_leaves_at(joined, leaves, key);
        if !new_presences.contains_key(key) {
            assert(!result.contains_key(key));
        } else {
            let i = choose|i: int| 0 <= i < new_entries.len() && new_entries[i].0 == key;
            let n = new_entries[i].1;
            assert(new_presences[key] == n);
            assert(!has_key(vanished_entries, key)) by {
                if has_key(vanished_entries, key) {
                    let j = choose|j: int| 0 <= j < vanished_entries.len() && vanished_entries[j].0 == key;
                }
            }
            if !kept.contains_key(key) {
                assert(has_key(joins, key));
                let j = choose|j: int| 0 <= j < joins.len() && joins[j].0 == key;
                let i2 = choose|i2: int| 0 <= i2 < new_entries.len() && new_entries[i2].0 == joins[j].0 && joins[j].1 == joined_part(kept, new_entries[i2]) && (kept.contains_key(new_entries[i2].0) ==> joins[j].1.len() > 0);
                assert(i2 == i);
                assert(joined.get(key) == Some(n));
                assert(!has_key(leaves, key)) by {
                    if has_key(leaves, key) {
                        let l = choose|l: int| 0 <= l < leaves.len() && leaves[l].0 == key;
                        if l >= vanished_entries.len() {
                            let t = l - vanished_entries.len();
                            assert(tail[t] == leaves[l]);
                            let i3 = choose|i3: int| 0 <= i3 < new_entries.len() && new_entries[i3].0 == tail[t].0 && kept.contains_key(new_entries[i3].0) && tail[t].1 == left_part(kept, new_entries[i3]) && tail[t].1.len() > 0;
                        } else {
                            assert(vanished_entries[l] == leaves[l]);
                        }
                    }
                }
                assert(metas_of(result, key) == n);
            } else {
                let c = kept[key];
                let jm = metas_without(n, join_references(c));
                let lm = metas_without(c, join_references(n));
                lemma_has_reference_without(n, join_references(c), reference);
                lemma_has_reference_without(c, join_references(n), reference);
                // After the joins, the key carries the references of both.
                let merged = if jm.len() > 0 {
                    jm + metas_without(c, join_references(jm))
                } else {
                    c
                };
                if jm.len() > 0 {
                    assert(has_key(joins, key));
                    let j = choose|j: int| 0 <= j < joins.len() && joins[j].0 == key;
                    let i2 = choose|i2: int| 0 <= i2 < new_entries.len() && new_entries[i2].0 == joins[j].0 && joins[j].1 == joined_part(kept, new_entries[i2]) && (kept.contains_key(new_entries[i2].0) ==> joins[j].1.len() > 0);
                    assert(i2 == i);
                    assert(joined.get(key) == Some(merged));
                    lemma_has_reference_add(jm, metas_without(c, join_references(jm)), reference);
                    lemma_has_reference_without(c, join_references(jm), reference);
                } else {
                    assert(!has_key(joins, key)) by {
                        if has_key(joins, key) {
                            let j = choose|j: int| 0 <= j < joins.len() && joins[j].0 == key;
                            let i2 = choose|i2: int| 0 <= i2 < new_entries.len() && new_entries[i2].0 == joins[j].0 && joins[j].1 == joined_part(kept, new_entries[i2]) && (kept.contains_key(new_entries[i2].0) ==> joins[j].1.len() > 0);
                            assert(i2 == i);
                        }
                    }
                    assert(joined.get(key) == Some(merged));
                    if has_reference(n, reference) && !has_reference(c, reference) {
                        lemma_has_reference_nonempty(jm, reference);
                    }
                }
                assert(has_reference(merged, reference) <==> (has_reference(n, reference) || has_reference(c, reference)));
                if lm.len() > 0 {
                    assert(has_key(tail, key));
                    let t = choose|t: int| 0 <= t < tail.len() && tail[t].0 == key;
                    let i3 = choose|i3: int| 0 <= i3 < new_entries.len() && new_entries[i3].0 == tail[t].0 && kept.contains_key(new_entries[i3].0) && tail[t].1 == left_part(kept, new_entries[i3]) && tail[t].1.len() > 0;
                    assert(i3 == i);
                    assert(leaves[vanished_entries.len() + t] == tail[t]);
                    let remaining = metas_without(merged, join_references(lm));
                    lemma_has_reference_without(merged, join_references(lm), reference);
                    lemma_has_reference_without(c, join_references(n), reference);
                    if remaining.len() == 0 {
                        assert(result.get(key) == None::<Seq<MetaView>>);
                        if has_reference(n, reference) {
                            assert(has_reference(remaining, reference));
                        }
                    } else {
                        assert(result.get(key) == Some(remaining));
                    }
                } else {
                    assert(!has_key(leaves, key)) by {
                        if has_key(leaves, key) {
                            let l = choose|l: int| 0 <= l < leaves.len() && leaves[l].0 == key;
                            if l >= vanished_entries.len() {
                                let t = l - vanished_entries.len();
                                assert(tail[t] == leaves[l]);
                                let i3 = choose|i3: int| 0 <= i3 < new_entries.len() && new_entries[i3].0 == tail[t].0 && kept.contains_key(new_entries[i3].0) && tail[t].1 == left_part(kept, new_entries[i3]) && tail[t].1.len() > 0;
                                assert(i3 == i);
                            } else {
                                assert(vanished_entries[l] == leaves[l]);
                            }
                        }
                    }
                    assert(result.get(key) == Some(merged));
                    if has_reference(c, reference) && !has_reference(n, reference) {
                        lemma_has_reference_nonempty(lm, reference);
                    }
                }
            }
        }
    }
}

/// Restricting the state to a domain that holds every key of the new
/// entries changes neither the joins nor the leaves of a sync.
proof fn lemma_sync_parts_restrict(
    state: Map<Seq<char>, Seq<MetaView>>,
    keys: Set<Seq<char>>,
    new_entries: Seq<(Seq<char>, Seq<MetaView>)>,
)
    requires
        forall|i: int| 0 <= i < new_entries.len() ==> keys.contains(#[trigger] new_entries[i].0),
    ensures
        sync_joins(state, new_entries) == sync_joins(state.restrict(keys), new_entries),
        sync_leaves(state, new_entries) == sync_leaves(state.restrict(keys), new_entries),
    decreases new_entries.len(),
{
    if new_entries.len() > 0 {
        let rest = new_entries.drop_last();
        assert forall|i: int| 0 <= i < rest.len() implies keys.contains(#[trigger] rest[i].0) by {
            assert(rest[i] == new_entries[i]);
        }
        lemma_sync_parts_restrict(state, keys, rest);
        assert(keys.contains(new_entries[new_entries.len() - 1].0));
    }
}

/// The metas of a presence, taken out by their own join references, leave
/// nothing.
proof fn lemma_without_own_references(metas: Seq<MetaView>)
    ensures
        metas_without(metas, join_references(metas)).len() == 0,
{
    broadcast use vstd::seq_lib::group_filter_ensures;

    let references = join_references(metas);
    let pred = |m: MetaView| !references.contains(m.join_reference);
    let remaining = metas.filter(pred);
    if remaining.len() > 0 {
        let m = remaining[0];
        metas.lemma_filter_pred(pred, 0);
        assert(remaining.contains(m));
        metas.lemma_filter_contains_rev(pred, m);
        let i = choose|i: int| 0 <= i < metas.len() && metas[i] == m;
        assert(references[i] == m.join_reference);
        assert(references.contains(m.join_reference));
    }
}

/// Syncing a full presence state from the server leaves exactly the join
/// references of that state: each key carries the join references that the
/// state gives it (a key without presence carries none), and no key keeps a
/// presence that the state lacks; each key that vanished from the state
/// leaves with all its metas.
pub proof fn lemma_sync_tracks_state(old: PresenceByKey, new: PresenceByKey)
    requires
        old.wf(),
        new.wf(),
    ensures
        ({
            let state = old.presences();
            let joins = sync_joins(state, new.entries());
            let leaves = vanished(old.entries(), new.presences()) + sync_leaves(state, new.entries());
            let result = apply_leaves(apply_joins(state, joins), leaves);
            &&& forall|key: Seq<char>| #[trigger] result.contains_key(key) ==> new.presences().contains_key(key)
            &&& forall|key: Seq<char>, reference: Seq<char>|
                #[trigger] has_reference(metas_of(result, key), reference) <==> has_reference(
                    metas_of(new.presences(), key),
                    reference,
                )
            &&& forall|key: Seq<char>| #[trigger] state.contains_key(key) && !new.presences().contains_key(key) ==> exists|
                i: int,
            | 0 <= i < leaves.len() && #[trigger] leaves[i] == (key, state[key])
        }),
{
    let state = old.presences();
    let new_presences = new.presences();
    let new_entries = new.entries();
    let old_entries = old.entries();
    let kept = state.restrict(new_presences.dom());
    lemma_entries_agree(old);
    lemma_entries_agree(new);
    lemma_sync_parts_restrict(state, new_presences.dom(), new_entries);
    lemma_sync_tracks_state_on_kept(old, new);
    lemma_sync_joins(kept, new_entries);
    lemma_vanished(old_entries, new_presences);
    let joins = sync_joins(state, new_entries);
    let vanished_entries = vanished(old_entries, new_presences);
    let leaves = vanished_entries + sync_leaves(state, new_entries);
    let joined = apply_joins(state, joins);
    let joined_kept = apply_joins(kept, joins);
    let result = apply_leaves(joined, leaves);
    let result_kept = apply_leaves(joined_kept, leaves);
    let pred = |e: (Seq<char>, Seq<MetaView>)| !new_presences.contains_key(e.0);
    // A vanished key is left with all its metas.
    assert forall|key: Seq<char>| #[trigger] state.contains_key(key) && !new_presences.contains_key(key) implies exists|
        i: int,
    | 0 <= i < leaves.len() && #[trigger] leaves[i] == (key, state[key]) by {
        let e = choose|e: int| 0 <= e < old_entries.len() && old_entries[e].0 == key;
        old_entries.lemma_filter_contains(pred, e);
        assert(vanished_entries.contains(old_entries[e]));
        let v = choose|v: int| 0 <= v < vanished_entries.len() && vanished_entries[v] == old_entries[e];
        assert(leaves[v] == vanished_entries[v]);
    }
    // The keys of the new state fare as they did on the restricted state.
    assert forall|key: Seq<char>| #[trigger] new_presences.contains_key(key) implies result.get(key) == result_kept.get(
        key,
    ) by {
        lemma_apply_joins_at(state, joins, key);
        lemma_apply_joins_at(kept, joins, key);
        assert(state.get(key) == kept.get(key));
        if has_key(joins, key) {
            let j = choose|j: int| 0 <= j < joins.len() && joins[j].0 == key;
        }
        assert(joined.get(key) == joined_kept.get(key));
        lemma_apply_leaves_at(joined, leaves, key);
        lemma_apply_leaves_at(joined_kept, leaves, key);
        if has_key(leaves, key) {
            let l = choose|l: int| 0 <= l < leaves.len() && leaves[l].0 == key;
        }
    }
    // The other keys are gone.
    assert forall|key: Seq<char>| !new_presences.contains_key(key) implies !#[trigger] result.contains_key(key) by {
        lemma_apply_joins_at(state, joins, key);
        lemma_apply_leaves_at(joined, leaves, key);
        assert(!has_key(joins, key)) by {
            if has_key(joins, key) {
                let j = choose|j: int| 0 <= j < joins.len() && joins[j].0 == key;
                let i = choose|i: int| 0 <= i < new_entries.len() && new_entries[i].0 == (#[trigger] sync_joins(kept, new_entries)[j]).0
                    && sync_joins(kept, new_entries)[j].1 == joined_part(kept, new_entries[i])
                    && (kept.contains_key(new_entries[i].0) ==> sync_joins(kept, new_entries)[j].1.len() > 0);
                assert(new_presences.contains_key(new_entries[i].0));
            }
        }
        assert(joined.get(key) == state.get(key));
        if state.contains_key(key) {
            let l = choose|l: int| 0 <= l < leaves.len() && #[trigger] leaves[l] == (key, state[key]);
            lemma_without_own_references(state[key]);
        } else if has_key(leaves, key) {
            let l = choose|l: int| 0 <= l < leaves.len() && leaves[l].0 == key;
        }
    }
    assert forall|key: Seq<char>| #[trigger] result.contains_key(key) implies new_presences.contains_key(key) by {}
    assert forall|key: Seq<char>, reference: Seq<char>|
        #[trigger] has_reference(metas_of(result, key), reference) <==> has_reference(
            metas_of(new_presences, key),
            reference,
        ) by {
        if new_presences.contains_key(key) {
            assert(result.get(key) == result_kept.get(key));
            assert(metas_of(result, key) == metas_of(result_kept, key));
        } else {
            assert(!result.contains_key(key));
        }
    }
}

/// The join references of a key's presence after `joined` joined it.
proof fn lemma_merge_join_references(joined: Seq<MetaView>, current: Option<Seq<MetaView>>, reference: Seq<char>)
    ensures
        has_reference(merge_join(joined, current), reference) <==> (has_reference(joined, reference) || match current {
            Some(c) => has_reference(c, reference),
            None => false,
        }),
{
    if let Some(c) = current {
        lemma_has_reference_add(joined, metas_without(c, join_references(joined)), reference);
        lemma_has_reference_without(c, join_references(joined), reference);
    }
}

/// A presence diff adds the connections that joined and takes out those
/// that left: afterwards a key has a join reference exactly when it had it
/// before or the diff joined it, and the diff did not make it leave.
pub proof fn lemma_diff_moves_connections(
    old: PresenceByKey,
    joined: PresenceByKey,
    left: PresenceByKey,
    key: Seq<char>,
    reference: Seq<char>,
)
    requires
        old.wf(),
        joined.wf(),
        left.wf(),
    ensures
        ({
            let result = apply_leaves(apply_joins(old.presences(), joined.entries()), left.entries());
            has_reference(metas_of(result, key), reference) <==> ((has_reference(
                metas_of(old.presences(), key),
                reference,
            ) || has_reference(metas_of(joined.presences(), key), reference)) && !has_reference(
                metas_of(left.presences(), key),
                reference,
            ))
        }),
{
    lemma_entries_agree(old);
    lemma_entries_agree(joined);
    lemma_entries_agree(left);
    let s0 = old.presences();
    let js = joined.entries();
    let ls = left.entries();
    let mid = apply_joins(s0, js);
    let result = apply_leaves(mid, ls);
    lemma_apply_joins_at(s0, js, key);
    lemma_apply_leaves_at(mid, ls, key);
    // The key's metas after the joins.
    assert(has_reference(metas_of(mid, key), reference) <==> (has_reference(metas_of(s0, key), reference)
        || has_reference(metas_of(joined.presences(), key), reference))) by {
        if has_key(js, key) {
            let i = choose|i: int| 0 <= i < js.len() && js[i].0 == key;
            assert(mid.get(key) == Some(merge_join(js[i].1, s0.get(key))));
            lemma_merge_join_references(js[i].1, s0.get(key), reference);
        } else {
            assert(!joined.presences().contains_key(key));
            assert(mid.get(key) == s0.get(key));
        }
    }
    // The key's metas after the leaves.
    if has_key(ls, key) {
        let i = choose|i: int| 0 <= i < ls.len() && ls[i].0 == key;
        assert(ls[i].1 == left.presences()[key]);
        if mid.contains_key(key) {
            let remaining = metas_without(mid[key], join_references(ls[i].1));
            lemma_has_reference_without(mid[key], join_references(ls[i].1), reference);
            if remaining.len() == 0 {
                assert(!has_reference(remaining, reference));
            }
        }
    } else {
        assert(!left.presences().contains_key(key));
        assert(result.get(key) == mid.get(key));
    }
}

} // verus!
