use vstd::prelude::*;

use crate::event::{Event, EventView};
use crate::json::{copy_object, view_entries, JSONView, JSON};
use crate::string_map::StringMap;
use crate::text::str_eq;

verus! {

broadcast use vstd::seq_lib::group_seq_properties;

/// One connection of a presence: the join reference that the server gave it
/// (`phx_ref`) and the other fields of its meta data.
#[derive(Debug)]
pub struct Meta {
    pub join_reference: String,
    pub others: Vec<(String, JSON)>,
}

pub struct MetaView {
    pub join_reference: Seq<char>,
    pub others: Seq<(Seq<char>, JSONView)>,
}

impl View for Meta {
    type V = MetaView;

    open spec fn view(&self) -> MetaView {
        MetaView {
            join_reference: self.join_reference@,
            others: view_entries(&self.others, self.others.len() as nat),
        }
    }
}

impl Meta {
    /// A copy of this meta.
    pub fn copy(&self) -> (r: Meta)
        ensures
            r@ == self@,
    {
        Meta { join_reference: self.join_reference.clone(), others: copy_object(&self.others) }
    }
}

/// A Presence tracks connections to a channel, such as users in a chat room.
#[derive(Debug)]
pub struct Presence {
    /// Meta data about this presence
    pub metas: Vec<Meta>,
}

/// The abstract value of a list of metas.
pub open spec fn metas_view(metas: Seq<Meta>) -> Seq<MetaView> {
    metas.map_values(|m: Meta| m@)
}

impl View for Presence {
    type V = Seq<MetaView>;

    open spec fn view(&self) -> Seq<MetaView> {
        metas_view(self.metas@)
    }
}

/// The join references of a list of metas, in order.
pub open spec fn join_references(metas: Seq<MetaView>) -> Seq<Seq<char>> {
    metas.map_values(|m: MetaView| m.join_reference)
}

/// The metas whose join reference is not among `references`, in order.
pub open spec fn metas_without(metas: Seq<MetaView>, references: Seq<Seq<char>>) -> Seq<MetaView> {
    metas.filter(|m: MetaView| !references.contains(m.join_reference))
}

/// Whether `s` is among `strings`.
fn contains_string(strings: &Vec<String>, s: &str) -> (r: bool)
    ensures
        r == strings@.map_values(|t: String| t@).contains(s@),
{
    let ghost views = strings@.map_values(|t: String| t@);
    let mut i: usize = 0;
    while i < strings.len()
        invariant
            0 <= i <= strings.len(),
            views == strings@.map_values(|t: String| t@),
            forall|j: int| 0 <= j < i ==> views[j] != s@,
        decreases strings.len() - i,
    {
        if str_eq(strings[i].as_str(), s) {
            assert(views[i as int] == s@);
            return true;
        }
        i = i + 1;
    }
    false
}

/// Copies of the metas whose join reference is not among `references`.
pub fn filter_metas(metas: &Vec<Meta>, references: &Vec<String>) -> (r: Vec<Meta>)
    ensures
        metas_view(r@) == metas_without(metas_view(metas@), references@.map_values(|t: String| t@)),
{
    let ghost refs = references@.map_values(|t: String| t@);
    let ghost pred = |m: MetaView| !refs.contains(m.join_reference);
    let mut kept: Vec<Meta> = Vec::new();
    let mut i: usize = 0;
    while i < metas.len()
        invariant
            0 <= i <= metas.len(),
            refs == references@.map_values(|t: String| t@),
            pred == (|m: MetaView| !refs.contains(m.join_reference)),
            metas_view(kept@) == metas_view(metas@).take(i as int).filter(pred),
        decreases metas.len() - i,
    {
        let ghost before = kept@;
        let keep = !contains_string(references, metas[i].join_reference.as_str());
        if keep {
            kept.push(metas[i].copy());
            assert(metas_view(kept@) =~= metas_view(before).push(metas[i as int]@));
        }
        proof {
            let all = metas_view(metas@);
            assert(all.take(i + 1) =~= all.take(i as int).push(all[i as int]));
            all.take(i as int).lemma_filter_push(all[i as int], pred);
        }
        i = i + 1;
    }
    assert(metas_view(metas@).take(metas.len() as int) =~= metas_view(metas@));
    kept
}

impl Presence {
    /// The join references of the metas, in order.
    pub fn join_references(&self) -> (r: Vec<String>)
        ensures
            r@.map_values(|t: String| t@) == join_references(self@),
    {
        let mut r: Vec<String> = Vec::new();
        let mut i: usize = 0;
        while i < self.metas.len()
            invariant
                0 <= i <= self.metas.len(),
                r@.len() == i,
                forall|j: int| 0 <= j < i ==> (#[trigger] r@[j])@ == self.metas@[j].join_reference@,
            decreases self.metas.len() - i,
        {
            r.push(self.metas[i].join_reference.clone());
            i = i + 1;
        }
        assert(r@.map_values(|t: String| t@) =~= join_references(self@));
        r
    }

    /// A copy of this presence.
    pub fn copy(&self) -> (r: Presence)
        ensures
            r@ == self@,
    {
        let mut metas: Vec<Meta> = Vec::new();
        let mut i: usize = 0;
        while i < self.metas.len()
            invariant
                0 <= i <= self.metas.len(),
                metas@.len() == i,
                forall|j: int| 0 <= j < i ==> (#[trigger] metas@[j])@ == self.metas@[j]@,
            decreases self.metas.len() - i,
        {
            metas.push(self.metas[i].copy());
            i = i + 1;
        }
        let r = Presence { metas };
        assert(r@ =~= self@);
        r
    }
}

/// A join of presence: the key, the key's presence before the join and its
/// presence after it.
#[derive(Debug)]
pub struct Join {
    pub key: String,
    pub current: Option<Presence>,
    pub joined: Presence,
}

pub struct JoinView {
    pub key: Seq<char>,
    pub current: Option<Seq<MetaView>>,
    pub joined: Seq<MetaView>,
}

impl View for Join {
    type V = JoinView;

    open spec fn view(&self) -> JoinView {
        JoinView {
            key: self.key@,
            current: match self.current {
                Some(p) => Some(p@),
                None => None,
            },
            joined: self.joined@,
        }
    }
}

/// A leave of presence: the key, the key's remaining presence and the
/// presence that left.
#[derive(Debug)]
pub struct Leave {
    pub key: String,
    pub current: Presence,
    pub left: Presence,
}

pub struct LeaveView {
    pub key: Seq<char>,
    pub current: Seq<MetaView>,
    pub left: Seq<MetaView>,
}

impl View for Leave {
    type V = LeaveView;

    open spec fn view(&self) -> LeaveView {
        LeaveView { key: self.key@, current: self.current@, left: self.left@ }
    }
}

/// The joins and leaves that a change of presence state announces, in order.
#[derive(Debug)]
pub struct PresenceChanges {
    pub joins: Vec<Join>,
    pub leaves: Vec<Leave>,
}

pub open spec fn join_views(joins: Seq<Join>) -> Seq<JoinView> {
    joins.map_values(|j: Join| j@)
}

pub open spec fn leave_views(leaves: Seq<Leave>) -> Seq<LeaveView> {
    leaves.map_values(|l: Leave| l@)
}

/// The presence of a key after `joined` joins it: the joined metas, followed
/// by those current metas that were not joined again.
pub open spec fn merge_join(joined: Seq<MetaView>, current: Option<Seq<MetaView>>) -> Seq<MetaView> {
    match current {
        None => joined,
        Some(current) => joined + metas_without(current, join_references(joined)),
    }
}

/// The presences after applying the joins in order.
pub open spec fn apply_joins(
    state: Map<Seq<char>, Seq<MetaView>>,
    joins: Seq<(Seq<char>, Seq<MetaView>)>,
) -> Map<Seq<char>, Seq<MetaView>>
    decreases joins.len(),
{
    if joins.len() == 0 {
        state
    } else {
        let before = apply_joins(state, joins.drop_last());
        let (key, joined) = joins.last();
        before.insert(key, merge_join(joined, before.get(key)))
    }
}

/// The join events that applying the joins in order announces.
pub open spec fn join_events(
    state: Map<Seq<char>, Seq<MetaView>>,
    joins: Seq<(Seq<char>, Seq<MetaView>)>,
) -> Seq<JoinView>
    decreases joins.len(),
{
    if joins.len() == 0 {
        Seq::empty()
    } else {
        let before = apply_joins(state, joins.drop_last());
        let (key, joined) = joins.last();
        join_events(state, joins.drop_last()).push(
            JoinView { key, current: before.get(key), joined: merge_join(joined, before.get(key)) },
        )
    }
}

/// The presences after applying the leaves in order: the metas that left are
/// taken out of their key's presence, and a key whose presence becomes empty
/// is removed.  A leave for a key without presence changes nothing.
pub open spec fn apply_leaves(
    state: Map<Seq<char>, Seq<MetaView>>,
    leaves: Seq<(Seq<char>, Seq<MetaView>)>,
) -> Map<Seq<char>, Seq<MetaView>>
    decreases leaves.len(),
{
    if leaves.len() == 0 {
        state
    } else {
        let before = apply_leaves(state, leaves.drop_last());
        let (key, left) = leaves.last();
        if before.contains_key(key) {
            let remaining = metas_without(before[key], join_references(left));
            if remaining.len() == 0 {
                before.remove(key)
            } else {
                before.insert(key, remaining)
            }
        } else {
            before
        }
    }
}

/// The leave events that applying the leaves in order announces: one for
/// each leave of a key that has presence.
pub open spec fn leave_events(
    state: Map<Seq<char>, Seq<MetaView>>,
    leaves: Seq<(Seq<char>, Seq<MetaView>)>,
) -> Seq<LeaveView>
    decreases leaves.len(),
{
    if leaves.len() == 0 {
        Seq::empty()
    } else {
        let before = apply_leaves(state, leaves.drop_last());
        let (key, left) = leaves.last();
        if before.contains_key(key) {
            leave_events(state, leaves.drop_last()).push(
                LeaveView {
                    key,
                    current: metas_without(before[key], join_references(left)),
                    left,
                },
            )
        } else {
            leave_events(state, leaves.drop_last())
        }
    }
}

/// The entries of keys that are no longer present in `new`, in order.
pub open spec fn vanished(
    entries: Seq<(Seq<char>, Seq<MetaView>)>,
    new: Map<Seq<char>, Seq<MetaView>>,
) -> Seq<(Seq<char>, Seq<MetaView>)> {
    entries.filter(|e: (Seq<char>, Seq<MetaView>)| !new.contains_key(e.0))
}

/// The joins that bring `state` to the new presence state `new_entries`: for
/// a key with presence, its new metas whose join reference it lacks (if any);
/// for a key without presence, all its new metas.
pub open spec fn sync_joins(
    state: Map<Seq<char>, Seq<MetaView>>,
    new_entries: Seq<(Seq<char>, Seq<MetaView>)>,
) -> Seq<(Seq<char>, Seq<MetaView>)>
    decreases new_entries.len(),
{
    if new_entries.len() == 0 {
        Seq::empty()
    } else {
        let rest = sync_joins(state, new_entries.drop_last());
        let (key, new) = new_entries.last();
        if state.contains_key(key) {
            let joined = metas_without(new, join_references(state[key]));
            if joined.len() > 0 {
                rest.push((key, joined))
            } else {
                rest
            }
        } else {
            rest.push((key, new))
        }
    }
}

/// The leaves that bring `state` to the new presence state `new_entries`: for
/// a key with presence, its current metas whose join reference the new state
/// lacks (if any).
pub open spec fn sync_leaves(
    state: Map<Seq<char>, Seq<MetaView>>,
    new_entries: Seq<(Seq<char>, Seq<MetaView>)>,
) -> Seq<(Seq<char>, Seq<MetaView>)>
    decreases new_entries.len(),
{
    if new_entries.len() == 0 {
        Seq::empty()
    } else {
        let rest = sync_leaves(state, new_entries.drop_last());
        let (key, new) = new_entries.last();
        if state.contains_key(key) {
            let left = metas_without(state[key], join_references(new));
            if left.len() > 0 {
                rest.push((key, left))
            } else {
                rest
            }
        } else {
            rest
        }
    }
}

/// The presences of a channel by key.
#[derive(Debug)]
pub struct PresenceByKey {
    pub map: StringMap<Presence>,
}

/// The abstract value of keyed presence entries, in order.
pub open spec fn entries_view(entries: Seq<(String, Presence)>) -> Seq<(Seq<char>, Seq<MetaView>)> {
    entries.map_values(|e: (String, Presence)| (e.0@, e.1@))
}

impl PresenceByKey {
    pub open spec fn wf(&self) -> bool {
        self.map.wf()
    }

    /// The presence of each key.
    pub open spec fn presences(&self) -> Map<Seq<char>, Seq<MetaView>> {
        self.map.map().map_values(|p: Presence| p@)
    }

    /// The entries in order.
    pub open spec fn entries(&self) -> Seq<(Seq<char>, Seq<MetaView>)> {
        entries_view(self.map.entries())
    }

    /// No presences.
    pub fn new() -> (r: PresenceByKey)
        ensures
            r.wf(),
            r.presences() == Map::<Seq<char>, Seq<MetaView>>::empty(),
            r.entries() == Seq::<(Seq<char>, Seq<MetaView>)>::empty(),
    {
        let r = PresenceByKey { map: StringMap::new() };
        assert(r.presences() =~= Map::<Seq<char>, Seq<MetaView>>::empty());
        assert(r.entries() =~= Seq::<(Seq<char>, Seq<MetaView>)>::empty());
        r
    }

    /// Copies of the presences, in entry order.
    pub fn list(&self) -> (r: Vec<Presence>)
        requires
            self.wf(),
        ensures
            r@.len() == self.entries().len(),
            forall|i: int| 0 <= i < r@.len() ==> (#[trigger] r@[i])@ == self.entries()[i].1,
    {
        let entries = self.map.as_entries();
        let mut r: Vec<Presence> = Vec::new();
        let mut i: usize = 0;
        while i < entries.len()
            invariant
                0 <= i <= entries.len(),
                entries@ == self.map.entries(),
                r@.len() == i,
                forall|j: int| 0 <= j < i ==> (#[trigger] r@[j])@ == entries@[j].1@,
            decreases entries.len() - i,
        {
            r.push(entries[i].1.copy());
            i = i + 1;
        }
        r
    }

    /// Applies the joins and then the leaves of a presence diff, and returns
    /// the join and leave events to announce.
    pub fn sync_diff(&mut self, joined: PresenceByKey, left: PresenceByKey) -> (changes: PresenceChanges)
        requires
            old(self).wf(),
            joined.wf(),
            left.wf(),
        ensures
            final(self).wf(),
            final(self).presences() == apply_leaves(
                apply_joins(old(self).presences(), joined.entries()),
                left.entries(),
            ),
            join_views(changes.joins@) == join_events(old(self).presences(), joined.entries()),
            leave_views(changes.leaves@) == leave_events(
                apply_joins(old(self).presences(), joined.entries()),
                left.entries(),
            ),
    {
        let ghost start = self.presences();
        let ghost js = joined.entries();
        let ghost ls = left.entries();
        let joined_entries = joined.map.into_entries();
        let mut joins: Vec<Join> = Vec::new();
        let mut i: usize = 0;
        while i < joined_entries.len()
            invariant
                0 <= i <= joined_entries.len(),
                js == entries_view(joined_entries@),
                self.wf(),
                self.presences() == apply_joins(start, js.take(i as int)),
                join_views(joins@) == join_events(start, js.take(i as int)),
            decreases joined_entries.len() - i,
        {
            let key = &joined_entries[i].0;
            let joined_presence = &joined_entries[i].1;
            let ghost before = self.presences();
            let current: Option<Presence> = match self.map.get(key.as_str()) {
                Some(p) => Some(p.copy()),
                None => None,
            };
            let mut merged = joined_presence.copy();
            let ghost joined_view = merged@;
            if let Some(c) = &current {
                let references = merged.join_references();
                let mut kept = filter_metas(&c.metas, &references);
                merged.metas.append(&mut kept);
                assert(merged@ =~= joined_view + metas_without(c@, join_references(joined_view)));
            }
            let stored = merged.copy();
            let _ = self.map.insert(key.clone(), stored);
            let ghost current_view: Option<Seq<MetaView>> = match &current {
                Some(p) => Some(p@),
                None => None,
            };
            assert(current_view == before.get(key@));
            joins.push(Join { key: key.clone(), current, joined: merged });
            proof {
                assert(js.take(i + 1).drop_last() =~= js.take(i as int));
                assert(js.take(i + 1).last() == (key@, joined_view));
                assert(self.presences() =~= before.insert(key@, merge_join(joined_view, before.get(key@))));
                assert(join_views(joins@) =~= join_events(start, js.take(i as int)).push(
                    JoinView {
                        key: key@,
                        current: before.get(key@),
                        joined: merge_join(joined_view, before.get(key@)),
                    },
                ));
            }
            i = i + 1;
        }
        assert(js.take(joined_entries.len() as int) =~= js);
        let ghost middle = self.presences();
        let left_entries = left.map.into_entries();
        let mut leaves: Vec<Leave> = Vec::new();
        let mut i: usize = 0;
        while i < left_entries.len()
            invariant
                0 <= i <= left_entries.len(),
                ls == entries_view(left_entries@),
                self.wf(),
                self.presences() == apply_leaves(middle, ls.take(i as int)),
                leave_views(leaves@) == leave_events(middle, ls.take(i as int)),
            decreases left_entries.len() - i,
        {
            let key = &left_entries[i].0;
            let left_presence = &left_entries[i].1;
            let ghost before = self.presences();
            proof {
                assert(ls.take(i + 1).drop_last() =~= ls.take(i as int));
                assert(ls.take(i + 1).last() == (key@, left_presence@));
            }
            match self.map.remove(key.as_str()) {
                Some(current) => {
                    let references = left_presence.join_references();
                    let remaining = filter_metas(&current.metas, &references);
                    let announced = filter_metas(&current.metas, &references);
                    let ghost remaining_view = metas_without(current@, join_references(left_presence@));
                    leaves.push(Leave {
                        key: key.clone(),
                        current: Presence { metas: announced },
                        left: left_presence.copy(),
                    });
                    if remaining.len() > 0 {
                        let _ = self.map.insert(key.clone(), Presence { metas: remaining });
                        assert(self.presences() =~= before.insert(key@, remaining_view));
                    } else {
                        assert(self.presences() =~= before.remove(key@));
                    }
                    assert(leave_views(leaves@) =~= leave_events(middle, ls.take(i as int)).push(
                        LeaveView { key: key@, current: remaining_view, left: left_presence@ },
                    ));
                },
                None => {
                    assert(self.presences() =~= before);
                },
            }
            i = i + 1;
        }
        assert(ls.take(left_entries.len() as int) =~= ls);
        PresenceChanges { joins, leaves }
    }
}

impl PresenceByKey {
    /// Replaces the presence state with `new`, a full presence state from the
    /// server, as a diff (see [Self::sync_diff]): each key that vanished
    /// leaves with all its metas, and the differences of the others join and
    /// leave.
    pub fn sync(&mut self, new: PresenceByKey) -> (changes: PresenceChanges)
        requires
            old(self).wf(),
            new.wf(),
        ensures
            final(self).wf(),
            ({
                let state = old(self).presences();
                let joins = sync_joins(state, new.entries());
                let leaves = vanished(old(self).entries(), new.presences()) + sync_leaves(
                    state,
                    new.entries(),
                );
                &&& final(self).presences() == apply_leaves(apply_joins(state, joins), leaves)
                &&& join_views(changes.joins@) == join_events(state, joins)
                &&& leave_views(changes.leaves@) == leave_events(apply_joins(state, joins), leaves)
            }),
    {
        let ghost old_presences = self.presences();
        let ghost old_entries = self.entries();
        let ghost new_presences = new.presences();
        let ghost new_entries = new.entries();
        let ghost pred = |e: (Seq<char>, Seq<MetaView>)| !new_presences.contains_key(e.0);
        let mut old_map: StringMap<Presence> = StringMap::new();
        std::mem::swap(&mut self.map, &mut old_map);
        proof {
            crate::string_map::lemma_map_of(old_map.entries());
            crate::string_map::lemma_map_of(new.map.entries());
        }
        let old_vec = old_map.into_entries();
        let mut kept = PresenceByKey::new();
        let mut left = PresenceByKey::new();
        let mut i: usize = 0;
        while i < old_vec.len()
            invariant
                0 <= i <= old_vec.len(),
                old_entries == entries_view(old_vec@),
                crate::string_map::distinct_keys(old_vec@),
                old_presences == crate::string_map::map_of(old_vec@).map_values(|p: Presence| p@),
                forall|j: int| 0 <= j < old_vec@.len() ==> crate::string_map::map_of(old_vec@)[#[trigger] old_vec@[j].0@] == old_vec@[j].1
                    && crate::string_map::map_of(old_vec@).dom().contains(old_vec@[j].0@),
                new.wf(),
                new_presences == new.presences(),
                pred == (|e: (Seq<char>, Seq<MetaView>)| !new_presences.contains_key(e.0)),
                kept.wf(),
                left.wf(),
                forall|k: Seq<char>| #[trigger] kept.presences().contains_key(k) <==> exists|j: int| 0 <= j < i && old_vec@[j].0@ == k,
                forall|k: Seq<char>| #[trigger] kept.presences().contains_key(k) ==> kept.presences()[k] == old_presences[k],
                forall|k: Seq<char>| #[trigger] left.presences().contains_key(k) ==> exists|j: int| 0 <= j < i && old_vec@[j].0@ == k,
                forall|k: Seq<char>| #[trigger] left.presences().contains_key(k) ==> !new_presences.contains_key(k),
                left.entries() == old_entries.take(i as int).filter(pred),
            decreases old_vec.len() - i,
        {
            let key = &old_vec[i].0;
            let presence = &old_vec[i].1;
            assert(old_entries[i as int] == (key@, presence@));
            assert(old_presences.contains_key(key@) && old_presences[key@] == presence@);
            if new.map.contains_key(key.as_str()) {
                let ghost before = kept.presences();
                let _ = kept.map.insert(key.clone(), presence.copy());
                assert(kept.presences() =~= before.insert(key@, presence@));
                assert forall|k: Seq<char>| #[trigger] kept.presences().contains_key(k) <==> exists|j: int| 0 <= j < i + 1 && old_vec@[j].0@ == k by {
                    if k == key@ {
                        assert(old_vec@[i as int].0@ == k);
                    }
                    if exists|j: int| 0 <= j < i + 1 && old_vec@[j].0@ == k {
                        let j = choose|j: int| 0 <= j < i + 1 && old_vec@[j].0@ == k;
                        if j < i {
                            assert(exists|j: int| 0 <= j < i && old_vec@[j].0@ == k);
                        }
                    }
                }
                assert forall|k: Seq<char>| #[trigger] left.presences().contains_key(k) implies exists|j: int| 0 <= j < i + 1 && old_vec@[j].0@ == k by {
                    let j = choose|j: int| 0 <= j < i && old_vec@[j].0@ == k;
                    assert(0 <= j < i + 1 && old_vec@[j].0@ == k);
                }
                proof {
                    assert(old_entries.take(i + 1) =~= old_entries.take(i as int).push(old_entries[i as int]));
                    old_entries.take(i as int).lemma_filter_push(old_entries[i as int], pred);
                }
            } else {
                let ghost before_kept = kept.presences();
                assert(!kept.presences().contains_key(key@)) by {
                    if kept.presences().contains_key(key@) {
                        let j = choose|j: int| 0 <= j < i && old_vec@[j].0@ == key@;
                        assert(old_vec@[j].0@ != old_vec@[i as int].0@);
                    }
                }
                let _ = kept.map.insert(key.clone(), presence.copy());
                assert(kept.presences() =~= before_kept.insert(key@, presence@));
                let ghost before = left.presences();
                let ghost before_entries = left.entries();
                assert(!left.presences().contains_key(key@)) by {
                    if left.presences().contains_key(key@) {
                        let j = choose|j: int| 0 <= j < i && old_vec@[j].0@ == key@;
                        assert(old_vec@[j].0@ != old_vec@[i as int].0@);
                    }
                }
                let _ = left.map.insert(key.clone(), presence.copy());
                assert(left.entries() =~= before_entries.push((key@, presence@)));
                assert(left.presences() =~= before.insert(key@, presence@));
                assert(!new_presences.contains_key(key@));
                assert forall|k: Seq<char>| #[trigger] left.presences().contains_key(k) implies exists|j: int| 0 <= j < i + 1 && old_vec@[j].0@ == k by {
                    if k == key@ {
                        assert(old_vec@[i as int].0@ == k);
                    } else {
                        assert(before.contains_key(k));
                        let j = choose|j: int| 0 <= j < i && old_vec@[j].0@ == k;
                        assert(0 <= j < i + 1 && old_vec@[j].0@ == k);
                    }
                }
                assert forall|k: Seq<char>| #[trigger] kept.presences().contains_key(k) <==> exists|j: int| 0 <= j < i + 1 && old_vec@[j].0@ == k by {
                    if k == key@ {
                        assert(old_vec@[i as int].0@ == k);
                    }
                    if exists|j: int| 0 <= j < i + 1 && old_vec@[j].0@ == k {
                        let j = choose|j: int| 0 <= j < i + 1 && old_vec@[j].0@ == k;
                        if j < i {
                            assert(exists|j: int| 0 <= j < i && old_vec@[j].0@ == k);
                        }
                    }
                }
                proof {
                    assert(old_entries.take(i + 1) =~= old_entries.take(i as int).push(old_entries[i as int]));
                    old_entries.take(i as int).lemma_filter_push(old_entries[i as int], pred);
                }
            }
            i = i + 1;
        }
        assert(old_entries.take(old_vec.len() as int) =~= old_entries);
        let ghost kept_presences = kept.presences();
        assert(kept_presences =~= old_presences) by {
            assert forall|k: Seq<char>| #[trigger] kept_presences.contains_key(k) <==> old_presences.contains_key(k) by {
                if old_presences.contains_key(k) {
                    let j = choose|j: int| 0 <= j < old_vec@.len() && old_vec@[j].0@ == k;
                    assert(exists|j: int| 0 <= j < old_vec@.len() && old_vec@[j].0@ == k);
                }
            }
        }
        let ghost vanished_entries = left.entries();
        let new_vec = new.map.into_entries();
        let mut joined = PresenceByKey::new();
        let mut i: usize = 0;
        while i < new_vec.len()
            invariant
                0 <= i <= new_vec.len(),
                new_entries == entries_view(new_vec@),
                crate::string_map::distinct_keys(new_vec@),
                forall|k: Seq<char>| #[trigger] new_presences.contains_key(k) <==> exists|j: int| 0 <= j < new_vec@.len() && new_vec@[j].0@ == k,
                kept.wf(),
                kept.presences() == kept_presences,
                joined.wf(),
                left.wf(),
                joined.entries() == sync_joins(kept_presences, new_entries.take(i as int)),
                left.entries() == vanished_entries + sync_leaves(kept_presences, new_entries.take(i as int)),
                forall|k: Seq<char>| #[trigger] joined.presences().contains_key(k) ==> exists|j: int| 0 <= j < i && new_vec@[j].0@ == k,
                forall|k: Seq<char>| #[trigger] left.presences().contains_key(k) ==> !new_presences.contains_key(k) || exists|j: int| 0 <= j < i && new_vec@[j].0@ == k,
            decreases new_vec.len() - i,
        {
            let key = &new_vec[i].0;
            let new_presence = &new_vec[i].1;
            let ghost k = key@;
            assert(new_entries[i as int] == (key@, new_presence@));
            assert(new_presences.contains_key(k)) by {
                assert(new_vec@[i as int].0@ == k);
            }
            assert forall|j: int| 0 <= j < i implies new_vec@[j].0@ != k by {
                assert(new_vec@[j].0@ != new_vec@[i as int].0@);
            }
            let ghost joined_before = joined.entries();
            let ghost left_before = left.entries();
            let ghost jp = joined.presences();
            let ghost lp = left.presences();
            assert(!jp.contains_key(k));
            assert(!lp.contains_key(k));
            proof {
                assert(new_entries.take(i + 1).drop_last() =~= new_entries.take(i as int));
                assert(new_entries.take(i + 1).last() == (key@, new_presence@));
            }
            match kept.map.get(key.as_str()) {
                Some(current) => {
                    let current_references = current.join_references();
                    let new_references = new_presence.join_references();
                    let joined_metas = filter_metas(&new_presence.metas, &current_references);
                    let left_metas = filter_metas(&current.metas, &new_references);
                    if joined_metas.len() > 0 {
                        let _ = joined.map.insert(key.clone(), Presence { metas: joined_metas });
                    }
                    if left_metas.len() > 0 {
                        let _ = left.map.insert(key.clone(), Presence { metas: left_metas });
                        assert(left.entries() =~= left_before.push((k, metas_without(current@, join_references(new_presence@)))));
                    }
                },
                None => {
                    let _ = joined.map.insert(key.clone(), new_presence.copy());
                },
            }
            assert forall|kk: Seq<char>| #[trigger] joined.presences().contains_key(kk) implies exists|j: int| 0 <= j < i + 1 && new_vec@[j].0@ == kk by {
                if kk == k {
                    assert(new_vec@[i as int].0@ == kk);
                } else {
                    assert(jp.contains_key(kk));
                    let j = choose|j: int| 0 <= j < i && new_vec@[j].0@ == kk;
                    assert(0 <= j < i + 1 && new_vec@[j].0@ == kk);
                }
            }
            assert forall|kk: Seq<char>| #[trigger] left.presences().contains_key(kk) implies !new_presences.contains_key(kk) || exists|j: int| 0 <= j < i + 1 && new_vec@[j].0@ == kk by {
                if kk == k {
                    assert(new_vec@[i as int].0@ == kk);
                } else if new_presences.contains_key(kk) {
                    assert(lp.contains_key(kk));
                    let j = choose|j: int| 0 <= j < i && new_vec@[j].0@ == kk;
                    assert(0 <= j < i + 1 && new_vec@[j].0@ == kk);
                }
            }
            assert(left.entries() =~= vanished_entries + sync_leaves(kept_presences, new_entries.take(i + 1)));
            i = i + 1;
        }
        assert(new_entries.take(new_vec.len() as int) =~= new_entries);
        self.map = kept.map;
        self.sync_diff(joined, left)
    }
}

/// What a channel event means for the presences of the channel.
#[derive(Clone, Copy, Debug, PartialEq, Eq, Structural)]
pub enum PresenceEvent {
    /// `presence_state`: the full state of the presences.
    State,
    /// `presence_diff`: the joins and leaves since the last state.
    Diff,
    /// Any other event, which the presences ignore.
    Other,
}

/// The meaning of a channel event for the presences: only the user events
/// `presence_state` and `presence_diff` concern them.
pub open spec fn presence_event_spec(event: EventView) -> PresenceEvent {
    match event {
        EventView::User(name) => if name == "presence_state"@ {
            PresenceEvent::State
        } else if name == "presence_diff"@ {
            PresenceEvent::Diff
        } else {
            PresenceEvent::Other
        },
        EventView::Phoenix(_) => PresenceEvent::Other,
    }
}

/// The meaning of a channel event for the presences.
pub fn presence_event(event: &Event) -> (kind: PresenceEvent)
    ensures
        kind == presence_event_spec(event@),
{
    match event {
        Event::Phoenix { .. } => PresenceEvent::Other,
        Event::User { user } => {
            if str_eq(user.as_str(), "presence_state") {
                PresenceEvent::State
            } else if str_eq(user.as_str(), "presence_diff") {
                PresenceEvent::Diff
            } else {
                PresenceEvent::Other
            }
        },
    }
}

} // verus!
