use vstd::prelude::*;

use crate::decode::object_get;
use crate::json::{lemma_array_view, lemma_object_view, view_entries, JSONView, JSON};
use crate::message::{Payload, PayloadView};
use crate::presence::{metas_view, Meta, MetaView, Presence, PresenceByKey};
use crate::string_map::StringMap;
use crate::text::str_eq;

verus! {

/// Why a payload holds no presence state or diff.
#[derive(Clone, Copy, Debug, PartialEq, Eq, Structural)]
pub enum PresencePayloadError {
    /// The payload is binary instead of JSON.
    Binary,
    /// The JSON payload is not in the expected form.
    Json,
}

/// The entries of an object without those of `key`, in order.
pub open spec fn drop_key(entries: Seq<(Seq<char>, JSONView)>, key: Seq<char>) -> Seq<(Seq<char>, JSONView)>
    decreases entries.len(),
{
    if entries.len() == 0 {
        Seq::empty()
    } else {
        let rest = drop_key(entries.drop_last(), key);
        if entries.last().0 == key {
            rest
        } else {
            rest.push(entries.last())
        }
    }
}

/// A meta: an object with the string `phx_ref`, the join reference; its
/// other entries are the meta's data.
pub open spec fn meta_of(json: JSONView) -> Option<MetaView> {
    match json {
        JSONView::Object(entries) => match object_get(entries, "phx_ref"@) {
            Some(JSONView::Str(join_reference)) => Some(
                MetaView { join_reference, others: drop_key(entries, "phx_ref"@) },
            ),
            _ => None,
        },
        _ => None,
    }
}

/// A list of metas: every item is a meta.
pub open spec fn metas_of(items: Seq<JSONView>) -> Option<Seq<MetaView>>
    decreases items.len(),
{
    if items.len() == 0 {
        Some(Seq::empty())
    } else {
        match (metas_of(items.drop_last()), meta_of(items.last())) {
            (Some(metas), Some(meta)) => Some(metas.push(meta)),
            _ => None,
        }
    }
}

/// A presence: an object whose `metas` is an array of metas; other entries
/// are ignored.
pub open spec fn presence_of(json: JSONView) -> Option<Seq<MetaView>> {
    match json {
        JSONView::Object(entries) => match object_get(entries, "metas"@) {
            Some(JSONView::Array(items)) => metas_of(items),
            _ => None,
        },
        _ => None,
    }
}

/// Presences by key: every entry's value is a presence; a later entry of a
/// key replaces an earlier one.
pub open spec fn presences_of(entries: Seq<(Seq<char>, JSONView)>) -> Option<Map<Seq<char>, Seq<MetaView>>>
    decreases entries.len(),
{
    if entries.len() == 0 {
        Some(Map::empty())
    } else {
        match (presences_of(entries.drop_last()), presence_of(entries.last().1)) {
            (Some(presences), Some(presence)) => Some(presences.insert(entries.last().0, presence)),
            _ => None,
        }
    }
}

/// A presence state: an object of presences by key.
pub open spec fn state_of(json: JSONView) -> Option<Map<Seq<char>, Seq<MetaView>>> {
    match json {
        JSONView::Object(entries) => presences_of(entries),
        _ => None,
    }
}

/// A presence diff: an object whose `joins` and `leaves` are objects of
/// presences by key; other entries are ignored.
pub open spec fn diff_of(json: JSONView) -> Option<(Map<Seq<char>, Seq<MetaView>>, Map<Seq<char>, Seq<MetaView>>)> {
    match json {
        JSONView::Object(entries) => match (object_get(entries, "joins"@), object_get(entries, "leaves"@)) {
            (Some(JSONView::Object(joins)), Some(JSONView::Object(leaves))) => match (
                presences_of(joins),
                presences_of(leaves),
            ) {
                (Some(joined), Some(left)) => Some((joined, left)),
                _ => None,
            },
            _ => None,
        },
        _ => None,
    }
}

/// A list with an item that is no meta is no list of metas.
proof fn lemma_metas_of_prefix(items: Seq<JSONView>, k: int)
    requires
        0 <= k <= items.len(),
        metas_of(items.take(k)) is None,
    ensures
        metas_of(items) is None,
    decreases items.len(),
{
    if k == items.len() {
        assert(items.take(k) =~= items);
    } else {
        assert(items.drop_last().take(k) =~= items.take(k));
        lemma_metas_of_prefix(items.drop_last(), k);
    }
}

/// Entries with a value that is no presence are no presences by key.
proof fn lemma_presences_of_prefix(entries: Seq<(Seq<char>, JSONView)>, k: int)
    requires
        0 <= k <= entries.len(),
        presences_of(entries.take(k)) is None,
    ensures
        presences_of(entries) is None,
    decreases entries.len(),
{
    if k == entries.len() {
        assert(entries.take(k) =~= entries);
    } else {
        assert(entries.drop_last().take(k) =~= entries.take(k));
        lemma_presences_of_prefix(entries.drop_last(), k);
    }
}

/// The value of the last entry of `object` with `key`.
fn object_lookup<'a>(object: &'a Vec<(String, JSON)>, key: &str) -> (r: Option<&'a JSON>)
    ensures
        match r {
            Some(v) => object_get(view_entries(object, object.len() as nat), key@) == Some(v@),
            None => object_get(view_entries(object, object.len() as nat), key@) is None,
        },
{
    proof {
        lemma_object_view(object);
    }
    let ghost entries = view_entries(object, object.len() as nat);
    assert(entries.take(object.len() as int) =~= entries);
    let mut i: usize = object.len();
    while i > 0
        invariant
            0 <= i <= object.len(),
            entries == view_entries(object, object.len() as nat),
            entries.len() == object.len(),
            forall|j: int| 0 <= j < object.len() ==> #[trigger] entries[j] == (object[j].0@, object[j].1@),
            object_get(entries, key@) == object_get(entries.take(i as int), key@),
        decreases i,
    {
        assert(entries.take(i as int).drop_last() =~= entries.take(i - 1));
        if str_eq(object[i - 1].0.as_str(), key) {
            return Some(&object[i - 1].1);
        }
        i = i - 1;
    }
    assert(entries.take(0) =~= Seq::<(Seq<char>, JSONView)>::empty());
    None
}

/// The meta that `json` holds.
fn meta_from_json(json: &JSON) -> (r: Option<Meta>)
    ensures
        match r {
            Some(meta) => meta_of(json@) == Some(meta@),
            None => meta_of(json@) is None,
        },
{
    match json {
        JSON::Object { object } => {
            let join_reference = match object_lookup(object, "phx_ref") {
                Some(JSON::Str { string }) => string.clone(),
                _ => return None,
            };
            proof {
                lemma_object_view(object);
            }
            let ghost entries = view_entries(object, object.len() as nat);
            let mut others: Vec<(String, JSON)> = Vec::new();
            let mut i: usize = 0;
            while i < object.len()
                invariant
                    0 <= i <= object.len(),
                    entries == view_entries(object, object.len() as nat),
                    entries.len() == object.len(),
                    forall|j: int| 0 <= j < object.len() ==> #[trigger] entries[j] == (object[j].0@, object[j].1@),
                    view_entries(&others, others.len() as nat) == drop_key(entries.take(i as int), "phx_ref"@),
                decreases object.len() - i,
            {
                assert(entries.take(i + 1).drop_last() =~= entries.take(i as int));
                if !str_eq(object[i].0.as_str(), "phx_ref") {
                    proof {
                        lemma_object_view(&others);
                    }
                    let ghost before_vec = others@;
                    let ghost before = view_entries(&others, others.len() as nat);
                    let key = object[i].0.clone();
                    let value = object[i].1.copy();
                    others.push((key, value));
                    proof {
                        lemma_object_view(&others);
                        assert forall|j: int| 0 <= j < others.len() implies #[trigger] view_entries(
                            &others,
                            others.len() as nat,
                        )[j] == before.push(entries[i as int])[j] by {
                            if j < before.len() {
                                assert(others@[j] == before_vec[j]);
                            }
                        }
                        assert(view_entries(&others, others.len() as nat) =~= before.push(entries[i as int]));
                    }
                }
                i = i + 1;
            }
            assert(entries.take(object.len() as int) =~= entries);
            Some(Meta { join_reference, others })
        },
        _ => None,
    }
}

/// The presence that `json` holds.
fn presence_from_json(json: &JSON) -> (r: Option<Presence>)
    ensures
        match r {
            Some(presence) => presence_of(json@) == Some(presence@),
            None => presence_of(json@) is None,
        },
{
    match json {
        JSON::Object { object } => match object_lookup(object, "metas") {
            Some(JSON::Array { array }) => {
                proof {
                    lemma_array_view(array);
                }
                let ghost items = crate::json::view_elements(array, array.len() as nat);
                assert(object_get(view_entries(object, object.len() as nat), "metas"@) == Some(JSONView::Array(items)));
                assert(json@ == JSONView::Object(view_entries(object, object.len() as nat)));
                let mut metas: Vec<Meta> = Vec::new();
                let mut i: usize = 0;
                while i < array.len()
                    invariant
                        0 <= i <= array.len(),
                        items == crate::json::view_elements(array, array.len() as nat),
                        items.len() == array.len(),
                        forall|j: int| 0 <= j < array.len() ==> #[trigger] items[j] == array[j]@,
                        metas_of(items.take(i as int)) == Some(metas_view(metas@)),
                        object_get(view_entries(object, object.len() as nat), "metas"@) == Some(JSONView::Array(items)),
                        json@ == JSONView::Object(view_entries(object, object.len() as nat)),
                    decreases array.len() - i,
                {
                    assert(items.take(i + 1).drop_last() =~= items.take(i as int));
                    match meta_from_json(&array[i]) {
                        Some(meta) => {
                            let ghost before = metas@;
                            metas.push(meta);
                            assert(metas_view(metas@) =~= metas_view(before).push(meta@));
                        },
                        None => {
                            proof {
                                assert(items.take(i + 1).last() == items[i as int]);
                                lemma_metas_of_prefix(items, i + 1);
                            }
                            return None;
                        },
                    }
                    i = i + 1;
                }
                assert(items.take(array.len() as int) =~= items);
                Some(Presence { metas })
            },
            _ => None,
        },
        _ => None,
    }
}

/// The presences by key that the entries of an object hold.
fn presences_from_entries(object: &Vec<(String, JSON)>) -> (r: Option<PresenceByKey>)
    ensures
        match r {
            Some(presences) => presences.wf() && presences_of(view_entries(object, object.len() as nat)) == Some(
                presences.presences(),
            ),
            None => presences_of(view_entries(object, object.len() as nat)) is None,
        },
{
    proof {
        lemma_object_view(object);
    }
    let ghost entries = view_entries(object, object.len() as nat);
    let mut presences = PresenceByKey::new();
    let mut i: usize = 0;
    while i < object.len()
        invariant
            0 <= i <= object.len(),
            entries == view_entries(object, object.len() as nat),
            entries.len() == object.len(),
            forall|j: int| 0 <= j < object.len() ==> #[trigger] entries[j] == (object[j].0@, object[j].1@),
            presences.wf(),
            presences_of(entries.take(i as int)) == Some(presences.presences()),
        decreases object.len() - i,
    {
        assert(entries.take(i + 1).drop_last() =~= entries.take(i as int));
        match presence_from_json(&object[i].1) {
            Some(presence) => {
                let ghost before = presences.presences();
                let ghost p = presence@;
                let _ = presences.map.insert(object[i].0.clone(), presence);
                assert(presences.presences() =~= before.insert(object[i as int].0@, p));
            },
            None => {
                proof {
                    assert(entries.take(i + 1).last() == entries[i as int]);
                    lemma_presences_of_prefix(entries, i + 1);
                }
                return None;
            },
        }
        i = i + 1;
    }
    assert(entries.take(object.len() as int) =~= entries);
    Some(presences)
}

/// The presence state that a `presence_state` payload holds.
pub fn presence_state(payload: &Payload) -> (r: Result<PresenceByKey, PresencePayloadError>)
    ensures
        match payload@ {
            PayloadView::Binary(_) => r == Err::<PresenceByKey, PresencePayloadError>(PresencePayloadError::Binary),
            PayloadView::JSON(json) => match state_of(json) {
                Some(state) => r matches Ok(presences) && presences.wf() && presences.presences() == state,
                None => r == Err::<PresenceByKey, PresencePayloadError>(PresencePayloadError::Json),
            },
        },
{
    match payload {
        Payload::Binary { .. } => Err(PresencePayloadError::Binary),
        Payload::JSON { json } => match json {
            JSON::Object { object } => match presences_from_entries(object) {
                Some(presences) => Ok(presences),
                None => Err(PresencePayloadError::Json),
            },
            _ => Err(PresencePayloadError::Json),
        },
    }
}

/// The joins and leaves that a `presence_diff` payload holds.
pub fn presence_diff(payload: &Payload) -> (r: Result<(PresenceByKey, PresenceByKey), PresencePayloadError>)
    ensures
        match payload@ {
            PayloadView::Binary(_) => r matches Err(PresencePayloadError::Binary),
            PayloadView::JSON(json) => match diff_of(json) {
                Some((joins, leaves)) => r matches Ok((joined, left)) && joined.wf() && left.wf()
                    && joined.presences() == joins && left.presences() == leaves,
                None => r matches Err(PresencePayloadError::Json),
            },
        },
{
    match payload {
        Payload::Binary { .. } => Err(PresencePayloadError::Binary),
        Payload::JSON { json } => match json {
            JSON::Object { object } => {
                let joins = match object_lookup(object, "joins") {
                    Some(JSON::Object { object: joins }) => presences_from_entries(joins),
                    _ => return Err(PresencePayloadError::Json),
                };
                let leaves = match object_lookup(object, "leaves") {
                    Some(JSON::Object { object: leaves }) => presences_from_entries(leaves),
                    _ => return Err(PresencePayloadError::Json),
                };
                match (joins, leaves) {
                    (Some(joined), Some(left)) => Ok((joined, left)),
                    _ => Err(PresencePayloadError::Json),
                }
            },
            _ => Err(PresencePayloadError::Json),
        },
    }
}

/// Taking the entries of `key` out of an object keeps every other entry,
/// in the object's order: an entry is kept exactly when it is the object's
/// and its key is not `key`, every other key looks up as before, and `key`
/// looks up nothing.
proof fn lemma_drop_key(entries: Seq<(Seq<char>, JSONView)>, key: Seq<char>)
    ensures
        forall|x: (Seq<char>, JSONView)| #[trigger] drop_key(entries, key).contains(x) <==> (entries.contains(x) && x.0 != key),
        forall|k: Seq<char>| k != key ==> #[trigger] object_get(drop_key(entries, key), k) == object_get(entries, k),
        object_get(drop_key(entries, key), key) is None,
    decreases entries.len(),
{
    if entries.len() > 0 {
        let rest = entries.drop_last();
        let last = entries.last();
        lemma_drop_key(rest, key);
        assert(entries =~= rest.push(last));
        let dropped = drop_key(entries, key);
        assert forall|x: (Seq<char>, JSONView)| #[trigger] dropped.contains(x) <==> (entries.contains(x) && x.0 != key) by {
            if entries.contains(x) {
                let i = choose|i: int| 0 <= i < entries.len() && entries[i] == x;
                if i < rest.len() {
                    assert(rest[i] == x);
                }
            }
            if rest.contains(x) {
                let i = choose|i: int| 0 <= i < rest.len() && rest[i] == x;
                assert(entries[i] == x);
            }
            if last.0 != key {
                assert(dropped == drop_key(rest, key).push(last));
                if dropped.contains(x) {
                    let i = choose|i: int| 0 <= i < dropped.len() && dropped[i] == x;
                    if i < drop_key(rest, key).len() {
                        assert(drop_key(rest, key)[i] == x);
                    }
                }
                if drop_key(rest, key).contains(x) {
                    let i = choose|i: int| 0 <= i < drop_key(rest, key).len() && drop_key(rest, key)[i] == x;
                    assert(dropped[i] == x);
                }
                assert(dropped[dropped.len() - 1] == last);
            }
        }
        let kept = drop_key(rest, key);
        if last.0 != key {
            assert(dropped.drop_last() =~= kept);
            assert(dropped.last() == last);
        } else {
            assert(dropped == kept);
        }
        assert forall|k: Seq<char>| k != key implies #[trigger] object_get(dropped, k) == object_get(entries, k) by {
            assert(object_get(kept, k) == object_get(rest, k));
        }
    }
}

/// A meta keeps all the data of its object: it is read from an object whose
/// `phx_ref` is the string of its join reference, and its other data are
/// exactly the object's entries whose key is not `phx_ref`, each key looking
/// up the same value as in the object.
pub proof fn lemma_meta_keeps_its_data(json: JSONView)
    ensures
        meta_of(json) matches Some(meta) ==> {
            &&& json matches JSONView::Object(entries) && {
                &&& object_get(entries, "phx_ref"@) == Some(JSONView::Str(meta.join_reference))
                &&& forall|x: (Seq<char>, JSONView)| #[trigger] meta.others.contains(x) <==> (entries.contains(x) && x.0
                    != "phx_ref"@)
                &&& forall|k: Seq<char>| k != "phx_ref"@ ==> #[trigger] object_get(meta.others, k) == object_get(entries, k)
            }
            &&& object_get(meta.others, "phx_ref"@) is None
        },
{
    if let JSONView::Object(entries) = json {
        lemma_drop_key(entries, "phx_ref"@);
    }
}

} // verus!
