use phoenix_channels_client::event::{Event, PhoenixEvent};
use phoenix_channels_client::json::JSON;
use phoenix_channels_client::message::Payload;
use phoenix_channels_client::presence::{presence_event, Meta, Presence, PresenceByKey, PresenceEvent};
use phoenix_channels_client::presence_format::{presence_diff, presence_state, PresencePayloadError};
use phoenix_channels_client::string_map::StringMap;

fn meta(reference: &str) -> Meta {
    Meta {
        join_reference: reference.to_string(),
        others: vec![("online_at".to_string(), JSON::Str { string: "now".to_string() })],
    }
}

fn presence(references: &[&str]) -> Presence {
    Presence { metas: references.iter().map(|r| meta(r)).collect() }
}

fn state(entries: Vec<(&str, &[&str])>) -> PresenceByKey {
    let mut map = StringMap::new();
    for (key, references) in entries {
        map.insert(key.to_string(), presence(references));
    }
    PresenceByKey { map }
}

fn references(p: &Presence) -> Vec<String> {
    p.metas.iter().map(|m| m.join_reference.clone()).collect()
}

fn listed(presences: &PresenceByKey) -> Vec<(String, Vec<String>)> {
    let mut all: Vec<(String, Vec<String>)> = presences
        .map
        .as_entries()
        .iter()
        .map(|(k, p)| {
            let mut refs = references(p);
            refs.sort();
            (k.clone(), refs)
        })
        .collect();
    all.sort();
    all
}

#[test]
fn first_state_joins_everyone() {
    let mut presences = PresenceByKey::new();
    let changes = presences.sync(state(vec![("alice", &["1"]), ("bob", &["2"])]));
    assert_eq!(changes.joins.len(), 2);
    assert!(changes.leaves.is_empty());
    assert_eq!(changes.joins[0].key, "alice");
    assert!(changes.joins[0].current.is_none());
    assert_eq!(references(&changes.joins[0].joined), vec!["1"]);
    assert_eq!(presences.list().len(), 2);
}

#[test]
fn new_connection_of_a_key_is_a_join_with_the_merged_presence() {
    let mut presences = PresenceByKey::new();
    presences.sync(state(vec![("alice", &["1"])]));
    let changes = presences.sync(state(vec![("alice", &["1", "2"])]));
    assert_eq!(changes.joins.len(), 1);
    let join = &changes.joins[0];
    assert_eq!(join.key, "alice");
    assert_eq!(references(join.current.as_ref().unwrap()), vec!["1"]);
    assert_eq!(references(&join.joined), vec!["2", "1"]);
    assert!(changes.leaves.is_empty());
}

#[test]
fn closed_connection_of_a_key_is_a_leave() {
    let mut presences = PresenceByKey::new();
    presences.sync(state(vec![("alice", &["1", "2"])]));
    let changes = presences.sync(state(vec![("alice", &["2"])]));
    assert!(changes.joins.is_empty());
    assert_eq!(changes.leaves.len(), 1);
    let leave = &changes.leaves[0];
    assert_eq!(leave.key, "alice");
    assert_eq!(references(&leave.current), vec!["2"]);
    assert_eq!(references(&leave.left), vec!["1"]);
    assert_eq!(listed(&presences), vec![("alice".to_string(), vec!["2".to_string()])]);
}

#[test]
fn vanished_key_leaves_with_all_its_metas() {
    let mut presences = PresenceByKey::new();
    presences.sync(state(vec![("alice", &["1", "3"]), ("bob", &["2"])]));
    let changes = presences.sync(state(vec![("bob", &["2"])]));
    assert!(changes.joins.is_empty());
    assert_eq!(changes.leaves.len(), 1);
    let leave = &changes.leaves[0];
    assert_eq!(leave.key, "alice");
    assert!(references(&leave.current).is_empty());
    assert_eq!(references(&leave.left), vec!["1", "3"]);
    assert_eq!(listed(&presences), vec![("bob".to_string(), vec!["2".to_string()])]);
}

#[test]
fn sync_makes_the_state_match_the_servers() {
    let mut presences = PresenceByKey::new();
    presences.sync(state(vec![("alice", &["1", "2"]), ("carol", &["5"])]));
    presences.sync(state(vec![("alice", &["2", "3"]), ("bob", &["4"])]));
    assert_eq!(
        listed(&presences),
        vec![
            ("alice".to_string(), vec!["2".to_string(), "3".to_string()]),
            ("bob".to_string(), vec!["4".to_string()]),
        ]
    );
}

#[test]
fn diff_applies_joins_then_leaves() {
    let mut presences = PresenceByKey::new();
    presences.sync(state(vec![("alice", &["1"])]));
    let changes = presences.sync_diff(state(vec![("bob", &["2"])]), state(vec![("alice", &["1"])]));
    assert_eq!(changes.joins.len(), 1);
    assert_eq!(changes.joins[0].key, "bob");
    assert_eq!(changes.leaves.len(), 1);
    assert_eq!(changes.leaves[0].key, "alice");
    assert!(changes.leaves[0].current.metas.is_empty());
    assert_eq!(listed(&presences), vec![("bob".to_string(), vec!["2".to_string()])]);
}

#[test]
fn leave_of_an_unknown_key_is_ignored() {
    let mut presences = PresenceByKey::new();
    let changes = presences.sync_diff(state(vec![]), state(vec![("nobody", &["9"])]));
    assert!(changes.joins.is_empty());
    assert!(changes.leaves.is_empty());
}

#[test]
fn join_references_lists_every_meta() {
    assert_eq!(presence(&["a", "b"]).join_references(), vec!["a".to_string(), "b".to_string()]);
}

#[test]
fn only_presence_events_concern_presences() {
    assert_eq!(presence_event(&Event::from_string("presence_state".to_string())), PresenceEvent::State);
    assert_eq!(presence_event(&Event::from_string("presence_diff".to_string())), PresenceEvent::Diff);
    assert_eq!(presence_event(&Event::from_string("shout".to_string())), PresenceEvent::Other);
    assert_eq!(presence_event(&Event::Phoenix { phoenix: PhoenixEvent::Reply }), PresenceEvent::Other);
}

fn obj(entries: Vec<(&str, JSON)>) -> JSON {
    JSON::Object { object: entries.into_iter().map(|(k, v)| (k.to_string(), v)).collect() }
}

fn str_json(text: &str) -> JSON {
    JSON::Str { string: text.to_string() }
}

fn metas_json(references: &[&str]) -> JSON {
    obj(vec![(
        "metas",
        JSON::Array {
            array: references.iter().map(|r| obj(vec![("online_at", str_json("now")), ("phx_ref", str_json(r))])).collect(),
        },
    )])
}

#[test]
fn presence_state_payload_reads_every_key() {
    let payload = Payload::JSON { json: obj(vec![("alice", metas_json(&["1", "2"])), ("bob", metas_json(&["3"]))]) };
    let presences = presence_state(&payload).unwrap();
    assert_eq!(
        listed(&presences),
        vec![
            ("alice".to_string(), vec!["1".to_string(), "2".to_string()]),
            ("bob".to_string(), vec!["3".to_string()]),
        ]
    );
    let alice = presences.map.get("alice").unwrap();
    assert_eq!(alice.metas[0].others.len(), 1);
    assert_eq!(alice.metas[0].others[0].0, "online_at");
}

#[test]
fn presence_payload_errors() {
    assert_eq!(presence_state(&Payload::binary_from_bytes(vec![1])).err(), Some(PresencePayloadError::Binary));
    assert_eq!(presence_state(&Payload::JSON { json: JSON::Null }).err(), Some(PresencePayloadError::Json));
    let no_ref = Payload::JSON { json: obj(vec![("alice", obj(vec![("metas", JSON::Array { array: vec![obj(vec![])] })]))]) };
    assert_eq!(presence_state(&no_ref).err(), Some(PresencePayloadError::Json));
    let no_metas = Payload::JSON { json: obj(vec![("alice", obj(vec![]))]) };
    assert_eq!(presence_state(&no_metas).err(), Some(PresencePayloadError::Json));
    let missing_leaves = Payload::JSON { json: obj(vec![("joins", obj(vec![]))]) };
    assert_eq!(presence_diff(&missing_leaves).err(), Some(PresencePayloadError::Json));
}

#[test]
fn presence_diff_payload_reads_joins_and_leaves() {
    let payload = Payload::JSON {
        json: obj(vec![("joins", obj(vec![("bob", metas_json(&["4"]))])), ("leaves", obj(vec![("alice", metas_json(&["1"]))]))]),
    };
    let (joined, left) = presence_diff(&payload).unwrap();
    assert_eq!(listed(&joined), vec![("bob".to_string(), vec!["4".to_string()])]);
    assert_eq!(listed(&left), vec![("alice".to_string(), vec!["1".to_string()])]);
}

#[test]
fn diff_moves_a_connection_of_a_key() {
    let mut presences = PresenceByKey::new();
    presences.sync(state(vec![("alice", &["1"])]));
    let changes = presences.sync_diff(state(vec![("alice", &["2"])]), state(vec![("alice", &["1"])]));
    assert_eq!(changes.joins.len(), 1);
    assert_eq!(references(&changes.joins[0].joined), vec!["2", "1"]);
    assert_eq!(changes.leaves.len(), 1);
    assert_eq!(references(&changes.leaves[0].current), vec!["2"]);
    assert_eq!(listed(&presences), vec![("alice".to_string(), vec!["2".to_string()])]);
}
