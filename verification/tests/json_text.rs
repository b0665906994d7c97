use phoenix_channels_client::decode::MessageDecodingError;
use phoenix_channels_client::event::{Event, PhoenixEvent};
use phoenix_channels_client::json::{IoError, JSONDeserializationError, Number, JSON};
use phoenix_channels_client::json_text::{JsonErrorCategory, JsonErrorFacts};
use phoenix_channels_client::message::{Message, Payload};

#[test]
fn deserialize_reads_scalars_arrays_and_objects() {
    match JSON::deserialize("{\"a\":[1,-2,true,null,\"x\"],\"b\":{}}".to_string()) {
        Ok(JSON::Object { object }) => {
            assert_eq!(object.len(), 2);
            assert_eq!(object[0].0, "a");
            match &object[0].1 {
                JSON::Array { array } => {
                    assert!(matches!(array[0], JSON::Number { number: Number::PosInt { pos: 1 } }));
                    assert!(matches!(array[1], JSON::Number { number: Number::NegInt { neg: -2 } }));
                    assert!(matches!(array[2], JSON::Bool { bool: true }));
                    assert!(matches!(array[3], JSON::Null));
                    assert!(matches!(&array[4], JSON::Str { string } if string == "x"));
                }
                other => panic!("unexpected {:?}", other),
            }
            assert_eq!(object[1].0, "b");
            assert!(matches!(&object[1].1, JSON::Object { object } if object.is_empty()));
        }
        other => panic!("unexpected {:?}", other),
    }
}

#[test]
fn deserialize_reads_a_float_by_its_bits() {
    match JSON::deserialize("1.5".to_string()) {
        Ok(JSON::Number { number: Number::Float { bits } }) => assert_eq!(bits, 1.5f64.to_bits()),
        other => panic!("unexpected {:?}", other),
    }
}

#[test]
fn deserialize_reports_where_the_text_is_wrong() {
    assert!(matches!(
        JSON::deserialize("[1,".to_string()),
        Err(JSONDeserializationError::EOF { line: 1, column: 3 })
    ));
    assert!(matches!(
        JSON::deserialize("[1 2]".to_string()),
        Err(JSONDeserializationError::Syntax { line: 1, column: 4 })
    ));
}

#[test]
fn json_from_serialized_makes_a_json_payload() {
    match Payload::json_from_serialized("{\"key\":\"value\"}".to_string()) {
        Ok(Payload::JSON { json: JSON::Object { object } }) => {
            assert_eq!(object.len(), 1);
            assert_eq!(object[0].0, "key");
            assert!(matches!(&object[0].1, JSON::Str { string } if string == "value"));
        }
        other => panic!("unexpected {:?}", other),
    }
    assert!(Payload::json_from_serialized("nope".to_string()).is_err());
}

#[test]
fn decode_json_text_reads_a_broadcast() {
    match Message::decode_json_text("[null,null,\"room\",\"shout\",{\"a\":1}]") {
        Ok(Message::Broadcast(broadcast)) => {
            assert_eq!(broadcast.topic.to_string(), "room");
            assert!(matches!(&broadcast.event_payload.event, Event::User { user } if user == "shout"));
        }
        other => panic!("unexpected {:?}", other),
    }
}

#[test]
fn decode_json_text_reads_a_reply() {
    match Message::decode_json_text("[\"1\",\"2\",\"room\",\"phx_reply\",{\"status\":\"ok\",\"response\":{}}]") {
        Ok(Message::Reply(reply)) => {
            assert_eq!(reply.topic.to_string(), "room");
            assert!(matches!(reply.event, Event::Phoenix { phoenix: PhoenixEvent::Reply }));
        }
        other => panic!("unexpected {:?}", other),
    }
}

#[test]
fn decode_json_text_drops_text_that_is_not_json() {
    assert!(matches!(
        Message::decode_json_text("[1,"),
        Err(MessageDecodingError::Json { error: JSONDeserializationError::EOF { .. } })
    ));
}

#[test]
fn deserialize_keeps_one_entry_per_key() {
    match JSON::deserialize("{\"a\":1,\"a\":2}".to_string()) {
        Ok(JSON::Object { object }) => {
            assert_eq!(object.len(), 1);
            assert!(matches!(object[0].1, JSON::Number { number: Number::PosInt { pos: 2 } }));
        }
        other => panic!("unexpected {:?}", other),
    }
}

#[test]
fn from_facts_maps_each_category() {
    let facts = |category, io_kind: Option<&str>| JsonErrorFacts {
        category,
        line: 3,
        column: 7,
        io_kind: io_kind.map(|kind| kind.to_string()),
    };
    assert!(matches!(
        JSONDeserializationError::from_facts(&facts(JsonErrorCategory::Io, Some("TimedOut"))),
        JSONDeserializationError::IO { line: 3, column: 7, io_error: IoError::TimedOut }
    ));
    assert!(matches!(
        JSONDeserializationError::from_facts(&facts(JsonErrorCategory::Io, Some("SomethingNew"))),
        JSONDeserializationError::IO { io_error: IoError::Uncategorized, .. }
    ));
    assert!(matches!(
        JSONDeserializationError::from_facts(&facts(JsonErrorCategory::Io, None)),
        JSONDeserializationError::IO { io_error: IoError::Uncategorized, .. }
    ));
    assert!(matches!(
        JSONDeserializationError::from_facts(&facts(JsonErrorCategory::Syntax, None)),
        JSONDeserializationError::Syntax { line: 3, column: 7 }
    ));
    assert!(matches!(
        JSONDeserializationError::from_facts(&facts(JsonErrorCategory::Data, None)),
        JSONDeserializationError::Data { line: 3, column: 7 }
    ));
    assert!(matches!(
        JSONDeserializationError::from_facts(&facts(JsonErrorCategory::Eof, None)),
        JSONDeserializationError::EOF { line: 3, column: 7 }
    ));
}
