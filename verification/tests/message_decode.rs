use phoenix_channels_client::decode::{take, take_first, InvalidMessage, MessageDecodingError};
use phoenix_channels_client::encode::EncodedMessage;
use phoenix_channels_client::event::{Event, PhoenixEvent, ReplyStatus};
use phoenix_channels_client::json::JSON;
use phoenix_channels_client::message::{EventPayload, JoinReference, Message, Payload, Push, Reference, Topic};

fn s(text: &str) -> JSON {
    JSON::Str { string: text.to_string() }
}

fn object(entries: Vec<(&str, JSON)>) -> JSON {
    JSON::Object { object: entries.into_iter().map(|(k, v)| (k.to_string(), v)).collect() }
}

#[test]
fn take_first_takes_one_byte() {
    let data = [7u8, 8, 9];
    let mut bytes: &[u8] = &data;
    assert_eq!(take_first(&mut bytes), Some(7));
    assert_eq!(bytes, &[8u8, 9][..]);
    let mut empty: &[u8] = &[];
    assert_eq!(take_first(&mut empty), None);
}

#[test]
fn take_takes_a_prefix_or_nothing() {
    let data = [1u8, 2, 3, 4];
    let mut bytes: &[u8] = &data;
    assert_eq!(take(&mut bytes, 3), Some(&[1u8, 2, 3][..]));
    assert_eq!(bytes, &[4u8][..]);
    assert_eq!(take(&mut bytes, 2), None);
    assert_eq!(bytes, &[4u8][..]);
}

#[test]
fn decode_binary_push() {
    // type 0, sizes 2, 1, 5, then "jr" "t" "event" and the payload
    let mut frame = vec![0u8, 2, 1, 5];
    frame.extend_from_slice(b"jrtevent");
    frame.extend_from_slice(&[9, 9]);
    match Message::decode_binary(&frame).unwrap() {
        Message::Push(push) => {
            assert_eq!(push.topic.as_str(), "t");
            assert_eq!(push.join_reference.as_str(), "jr");
            assert!(push.reference.is_none());
            assert!(matches!(push.event_payload.event, Event::User { ref user } if user == "event"));
            assert!(matches!(push.event_payload.payload, Payload::Binary { ref bytes } if bytes == &vec![9u8, 9]));
        }
        other => panic!("expected a push, got {:?}", other),
    }
}

#[test]
fn decode_binary_reply() {
    let mut frame = vec![1u8, 1, 1, 1, 2];
    frame.extend_from_slice(b"jrtok");
    frame.push(5);
    match Message::decode_binary(&frame).unwrap() {
        Message::Reply(reply) => {
            assert_eq!(reply.join_reference.as_str(), "j");
            assert_eq!(reply.reference.as_str(), "r");
            assert_eq!(reply.topic.as_str(), "t");
            assert_eq!(reply.status, ReplyStatus::Okay);
            assert!(reply.event.is_phoenix(PhoenixEvent::Reply));
            assert!(matches!(reply.payload, Payload::Binary { ref bytes } if bytes == &vec![5u8]));
        }
        other => panic!("expected a reply, got {:?}", other),
    }
}

#[test]
fn decode_binary_broadcast() {
    let mut frame = vec![2u8, 1, 3];
    frame.extend_from_slice(b"tphx_join");
    match Message::decode_binary(&frame) {
        Ok(Message::Broadcast(broadcast)) => {
            assert_eq!(broadcast.topic.as_str(), "t");
            assert!(matches!(broadcast.event_payload.event, Event::User { ref user } if user == "phx"));
            assert!(matches!(broadcast.event_payload.payload, Payload::Binary { ref bytes } if bytes == &b"_join".to_vec()));
        }
        other => panic!("expected a broadcast, got {:?}", other),
    }
}

#[test]
fn decode_binary_errors() {
    assert!(matches!(Message::decode_binary(&[]), Err(MessageDecodingError::InvalidBinary)));
    assert!(matches!(
        Message::decode_binary(&[7]),
        Err(MessageDecodingError::Invalid { invalid: InvalidMessage::BinaryMessageType { byte: 7 } })
    ));
    assert!(matches!(Message::decode_binary(&[2, 1]), Err(MessageDecodingError::UnexpectedEof)));
    assert!(matches!(Message::decode_binary(&[2, 5, 0, b'a']), Err(MessageDecodingError::UnexpectedEof)));
    assert!(matches!(
        Message::decode_binary(&[2, 2, 0, b'a', 0xff]),
        Err(MessageDecodingError::InvalidUtf8 { valid_up_to: 1 })
    ));
}

#[test]
fn decode_json_reply() {
    let json = JSON::Array {
        array: vec![
            s("join"),
            s("ref"),
            s("room:lobby"),
            s("phx_reply"),
            object(vec![("status", s("error")), ("response", object(vec![("reason", s("unauthorized"))]))]),
        ],
    };
    match Message::decode(EncodedMessage::Text { json }).unwrap() {
        Message::Reply(reply) => {
            assert_eq!(reply.status, ReplyStatus::Error);
            assert_eq!(reply.topic.as_str(), "room:lobby");
            assert_eq!(reply.reference.as_str(), "ref");
            match reply.payload {
                Payload::JSON { json: JSON::Object { object } } => {
                    assert_eq!(object.len(), 1);
                    assert_eq!(object[0].0, "reason");
                }
                other => panic!("unexpected payload {:?}", other),
            }
        }
        other => panic!("expected a reply, got {:?}", other),
    }
}

#[test]
fn decode_json_control_push_and_broadcast() {
    let control = JSON::Array { array: vec![JSON::Null, s("r"), s("phoenix"), s("phx_reply"), object(vec![])] };
    assert!(matches!(Message::decode_json(control), Ok(Message::Control(_))));
    let push = JSON::Array { array: vec![s("j"), JSON::Null, s("t"), s("shout"), object(vec![])] };
    assert!(matches!(Message::decode_json(push), Ok(Message::Push(_))));
    let broadcast = JSON::Array { array: vec![JSON::Null, JSON::Null, s("t"), s("shout"), object(vec![])] };
    assert!(matches!(Message::decode_json(broadcast), Ok(Message::Broadcast(_))));
}

#[test]
fn decode_json_errors() {
    let short = JSON::Array { array: vec![JSON::Null] };
    assert!(matches!(
        Message::decode_json(short),
        Err(MessageDecodingError::Invalid { invalid: InvalidMessage::NotV2Array { .. } })
    ));
    let event_not_string = JSON::Array { array: vec![JSON::Null, JSON::Null, s("t"), JSON::Null, JSON::Null] };
    assert!(matches!(
        Message::decode_json(event_not_string),
        Err(MessageDecodingError::Invalid { invalid: InvalidMessage::EventNotString { .. } })
    ));
    let user_control = JSON::Array { array: vec![JSON::Null, s("r"), s("t"), s("shout"), JSON::Null] };
    assert!(matches!(
        Message::decode_json(user_control),
        Err(MessageDecodingError::Invalid { invalid: InvalidMessage::UnrecognizedControlEvent { .. } })
    ));
    let reply_not_object = JSON::Array { array: vec![s("j"), s("r"), s("t"), s("phx_reply"), JSON::Null] };
    assert!(matches!(
        Message::decode_json(reply_not_object),
        Err(MessageDecodingError::Invalid { invalid: InvalidMessage::ReplyPayloadNotObject { .. } })
    ));
}

#[test]
fn encoded_json_push_decodes_back() {
    let push = Message::Push(Push {
        topic: Topic::from_string("room".to_string()),
        event_payload: EventPayload {
            event: Event::from_string("shout".to_string()),
            payload: Payload::JSON { json: object(vec![("a", s("b"))]) },
        },
        join_reference: JoinReference::from_str("j"),
        reference: Some(Reference::from_str("r")),
    });
    let encoded = push.encode().unwrap();
    match Message::decode(encoded).unwrap() {
        Message::Push(back) => {
            assert_eq!(back.topic.as_str(), "room");
            assert_eq!(back.join_reference.as_str(), "j");
            assert_eq!(back.reference.map(|r| r.to_string()), Some("r".to_string()));
        }
        other => panic!("expected the push back, got {:?}", other),
    }
}
