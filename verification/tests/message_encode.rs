use phoenix_channels_client::encode::{EncodedMessage, MessageEncodingError};
use phoenix_channels_client::event::{Event, ReplyStatus};
use phoenix_channels_client::json::JSON;
use phoenix_channels_client::message::{
    Broadcast, Control, EventPayload, JoinReference, Message, Payload, Push, Reference, Reply, Topic,
};

/// The JSON value that the library parses from `text`, written with `Debug`.
fn parsed(text: &str) -> String {
    format!("{:?}", JSON::deserialize(text.to_string()).unwrap())
}

fn user_event(name: &str) -> Event {
    Event::User { user: name.to_string() }
}

fn binary_payload() -> Payload {
    Payload::binary_from_bytes(vec![0, 1, 2, 3])
}

fn json_payload() -> Payload {
    Payload::JSON {
        json: JSON::Object {
            object: vec![("key".to_string(), JSON::Str { string: "value".to_string() })],
        },
    }
}

fn encoded_binary(result: Result<EncodedMessage, MessageEncodingError>) -> Vec<u8> {
    match result.unwrap() {
        EncodedMessage::Binary { bytes } => bytes,
        EncodedMessage::Text { json } => panic!("expected binary, got {:?}", json),
    }
}

fn encoded_text(result: Result<EncodedMessage, MessageEncodingError>) -> String {
    match result.unwrap() {
        EncodedMessage::Text { json } => format!("{:?}", json),
        EncodedMessage::Binary { bytes } => panic!("expected text, got {:?}", bytes),
    }
}

#[test]
fn message_encode_with_control_with_binary_payload() {
    assert_eq!(
        encoded_binary(
            Message::Control(Control {
                event: user_event("event_name"),
                payload: binary_payload(),
                reference: Some(Reference::from_str("reference")),
            })
            .encode()
        ),
        vec![
            0, 0, 9, 7, 10, 114, 101, 102, 101, 114, 101, 110, 99, 101, 112, 104, 111, 101, 110, 105, 120, 101, 118,
            101, 110, 116, 95, 110, 97, 109, 101, 0, 1, 2, 3
        ]
    );
}

#[test]
fn message_encode_with_control_with_json_payload() {
    assert_eq!(
        encoded_text(
            Message::Control(Control {
                event: user_event("event_name"),
                payload: json_payload(),
                reference: Some(Reference::from_str("reference")),
            })
            .encode()
        ),
        parsed("[null,\"reference\",\"phoenix\",\"event_name\",{\"key\":\"value\"}]")
    );
}

#[test]
fn message_encode_with_broadcast_with_binary_payload() {
    assert_eq!(
        encoded_binary(
            Message::Broadcast(Broadcast {
                topic: Topic::from_string("channel_topic".to_string()),
                event_payload: EventPayload { event: user_event("event_name"), payload: binary_payload() },
            })
            .encode()
        ),
        vec![
            0, 0, 0, 13, 10, 99, 104, 97, 110, 110, 101, 108, 95, 116, 111, 112, 105, 99, 101, 118, 101, 110, 116, 95,
            110, 97, 109, 101, 0, 1, 2, 3
        ]
    );
}

#[test]
fn message_encode_with_broadcast_with_json_payload() {
    assert_eq!(
        encoded_text(
            Message::Broadcast(Broadcast {
                topic: Topic::from_string("channel_topic".to_string()),
                event_payload: EventPayload { event: user_event("event_name"), payload: json_payload() },
            })
            .encode()
        ),
        parsed("[null,null,\"channel_topic\",\"event_name\",{\"key\":\"value\"}]")
    );
}

#[test]
fn message_encode_with_reply_with_binary_payload() {
    assert_eq!(
        encoded_binary(
            Message::Reply(Reply {
                topic: Topic::from_string("channel_topic".to_string()),
                event: user_event("event_name"),
                payload: binary_payload(),
                join_reference: JoinReference::from_str("join_reference"),
                reference: Reference::from_str("reference"),
                status: ReplyStatus::Okay,
            })
            .encode()
        ),
        vec![
            0, 14, 9, 13, 10, 106, 111, 105, 110, 95, 114, 101, 102, 101, 114, 101, 110, 99, 101, 114, 101, 102, 101,
            114, 101, 110, 99, 101, 99, 104, 97, 110, 110, 101, 108, 95, 116, 111, 112, 105, 99, 101, 118, 101, 110,
            116, 95, 110, 97, 109, 101, 0, 1, 2, 3
        ]
    );
}

#[test]
fn message_encode_with_reply_with_json_payload() {
    assert_eq!(
        encoded_text(
            Message::Reply(Reply {
                topic: Topic::from_string("channel_topic".to_string()),
                event: user_event("event_name"),
                payload: json_payload(),
                join_reference: JoinReference::from_str("join_reference"),
                reference: Reference::from_str("reference"),
                status: ReplyStatus::Okay,
            })
            .encode()
        ),
        parsed("[\"join_reference\",\"reference\",\"channel_topic\",\"event_name\",{\"key\":\"value\"}]")
    );
}

#[test]
fn message_encode_with_push_with_binary_payload() {
    assert_eq!(
        encoded_binary(
            Message::Push(Push {
                topic: Topic::from_string("channel_topic".to_string()),
                event_payload: EventPayload { event: user_event("event_name"), payload: binary_payload() },
                join_reference: JoinReference::from_str("join_reference"),
                reference: Some(Reference::from_str("reference")),
            })
            .encode()
        ),
        vec![
            0, 14, 9, 13, 10, 106, 111, 105, 110, 95, 114, 101, 102, 101, 114, 101, 110, 99, 101, 114, 101, 102, 101,
            114, 101, 110, 99, 101, 99, 104, 97, 110, 110, 101, 108, 95, 116, 111, 112, 105, 99, 101, 118, 101, 110,
            116, 95, 110, 97, 109, 101, 0, 1, 2, 3
        ]
    );
}

#[test]
fn message_encode_with_push_with_json_payload() {
    assert_eq!(
        encoded_text(
            Message::Push(Push {
                topic: Topic::from_string("channel_topic".to_string()),
                event_payload: EventPayload { event: user_event("event_name"), payload: json_payload() },
                join_reference: JoinReference::from_str("join_reference"),
                reference: Some(Reference::from_str("reference")),
            })
            .encode()
        ),
        parsed("[\"join_reference\",\"reference\",\"channel_topic\",\"event_name\",{\"key\":\"value\"}]")
    );
}

#[test]
fn encode_binary_rejects_a_field_longer_than_a_byte_can_count() {
    let long_topic = "t".repeat(256);
    let result = Message::Broadcast(Broadcast {
        topic: Topic::from_string(long_topic),
        event_payload: EventPayload { event: user_event("event_name"), payload: binary_payload() },
    })
    .encode();
    assert!(matches!(result, Err(MessageEncodingError)));
}

#[test]
fn encode_control_without_reference_has_null_reference() {
    assert_eq!(
        encoded_text(
            Message::Control(Control { event: user_event("heartbeat"), payload: json_payload(), reference: None })
                .encode()
        ),
        parsed("[null,null,\"phoenix\",\"heartbeat\",{\"key\":\"value\"}]")
    );
}
