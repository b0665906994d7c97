use vstd::prelude::*;
use vstd::utf8::{decode_utf8, valid_utf8};

use crate::event::{
    event_from_name, event_is_canonical, lemma_event_name_round_trip, reply_status_from_name, Event, EventView, PhoenixEvent, ReplyStatus,
};
use crate::json::{lemma_array_view, lemma_object_view, JSONDeserializationError, JSONView, JSON};
use crate::message::{
    copy_bytes, Broadcast, Control, EventPayload, EventPayloadView, JoinReference, Message,
    MessageView, Payload, PayloadView, Push, Reference, Reply, Topic,
};
use crate::encode::{encode_json_value, EncodedMessage, EncodedView};
use crate::text::{str_eq, utf8_to_string, utf8_valid_up_to};
use crate::json_text::{json_parse, parse_json};

verus! {

broadcast use vstd::string::group_string_axioms;

/// Why a message received from the server is not a valid message.
#[derive(Debug)]
pub enum InvalidMessage {
    /// The first byte of a binary message is not a known message type.
    BinaryMessageType { byte: u8 },
    /// The event of a JSON message is not a string.
    EventNotString { found: JSON },
    /// The topic of a JSON message is not a string.
    TopicNotString { found: JSON },
    /// The reference of a JSON message is neither a string nor null.
    ReferenceNotStringOrNull { found: JSON },
    /// The join reference of a JSON message is neither a string nor null.
    JoinReferenceNotStringOrNull { found: JSON },
    /// The payload of a JSON reply is not an object.
    ReplyPayloadNotObject { found: JSON },
    /// The payload of a JSON reply lacks a string `status` or a `response`.
    ReplyPayloadMissingStatusResponse { status: Option<JSON>, response: Option<JSON> },
    /// A JSON message without a join reference or reference does not carry a Phoenix event.
    UnrecognizedControlEvent { event: Event },
    /// A JSON message is not an array of five values.
    NotV2Array { found: JSON },
}

/// Occurs when decoding messages received from the server
#[derive(Debug)]
pub enum MessageDecodingError {
    UnexpectedEof,
    InvalidUtf8 { valid_up_to: usize },
    Invalid { invalid: InvalidMessage },
    InvalidBinary,
    Json { error: JSONDeserializationError },
}

/// The abstract value of a decoding failure.
pub enum DecodeFailure {
    UnexpectedEof,
    InvalidUtf8(usize),
    InvalidBinary,
    BinaryMessageType(u8),
    EventNotString(JSONView),
    TopicNotString(JSONView),
    ReferenceNotStringOrNull(JSONView),
    JoinReferenceNotStringOrNull(JSONView),
    ReplyPayloadNotObject(JSONView),
    ReplyPayloadMissingStatusResponse(Option<JSONView>, Option<JSONView>),
    UnrecognizedControlEvent(EventView),
    NotV2Array(JSONView),
    Json(JSONDeserializationError),
}

pub open spec fn opt_json_view(j: Option<JSON>) -> Option<JSONView> {
    match j {
        Some(j) => Some(j@),
        None => None,
    }
}

impl View for MessageDecodingError {
    type V = DecodeFailure;

    open spec fn view(&self) -> DecodeFailure {
        match self {
            MessageDecodingError::UnexpectedEof => DecodeFailure::UnexpectedEof,
            MessageDecodingError::InvalidUtf8 { valid_up_to } => DecodeFailure::InvalidUtf8(*valid_up_to),
            MessageDecodingError::InvalidBinary => DecodeFailure::InvalidBinary,
            MessageDecodingError::Json { error } => DecodeFailure::Json(*error),
            MessageDecodingError::Invalid { invalid } => match invalid {
                InvalidMessage::BinaryMessageType { byte } => DecodeFailure::BinaryMessageType(*byte),
                InvalidMessage::EventNotString { found } => DecodeFailure::EventNotString(found@),
                InvalidMessage::TopicNotString { found } => DecodeFailure::TopicNotString(found@),
                InvalidMessage::ReferenceNotStringOrNull { found } => DecodeFailure::ReferenceNotStringOrNull(found@),
                InvalidMessage::JoinReferenceNotStringOrNull { found } => DecodeFailure::JoinReferenceNotStringOrNull(found@),
                InvalidMessage::ReplyPayloadNotObject { found } => DecodeFailure::ReplyPayloadNotObject(found@),
                InvalidMessage::ReplyPayloadMissingStatusResponse { status, response } =>
                    DecodeFailure::ReplyPayloadMissingStatusResponse(opt_json_view(*status), opt_json_view(*response)),
                InvalidMessage::UnrecognizedControlEvent { event } => DecodeFailure::UnrecognizedControlEvent(event@),
                InvalidMessage::NotV2Array { found } => DecodeFailure::NotV2Array(found@),
            },
        }
    }
}

// ---------------------------------------------------------------------------
// Binary messages

/// The length of the valid UTF-8 prefix of `bytes` that an invalid sequence reports.
pub open spec fn utf8_error_index(bytes: Seq<u8>) -> usize {
    choose|n: usize| utf8_valid_up_to(bytes, n as int)
}

/// A string field of a binary message: its bytes decoded as UTF-8.
pub open spec fn utf8_field(bytes: Seq<u8>) -> Result<Seq<char>, DecodeFailure> {
    if valid_utf8(bytes) {
        Ok(decode_utf8(bytes))
    } else {
        Err(DecodeFailure::InvalidUtf8(utf8_error_index(bytes)))
    }
}

/// Reads one string field of `size` bytes from the front of `bytes`, giving
/// the string and the bytes after it.
pub open spec fn read_string(bytes: Seq<u8>, size: int) -> Result<(Seq<char>, Seq<u8>), DecodeFailure> {
    if size > bytes.len() {
        Err(DecodeFailure::UnexpectedEof)
    } else {
        match utf8_field(bytes.take(size)) {
            Ok(s) => Ok((s, bytes.skip(size))),
            Err(e) => Err(e),
        }
    }
}

/// A server binary message: a type byte, then the sizes of the message's
/// string fields (one byte each), then the fields, then the payload bytes.
///
/// * type 0 (push): join reference, topic, event;
/// * type 1 (reply): join reference, reference, topic, status;
/// * type 2 (broadcast): topic, event.
pub open spec fn decode_binary_message(bytes: Seq<u8>) -> Result<MessageView, DecodeFailure> {
    if bytes.len() == 0 {
        Err(DecodeFailure::InvalidBinary)
    } else {
        let kind = bytes[0];
        let rest = bytes.drop_first();
        if kind == 2 {
            if rest.len() < 2 {
                Err(DecodeFailure::UnexpectedEof)
            } else {
                let body = rest.skip(2);
                match read_string(body, rest[0] as int) {
                    Err(e) => Err(e),
                    Ok((topic, body)) => match read_string(body, rest[1] as int) {
                        Err(e) => Err(e),
                        Ok((event, payload)) => Ok(MessageView::Broadcast {
                            topic,
                            event_payload: EventPayloadView {
                                event: event_from_name(event),
                                payload: PayloadView::Binary(payload),
                            },
                        }),
                    },
                }
            }
        } else if kind == 1 {
            if rest.len() < 4 {
                Err(DecodeFailure::UnexpectedEof)
            } else {
                let body = rest.skip(4);
                match read_string(body, rest[0] as int) {
                    Err(e) => Err(e),
                    Ok((join_reference, body)) => match read_string(body, rest[1] as int) {
                        Err(e) => Err(e),
                        Ok((reference, body)) => match read_string(body, rest[2] as int) {
                            Err(e) => Err(e),
                            Ok((topic, body)) => match read_string(body, rest[3] as int) {
                                Err(e) => Err(e),
                                Ok((status, payload)) => Ok(MessageView::Reply {
                                    topic,
                                    event: EventView::Phoenix(PhoenixEvent::Reply),
                                    payload: PayloadView::Binary(payload),
                                    join_reference,
                                    reference,
                                    status: reply_status_from_name(status),
                                }),
                            },
                        },
                    },
                }
            }
        } else if kind == 0 {
            if rest.len() < 3 {
                Err(DecodeFailure::UnexpectedEof)
            } else {
                let body = rest.skip(3);
                match read_string(body, rest[0] as int) {
                    Err(e) => Err(e),
                    Ok((join_reference, body)) => match read_string(body, rest[1] as int) {
                        Err(e) => Err(e),
                        Ok((topic, body)) => match read_string(body, rest[2] as int) {
                            Err(e) => Err(e),
                            Ok((event, payload)) => Ok(MessageView::Push {
                                topic,
                                event_payload: EventPayloadView {
                                    event: event_from_name(event),
                                    payload: PayloadView::Binary(payload),
                                },
                                join_reference,
                                reference: None,
                            }),
                        },
                    },
                }
            }
        } else {
            Err(DecodeFailure::BinaryMessageType(kind))
        }
    }
}

/// There is exactly one valid-prefix length of an invalid UTF-8 sequence.
proof fn lemma_utf8_error_index(bytes: Seq<u8>, n: usize)
    requires
        utf8_valid_up_to(bytes, n as int),
    ensures
        utf8_error_index(bytes) == n,
{
    let m = utf8_error_index(bytes);
    assert(utf8_valid_up_to(bytes, m as int));
    if m < n {
        assert(!valid_utf8(bytes.subrange(0, n as int)));
    } else if n < m {
        assert(!valid_utf8(bytes.subrange(0, m as int)));
    }
}

/// Takes the first byte of `bytes`, if there is one.
pub fn take_first(bytes: &mut &[u8]) -> (r: Option<u8>)
    ensures
        old(bytes)@.len() == 0 ==> r is None && final(bytes)@ == old(bytes)@,
        old(bytes)@.len() > 0 ==> r == Some(old(bytes)@[0]) && final(bytes)@ == old(bytes)@.drop_first(),
{
    if bytes.len() == 0 {
        return None;
    }
    let first = bytes[0];
    let (_, rest) = bytes.split_at(1);
    *bytes = rest;
    Some(first)
}

/// Takes the first `n` bytes of `bytes`, if there are that many.
pub fn take<'a>(bytes: &mut &'a [u8], n: usize) -> (r: Option<&'a [u8]>)
    ensures
        n > old(bytes)@.len() ==> r is None && final(bytes)@ == old(bytes)@,
        n <= old(bytes)@.len() ==> (r matches Some(taken) && taken@ == old(bytes)@.take(n as int)
            && final(bytes)@ == old(bytes)@.skip(n as int)),
{
    if n > bytes.len() {
        return None;
    }
    let (taken, rest) = bytes.split_at(n);
    *bytes = rest;
    Some(taken)
}

/// Reads a string field of `size` bytes from the front of `bytes`.
fn take_string(bytes: &mut &[u8], size: usize) -> (r: Result<String, MessageDecodingError>)
    ensures
        match read_string(old(bytes)@, size as int) {
            Ok((s, rest)) => r matches Ok(string) && string@ == s && final(bytes)@ == rest,
            Err(e) => r matches Err(error) && error@ == e,
        },
{
    let ghost original = bytes@;
    match take(bytes, size) {
        None => Err(MessageDecodingError::UnexpectedEof),
        Some(taken) => match utf8_to_string(taken) {
            Ok(s) => Ok(s),
            Err(valid_up_to) => {
                proof {
                    lemma_utf8_error_index(taken@, valid_up_to);
                }
                Err(MessageDecodingError::InvalidUtf8 { valid_up_to })
            },
        },
    }
}

/// Reads the one-byte size of a string field.
fn take_size(bytes: &mut &[u8]) -> (r: Result<usize, MessageDecodingError>)
    ensures
        old(bytes)@.len() == 0 ==> (r matches Err(error) && error@ == DecodeFailure::UnexpectedEof),
        old(bytes)@.len() > 0 ==> r == Ok::<usize, MessageDecodingError>(old(bytes)@[0] as usize)
            && final(bytes)@ == old(bytes)@.drop_first(),
{
    match take_first(bytes) {
        Some(size) => Ok(size as usize),
        None => Err(MessageDecodingError::UnexpectedEof),
    }
}

impl Message {
    /// Parses a binary-encoded message, as used by the Phoenix v2 JSON serializer
    pub fn decode_binary(bytes: &[u8]) -> (r: Result<Message, MessageDecodingError>)
        ensures
            match decode_binary_message(bytes@) {
                Ok(m) => r matches Ok(message) && message@ == m,
                Err(e) => r matches Err(error) && error@ == e,
            },
    {
        let ghost all = bytes@;
        if bytes.len() == 0 {
            return Err(MessageDecodingError::InvalidBinary);
        }
        let mut bytes = bytes;
        let kind = take_first(&mut bytes).unwrap();
        let ghost rest = bytes@;
        if kind == 2 {
            let topic_size = take_size(&mut bytes)?;
            let event_size = take_size(&mut bytes)?;
            assert(bytes@ == rest.skip(2));
            let topic = take_string(&mut bytes, topic_size)?;
            let event = take_string(&mut bytes, event_size)?;
            let payload = copy_bytes(bytes);
            Ok(Message::Broadcast(Broadcast {
                topic: Topic::from_string(topic),
                event_payload: EventPayload {
                    event: Event::from_string(event),
                    payload: Payload::Binary { bytes: payload },
                },
            }))
        } else if kind == 1 {
            let join_reference_size = take_size(&mut bytes)?;
            let reference_size = take_size(&mut bytes)?;
            let topic_size = take_size(&mut bytes)?;
            let status_size = take_size(&mut bytes)?;
            assert(bytes@ == rest.skip(4));
            let join_reference = take_string(&mut bytes, join_reference_size)?;
            let reference = take_string(&mut bytes, reference_size)?;
            let topic = take_string(&mut bytes, topic_size)?;
            let status = take_string(&mut bytes, status_size)?;
            let payload = copy_bytes(bytes);
            Ok(Message::Reply(Reply {
                topic: Topic::from_string(topic),
                event: Event::Phoenix { phoenix: PhoenixEvent::Reply },
                payload: Payload::Binary { bytes: payload },
                join_reference: JoinReference::from_string(join_reference),
                reference: Reference::from_string(reference),
                status: ReplyStatus::from_str(status.as_str()),
            }))
        } else if kind == 0 {
            let join_reference_size = take_size(&mut bytes)?;
            let topic_size = take_size(&mut bytes)?;
            let event_size = take_size(&mut bytes)?;
            assert(bytes@ == rest.skip(3));
            let join_reference = take_string(&mut bytes, join_reference_size)?;
            let topic = take_string(&mut bytes, topic_size)?;
            let event = take_string(&mut bytes, event_size)?;
            let payload = copy_bytes(bytes);
            Ok(Message::Push(Push {
                topic: Topic::from_string(topic),
                event_payload: EventPayload {
                    event: Event::from_string(event),
                    payload: Payload::Binary { bytes: payload },
                },
                join_reference: JoinReference::from_string(join_reference),
                reference: None,
            }))
        } else {
            Err(MessageDecodingError::Invalid { invalid: InvalidMessage::BinaryMessageType { byte: kind } })
        }
    }
}

// ---------------------------------------------------------------------------
// JSON messages

/// The value of the last entry of an object with the given key.
pub open spec fn object_get(entries: Seq<(Seq<char>, JSONView)>, key: Seq<char>) -> Option<JSONView>
    decreases entries.len(),
{
    if entries.len() == 0 {
        None
    } else if entries.last().0 == key {
        Some(entries.last().1)
    } else {
        object_get(entries.drop_last(), key)
    }
}

/// A JSON value read as an optional string: `null` is none and a string is
/// some; anything else is not an optional string.
pub open spec fn optional_string(value: JSONView) -> Option<Option<Seq<char>>> {
    match value {
        JSONView::Null => Some(None),
        JSONView::Str(s) => Some(Some(s)),
        _ => None,
    }
}

/// The message that the fields of a Phoenix v2 JSON array make up.
pub open spec fn decode_json_fields(
    join_reference: Option<Seq<char>>,
    reference: Option<Seq<char>>,
    topic: Seq<char>,
    event: EventView,
    payload: JSONView,
) -> Result<MessageView, DecodeFailure> {
    match (join_reference, reference) {
        (None, None) => Ok(MessageView::Broadcast {
            topic,
            event_payload: EventPayloadView { event, payload: PayloadView::JSON(payload) },
        }),
        (Some(join_reference), None) => Ok(MessageView::Push {
            topic,
            event_payload: EventPayloadView { event, payload: PayloadView::JSON(payload) },
            join_reference,
            reference: None,
        }),
        (Some(join_reference), Some(reference)) => {
            if event == EventView::Phoenix(PhoenixEvent::Reply) {
                match payload {
                    JSONView::Object(entries) => match (
                        object_get(entries, "status"@),
                        object_get(entries, "response"@),
                    ) {
                        (Some(JSONView::Str(status)), Some(response)) => Ok(MessageView::Reply {
                            topic,
                            event,
                            payload: PayloadView::JSON(response),
                            join_reference,
                            reference,
                            status: reply_status_from_name(status),
                        }),
                        (status, response) => Err(
                            DecodeFailure::ReplyPayloadMissingStatusResponse(status, response),
                        ),
                    },
                    _ => Err(DecodeFailure::ReplyPayloadNotObject(payload)),
                }
            } else {
                Ok(MessageView::Push {
                    topic,
                    event_payload: EventPayloadView { event, payload: PayloadView::JSON(payload) },
                    join_reference,
                    reference: Some(reference),
                })
            }
        },
        (None, Some(reference)) => match event {
            EventView::Phoenix(_) => Ok(
                MessageView::Control {
                    event,
                    payload: PayloadView::JSON(payload),
                    reference: Some(reference),
                },
            ),
            EventView::User(_) => Err(DecodeFailure::UnrecognizedControlEvent(event)),
        },
    }
}

/// A Phoenix v2 JSON message: the array `[join_ref, ref, topic, event, payload]`,
/// whose fields are checked from the event back to the join reference.
pub open spec fn decode_json_message(value: JSONView) -> Result<MessageView, DecodeFailure> {
    match value {
        JSONView::Array(fields) => {
            if fields.len() != 5 {
                Err(DecodeFailure::NotV2Array(value))
            } else {
                match fields[3] {
                    JSONView::Str(event) => match fields[2] {
                        JSONView::Str(topic) => match optional_string(fields[1]) {
                            None => Err(DecodeFailure::ReferenceNotStringOrNull(fields[1])),
                            Some(reference) => match optional_string(fields[0]) {
                                None => Err(DecodeFailure::JoinReferenceNotStringOrNull(fields[0])),
                                Some(join_reference) => decode_json_fields(
                                    join_reference,
                                    reference,
                                    topic,
                                    event_from_name(event),
                                    fields[4],
                                ),
                            },
                        },
                        _ => Err(DecodeFailure::TopicNotString(fields[2])),
                    },
                    _ => Err(DecodeFailure::EventNotString(fields[3])),
                }
            }
        },
        _ => Err(DecodeFailure::NotV2Array(value)),
    }
}

/// Takes the `status` and `response` values out of a reply payload object.
fn take_status_response(object: Vec<(String, JSON)>) -> (r: (Option<JSON>, Option<JSON>))
    ensures
        opt_json_view(r.0) == object_get(crate::json::view_entries(&object, object.len() as nat), "status"@),
        opt_json_view(r.1) == object_get(crate::json::view_entries(&object, object.len() as nat), "response"@),
{
    let ghost entries = crate::json::view_entries(&object, object.len() as nat);
    proof {
        lemma_object_view(&object);
    }
    assert(entries.take(object.len() as int) =~= entries);
    proof {
        reveal_strlit("status");
        reveal_strlit("response");
        assert(("status"@).len() != ("response"@).len());
    }
    let mut object = object;
    let mut status: Option<JSON> = None;
    let mut response: Option<JSON> = None;
    while object.len() > 0
        invariant
            "status"@ != "response"@,
            object.len() <= entries.len(),
            forall|i: int| 0 <= i < object.len() ==> (#[trigger] object@[i]).0@ == entries[i].0
                && object@[i].1@ == entries[i].1,
            status is None ==> object_get(entries, "status"@) == object_get(entries.take(object.len() as int), "status"@),
            status is Some ==> object_get(entries, "status"@) == opt_json_view(status),
            response is None ==> object_get(entries, "response"@) == object_get(entries.take(object.len() as int), "response"@),
            response is Some ==> object_get(entries, "response"@) == opt_json_view(response),
        decreases object.len(),
    {
        let ghost current = entries.take(object.len() as int);
        let ghost n = object.len();
        let (key, value) = object.pop().unwrap();
        assert(current.last() == entries[n - 1]);
        assert(current.drop_last() =~= entries.take(object.len() as int));
        if status.is_none() && str_eq(key.as_str(), "status") {
            status = Some(value);
        } else if response.is_none() && str_eq(key.as_str(), "response") {
            response = Some(value);
        }
    }
    assert(entries.take(0) =~= Seq::<(Seq<char>, JSONView)>::empty());
    (status, response)
}

impl Message {
    /// Parses a JSON-encoded message (using the Phoenix JSON v2 serializer representation)
    pub fn decode_json(json: JSON) -> (r: Result<Message, MessageDecodingError>)
        ensures
            match decode_json_message(json@) {
                Ok(m) => r matches Ok(message) && message@ == m,
                Err(e) => r matches Err(error) && error@ == e,
            },
    {
        let array = match json {
            JSON::Array { array } => array,
            other => {
                return Err(MessageDecodingError::Invalid { invalid: InvalidMessage::NotV2Array { found: other } });
            },
        };
        proof {
            lemma_array_view(&array);
        }
        if array.len() != 5 {
            return Err(MessageDecodingError::Invalid { invalid: InvalidMessage::NotV2Array { found: JSON::Array { array } } });
        }
        let ghost fields = crate::json::view_elements(&array, array.len() as nat);
        proof {
            lemma_array_view(&array);
        }
        let mut array = array;
        let payload = array.pop().unwrap();
        let event = match array.pop().unwrap() {
            JSON::Str { string } => Event::from_string(string),
            other => {
                return Err(MessageDecodingError::Invalid { invalid: InvalidMessage::EventNotString { found: other } });
            },
        };
        let topic = match array.pop().unwrap() {
            JSON::Str { string } => Topic::from_string(string),
            other => {
                return Err(MessageDecodingError::Invalid { invalid: InvalidMessage::TopicNotString { found: other } });
            },
        };
        let reference = match array.pop().unwrap() {
            JSON::Null => None,
            JSON::Str { string } => Some(Reference::from_string(string)),
            other => {
                return Err(MessageDecodingError::Invalid { invalid: InvalidMessage::ReferenceNotStringOrNull { found: other } });
            },
        };
        let join_reference = match array.pop().unwrap() {
            JSON::Null => None,
            JSON::Str { string } => Some(JoinReference::from_string(string)),
            other => {
                return Err(MessageDecodingError::Invalid { invalid: InvalidMessage::JoinReferenceNotStringOrNull { found: other } });
            },
        };
        match (join_reference, reference) {
            (None, None) => Ok(Message::Broadcast(Broadcast {
                topic,
                event_payload: EventPayload { event, payload: Payload::JSON { json: payload } },
            })),
            (Some(join_reference), None) => Ok(Message::Push(Push {
                topic,
                event_payload: EventPayload { event, payload: Payload::JSON { json: payload } },
                join_reference,
                reference: None,
            })),
            (Some(join_reference), Some(reference)) => {
                if event.is_phoenix(PhoenixEvent::Reply) {
                    match payload {
                        JSON::Object { object } => {
                            let (status, response) = take_status_response(object);
                            match (status, response) {
                                (Some(JSON::Str { string }), Some(response)) => Ok(Message::Reply(Reply {
                                    topic,
                                    event,
                                    payload: Payload::JSON { json: response },
                                    join_reference,
                                    reference,
                                    status: ReplyStatus::from_str(string.as_str()),
                                })),
                                (status, response) => Err(MessageDecodingError::Invalid {
                                    invalid: InvalidMessage::ReplyPayloadMissingStatusResponse { status, response },
                                }),
                            }
                        },
                        other => Err(MessageDecodingError::Invalid { invalid: InvalidMessage::ReplyPayloadNotObject { found: other } }),
                    }
                } else {
                    Ok(Message::Push(Push {
                        topic,
                        event_payload: EventPayload { event, payload: Payload::JSON { json: payload } },
                        join_reference,
                        reference: Some(reference),
                    }))
                }
            },
            (None, Some(reference)) => match event {
                Event::Phoenix { phoenix } => Ok(Message::Control(Control {
                    event: Event::Phoenix { phoenix },
                    payload: Payload::JSON { json: payload },
                    reference: Some(reference),
                })),
                other => Err(MessageDecodingError::Invalid { invalid: InvalidMessage::UnrecognizedControlEvent { event: other } }),
            },
        }
    }

    /// Decodes a message from the JSON text of a web socket text frame: the
    /// text is parsed as JSON, then read as a Phoenix v2 message.
    pub fn decode_json_text(text: &str) -> (r: Result<Message, MessageDecodingError>)
        ensures
            match json_parse(text@) {
                Err(e) => r matches Err(error) && error@ == DecodeFailure::Json(e),
                Ok(json) => match decode_json_message(json) {
                    Ok(m) => r matches Ok(decoded) && decoded@ == m,
                    Err(e) => r matches Err(error) && error@ == e,
                },
            },
    {
        match parse_json(text) {
            Ok(json) => Message::decode_json(json),
            Err(error) => Err(MessageDecodingError::Json { error }),
        }
    }

    /// Decodes a message received over the web socket.
    pub fn decode(message: EncodedMessage) -> (r: Result<Message, MessageDecodingError>)
        ensures
            match (match message@ {
                EncodedView::Binary(bytes) => decode_binary_message(bytes),
                EncodedView::Text(json) => decode_json_message(json),
            }) {
                Ok(m) => r matches Ok(decoded) && decoded@ == m,
                Err(e) => r matches Err(error) && error@ == e,
            },
    {
        match message {
            EncodedMessage::Text { json } => Message::decode_json(json),
            EncodedMessage::Binary { bytes } => Message::decode_binary(bytes.as_slice()),
        }
    }
}

/// The messages whose Phoenix v2 JSON form reads back as the same message:
/// JSON payloads with a canonical event name, where a broadcast has no
/// references, a push that carries a reference is not a `phx_reply`, and a
/// control message carries a reference and a Phoenix event.  (A reply is
/// written with its event in place of its status, so it never reads back.)
pub open spec fn json_form_reads_back(message: MessageView) -> bool {
    &&& message_payload_is_json(message)
    &&& match message {
        MessageView::Broadcast { event_payload, .. } => event_is_canonical(event_payload.event),
        MessageView::Push { event_payload, reference, .. } => {
            &&& event_is_canonical(event_payload.event)
            &&& (reference is Some ==> event_payload.event != EventView::Phoenix(PhoenixEvent::Reply))
        },
        MessageView::Control { event, reference, .. } => reference is Some && event is Phoenix,
        MessageView::Reply { .. } => false,
    }
}

pub open spec fn message_payload_is_json(message: MessageView) -> bool {
    crate::message::message_payload(message) is JSON
}

/// Decoding the JSON form of a message that reads back gives the message.
pub proof fn lemma_json_round_trip(message: MessageView)
    requires
        json_form_reads_back(message),
    ensures
        decode_json_message(encode_json_value(message)) == Ok::<MessageView, DecodeFailure>(message),
{
    match message {
        MessageView::Broadcast { event_payload, .. } => {
            lemma_event_name_round_trip(event_payload.event, Seq::empty());
        },
        MessageView::Push { event_payload, .. } => {
            lemma_event_name_round_trip(event_payload.event, Seq::empty());
        },
        MessageView::Control { event, .. } => {
            lemma_event_name_round_trip(event, Seq::empty());
        },
        MessageView::Reply { .. } => {},
    }
}

/// A JSON reply reads its status from the `status` string of its payload:
/// `ok` is a success and any other string an error; its payload is the
/// `response`, and its references and topic are the array's fields.
pub proof fn lemma_json_reply_status(
    join_reference: Seq<char>,
    reference: Seq<char>,
    topic: Seq<char>,
    entries: Seq<(Seq<char>, JSONView)>,
    status: Seq<char>,
    response: JSONView,
)
    requires
        object_get(entries, "status"@) == Some(JSONView::Str(status)),
        object_get(entries, "response"@) == Some(response),
    ensures
        decode_json_message(
            JSONView::Array(
                seq![
                    JSONView::Str(join_reference),
                    JSONView::Str(reference),
                    JSONView::Str(topic),
                    JSONView::Str("phx_reply"@),
                    JSONView::Object(entries),
                ],
            ),
        ) == Ok::<MessageView, DecodeFailure>(
            MessageView::Reply {
                topic,
                event: EventView::Phoenix(PhoenixEvent::Reply),
                payload: PayloadView::JSON(response),
                join_reference,
                reference,
                status: if status == "ok"@ {
                    ReplyStatus::Okay
                } else {
                    ReplyStatus::Error
                },
            },
        ),
{
    crate::event::lemma_phoenix_event_name_round_trip(PhoenixEvent::Reply);
}

} // verus!
