use vstd::prelude::*;
use vstd::utf8::encode_utf8;

use crate::event::{event_name, EventView};
use crate::json::{lemma_array_view, JSONView, JSON};
use crate::message::{
    append_bytes, message_payload, opt_view, payload_bytes, Broadcast, Control, Message, MessageView,
    Payload, PayloadView, Push, Reference, Reply,
};
use crate::text::{owned, utf8_bytes};

verus! {

broadcast use vstd::string::group_string_axioms;

/// Occurs when encoding messages to send to the server
#[derive(Clone, Copy, Debug, PartialEq, Eq, Structural)]
pub struct MessageEncodingError;

/// A message in the form it travels over the web socket: a binary frame, or a
/// text frame holding a JSON value.
#[derive(Debug)]
pub enum EncodedMessage {
    Binary { bytes: Vec<u8> },
    Text { json: JSON },
}

pub enum EncodedView {
    Binary(Seq<u8>),
    Text(JSONView),
}

impl View for EncodedMessage {
    type V = EncodedView;

    open spec fn view(&self) -> EncodedView {
        match self {
            EncodedMessage::Binary { bytes } => EncodedView::Binary(bytes@),
            EncodedMessage::Text { json } => EncodedView::Text(json@),
        }
    }
}

/// The four strings a client binary frame carries for a message: join
/// reference, reference, topic and event name, empty where the message has none.
pub open spec fn binary_fields(message: MessageView) -> (Seq<char>, Seq<char>, Seq<char>, Seq<char>) {
    match message {
        MessageView::Control { event, reference, .. } => (
            Seq::empty(),
            match reference {
                Some(r) => r,
                None => Seq::empty(),
            },
            "phoenix"@,
            event_name(event),
        ),
        MessageView::Broadcast { topic, event_payload } => (
            Seq::empty(),
            Seq::empty(),
            topic,
            event_name(event_payload.event),
        ),
        MessageView::Reply { topic, event, join_reference, reference, .. } => (
            join_reference,
            reference,
            topic,
            event_name(event),
        ),
        MessageView::Push { topic, event_payload, join_reference, reference } => (
            join_reference,
            match reference {
                Some(r) => r,
                None => Seq::empty(),
            },
            topic,
            event_name(event_payload.event),
        ),
    }
}

/// The client binary frame of a message: the push type byte 0, the byte
/// lengths of the four strings, the strings' UTF-8 bytes and the payload
/// bytes.  There is none when a string is longer than 255 bytes.
pub open spec fn encode_binary_frame(message: MessageView) -> Option<Seq<u8>> {
    let (join_reference, reference, topic, event) = binary_fields(message);
    let j = encode_utf8(join_reference);
    let r = encode_utf8(reference);
    let t = encode_utf8(topic);
    let e = encode_utf8(event);
    if j.len() > 255 || r.len() > 255 || t.len() > 255 || e.len() > 255 {
        None
    } else {
        Some(
            seq![0u8, j.len() as u8, r.len() as u8, t.len() as u8, e.len() as u8] + j + r + t + e
                + payload_bytes(message_payload(message)),
        )
    }
}

/// The JSON value of a payload (`null` for a binary one).
pub open spec fn payload_json(payload: PayloadView) -> JSONView {
    match payload {
        PayloadView::JSON(json) => json,
        PayloadView::Binary(_) => JSONView::Null,
    }
}

/// An optional reference as JSON: its text, or `null`.
pub open spec fn optional_string_json(s: Option<Seq<char>>) -> JSONView {
    match s {
        Some(s) => JSONView::Str(s),
        None => JSONView::Null,
    }
}

/// The Phoenix v2 JSON form of a message: the array
/// `[join_ref, ref, topic, event, payload]`.
pub open spec fn encode_json_value(message: MessageView) -> JSONView {
    match message {
        MessageView::Control { event, payload, reference } => JSONView::Array(
            seq![
                JSONView::Null,
                optional_string_json(reference),
                JSONView::Str("phoenix"@),
                JSONView::Str(event_name(event)),
                payload_json(payload),
            ],
        ),
        MessageView::Broadcast { topic, event_payload } => JSONView::Array(
            seq![
                JSONView::Null,
                JSONView::Null,
                JSONView::Str(topic),
                JSONView::Str(event_name(event_payload.event)),
                payload_json(event_payload.payload),
            ],
        ),
        MessageView::Reply { topic, event, payload, join_reference, reference, .. } => JSONView::Array(
            seq![
                JSONView::Str(join_reference),
                JSONView::Str(reference),
                JSONView::Str(topic),
                JSONView::Str(event_name(event)),
                payload_json(payload),
            ],
        ),
        MessageView::Push { topic, event_payload, join_reference, reference } => JSONView::Array(
            seq![
                JSONView::Str(join_reference),
                optional_string_json(reference),
                JSONView::Str(topic),
                JSONView::Str(event_name(event_payload.event)),
                payload_json(event_payload.payload),
            ],
        ),
    }
}

/// How a message is sent: as a binary frame when its payload is binary, and
/// as JSON text otherwise.
pub open spec fn encode_message(message: MessageView) -> Option<EncodedView> {
    if message_payload(message) is Binary {
        match encode_binary_frame(message) {
            Some(bytes) => Some(EncodedView::Binary(bytes)),
            None => None,
        }
    } else {
        Some(EncodedView::Text(encode_json_value(message)))
    }
}

/// An optional reference as a JSON value.
fn optional_reference_json(reference: Option<Reference>) -> (j: JSON)
    ensures
        j@ == optional_string_json(opt_view(reference)),
{
    match reference {
        Some(r) => JSON::Str { string: r.to_string() },
        None => JSON::Null,
    }
}

/// The text of an optional reference, empty when there is none.
fn optional_reference_text(reference: Option<Reference>) -> (s: String)
    ensures
        s@ == (match opt_view(reference) {
            Some(r) => r,
            None => Seq::empty(),
        }),
{
    match reference {
        Some(r) => r.to_string(),
        None => {
            proof {
                reveal_strlit("");
            }
            owned("")
        },
    }
}

/// The JSON array of five values.
fn json_array5(a: JSON, b: JSON, c: JSON, d: JSON, e: JSON) -> (j: JSON)
    ensures
        j@ == JSONView::Array(seq![a@, b@, c@, d@, e@]),
{
    let ghost views = seq![a@, b@, c@, d@, e@];
    let mut array: Vec<JSON> = Vec::new();
    array.push(a);
    array.push(b);
    array.push(c);
    array.push(d);
    array.push(e);
    proof {
        lemma_array_view(&array);
        assert(crate::json::view_elements(&array, array.len() as nat) =~= views);
    }
    JSON::Array { array }
}

impl Message {
    /// Encodes this message for transport over WebSocket
    pub fn encode(self) -> (r: Result<EncodedMessage, MessageEncodingError>)
        ensures
            r matches Ok(encoded) ==> encode_message(self@) == Some(encoded@),
            r is Err <==> encode_message(self@) is None,
    {
        if self.payload().is_binary() {
            let bytes = self.encode_binary()?;
            Ok(EncodedMessage::Binary { bytes })
        } else {
            Ok(EncodedMessage::Text { json: self.encode_json() })
        }
    }

    /// The encoding used for client-sent messages differs from that of server-sent messages.
    ///
    /// See the Phoenix Channels js client for reference.
    pub fn encode_binary(self) -> (r: Result<Vec<u8>, MessageEncodingError>)
        requires
            message_payload(self@) is Binary,
        ensures
            r matches Ok(bytes) ==> encode_binary_frame(self@) == Some(bytes@),
            r is Err <==> encode_binary_frame(self@) is None,
    {
        let ghost m = self@;
        proof {
            reveal_strlit("");
        }
        let (join_reference, reference, topic, event, payload): (String, String, String, String, Vec<u8>) =
            match self {
            Message::Control(Control { event, payload, reference }) => (
                owned(""),
                optional_reference_text(reference),
                owned("phoenix"),
                event.to_string(),
                payload.into_binary().unwrap(),
            ),
            Message::Broadcast(Broadcast { topic, event_payload }) => (
                owned(""),
                owned(""),
                topic.to_string(),
                event_payload.event.to_string(),
                event_payload.payload.into_binary().unwrap(),
            ),
            Message::Reply(Reply { topic, event, payload, join_reference, reference, .. }) => (
                join_reference.to_string(),
                reference.to_string(),
                topic.to_string(),
                event.to_string(),
                payload.into_binary().unwrap(),
            ),
            Message::Push(Push { topic, event_payload, join_reference, reference }) => (
                join_reference.to_string(),
                optional_reference_text(reference),
                topic.to_string(),
                event_payload.event.to_string(),
                event_payload.payload.into_binary().unwrap(),
            ),
        };
        assert(binary_fields(m) == (join_reference@, reference@, topic@, event@));
        assert(payload_bytes(message_payload(m)) == payload@);
        let j = utf8_bytes(join_reference.as_str());
        let r = utf8_bytes(reference.as_str());
        let t = utf8_bytes(topic.as_str());
        let e = utf8_bytes(event.as_str());
        if j.len() > 255 || r.len() > 255 || t.len() > 255 || e.len() > 255 {
            return Err(MessageEncodingError);
        }
        let mut buffer: Vec<u8> = Vec::new();
        buffer.push(0u8);
        buffer.push(j.len() as u8);
        buffer.push(r.len() as u8);
        buffer.push(t.len() as u8);
        buffer.push(e.len() as u8);
        assert(buffer@ =~= seq![0u8, j@.len() as u8, r@.len() as u8, t@.len() as u8, e@.len() as u8]);
        append_bytes(&mut buffer, j);
        append_bytes(&mut buffer, r);
        append_bytes(&mut buffer, t);
        append_bytes(&mut buffer, e);
        append_bytes(&mut buffer, payload.as_slice());
        Ok(buffer)
    }

    /// The Phoenix v2 JSON array of this message.
    pub fn encode_json(self) -> (j: JSON)
        ensures
            j@ == encode_json_value(self@),
    {
        let ghost m = self@;
        match self {
            Message::Control(Control { event, payload, reference }) => {
                let payload_value = match payload {
                    Payload::JSON { json } => json,
                    Payload::Binary { .. } => JSON::Null,
                };
                json_array5(
                    JSON::Null,
                    optional_reference_json(reference),
                    JSON::Str { string: owned("phoenix") },
                    JSON::Str { string: event.to_string() },
                    payload_value,
                )
            },
            Message::Broadcast(Broadcast { topic, event_payload }) => {
                let payload_value = match event_payload.payload {
                    Payload::JSON { json } => json,
                    Payload::Binary { .. } => JSON::Null,
                };
                json_array5(
                    JSON::Null,
                    JSON::Null,
                    JSON::Str { string: topic.to_string() },
                    JSON::Str { string: event_payload.event.to_string() },
                    payload_value,
                )
            },
            Message::Reply(Reply { topic, event, payload, join_reference, reference, .. }) => {
                let payload_value = match payload {
                    Payload::JSON { json } => json,
                    Payload::Binary { .. } => JSON::Null,
                };
                json_array5(
                    JSON::Str { string: join_reference.to_string() },
                    JSON::Str { string: reference.to_string() },
                    JSON::Str { string: topic.to_string() },
                    JSON::Str { string: event.to_string() },
                    payload_value,
                )
            },
            Message::Push(Push { topic, event_payload, join_reference, reference }) => {
                let payload_value = match event_payload.payload {
                    Payload::JSON { json } => json,
                    Payload::Binary { .. } => JSON::Null,
                };
                json_array5(
                    JSON::Str { string: join_reference.to_string() },
                    optional_reference_json(reference),
                    JSON::Str { string: topic.to_string() },
                    JSON::Str { string: event_payload.event.to_string() },
                    payload_value,
                )
            },
        }
    }
}

} // verus!
