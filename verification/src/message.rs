use vstd::prelude::*;
use vstd::utf8::encode_utf8;

use crate::event::{event_name, Event, EventView, PhoenixEvent, ReplyStatus};
use crate::json::{json_wf, JSONDeserializationError, JSONView, JSON};
use crate::json_text::{json_parse, parse_json};
use crate::text::{owned, push_ascii, push_text, text_of_encoding, utf8_bytes};

verus! {

broadcast use vstd::string::group_string_axioms;

/// A [Channel](crate) topic.
#[derive(Clone, Debug, Hash)]
pub struct Topic(String);

impl View for Topic {
    type V = Seq<char>;

    closed spec fn view(&self) -> Seq<char> {
        self.0@
    }
}

impl Topic {
    /// Create [Topic] from string.
    pub fn from_string(topic: String) -> (t: Topic)
        ensures
            t@ == topic@,
    {
        Topic(topic)
    }

    /// The topic's name.
    pub fn as_str(&self) -> (s: &str)
        ensures
            s@ == self@,
    {
        self.0.as_str()
    }

    /// The topic's name as an owned string (its `Display` form).
    pub fn to_string(&self) -> (s: String)
        ensures
            s@ == self@,
    {
        self.0.clone()
    }

    /// A copy of this topic.
    pub fn copy(&self) -> (t: Topic)
        ensures
            t@ == self@,
    {
        Topic(self.0.clone())
    }
}

/// A unique ID for a message that is used for associating messages with their replies.
#[derive(Clone, Debug, Hash)]
pub struct Reference(String);

impl View for Reference {
    type V = Seq<char>;

    closed spec fn view(&self) -> Seq<char> {
        self.0@
    }
}

impl Reference {
    /// The reference with the given text.
    pub fn from_string(reference: String) -> (r: Reference)
        ensures
            r@ == reference@,
    {
        Reference(reference)
    }

    /// The reference with the given text.
    pub fn from_str(reference: &str) -> (r: Reference)
        ensures
            r@ == reference@,
    {
        Reference(owned(reference))
    }

    /// The reference's text.
    pub fn as_str(&self) -> (s: &str)
        ensures
            s@ == self@,
    {
        self.0.as_str()
    }

    /// The reference's text as an owned string (its `Display` form).
    pub fn to_string(&self) -> (s: String)
        ensures
            s@ == self@,
    {
        self.0.clone()
    }

    /// A copy of this reference.
    pub fn copy(&self) -> (r: Reference)
        ensures
            r@ == self@,
    {
        Reference(self.0.clone())
    }

    /// Whether two references have the same text.
    pub fn same(&self, other: &Reference) -> (r: bool)
        ensures
            r == (self@ == other@),
    {
        self.0 == other.0
    }
}

impl Default for Reference {
    /// The empty reference.
    fn default() -> (r: Reference)
        ensures
            r@ == Seq::<char>::empty(),
    {
        Reference(String::new())
    }
}

/// An upper-case hexadecimal digit.
pub open spec fn is_upper_hex(c: char) -> bool {
    ('0' <= c && c <= '9') || ('A' <= c && c <= 'F')
}

/// The hyphenated upper-case text of a version 4, RFC 4122 variant UUID:
/// 36 characters, hyphens at 8, 13, 18 and 23, the version digit `4` at 14,
/// a variant digit of `8`, `9`, `A` or `B` at 19, and hexadecimal digits
/// elsewhere.
pub open spec fn is_uuid_v4_text(s: Seq<char>) -> bool {
    &&& s.len() == 36
    &&& forall|i: int|
        0 <= i < 36 ==> if i == 8 || i == 13 || i == 18 || i == 23 {
            #[trigger] s[i] == '-'
        } else {
            is_upper_hex(s[i])
        }
    &&& s[14] == '4'
    &&& (s[19] == '8' || s[19] == '9' || s[19] == 'A' || s[19] == 'B')
}

/// The text of a fresh random UUID from `uuid::Uuid::new_v4`, written
/// hyphenated in upper case (`Hyphenated::encode_upper`).  The UUID is
/// random: only its form is stated.
#[verifier::external_body]
fn uuid_text() -> (s: String)
    ensures
        is_uuid_v4_text(s@),
{
    uuid::Uuid::new_v4().hyphenated().encode_upper(&mut uuid::Uuid::encode_buffer()).to_owned()
}

impl Reference {
    /// A fresh reference: `prefix` followed by a random UUID.
    pub fn prefixed(prefix: &str) -> (r: Reference)
        ensures
            r@.len() == prefix@.len() + 36,
            r@.subrange(0, prefix@.len() as int) == prefix@,
            is_uuid_v4_text(r@.subrange(prefix@.len() as int, r@.len() as int)),
    {
        let uuid = uuid_text();
        let mut buffer: Vec<u8> = Vec::new();
        assert(buffer@ =~= encode_utf8(Seq::<char>::empty()));
        push_text(&mut buffer, prefix, Ghost(Seq::empty()));
        assert(Seq::<char>::empty() + prefix@ =~= prefix@);
        push_text(&mut buffer, uuid.as_str(), Ghost(prefix@));
        let text = text_of_encoding(buffer.as_slice(), Ghost(prefix@ + uuid@));
        assert(text@.subrange(0, prefix@.len() as int) =~= prefix@);
        assert(text@.subrange(prefix@.len() as int, text@.len() as int) =~= uuid@);
        Reference(text)
    }

    /// A fresh reference for a message: a random UUID.
    pub fn new() -> (r: Reference)
        ensures
            is_uuid_v4_text(r@),
    {
        proof {
            reveal_strlit("");
        }
        let r = Reference::prefixed("");
        assert(r@.subrange(0, r@.len() as int) =~= r@);
        r
    }

    /// A fresh reference for a heartbeat: `heartbeat:` followed by a random UUID.
    pub fn heartbeat() -> (r: Reference)
        ensures
            r@.len() == 46,
            r@.subrange(0, 10) == "heartbeat:"@,
            is_uuid_v4_text(r@.subrange(10, 46)),
    {
        proof {
            reveal_strlit("heartbeat:");
        }
        Reference::prefixed("heartbeat:")
    }
}

impl JoinReference {
    /// A fresh join reference: a random UUID.
    pub fn new() -> (r: JoinReference)
        ensures
            is_uuid_v4_text(r@),
    {
        JoinReference(Reference::new())
    }
}

/// The unique reference of a channel member, chosen by the client when it joins a channel.
#[derive(Clone, Debug, Hash)]
pub struct JoinReference(Reference);

impl View for JoinReference {
    type V = Seq<char>;

    closed spec fn view(&self) -> Seq<char> {
        self.0@
    }
}

impl JoinReference {
    /// The join reference with the given text.
    pub fn from_string(join_reference: String) -> (r: JoinReference)
        ensures
            r@ == join_reference@,
    {
        JoinReference(Reference::from_string(join_reference))
    }

    /// The join reference with the given text.
    pub fn from_str(join_reference: &str) -> (r: JoinReference)
        ensures
            r@ == join_reference@,
    {
        JoinReference(Reference::from_str(join_reference))
    }

    /// The join reference's text.
    pub fn as_str(&self) -> (s: &str)
        ensures
            s@ == self@,
    {
        self.0.as_str()
    }

    /// The join reference's text as an owned string (its `Display` form).
    pub fn to_string(&self) -> (s: String)
        ensures
            s@ == self@,
    {
        self.0.to_string()
    }

    /// A copy of this join reference.
    pub fn copy(&self) -> (r: JoinReference)
        ensures
            r@ == self@,
    {
        JoinReference(self.0.copy())
    }

    /// Whether two join references have the same text.
    pub fn same(&self, other: &JoinReference) -> (r: bool)
        ensures
            r == (self@ == other@),
    {
        self.0.same(&other.0)
    }
}

/// Contains the response payload sent to/received from Phoenix
#[derive(Debug)]
pub enum Payload {
    /// A JSON payload
    JSON {
        /// The JSON payload
        json: JSON,
    },
    /// A binary payload
    Binary {
        /// The bytes of the binary payload.
        bytes: Vec<u8>,
    },
}

/// The abstract value of a payload.
pub enum PayloadView {
    JSON(JSONView),
    Binary(Seq<u8>),
}

impl View for Payload {
    type V = PayloadView;

    open spec fn view(&self) -> PayloadView {
        match self {
            Payload::JSON { json } => PayloadView::JSON(json@),
            Payload::Binary { bytes } => PayloadView::Binary(bytes@),
        }
    }
}

/// The bytes of a binary payload (nothing for a JSON payload).
pub open spec fn payload_bytes(payload: PayloadView) -> Seq<u8> {
    match payload {
        PayloadView::Binary(bytes) => bytes,
        PayloadView::JSON(_) => Seq::empty(),
    }
}

/// A copy of a byte sequence.
pub fn copy_bytes(bytes: &[u8]) -> (r: Vec<u8>)
    ensures
        r@ == bytes@,
{
    let mut r: Vec<u8> = Vec::new();
    let mut i: usize = 0;
    while i < bytes.len()
        invariant
            0 <= i <= bytes@.len(),
            r@ == bytes@.subrange(0, i as int),
        decreases bytes@.len() - i,
    {
        r.push(bytes[i]);
        i = i + 1;
        assert(r@ =~= bytes@.subrange(0, i as int));
    }
    assert(bytes@.subrange(0, bytes@.len() as int) =~= bytes@);
    r
}

/// Appends `bytes` to `buffer`.
pub fn append_bytes(buffer: &mut Vec<u8>, bytes: &[u8])
    ensures
        final(buffer)@ == old(buffer)@ + bytes@,
{
    let mut i: usize = 0;
    while i < bytes.len()
        invariant
            0 <= i <= bytes@.len(),
            buffer@ == old(buffer)@ + bytes@.subrange(0, i as int),
        decreases bytes@.len() - i,
    {
        buffer.push(bytes[i]);
        i = i + 1;
        assert(buffer@ =~= old(buffer)@ + bytes@.subrange(0, i as int));
    }
    assert(bytes@.subrange(0, bytes@.len() as int) =~= bytes@);
}

/// The lowercase hexadecimal digit for `n`, below 16.
pub open spec fn hex_digit(n: int) -> char {
    if n < 10 {
        (48 + n) as char
    } else {
        (87 + n) as char
    }
}

/// A byte as a binary payload displays it: `0x` and two lowercase hexadecimal
/// digits.
pub open spec fn byte_text(b: u8) -> Seq<char> {
    seq!['0', 'x', hex_digit((b / 16) as int), hex_digit((b % 16) as int)]
}

/// The bytes' texts, separated by `, `.
pub open spec fn byte_list_text(bytes: Seq<u8>) -> Seq<char>
    decreases bytes.len(),
{
    if bytes.len() == 0 {
        Seq::empty()
    } else if bytes.len() == 1 {
        byte_text(bytes[0])
    } else {
        byte_list_text(bytes.drop_last()) + seq![',', ' '] + byte_text(bytes.last())
    }
}

/// How a binary payload displays: its bytes between `<<` and `>>`, as in
/// `<<0x01, 0xff>>`.
pub open spec fn binary_payload_text(bytes: Seq<u8>) -> Seq<char> {
    seq!['<', '<'] + byte_list_text(bytes) + seq!['>', '>']
}

/// The code of the hexadecimal digit for `n`.
fn hex_digit_code(n: u8) -> (c: u8)
    requires
        n < 16,
    ensures
        c < 128,
        c as char == hex_digit(n as int),
{
    if n < 10 {
        48 + n
    } else {
        87 + n
    }
}

/// The text that a binary payload of `bytes` displays as, such as
/// `<<0x01, 0xff>>`.
pub fn binary_text(bytes: &[u8]) -> (s: String)
    ensures
        s@ == binary_payload_text(bytes@),
{
    let mut buffer: Vec<u8> = Vec::new();
    let ghost mut chars: Seq<char> = Seq::empty();
    assert(buffer@ =~= encode_utf8(chars));
    push_ascii(&mut buffer, 60, Ghost(chars));
    proof {
        chars = chars.push('<');
    }
    push_ascii(&mut buffer, 60, Ghost(chars));
    proof {
        chars = chars.push('<');
        assert(chars =~= seq!['<', '<'] + byte_list_text(bytes@.subrange(0, 0)));
    }
    let mut i: usize = 0;
    while i < bytes.len()
        invariant
            0 <= i <= bytes@.len(),
            buffer@ == encode_utf8(chars),
            chars == seq!['<', '<'] + byte_list_text(bytes@.subrange(0, i as int)),
        decreases bytes@.len() - i,
    {
        let ghost before = chars;
        if i > 0 {
            push_ascii(&mut buffer, 44, Ghost(chars));
            proof {
                chars = chars.push(',');
            }
            push_ascii(&mut buffer, 32, Ghost(chars));
            proof {
                chars = chars.push(' ');
            }
        }
        let b = bytes[i];
        push_ascii(&mut buffer, 48, Ghost(chars));
        proof {
            chars = chars.push('0');
        }
        push_ascii(&mut buffer, 120, Ghost(chars));
        proof {
            chars = chars.push('x');
        }
        let high = hex_digit_code(b / 16);
        push_ascii(&mut buffer, high, Ghost(chars));
        proof {
            chars = chars.push(high as char);
        }
        let low = hex_digit_code(b % 16);
        push_ascii(&mut buffer, low, Ghost(chars));
        proof {
            chars = chars.push(low as char);
            let taken = bytes@.subrange(0, i + 1);
            assert(taken.drop_last() =~= bytes@.subrange(0, i as int));
            assert(taken.last() == b);
            if i == 0 {
                assert(byte_list_text(bytes@.subrange(0, 0)) =~= Seq::<char>::empty());
                assert(chars =~= seq!['<', '<'] + byte_text(b));
            } else {
                assert(chars =~= before + seq![',', ' '] + byte_text(b));
            }
        }
        i = i + 1;
    }
    push_ascii(&mut buffer, 62, Ghost(chars));
    proof {
        chars = chars.push('>');
    }
    push_ascii(&mut buffer, 62, Ghost(chars));
    proof {
        chars = chars.push('>');
        assert(bytes@.subrange(0, bytes@.len() as int) =~= bytes@);
        assert(chars =~= binary_payload_text(bytes@));
    }
    text_of_encoding(buffer.as_slice(), Ghost(chars))
}

impl Default for Payload {
    /// The payload sent when none is given: an empty JSON object.
    fn default() -> (p: Payload)
        ensures
            p@ == PayloadView::JSON(JSONView::Object(Seq::empty())),
    {
        let object: Vec<(String, JSON)> = Vec::new();
        proof {
            crate::json::lemma_object_view(&object);
        }
        let p = Payload::JSON { json: JSON::Object { object } };
        assert(p@ matches PayloadView::JSON(JSONView::Object(entries)) && entries =~= Seq::empty());
        p
    }
}

impl Payload {
    /// Deserializes JSON text into a JSON payload.
    pub fn json_from_serialized(serialized_json: String) -> (r: Result<Payload, JSONDeserializationError>)
        ensures
            match r {
                Ok(p) => json_parse(serialized_json@) matches Ok(j) && p@ == PayloadView::JSON(j) && json_wf(j),
                Err(e) => json_parse(serialized_json@) == Err::<JSONView, JSONDeserializationError>(e),
            },
    {
        match parse_json(serialized_json.as_str()) {
            Ok(json) => Ok(Payload::JSON { json }),
            Err(error) => Err(error),
        }
    }
}

impl Payload {
    /// Stores bytes in [Payload::Binary].
    pub fn binary_from_bytes(bytes: Vec<u8>) -> (p: Payload)
        ensures
            p@ == PayloadView::Binary(bytes@),
    {
        Payload::Binary { bytes }
    }

    /// * `true` - this is a JSON payload.
    /// * `false` - this is a binary payload.
    pub fn is_value(&self) -> (r: bool)
        ensures
            r == (self@ is JSON),
    {
        match self {
            Payload::JSON { .. } => true,
            _ => false,
        }
    }

    /// * `true` - this is a binary payload.
    /// * `false` - this a JSON payload.
    pub fn is_binary(&self) -> (r: bool)
        ensures
            r == (self@ is Binary),
    {
        match self {
            Payload::Binary { .. } => true,
            _ => false,
        }
    }

    /// * [Some(&JSON)] - the JSON payload.
    /// * [None] - this is a binary payload.
    pub fn value(&self) -> (r: Option<&JSON>)
        ensures
            r is Some <==> self@ is JSON,
            r matches Some(json) ==> self@ == PayloadView::JSON(json@),
    {
        match self {
            Payload::JSON { json } => Some(json),
            _ => None,
        }
    }

    /// Consume the payload and turn it into its inner JSON if this is a JSON payload.
    pub fn into_value(self) -> (r: Option<JSON>)
        ensures
            r is Some <==> self@ is JSON,
            r matches Some(json) ==> self@ == PayloadView::JSON(json@),
    {
        match self {
            Payload::JSON { json } => Some(json),
            _ => None,
        }
    }

    /// Consume the payload and turn it into its inner binary bytes if this is a binary payload.
    pub fn into_binary(self) -> (r: Option<Vec<u8>>)
        ensures
            r is Some <==> self@ is Binary,
            r matches Some(bytes) ==> self@ == PayloadView::Binary(bytes@),
    {
        match self {
            Payload::Binary { bytes } => Some(bytes),
            _ => None,
        }
    }

    /// A copy of this payload.
    pub fn copy(&self) -> (p: Payload)
        ensures
            p@ == self@,
    {
        match self {
            Payload::JSON { json } => Payload::JSON { json: json.copy() },
            Payload::Binary { bytes } => Payload::Binary { bytes: copy_bytes(bytes.as_slice()) },
        }
    }
}

/// The [EventPayload::event] sent by the server along with the [EventPayload::payload] for that
/// [EventPayload::event].
#[derive(Debug)]
pub struct EventPayload {
    /// The [Event] name.
    pub event: Event,
    /// The data sent for the [EventPayload::event].
    pub payload: Payload,
}

pub struct EventPayloadView {
    pub event: EventView,
    pub payload: PayloadView,
}

impl View for EventPayload {
    type V = EventPayloadView;

    open spec fn view(&self) -> EventPayloadView {
        EventPayloadView { event: self.event@, payload: self.payload@ }
    }
}

impl EventPayload {
    /// A copy of this event and payload.
    pub fn copy(&self) -> (r: EventPayload)
        ensures
            r@ == self@,
    {
        EventPayload { event: self.event.copy(), payload: self.payload.copy() }
    }
}

/// A message that Phoenix sends with no topic, such as a heartbeat reply.
#[derive(Debug)]
pub struct Control {
    /// The event for this message type is always a `PhoenixEvent`
    pub event: Event,
    pub payload: Payload,
    /// A unique ID for this message that is used for associating messages with their replies.
    pub reference: Option<Reference>,
}

/// Represents a message broadcast to all members of a channel
#[derive(Debug)]
pub struct Broadcast {
    pub topic: Topic,
    pub event_payload: EventPayload,
}

/// Represents a reply to a message
#[derive(Debug)]
pub struct Reply {
    pub topic: Topic,
    /// The event for this message type is always `PhoenixEvent::Reply`
    pub event: Event,
    pub payload: Payload,
    /// The unique reference of the channel member this message is being sent to/from
    pub join_reference: JoinReference,
    /// A unique ID for this message that is used for associating messages with their replies.
    pub reference: Reference,
    /// The status of the reply
    pub status: ReplyStatus,
}

/// Represents a message being sent by a specific member of a channel, to the other members of the channel
#[derive(Debug)]
pub struct Push {
    pub topic: Topic,
    pub event_payload: EventPayload,
    /// The unique reference of the channel member this message is being sent to/from
    pub join_reference: JoinReference,
    /// A unique ID for this message that is used for associating messages with their replies.
    pub reference: Option<Reference>,
}

/// This represents the messages sent to or from Phoenix over the socket
///
/// Channels are implicitly multiplexed over a single connection, by using various
/// fields of the message to determine who the recipients are.
#[derive(Debug)]
pub enum Message {
    Control(Control),
    Broadcast(Broadcast),
    Reply(Reply),
    Push(Push),
}

/// The abstract value of an optional reference.
pub open spec fn opt_view(reference: Option<Reference>) -> Option<Seq<char>> {
    match reference {
        Some(r) => Some(r@),
        None => None,
    }
}

/// The abstract value of a message.
pub enum MessageView {
    Control { event: EventView, payload: PayloadView, reference: Option<Seq<char>> },
    Broadcast { topic: Seq<char>, event_payload: EventPayloadView },
    Reply {
        topic: Seq<char>,
        event: EventView,
        payload: PayloadView,
        join_reference: Seq<char>,
        reference: Seq<char>,
        status: ReplyStatus,
    },
    Push {
        topic: Seq<char>,
        event_payload: EventPayloadView,
        join_reference: Seq<char>,
        reference: Option<Seq<char>>,
    },
}

impl View for Message {
    type V = MessageView;

    open spec fn view(&self) -> MessageView {
        match self {
            Message::Control(c) => MessageView::Control {
                event: c.event@,
                payload: c.payload@,
                reference: opt_view(c.reference),
            },
            Message::Broadcast(b) => MessageView::Broadcast {
                topic: b.topic@,
                event_payload: b.event_payload@,
            },
            Message::Reply(r) => MessageView::Reply {
                topic: r.topic@,
                event: r.event@,
                payload: r.payload@,
                join_reference: r.join_reference@,
                reference: r.reference@,
                status: r.status,
            },
            Message::Push(p) => MessageView::Push {
                topic: p.topic@,
                event_payload: p.event_payload@,
                join_reference: p.join_reference@,
                reference: opt_view(p.reference),
            },
        }
    }
}

/// The payload a message carries.
pub open spec fn message_payload(message: MessageView) -> PayloadView {
    match message {
        MessageView::Control { payload, .. } => payload,
        MessageView::Broadcast { event_payload, .. } => event_payload.payload,
        MessageView::Reply { payload, .. } => payload,
        MessageView::Push { event_payload, .. } => event_payload.payload,
    }
}

impl Message {
    /// Returns a reference to the data associated with this message.
    pub fn payload(&self) -> (p: &Payload)
        ensures
            p@ == message_payload(self@),
    {
        match self {
            Message::Control(msg) => &msg.payload,
            Message::Broadcast(msg) => &msg.event_payload.payload,
            Message::Reply(msg) => &msg.payload,
            Message::Push(msg) => &msg.event_payload.payload,
        }
    }
}

} // verus!
