use vstd::prelude::*;

use crate::text::{owned, str_eq};

verus! {

broadcast use vstd::string::group_string_axioms;

/// Represents special events related to management of Phoenix channels.
#[derive(Clone, Copy, Debug, PartialEq, Eq, Structural, Hash, PartialOrd, Ord)]
pub enum PhoenixEvent {
    /// Used when sending a message to join a channel
    Join,
    /// Used when sending a message to leave a channel
    Leave,
    /// Sent/received when a channel is closed
    Close,
    /// Sent/received with replies
    Reply,
    /// Sent by the server when an error occurs
    Error,
    /// Sent/received as a keepalive for the underlying socket
    Heartbeat,
}

/// The name of a Phoenix event on the wire.
pub open spec fn phoenix_event_name(event: PhoenixEvent) -> Seq<char> {
    match event {
        PhoenixEvent::Join => "phx_join"@,
        PhoenixEvent::Leave => "phx_leave"@,
        PhoenixEvent::Close => "phx_close"@,
        PhoenixEvent::Reply => "phx_reply"@,
        PhoenixEvent::Error => "phx_error"@,
        PhoenixEvent::Heartbeat => "heartbeat"@,
    }
}

/// The Phoenix event with the wire name `name`, if there is one.
pub open spec fn parse_phoenix_event(name: Seq<char>) -> Option<PhoenixEvent> {
    if name == "phx_join"@ {
        Some(PhoenixEvent::Join)
    } else if name == "phx_leave"@ {
        Some(PhoenixEvent::Leave)
    } else if name == "phx_close"@ {
        Some(PhoenixEvent::Close)
    } else if name == "phx_error"@ {
        Some(PhoenixEvent::Error)
    } else if name == "phx_reply"@ {
        Some(PhoenixEvent::Reply)
    } else if name == "heartbeat"@ {
        Some(PhoenixEvent::Heartbeat)
    } else {
        None
    }
}

impl PhoenixEvent {
    /// The wire name of this event (its `Display` form).
    pub fn as_str(&self) -> (s: &'static str)
        ensures
            s@ == phoenix_event_name(*self),
    {
        match self {
            PhoenixEvent::Join => "phx_join",
            PhoenixEvent::Leave => "phx_leave",
            PhoenixEvent::Close => "phx_close",
            PhoenixEvent::Reply => "phx_reply",
            PhoenixEvent::Error => "phx_error",
            PhoenixEvent::Heartbeat => "heartbeat",
        }
    }

    /// Parses a wire name into a Phoenix event (its `FromStr` form).
    pub fn from_str(s: &str) -> (r: Result<PhoenixEvent, ()>)
        ensures
            r matches Ok(e) ==> parse_phoenix_event(s@) == Some(e),
            r is Err <==> parse_phoenix_event(s@) is None,
    {
        if str_eq(s, "phx_join") {
            Ok(PhoenixEvent::Join)
        } else if str_eq(s, "phx_leave") {
            Ok(PhoenixEvent::Leave)
        } else if str_eq(s, "phx_close") {
            Ok(PhoenixEvent::Close)
        } else if str_eq(s, "phx_error") {
            Ok(PhoenixEvent::Error)
        } else if str_eq(s, "phx_reply") {
            Ok(PhoenixEvent::Reply)
        } else if str_eq(s, "heartbeat") {
            Ok(PhoenixEvent::Heartbeat)
        } else {
            Err(())
        }
    }

    /// The wire name of this event as an owned string.
    pub fn to_string(&self) -> (s: String)
        ensures
            s@ == phoenix_event_name(*self),
    {
        owned(self.as_str())
    }
}

/// This is a strongly typed wrapper around the event associated with a `Message`.
///
/// We discriminate between special Phoenix events and user-defined events, as they have slightly
/// different semantics. Generally speaking, Phoenix events are not exposed to users, and are not
/// permitted to be sent by them either.
#[derive(Clone, Debug, Hash)]
pub enum Event {
    /// Represents one of the built-in Phoenix channel events, e.g. join
    Phoenix {
        /// The built-in event name
        phoenix: PhoenixEvent,
    },
    /// Represents a user-defined event
    User {
        /// The user-defined event name
        user: String,
    },
}

/// The abstract value of an event: a Phoenix event, or the name of a user event.
pub enum EventView {
    Phoenix(PhoenixEvent),
    User(Seq<char>),
}

impl View for Event {
    type V = EventView;

    open spec fn view(&self) -> EventView {
        match self {
            Event::Phoenix { phoenix } => EventView::Phoenix(*phoenix),
            Event::User { user } => EventView::User(user@),
        }
    }
}

/// The name of an event on the wire (its `Display` form).
pub open spec fn event_name(event: EventView) -> Seq<char> {
    match event {
        EventView::Phoenix(phoenix) => phoenix_event_name(phoenix),
        EventView::User(user) => user,
    }
}

/// The event that a wire name stands for: the Phoenix event of that name, or
/// else a user event.
pub open spec fn event_from_name(name: Seq<char>) -> EventView {
    match parse_phoenix_event(name) {
        Some(phoenix) => EventView::Phoenix(phoenix),
        None => EventView::User(name),
    }
}

/// An event is canonical when reading its name back gives the same event:
/// a user event whose name is the name of a Phoenix event is not.
pub open spec fn event_is_canonical(event: EventView) -> bool {
    match event {
        EventView::Phoenix(_) => true,
        EventView::User(user) => parse_phoenix_event(user) is None,
    }
}

impl PartialEq for Event {
    fn eq(&self, other: &Event) -> (r: bool) {
        match (self, other) {
            (Event::Phoenix { phoenix: a }, Event::Phoenix { phoenix: b }) => *a == *b,
            (Event::User { user: a }, Event::User { user: b }) => *a == *b,
            _ => false,
        }
    }
}

impl vstd::std_specs::cmp::PartialEqSpecImpl for Event {
    open spec fn obeys_eq_spec() -> bool {
        true
    }

    open spec fn eq_spec(&self, other: &Event) -> bool {
        self@ == other@
    }
}

impl Eq for Event {
}

impl Event {
    /// Creates an [Event] from a string and ensures that special Phoenix control events are turned
    /// into [Event::Phoenix] while others are [Event::User].
    pub fn from_string(name: String) -> (event: Event)
        ensures
            event@ == event_from_name(name@),
    {
        match PhoenixEvent::from_str(name.as_str()) {
            Ok(phoenix) => Event::Phoenix { phoenix },
            Err(_) => Event::User { user: name },
        }
    }

    /// Creates an [Event] from a string slice, as [Event::from_string] does.
    pub fn from_str_ref(name: &str) -> (event: Event)
        ensures
            event@ == event_from_name(name@),
    {
        match PhoenixEvent::from_str(name) {
            Ok(phoenix) => Event::Phoenix { phoenix },
            Err(_) => Event::User { user: owned(name) },
        }
    }

    /// The name of this event on the wire (its `Display` form).
    pub fn to_string(&self) -> (s: String)
        ensures
            s@ == event_name(self@),
    {
        match self {
            Event::Phoenix { phoenix } => phoenix.to_string(),
            Event::User { user } => user.clone(),
        }
    }

    /// Whether this is the Phoenix event `phoenix`.
    pub fn is_phoenix(&self, phoenix: PhoenixEvent) -> (r: bool)
        ensures
            r == (self@ == EventView::Phoenix(phoenix)),
    {
        match self {
            Event::Phoenix { phoenix: this } => *this == phoenix,
            Event::User { .. } => false,
        }
    }

    /// A copy of this event.
    pub fn copy(&self) -> (r: Event)
        ensures
            r@ == self@,
    {
        match self {
            Event::Phoenix { phoenix } => Event::Phoenix { phoenix: *phoenix },
            Event::User { user } => Event::User { user: user.clone() },
        }
    }
}

/// Reading back the wire name of a Phoenix event gives the same event.
pub proof fn lemma_phoenix_event_name_round_trip(event: PhoenixEvent)
    ensures
        parse_phoenix_event(phoenix_event_name(event)) == Some(event),
{
    lemma_phoenix_event_names_distinct();
}

/// The wire names of the Phoenix events differ pairwise (in their fifth character).
proof fn lemma_phoenix_event_names_distinct()
    ensures
        ("phx_join"@)[4] == 'j',
        ("phx_leave"@)[4] == 'l',
        ("phx_close"@)[4] == 'c',
        ("phx_reply"@)[4] == 'r',
        ("phx_error"@)[4] == 'e',
        ("heartbeat"@)[4] == 't',
{
    reveal_strlit("phx_join");
    reveal_strlit("phx_leave");
    reveal_strlit("phx_close");
    reveal_strlit("phx_reply");
    reveal_strlit("phx_error");
    reveal_strlit("heartbeat");
}

/// Reading back the wire name of a canonical event gives the same event; a
/// name that is read as an event is that event's name.
pub proof fn lemma_event_name_round_trip(event: EventView, name: Seq<char>)
    ensures
        event_is_canonical(event) ==> event_from_name(event_name(event)) == event,
        event_name(event_from_name(name)) == name,
        event_is_canonical(event_from_name(name)),
{
    lemma_phoenix_event_names_distinct();
    if let EventView::Phoenix(p) = event {
        lemma_phoenix_event_name_round_trip(p);
    }
    if let Some(p) = parse_phoenix_event(name) {
        lemma_phoenix_event_name_round_trip(p);
    }
}

/// The status of a reply.
#[derive(Clone, Copy, Debug, PartialEq, Eq, Structural)]
pub enum ReplyStatus {
    /// The request succeeded (`"ok"` on the wire).
    Okay,
    Error,
}

/// The wire form of a reply status.
pub open spec fn reply_status_name(status: ReplyStatus) -> Seq<char> {
    match status {
        ReplyStatus::Okay => "ok"@,
        ReplyStatus::Error => "error"@,
    }
}

/// The reply status a wire string stands for: `"ok"` is success and anything
/// else is an error.
pub open spec fn reply_status_from_name(name: Seq<char>) -> ReplyStatus {
    if name == "ok"@ {
        ReplyStatus::Okay
    } else {
        ReplyStatus::Error
    }
}

impl ReplyStatus {
    pub fn as_str(&self) -> (s: &'static str)
        ensures
            s@ == reply_status_name(*self),
    {
        match self {
            ReplyStatus::Okay => "ok",
            ReplyStatus::Error => "error",
        }
    }

    /// The status a wire string stands for.
    pub fn from_str(s: &str) -> (status: ReplyStatus)
        ensures
            status == reply_status_from_name(s@),
    {
        if str_eq(s, "ok") {
            ReplyStatus::Okay
        } else {
            ReplyStatus::Error
        }
    }
}

/// Reading back the wire form of a reply status gives the same status.
pub proof fn lemma_reply_status_round_trip(status: ReplyStatus)
    ensures
        reply_status_from_name(reply_status_name(status)) == status,
{
    reveal_strlit("ok");
    reveal_strlit("error");
    assert(("ok"@).len() != ("error"@).len());
}

} // verus!
