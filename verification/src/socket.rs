use vstd::prelude::*;

use std::time::SystemTime;

use crate::backoff::{sleep_multiplier, Reconnect};
use crate::channel::{CallError, ChannelState, Connectivity, Disconnected, SocketJoinError};
use crate::decode::MessageDecodingError;
use crate::event::{Event, EventView, PhoenixEvent, ReplyStatus};
use crate::json::{JSONView, JSON};
use crate::message::{
    opt_view, Broadcast, Control, EventPayload, EventPayloadView, JoinReference, Message, MessageView, Payload,
    PayloadView, Push, Reference, Reply, Topic,
};
use crate::registry::{has_value, ByMessage, ByTopic};
use crate::shutdown::SocketShutdownError;
use crate::string_map::StringMap;
use crate::text::{owned, str_eq};
use crate::time::{TimeSpan, MAX_SPAN_NANOS};
use crate::web_socket::{CloseFrame, WebSocketError};

verus! {

/// A connect timeout whose every back-off wait fits in a `Duration`.
pub open spec fn connect_timeout_ok(timeout: TimeSpan) -> bool {
    timeout.nanos * 10 <= MAX_SPAN_NANOS
}

/// The bookkeeping of a connected socket.  The callers and channels that
/// wait on the socket are known by the numbers their owner gave them.
pub struct Connected {
    /// The reference of the heartbeat that was sent and not yet answered.
    pub sent_heartbeat_reference: Option<Reference>,
    /// The joins sent to the server and not yet answered, by topic and join
    /// reference: the caller waiting on each.
    pub joins: ByTopic<u64>,
    /// The joined channels, by topic and join reference.
    pub joined: ByTopic<u64>,
    /// The callers waiting for a reply, by topic, join reference and message
    /// reference.
    pub replies: ByMessage<u64>,
    /// The topics whose broadcasts are relayed to their channels.
    pub broadcast_topics: StringMap<()>,
    /// The timeout of the connect that opened this connection.
    pub connect_timeout: TimeSpan,
}

impl Connected {
    /// The registries are well formed and the connect timeout's back-off
    /// waits fit in a `Duration`.
    pub open spec fn wf(&self) -> bool {
        &&& self.joins.wf()
        &&& self.joined.wf()
        &&& self.replies.wf()
        &&& self.broadcast_topics.wf()
        &&& connect_timeout_ok(self.connect_timeout)
    }

    /// The topics whose broadcasts are relayed.
    pub open spec fn relayed(&self) -> Set<Seq<char>> {
        self.broadcast_topics.map().dom()
    }

    /// A fresh connection: no heartbeat out, nothing pending, nothing joined.
    pub fn new(connect_timeout: TimeSpan) -> (c: Connected)
        requires
            connect_timeout_ok(connect_timeout),
        ensures
            c.wf(),
            c.sent_heartbeat_reference is None,
            c.joins.view() == Map::<(Seq<char>, Seq<char>), u64>::empty(),
            c.joined.view() == Map::<(Seq<char>, Seq<char>), u64>::empty(),
            c.replies.view() == Map::<(Seq<char>, Seq<char>, Seq<char>), u64>::empty(),
            c.relayed() == Set::<Seq<char>>::empty(),
            c.connect_timeout == connect_timeout,
    {
        let c = Connected {
            sent_heartbeat_reference: None,
            joins: ByTopic::new(),
            joined: ByTopic::new(),
            replies: ByMessage::new(),
            broadcast_topics: StringMap::new(),
            connect_timeout,
        };
        assert(c.relayed() =~= Set::<Seq<char>>::empty());
        c
    }

    /// A join for `topic` as `join_reference` was sent; `join` waits on the
    /// server's answer.  A join still pending under the same key is given
    /// back: nobody will answer it any more.
    pub fn join_sent(&mut self, topic: &Topic, join_reference: &JoinReference, join: u64) -> (replaced: Option<u64>)
        requires
            old(self).wf(),
        ensures
            final(self).wf(),
            final(self).joins.view() == old(self).joins.view().insert((topic@, join_reference@), join),
            replaced == (if old(self).joins.view().dom().contains((topic@, join_reference@)) {
                Some(old(self).joins.view()[(topic@, join_reference@)])
            } else {
                None
            }),
            final(self).joined == old(self).joined,
            final(self).replies == old(self).replies,
            final(self).broadcast_topics == old(self).broadcast_topics,
            final(self).sent_heartbeat_reference == old(self).sent_heartbeat_reference,
            final(self).connect_timeout == old(self).connect_timeout,
    {
        self.joins.insert(topic.as_str(), join_reference.as_str(), join)
    }

    /// The deadline of the join for `topic` as `join_reference` passed: the
    /// caller still waiting on it, if any, is taken out to hear so.
    pub fn join_timed_out(&mut self, topic: &Topic, join_reference: &JoinReference) -> (join: Option<u64>)
        requires
            old(self).wf(),
        ensures
            final(self).wf(),
            final(self).joins.view() == old(self).joins.view().remove((topic@, join_reference@)),
            join == (if old(self).joins.view().dom().contains((topic@, join_reference@)) {
                Some(old(self).joins.view()[(topic@, join_reference@)])
            } else {
                None
            }),
            final(self).joined == old(self).joined,
            final(self).replies == old(self).replies,
            final(self).broadcast_topics == old(self).broadcast_topics,
            final(self).sent_heartbeat_reference == old(self).sent_heartbeat_reference,
            final(self).connect_timeout == old(self).connect_timeout,
    {
        self.joins.remove(topic.as_str(), join_reference.as_str())
    }

    /// A leave for `topic` as `join_reference` was sent: the joined channel,
    /// if any, is taken out to be told it left.
    pub fn left(&mut self, topic: &Topic, join_reference: &JoinReference) -> (channel: Option<u64>)
        requires
            old(self).wf(),
        ensures
            final(self).wf(),
            final(self).joined.view() == old(self).joined.view().remove((topic@, join_reference@)),
            channel == (if old(self).joined.view().dom().contains((topic@, join_reference@)) {
                Some(old(self).joined.view()[(topic@, join_reference@)])
            } else {
                None
            }),
            final(self).joins == old(self).joins,
            final(self).replies == old(self).replies,
            final(self).broadcast_topics == old(self).broadcast_topics,
            final(self).sent_heartbeat_reference == old(self).sent_heartbeat_reference,
            final(self).connect_timeout == old(self).connect_timeout,
    {
        self.joined.remove(topic.as_str(), join_reference.as_str())
    }

    /// A call for `topic` as `join_reference` was sent with `reference`;
    /// `call` waits on the reply.  A caller still waiting under the same key
    /// is given back: nobody will answer it any more.
    pub fn call_sent(&mut self, topic: &Topic, join_reference: &JoinReference, reference: &Reference, call: u64) -> (replaced: Option<u64>)
        requires
            old(self).wf(),
        ensures
            final(self).wf(),
            final(self).replies.view() == old(self).replies.view().insert((topic@, join_reference@, reference@), call),
            replaced == (if old(self).replies.view().dom().contains((topic@, join_reference@, reference@)) {
                Some(old(self).replies.view()[(topic@, join_reference@, reference@)])
            } else {
                None
            }),
            final(self).joins == old(self).joins,
            final(self).joined == old(self).joined,
            final(self).broadcast_topics == old(self).broadcast_topics,
            final(self).sent_heartbeat_reference == old(self).sent_heartbeat_reference,
            final(self).connect_timeout == old(self).connect_timeout,
    {
        self.replies.insert(topic.as_str(), join_reference.as_str(), reference.as_str(), call)
    }

    /// The joined channel that a push for `topic` as `join_reference` goes to.
    pub fn push_target(&self, topic: &Topic, join_reference: &JoinReference) -> (channel: Option<u64>)
        requires
            self.wf(),
        ensures
            channel == (if self.joined.view().dom().contains((topic@, join_reference@)) {
                Some(self.joined.view()[(topic@, join_reference@)])
            } else {
                None
            }),
    {
        match self.joined.get(topic.as_str(), join_reference.as_str()) {
            Some(channel) => Some(*channel),
            None => None,
        }
    }

    /// Whether broadcasts for `topic` are relayed.
    pub fn relays(&self, topic: &Topic) -> (r: bool)
        requires
            self.wf(),
        ensures
            r == self.relayed().contains(topic@),
    {
        self.broadcast_topics.contains_key(topic.as_str())
    }
}

/// The abstract contents of a connection's registries.
pub struct RegistryView {
    pub joins: Map<(Seq<char>, Seq<char>), u64>,
    pub joined: Map<(Seq<char>, Seq<char>), u64>,
    pub replies: Map<(Seq<char>, Seq<char>, Seq<char>), u64>,
    pub relayed: Set<Seq<char>>,
}

/// Where a reply from the server goes.
#[derive(Debug)]
pub enum ReplyRouting {
    /// The join `join` of `topic` succeeded: its channel is now joined, known
    /// by the same number, and gets `payload`; `new_topic` says whether the
    /// broadcasts of the topic start being relayed with this join.
    Joined { join: u64, topic: Topic, payload: Payload, new_topic: bool },
    /// The server rejected the join `join` with `rejection`.
    JoinRejected { join: u64, rejection: Payload },
    /// The reply answers the call `call`: `Ok` with the payload, or `Err` with
    /// the error payload the server sent.
    CallAnswered { call: u64, result: Result<Payload, Payload> },
    /// Nobody waits on this reply.
    Ignored,
}

pub enum ReplyRoutingView {
    Joined { join: u64, topic: Seq<char>, payload: PayloadView, new_topic: bool },
    JoinRejected { join: u64, rejection: PayloadView },
    CallAnswered { call: u64, result: Result<PayloadView, PayloadView> },
    Ignored,
}

impl View for ReplyRouting {
    type V = ReplyRoutingView;

    open spec fn view(&self) -> ReplyRoutingView {
        match self {
            ReplyRouting::Joined { join, topic, payload, new_topic } => ReplyRoutingView::Joined {
                join: *join,
                topic: topic@,
                payload: payload@,
                new_topic: *new_topic,
            },
            ReplyRouting::JoinRejected { join, rejection } => ReplyRoutingView::JoinRejected { join: *join, rejection: rejection@ },
            ReplyRouting::CallAnswered { call, result } => ReplyRoutingView::CallAnswered {
                call: *call,
                result: match result {
                    Ok(p) => Ok(p@),
                    Err(p) => Err(p@),
                },
            },
            ReplyRouting::Ignored => ReplyRoutingView::Ignored,
        }
    }
}

/// How a reply with `status` and `payload` to the message `reference` of the
/// channel joined to `topic` as `join_reference` changes the registries, and
/// where it goes: first to a pending join under the same topic and join
/// reference, else to the caller waiting on the message, else nowhere.
pub open spec fn handle_reply_spec(
    registry: RegistryView,
    topic: Seq<char>,
    join_reference: Seq<char>,
    reference: Seq<char>,
    status: ReplyStatus,
    payload: PayloadView,
) -> (RegistryView, ReplyRoutingView) {
    if registry.joins.dom().contains((topic, join_reference)) {
        let join = registry.joins[(topic, join_reference)];
        let joins = registry.joins.remove((topic, join_reference));
        match status {
            ReplyStatus::Okay => (
                RegistryView {
                    joins,
                    joined: registry.joined.insert((topic, join_reference), join),
                    replies: registry.replies,
                    relayed: registry.relayed.insert(topic),
                },
                ReplyRoutingView::Joined { join, topic, payload, new_topic: !registry.relayed.contains(topic) },
            ),
            ReplyStatus::Error => (
                RegistryView { joins, ..registry },
                ReplyRoutingView::JoinRejected { join, rejection: payload },
            ),
        }
    } else if registry.replies.dom().contains((topic, join_reference, reference)) {
        (
            RegistryView { replies: registry.replies.remove((topic, join_reference, reference)), ..registry },
            ReplyRoutingView::CallAnswered {
                call: registry.replies[(topic, join_reference, reference)],
                result: match status {
                    ReplyStatus::Okay => Ok(payload),
                    ReplyStatus::Error => Err(payload),
                },
            },
        )
    } else {
        (registry, ReplyRoutingView::Ignored)
    }
}

/// The callers that wait on a connection when it goes away: the joins and
/// the calls still waiting for the server's answer.
#[derive(Debug)]
pub struct WaitingCallers {
    pub joins: Vec<u64>,
    pub calls: Vec<u64>,
}

impl Connected {
    /// The abstract contents of the registries.
    pub open spec fn registry(&self) -> RegistryView {
        RegistryView {
            joins: self.joins.view(),
            joined: self.joined.view(),
            replies: self.replies.view(),
            relayed: self.relayed(),
        }
    }

    /// Routes a reply from the server, taking its waiter out of the
    /// registries (and registering the channel when it answers a join).
    pub fn handle_reply(&mut self, reply: Reply) -> (routing: ReplyRouting)
        requires
            old(self).wf(),
        ensures
            final(self).wf(),
            (final(self).registry(), routing@) == handle_reply_spec(
                old(self).registry(),
                reply.topic@,
                reply.join_reference@,
                reply.reference@,
                reply.status,
                reply.payload@,
            ),
            final(self).sent_heartbeat_reference == old(self).sent_heartbeat_reference,
            final(self).connect_timeout == old(self).connect_timeout,
    {
        let Reply { topic, payload, join_reference, reference, status, .. } = reply;
        let ghost before = self.registry();
        match self.joins.remove(topic.as_str(), join_reference.as_str()) {
            Some(join) => match status {
                ReplyStatus::Okay => {
                    let _ = self.joined.insert(topic.as_str(), join_reference.as_str(), join);
                    let new_topic = !self.broadcast_topics.contains_key(topic.as_str());
                    if new_topic {
                        let _ = self.broadcast_topics.insert(topic.to_string(), ());
                    }
                    assert(self.relayed() =~= before.relayed.insert(topic@));
                    ReplyRouting::Joined { join, topic, payload, new_topic }
                },
                ReplyStatus::Error => ReplyRouting::JoinRejected { join, rejection: payload },
            },
            None => match self.replies.remove(topic.as_str(), join_reference.as_str(), reference.as_str()) {
                Some(call) => {
                    assert(self.joins.view() =~= before.joins);
                    let result = match status {
                        ReplyStatus::Okay => Ok(payload),
                        ReplyStatus::Error => Err(payload),
                    };
                    ReplyRouting::CallAnswered { call, result }
                },
                None => {
                    assert(self.joins.view() =~= before.joins);
                    assert(self.replies.view() =~= before.replies);
                    ReplyRouting::Ignored
                },
            },
        }
    }

    /// The connection goes away: every caller still waiting on a join or a
    /// reply is handed out to be told so; joined channels are forgotten.
    pub fn waiting_callers(self) -> (callers: WaitingCallers)
        requires
            self.wf(),
        ensures
            forall|k: (Seq<char>, Seq<char>)| #[trigger] self.joins.view().dom().contains(k) ==> callers.joins@.contains(self.joins.view()[k]),
            forall|i: int| 0 <= i < callers.joins@.len() ==> has_value(self.joins.view(), #[trigger] callers.joins@[i]),
            forall|k: (Seq<char>, Seq<char>, Seq<char>)| #[trigger] self.replies.view().dom().contains(k) ==> callers.calls@.contains(self.replies.view()[k]),
            forall|i: int| 0 <= i < callers.calls@.len() ==> has_value(self.replies.view(), #[trigger] callers.calls@[i]),
    {
        let mut connected = self;
        let joins = connected.joins.drain();
        let calls = connected.replies.drain();
        WaitingCallers { joins, calls }
    }

    /// Whether a heartbeat is due: none is out unanswered.
    pub fn heartbeat_due(&self) -> (due: bool)
        ensures
            due == (self.sent_heartbeat_reference is None),
    {
        self.sent_heartbeat_reference.is_none()
    }

    /// A heartbeat with `reference` was sent.
    pub fn heartbeat_sent(&mut self, reference: Reference)
        ensures
            final(self).sent_heartbeat_reference == Some(reference),
            final(self).registry() == old(self).registry(),
            final(self).joins == old(self).joins,
            final(self).joined == old(self).joined,
            final(self).replies == old(self).replies,
            final(self).broadcast_topics == old(self).broadcast_topics,
            final(self).connect_timeout == old(self).connect_timeout,
    {
        self.sent_heartbeat_reference = Some(reference);
    }

    /// A control message arrived.  A `phx_reply` with the reference of the
    /// heartbeat out (both may be absent) answers that heartbeat: it is no
    /// longer out and the heartbeat interval starts over (`true`).
    pub fn control_received(&mut self, control: &Control) -> (answered: bool)
        ensures
            answered == (control.event@ == EventView::Phoenix(PhoenixEvent::Reply) && opt_view(control.reference)
                == opt_view(old(self).sent_heartbeat_reference)),
            final(self).sent_heartbeat_reference == (if answered {
                None
            } else {
                old(self).sent_heartbeat_reference
            }),
            final(self).joins == old(self).joins,
            final(self).joined == old(self).joined,
            final(self).replies == old(self).replies,
            final(self).broadcast_topics == old(self).broadcast_topics,
            final(self).connect_timeout == old(self).connect_timeout,
    {
        if !control.event.is_phoenix(PhoenixEvent::Reply) {
            return false;
        }
        let same = match (&control.reference, &self.sent_heartbeat_reference) {
            (Some(a), Some(b)) => a.same(b),
            (None, None) => true,
            _ => false,
        };
        if same {
            self.sent_heartbeat_reference = None;
        }
        same
    }
}

/// Where a message decoded from the server goes.
#[derive(Debug)]
pub enum Routing {
    /// A control message; `heartbeat_answered` says whether it answered the
    /// heartbeat out, so that the heartbeat interval starts over.
    Control { heartbeat_answered: bool },
    /// A heartbeat answered in the form of a reply: nothing to do.
    HeartbeatReply,
    /// A reply and where it goes.
    Reply { routing: ReplyRouting },
    /// A push, for the joined channel `channel` (or for nobody).
    Push { channel: Option<u64>, push: Push },
    /// A broadcast, relayed to the channels of its topic when `relayed`.
    Broadcast { relayed: bool, broadcast: Broadcast },
}

impl Connected {
    /// Routes a message decoded from the server.
    pub fn route(&mut self, message: Message) -> (routing: Routing)
        requires
            old(self).wf(),
        ensures
            final(self).wf(),
            final(self).connect_timeout == old(self).connect_timeout,
            match message@ {
                MessageView::Control { event, reference, .. } => routing matches Routing::Control { heartbeat_answered }
                    && heartbeat_answered == (event == EventView::Phoenix(PhoenixEvent::Reply) && reference == opt_view(
                    old(self).sent_heartbeat_reference,
                )) && final(self).sent_heartbeat_reference == (if heartbeat_answered {
                    None
                } else {
                    old(self).sent_heartbeat_reference
                }) && final(self).registry() == old(self).registry(),
                MessageView::Reply { topic, event, payload, join_reference, reference, status } => if event
                    == EventView::Phoenix(PhoenixEvent::Heartbeat) {
                    routing is HeartbeatReply && final(self).registry() == old(self).registry()
                        && final(self).sent_heartbeat_reference == old(self).sent_heartbeat_reference
                } else {
                    routing matches Routing::Reply { routing: reply_routing } && (final(self).registry(), reply_routing@)
                        == handle_reply_spec(old(self).registry(), topic, join_reference, reference, status, payload)
                        && final(self).sent_heartbeat_reference == old(self).sent_heartbeat_reference
                },
                MessageView::Push { topic, join_reference, .. } => routing matches Routing::Push { channel, push }
                    && Message::Push(push)@ == message@ && channel == (if old(self).joined.view().dom().contains(
                    (topic, join_reference),
                ) {
                    Some(old(self).joined.view()[(topic, join_reference)])
                } else {
                    None
                }) && final(self).registry() == old(self).registry() && final(self).sent_heartbeat_reference == old(
                    self,
                ).sent_heartbeat_reference,
                MessageView::Broadcast { topic, .. } => routing matches Routing::Broadcast { relayed, broadcast }
                    && Message::Broadcast(broadcast)@ == message@ && relayed == old(self).relayed().contains(topic)
                    && final(self).registry() == old(self).registry() && final(self).sent_heartbeat_reference == old(
                    self,
                ).sent_heartbeat_reference,
            },
    {
        match message {
            Message::Control(control) => {
                let heartbeat_answered = self.control_received(&control);
                Routing::Control { heartbeat_answered }
            },
            Message::Reply(reply) => {
                if reply.event.is_phoenix(PhoenixEvent::Heartbeat) {
                    Routing::HeartbeatReply
                } else {
                    let routing = self.handle_reply(reply);
                    Routing::Reply { routing }
                }
            },
            Message::Push(push) => {
                let channel = self.push_target(&push.topic, &push.join_reference);
                Routing::Push { channel, push }
            },
            Message::Broadcast(broadcast) => {
                let relayed = self.relays(&broadcast.topic);
                Routing::Broadcast { relayed, broadcast }
            },
        }
    }

    /// The reference of a heartbeat to send now, if one is due.
    pub fn heartbeat(&self) -> (reference: Option<Reference>)
        ensures
            reference is Some <==> self.sent_heartbeat_reference is None,
            reference matches Some(r) ==> r@.len() == 46 && r@.subrange(0, 10) == "heartbeat:"@,
    {
        if self.heartbeat_due() {
            Some(Reference::heartbeat())
        } else {
            None
        }
    }
}

/// A message for `topic` as `join_reference`, sent by the client.
pub open spec fn push_view(
    topic: Seq<char>,
    join_reference: Seq<char>,
    event: EventView,
    payload: PayloadView,
    reference: Option<Seq<char>>,
) -> MessageView {
    MessageView::Push {
        topic,
        event_payload: EventPayloadView { event, payload },
        join_reference,
        reference,
    }
}

/// The message that joins `topic` as `join_reference` with `payload`.
pub fn join_message(topic: &Topic, join_reference: &JoinReference, payload: Payload, reference: Reference) -> (m: Message)
    ensures
        m@ == push_view(topic@, join_reference@, EventView::Phoenix(PhoenixEvent::Join), payload@, Some(reference@)),
{
    Message::Push(Push {
        topic: topic.copy(),
        event_payload: EventPayload { event: Event::Phoenix { phoenix: PhoenixEvent::Join }, payload },
        join_reference: join_reference.copy(),
        reference: Some(reference),
    })
}

/// The message that leaves `topic` joined as `join_reference`: a null payload
/// and no reference.
pub fn leave_message(topic: &Topic, join_reference: &JoinReference) -> (m: Message)
    ensures
        m@ == push_view(topic@, join_reference@, EventView::Phoenix(PhoenixEvent::Leave), PayloadView::JSON(JSONView::Null), None),
{
    Message::Push(Push {
        topic: topic.copy(),
        event_payload: EventPayload { event: Event::Phoenix { phoenix: PhoenixEvent::Leave }, payload: Payload::JSON { json: JSON::Null } },
        join_reference: join_reference.copy(),
        reference: None,
    })
}

/// The message of a cast or a call: `event_payload` for `topic` joined as
/// `join_reference`, with a fresh `reference`.
pub fn send_message(topic: &Topic, join_reference: &JoinReference, event_payload: EventPayload, reference: Reference) -> (m: Message)
    ensures
        m@ == push_view(topic@, join_reference@, event_payload.event@, event_payload.payload@, Some(reference@)),
{
    Message::Push(Push {
        topic: topic.copy(),
        event_payload,
        join_reference: join_reference.copy(),
        reference: Some(reference),
    })
}

/// The heartbeat message with `reference`: a Phoenix `heartbeat` control
/// message with a null payload.
pub fn heartbeat_message(reference: Reference) -> (m: Message)
    ensures
        m@ == (MessageView::Control {
            event: EventView::Phoenix(PhoenixEvent::Heartbeat),
            payload: PayloadView::JSON(JSONView::Null),
            reference: Some(reference@),
        }),
{
    Message::Control(Control {
        event: Event::Phoenix { phoenix: PhoenixEvent::Heartbeat },
        payload: Payload::JSON { json: JSON::Null },
        reference: Some(reference),
    })
}

/// Errors from connecting a socket.
#[derive(Debug)]
pub enum ConnectError {
    /// The server did not answer before the connect timeout expired.
    Timeout,
    /// An error of the underlying web socket.
    WebSocket { web_socket_error: WebSocketError },
    /// The socket is shutting down because `shutdown` was called.
    ShuttingDown,
    /// The socket shut down with `shutdown_error`.
    Shutdown { shutdown_error: SocketShutdownError },
    /// The socket waits `until` to reconnect, to not overload the server, so
    /// it can't honor an explicit connect now.
    WaitingToReconnect { until: SystemTime },
}

/// The status of a socket, as its users see it.
#[derive(Clone, Copy, Debug, PartialEq, Eq)]
pub enum SocketStatus {
    /// `connect` has never been called.
    NeverConnected,
    /// `connect` was called and the server answered that the socket is connected.
    Connected,
    /// The server disconnected the socket, which waits `until` to reconnect.
    WaitingToReconnect { until: SystemTime },
    /// `disconnect` was called and the socket disconnected.
    Disconnected,
    /// `shutdown` was called, but the socket's task hasn't exited yet.
    ShuttingDown,
    /// The socket's task has exited.
    ShutDown,
}

/// The state of a socket.
pub enum SocketState {
    /// `connect` has never been called.
    NeverConnected,
    /// The socket is connected.
    Connected { connected: Connected },
    /// The server disconnected the socket; it waits `sleep` and then
    /// reconnects with `reconnect`.
    WaitingToReconnect { sleep: TimeSpan, reconnect: Reconnect },
    /// `disconnect` was called.
    Disconnected,
    /// `shutdown` was called, but the socket's task hasn't exited yet.
    ShuttingDown,
    /// The socket's task has exited.
    ShutDown,
}

/// The waiting state after a lost connection: the back-off of the attempts
/// so far, then one more attempt.
pub open spec fn reconnect_wait_spec(reconnect: Reconnect, state: SocketState) -> bool {
    state matches SocketState::WaitingToReconnect { sleep, reconnect: next } && sleep.nanos
        == reconnect.connect_timeout.nanos * sleep_multiplier(reconnect.attempts as int) && next.connect_timeout
        == reconnect.connect_timeout && next.attempts == (if reconnect.attempts == u16::MAX {
        u16::MAX as int
    } else {
        reconnect.attempts + 1
    })
}

/// What the channels and the waiting callers are told when a connection
/// goes away.
pub struct Disconnection {
    /// Broadcast to the channels of the socket.
    pub connectivity: Connectivity,
    /// Each join still waiting on the connection, with its answer.
    pub joins: Vec<(u64, SocketJoinError)>,
    /// Each call still waiting on the connection, with its answer.
    pub calls: Vec<(u64, CallError)>,
}

/// The callers that the join answers go to.
pub open spec fn answered_joins(answers: Seq<(u64, SocketJoinError)>) -> Seq<u64> {
    answers.map_values(|a: (u64, SocketJoinError)| a.0)
}

/// The callers that the call answers go to.
pub open spec fn answered_calls(answers: Seq<(u64, CallError)>) -> Seq<u64> {
    answers.map_values(|a: (u64, CallError)| a.0)
}

/// The disconnection of `connected` for `why`: every waiting join and call
/// is answered, and only those; a join hears that the socket disconnected,
/// and so does a call.
pub open spec fn disconnection_of(connected: Connected, why: Disconnected, d: Disconnection) -> bool {
    &&& d.connectivity == (Connectivity::Disconnected { disconnected: why })
    &&& forall|k: (Seq<char>, Seq<char>)| #[trigger] connected.joins.view().dom().contains(k) ==> answered_joins(d.joins@).contains(connected.joins.view()[k])
    &&& forall|i: int| 0 <= i < d.joins@.len() ==> has_value(connected.joins.view(), (#[trigger] d.joins@[i]).0)
        && d.joins@[i].1 is Disconnected
    &&& forall|k: (Seq<char>, Seq<char>, Seq<char>)| #[trigger] connected.replies.view().dom().contains(k) ==> answered_calls(d.calls@).contains(connected.replies.view()[k])
    &&& forall|i: int| 0 <= i < d.calls@.len() ==> has_value(connected.replies.view(), (#[trigger] d.calls@[i]).0)
        && d.calls@[i].1 is SocketDisconnected
}

/// Each join of `callers` with the answer that the socket disconnected.
fn join_answers(callers: Vec<u64>) -> (answers: Vec<(u64, SocketJoinError)>)
    ensures
        answered_joins(answers@) == callers@,
        forall|i: int| 0 <= i < answers@.len() ==> (#[trigger] answers@[i]).1 is Disconnected,
{
    let mut answers: Vec<(u64, SocketJoinError)> = Vec::new();
    let mut i: usize = 0;
    while i < callers.len()
        invariant
            0 <= i <= callers@.len(),
            answered_joins(answers@) == callers@.subrange(0, i as int),
            forall|j: int| 0 <= j < answers@.len() ==> (#[trigger] answers@[j]).1 is Disconnected,
        decreases callers@.len() - i,
    {
        let ghost before = answers@;
        answers.push((callers[i], SocketJoinError::Disconnected));
        assert(answered_joins(answers@) =~= answered_joins(before).push(callers@[i as int]));
        i = i + 1;
        assert(answered_joins(answers@) =~= callers@.subrange(0, i as int));
    }
    assert(callers@.subrange(0, callers@.len() as int) =~= callers@);
    answers
}

/// Each call of `callers` with the answer that the socket disconnected.
fn call_answers(callers: Vec<u64>) -> (answers: Vec<(u64, CallError)>)
    ensures
        answered_calls(answers@) == callers@,
        forall|i: int| 0 <= i < answers@.len() ==> (#[trigger] answers@[i]).1 is SocketDisconnected,
{
    let mut answers: Vec<(u64, CallError)> = Vec::new();
    let mut i: usize = 0;
    while i < callers.len()
        invariant
            0 <= i <= callers@.len(),
            answered_calls(answers@) == callers@.subrange(0, i as int),
            forall|j: int| 0 <= j < answers@.len() ==> (#[trigger] answers@[j]).1 is SocketDisconnected,
        decreases callers@.len() - i,
    {
        let ghost before = answers@;
        answers.push((callers[i], CallError::SocketDisconnected));
        assert(answered_calls(answers@) =~= answered_calls(before).push(callers@[i as int]));
        i = i + 1;
        assert(answered_calls(answers@) =~= callers@.subrange(0, i as int));
    }
    assert(callers@.subrange(0, callers@.len() as int) =~= callers@);
    answers
}

/// The outcome of a connect request.
pub enum ConnectStep {
    /// Open the web socket within `reconnect.connect_timeout`, then hand
    /// whether it opened to [`SocketState::dialed`].
    Dial { reconnect: Reconnect },
    /// Nothing to open: the next state and the answer to the caller.
    Settled { state: SocketState, result: Result<(), ConnectError> },
}

/// The disconnection of `connected` for `why`.
fn disconnect_connected(connected: Connected, why: Disconnected) -> (d: Disconnection)
    requires
        connected.wf(),
    ensures
        disconnection_of(connected, why, d),
{
    let ghost c = connected;
    let callers = connected.waiting_callers();
    let joins = join_answers(callers.joins);
    let calls = call_answers(callers.calls);
    proof {
        assert forall|i: int| 0 <= i < joins@.len() implies has_value(c.joins.view(), (#[trigger] joins@[i]).0) by {
            assert(answered_joins(joins@)[i] == joins@[i].0);
        }
        assert forall|i: int| 0 <= i < calls@.len() implies has_value(c.replies.view(), (#[trigger] calls@[i]).0) by {
            assert(answered_calls(calls@)[i] == calls@[i].0);
        }
    }
    Disconnection { connectivity: Connectivity::Disconnected { disconnected: why }, joins, calls }
}

/// Waiting to reconnect with `reconnect`.
fn reconnect_wait(reconnect: Reconnect) -> (state: SocketState)
    requires
        connect_timeout_ok(reconnect.connect_timeout),
    ensures
        reconnect_wait_spec(reconnect, state),
        state.wf(),
{
    assert(reconnect.sleep_fits()) by (nonlinear_arith)
        requires
            reconnect.connect_timeout.nanos * 10 <= MAX_SPAN_NANOS,
            0 <= sleep_multiplier(reconnect.attempts as int) <= 10,
    ;
    SocketState::WaitingToReconnect { sleep: reconnect.sleep_duration(), reconnect: reconnect.next() }
}

/// What a connect request with `timeout` does to a socket in `state`;
/// `until` is when a waiting reconnect is due.
pub open spec fn connect_outcome(state: SocketState, timeout: TimeSpan, until: SystemTime, step: ConnectStep) -> bool {
    match state {
        SocketState::NeverConnected | SocketState::Disconnected => step matches ConnectStep::Dial { reconnect }
            && reconnect == (Reconnect { connect_timeout: timeout, attempts: 0 }),
        SocketState::Connected { connected } => step matches ConnectStep::Settled { state: next, result }
            && next == (SocketState::Connected { connected }) && result is Ok,
        SocketState::WaitingToReconnect { sleep, reconnect } => step matches ConnectStep::Settled { state: next, result }
            && next == (SocketState::WaitingToReconnect { sleep, reconnect }) && (result matches Err(
            ConnectError::WaitingToReconnect { until: u },
        ) && u == until),
        _ => step matches ConnectStep::Settled { state: next, result } && next is ShuttingDown && result matches Err(
            ConnectError::ShuttingDown,
        ),
    }
}

/// What follows the dial of `reconnect`, which opened the web socket or not:
/// a fresh connection whose channels are told, or a wait to reconnect.
pub open spec fn dialed_outcome(reconnect: Reconnect, opened: bool, r: (SocketState, Option<Connectivity>)) -> bool {
    &&& opened ==> r.1 == Some(Connectivity::Connected) && (r.0 matches SocketState::Connected { connected }
        && connected.sent_heartbeat_reference is None && connected.joins.view().dom().is_empty()
        && connected.joined.view().dom().is_empty() && connected.replies.view().dom().is_empty()
        && connected.relayed().is_empty() && connected.connect_timeout == reconnect.connect_timeout)
    &&& !opened ==> r.1 is None && reconnect_wait_spec(reconnect, r.0)
}

/// What a disconnect request does to a socket in `state`.
pub open spec fn disconnect_outcome(state: SocketState, r: (SocketState, Option<Disconnection>)) -> bool {
    match state {
        SocketState::Connected { connected } => r.0 is Disconnected && (r.1 matches Some(d) && disconnection_of(
            connected,
            Disconnected::Disconnect,
            d,
        )),
        _ => r.0 == state && r.1 is None,
    }
}

/// What a shutdown request does to a socket in `state`.
pub open spec fn shutdown_outcome(state: SocketState, r: (SocketState, Option<Disconnection>)) -> bool {
    &&& r.0 is ShuttingDown
    &&& match state {
        SocketState::Connected { connected } => r.1 matches Some(d) && disconnection_of(connected, Disconnected::Shutdown, d),
        _ => r.1 is None,
    }
}

/// The status of a socket in `state`; `until` is when a waiting reconnect is due.
pub open spec fn socket_status_of(state: SocketState, until: SystemTime) -> SocketStatus {
    match state {
        SocketState::NeverConnected => SocketStatus::NeverConnected,
        SocketState::Connected { .. } => SocketStatus::Connected,
        SocketState::WaitingToReconnect { .. } => SocketStatus::WaitingToReconnect { until },
        SocketState::Disconnected => SocketStatus::Disconnected,
        SocketState::ShuttingDown => SocketStatus::ShuttingDown,
        SocketState::ShutDown => SocketStatus::ShutDown,
    }
}

impl SocketState {
    /// Every timeout the state holds has back-off waits that fit in a
    /// `Duration`, and a connection's registries are well formed.
    pub open spec fn wf(&self) -> bool {
        match self {
            SocketState::Connected { connected } => connected.wf(),
            SocketState::WaitingToReconnect { reconnect, .. } => connect_timeout_ok(reconnect.connect_timeout),
            _ => true,
        }
    }

    /// The state a channel starts in on a socket in this state.
    pub fn channel_state(&self) -> (state: ChannelState)
        ensures
            state@ == (match self {
                SocketState::Connected { .. } => crate::channel::ChannelStateView::WaitingToJoin,
                SocketState::ShuttingDown | SocketState::ShutDown => crate::channel::ChannelStateView::ShuttingDown,
                _ => crate::channel::ChannelStateView::WaitingForSocketToConnect { rejoin: None },
            }),
            crate::channel::state_ok(state@),
    {
        match self {
            SocketState::Connected { .. } => ChannelState::WaitingToJoin,
            SocketState::ShuttingDown | SocketState::ShutDown => ChannelState::ShuttingDown,
            _ => ChannelState::WaitingForSocketToConnect { rejoin: None },
        }
    }

    /// A connect request with `timeout`; `until` is when a waiting reconnect
    /// is due.  A socket whose task exited takes no requests.
    pub fn connect(self, timeout: TimeSpan, until: SystemTime) -> (step: ConnectStep)
        requires
            self.wf(),
            connect_timeout_ok(timeout),
            !(self is ShutDown),
        ensures
            connect_outcome(self, timeout, until, step),
            step matches ConnectStep::Settled { state, .. } ==> state.wf(),
    {
        match self {
            SocketState::NeverConnected | SocketState::Disconnected => ConnectStep::Dial {
                reconnect: Reconnect { connect_timeout: timeout, attempts: 0 },
            },
            SocketState::Connected { connected } => ConnectStep::Settled {
                state: SocketState::Connected { connected },
                result: Ok(()),
            },
            SocketState::WaitingToReconnect { sleep, reconnect } => ConnectStep::Settled {
                state: SocketState::WaitingToReconnect { sleep, reconnect },
                result: Err(ConnectError::WaitingToReconnect { until }),
            },
            _ => ConnectStep::Settled { state: SocketState::ShuttingDown, result: Err(ConnectError::ShuttingDown) },
        }
    }

    /// The web socket was opened (`opened`) or not for `reconnect`: the
    /// socket is connected, and its channels are told, or it waits to
    /// reconnect.
    pub fn dialed(reconnect: Reconnect, opened: bool) -> (r: (SocketState, Option<Connectivity>))
        requires
            connect_timeout_ok(reconnect.connect_timeout),
        ensures
            r.0.wf(),
            dialed_outcome(reconnect, opened, r),
    {
        if opened {
            (SocketState::Connected { connected: Connected::new(reconnect.connect_timeout) }, Some(Connectivity::Connected))
        } else {
            (reconnect_wait(reconnect), None)
        }
    }

    /// The reconnect a waiting socket attempts when its wait is over.
    pub fn reconnect_due(&self) -> (reconnect: Reconnect)
        requires
            self.wf(),
            self is WaitingToReconnect,
        ensures
            self matches SocketState::WaitingToReconnect { reconnect: r, .. } && reconnect == r,
            connect_timeout_ok(reconnect.connect_timeout),
    {
        match self {
            SocketState::WaitingToReconnect { reconnect, .. } => *reconnect,
            _ => vstd::pervasive::unreached(),
        }
    }

    /// A disconnect request: a connected socket (whose web socket was
    /// closed) disconnects and tells its channels and waiting callers; any
    /// other state stays.
    pub fn disconnect(self) -> (r: (SocketState, Option<Disconnection>))
        requires
            self.wf(),
        ensures
            r.0.wf(),
            disconnect_outcome(self, r),
    {
        match self {
            SocketState::Connected { connected } => (
                SocketState::Disconnected,
                Some(disconnect_connected(connected, Disconnected::Disconnect)),
            ),
            state => (state, None),
        }
    }

    /// A shutdown request: the socket shuts down; a connected one tells its
    /// channels and waiting callers.
    pub fn shutdown(self) -> (r: (SocketState, Option<Disconnection>))
        requires
            self.wf(),
        ensures
            shutdown_outcome(self, r),
    {
        match self {
            SocketState::Connected { connected } => (
                SocketState::ShuttingDown,
                Some(disconnect_connected(connected, Disconnected::Shutdown)),
            ),
            _ => (SocketState::ShuttingDown, None),
        }
    }

    /// The connection was lost (the server closed it, or sending failed):
    /// the socket waits to reconnect and tells its channels and waiting
    /// callers.
    pub fn connection_lost(self) -> (r: (SocketState, Disconnection))
        requires
            self.wf(),
            self is Connected,
        ensures
            r.0.wf(),
            self matches SocketState::Connected { connected } && reconnect_wait_spec(
                Reconnect { connect_timeout: connected.connect_timeout, attempts: 0 },
                r.0,
            ) && disconnection_of(connected, Disconnected::Reconnect, r.1),
    {
        match self {
            SocketState::Connected { connected } => {
                let reconnect = Reconnect { connect_timeout: connected.connect_timeout, attempts: 0 };
                (reconnect_wait(reconnect), disconnect_connected(connected, Disconnected::Reconnect))
            },
            _ => vstd::pervasive::unreached(),
        }
    }

    /// The socket's task has exited: the socket is shut down.
    pub fn exited(self) -> (state: SocketState)
        ensures
            state is ShutDown,
    {
        SocketState::ShutDown
    }

    /// The status of the socket; `until` is when a waiting reconnect is due.
    pub fn status(&self, until: SystemTime) -> (status: SocketStatus)
        ensures
            status == socket_status_of(*self, until),
    {
        match self {
            SocketState::NeverConnected => SocketStatus::NeverConnected,
            SocketState::Connected { .. } => SocketStatus::Connected,
            SocketState::WaitingToReconnect { .. } => SocketStatus::WaitingToReconnect { until },
            SocketState::Disconnected => SocketStatus::Disconnected,
            SocketState::ShuttingDown => SocketStatus::ShuttingDown,
            SocketState::ShutDown => SocketStatus::ShutDown,
        }
    }
}

/// The web socket errors after which the socket reconnects.
pub open spec fn loses_connection(error: WebSocketError) -> bool {
    match error {
        WebSocketError::ConnectionClosed | WebSocketError::AlreadyClosed | WebSocketError::Io { .. } | WebSocketError::Tls {
            ..
        } | WebSocketError::Protocol { .. } => true,
        _ => false,
    }
}

/// The web socket errors that end the socket, and how.
pub open spec fn fatal_error(error: WebSocketError) -> Option<SocketShutdownError> {
    match error {
        WebSocketError::AttackAttempt => Some(SocketShutdownError::AttackAttempt),
        WebSocketError::Url { url_error } => Some(SocketShutdownError::Url { url_error }),
        WebSocketError::Http { response } => Some(SocketShutdownError::Http { response }),
        WebSocketError::HttpFormat { error } => Some(SocketShutdownError::HttpFormat { error }),
        _ => None,
    }
}

/// A frame received on the web socket, its text already read as JSON.
pub enum Received {
    /// A text frame and its text.
    Text { text: String },
    Binary { bytes: Vec<u8> },
    Ping { bytes: Vec<u8> },
    Pong,
    Close { close_frame: Option<CloseFrame> },
}

/// What to do about a received frame.
pub enum Incoming {
    /// Answer with a pong carrying `bytes`; when that can't be sent, the
    /// connection is lost.
    Pong { bytes: Vec<u8> },
    /// Nothing.
    Nothing,
    /// The server closed the connection: close the web socket with
    /// `close_frame`; `disconnection` tells who waited on it.
    Closed { close_frame: Option<CloseFrame>, disconnection: Disconnection },
    /// A message to route through the connection.
    Decoded { message: Message },
    /// A frame that is no message was dropped.
    Dropped { error: MessageDecodingError },
}

impl SocketState {
    /// An error of a connected socket's web socket: the connection is lost,
    /// or the error is ignored, or it ends the socket (`Err`).
    pub fn socket_error(self, error: WebSocketError) -> (r: Result<(SocketState, Option<Disconnection>), SocketShutdownError>)
        requires
            self.wf(),
            self is Connected,
        ensures
            loses_connection(error) ==> (r matches Ok((state, Some(d))) && state.wf() && (self matches SocketState::Connected { connected }
                && reconnect_wait_spec(Reconnect { connect_timeout: connected.connect_timeout, attempts: 0 }, state)
                && disconnection_of(connected, Disconnected::Reconnect, d))),
            fatal_error(error) matches Some(e) ==> r == Err::<(SocketState, Option<Disconnection>), SocketShutdownError>(e),
            !loses_connection(error) && fatal_error(error) is None ==> (r matches Ok((state, None)) && state == self),
    {
        match error {
            WebSocketError::ConnectionClosed | WebSocketError::AlreadyClosed | WebSocketError::Io { .. } | WebSocketError::Tls {
                ..
            } | WebSocketError::Protocol { .. } => {
                let (state, disconnection) = self.connection_lost();
                Ok((state, Some(disconnection)))
            },
            WebSocketError::AttackAttempt => Err(SocketShutdownError::AttackAttempt),
            WebSocketError::Url { url_error } => Err(SocketShutdownError::Url { url_error }),
            WebSocketError::Http { response } => Err(SocketShutdownError::Http { response }),
            WebSocketError::HttpFormat { error } => Err(SocketShutdownError::HttpFormat { error }),
            _ => Ok((self, None)),
        }
    }

    /// A frame received by a connected socket.
    pub fn received(self, received: Received) -> (r: (SocketState, Incoming))
        requires
            self.wf(),
            self is Connected,
        ensures
            r.0.wf(),
            match received {
                Received::Ping { bytes } => r.0 == self && (r.1 matches Incoming::Pong { bytes: b } && b@ == bytes@),
                Received::Pong => r.0 == self && r.1 is Nothing,
                Received::Close { close_frame } => r.1 matches Incoming::Closed { close_frame: f, disconnection: d } && f
                    == close_frame && (self matches SocketState::Connected { connected } && reconnect_wait_spec(
                    Reconnect { connect_timeout: connected.connect_timeout, attempts: 0 },
                    r.0,
                ) && disconnection_of(connected, Disconnected::Reconnect, d)),
                Received::Text { text } => r.0 == self && match crate::json_text::json_parse(text@) {
                    Err(e) => r.1 matches Incoming::Dropped { error } && error@ == crate::decode::DecodeFailure::Json(e),
                    Ok(json) => match crate::decode::decode_json_message(json) {
                        Ok(m) => r.1 matches Incoming::Decoded { message } && message@ == m,
                        Err(f) => r.1 matches Incoming::Dropped { error } && error@ == f,
                    },
                },
                Received::Binary { bytes } => r.0 == self && match crate::decode::decode_binary_message(bytes@) {
                    Ok(m) => r.1 matches Incoming::Decoded { message } && message@ == m,
                    Err(f) => r.1 matches Incoming::Dropped { error } && error@ == f,
                },
            },
    {
        match received {
            Received::Ping { bytes } => (self, Incoming::Pong { bytes }),
            Received::Pong => (self, Incoming::Nothing),
            Received::Close { close_frame } => {
                let (state, disconnection) = self.connection_lost();
                (state, Incoming::Closed { close_frame, disconnection })
            },
            Received::Text { text } => match Message::decode_json_text(text.as_str()) {
                Ok(message) => (self, Incoming::Decoded { message }),
                Err(error) => (self, Incoming::Dropped { error }),
            },
            Received::Binary { bytes } => match Message::decode(crate::encode::EncodedMessage::Binary { bytes }) {
                Ok(message) => (self, Incoming::Decoded { message }),
                Err(error) => (self, Incoming::Dropped { error }),
            },
        }
    }
}

/// The version of the Phoenix serializer this client speaks, sent as the
/// `vsn` query parameter of the socket's URL.
pub const PHOENIX_SERIALIZER_VSN: &'static str = "2.0.0";

/// Whether a socket can be opened on a URL with this scheme: `ws` or `wss`.
pub fn is_supported_scheme(scheme: &str) -> (supported: bool)
    ensures
        supported == (scheme@ == "ws"@ || scheme@ == "wss"@),
{
    str_eq(scheme, "ws") || str_eq(scheme, "wss")
}

/// The names and values of the headers of a web socket opening handshake.
pub open spec fn handshake_headers_spec(host: Seq<char>, key: Seq<char>, cookies: Seq<Seq<char>>) -> Seq<(Seq<char>, Seq<char>)> {
    seq![
        ("Host"@, host),
        ("Connection"@, "Upgrade"@),
        ("Upgrade"@, "websocket"@),
        ("Sec-WebSocket-Version"@, "13"@),
        ("Sec-WebSocket-Key"@, key),
    ] + cookies.map_values(|cookie: Seq<char>| ("Cookie"@, cookie))
}

/// The views of a list of headers.
pub open spec fn header_views(headers: Seq<(String, String)>) -> Seq<(Seq<char>, Seq<char>)> {
    headers.map_values(|h: (String, String)| (h.0@, h.1@))
}

/// The views of a list of strings.
pub open spec fn string_views(strings: Seq<String>) -> Seq<Seq<char>> {
    strings.map_values(|s: String| s@)
}

/// The headers of the opening handshake for `host` with the handshake `key`:
/// host, connection upgrade to a version 13 web socket, the key, and one
/// `Cookie` header for each cookie, in order.
pub fn handshake_headers(host: String, key: String, cookies: &Option<Vec<String>>) -> (headers: Vec<(String, String)>)
    ensures
        header_views(headers@) == handshake_headers_spec(
            host@,
            key@,
            match cookies {
                Some(c) => string_views(c@),
                None => Seq::empty(),
            },
        ),
{
    let mut headers: Vec<(String, String)> = Vec::new();
    headers.push((owned("Host"), host));
    headers.push((owned("Connection"), owned("Upgrade")));
    headers.push((owned("Upgrade"), owned("websocket")));
    headers.push((owned("Sec-WebSocket-Version"), owned("13")));
    headers.push((owned("Sec-WebSocket-Key"), key));
    let ghost fixed = header_views(headers@);
    let ghost all_cookies: Seq<Seq<char>> = match cookies {
        Some(c) => string_views(c@),
        None => Seq::empty(),
    };
    if let Some(cookies) = cookies {
        let mut i: usize = 0;
        while i < cookies.len()
            invariant
                0 <= i <= cookies@.len(),
                all_cookies == string_views(cookies@),
                header_views(headers@) == fixed + all_cookies.subrange(0, i as int).map_values(
                    |cookie: Seq<char>| ("Cookie"@, cookie),
                ),
            decreases cookies@.len() - i,
        {
            let ghost before = headers@;
            headers.push((owned("Cookie"), cookies[i].clone()));
            proof {
                assert(header_views(headers@) =~= header_views(before).push(("Cookie"@, cookies@[i as int]@)));
                assert(all_cookies.subrange(0, i + 1) =~= all_cookies.subrange(0, i as int).push(cookies@[i as int]@));
                assert(header_views(headers@) =~= fixed + all_cookies.subrange(0, i + 1).map_values(
                    |cookie: Seq<char>| ("Cookie"@, cookie),
                ));
            }
            i = i + 1;
        }
        assert(all_cookies.subrange(0, cookies@.len() as int) =~= all_cookies);
    } else {
        assert(all_cookies.map_values(|cookie: Seq<char>| ("Cookie"@, cookie)) =~= Seq::empty());
        assert(header_views(headers@) =~= fixed + all_cookies.map_values(|cookie: Seq<char>| ("Cookie"@, cookie)));
    }
    assert(fixed =~= seq![
        ("Host"@, host@),
        ("Connection"@, "Upgrade"@),
        ("Upgrade"@, "websocket"@),
        ("Sec-WebSocket-Version"@, "13"@),
        ("Sec-WebSocket-Key"@, key@),
    ]);
    headers
}

} // verus!
