use std::time::SystemTime;

use phoenix_channels_client::backoff::Reconnect;
use phoenix_channels_client::channel::{CallError, ChannelState, Connectivity, Disconnected, SocketJoinError};
use phoenix_channels_client::decode::MessageDecodingError;
use phoenix_channels_client::event::{Event, PhoenixEvent, ReplyStatus};
use phoenix_channels_client::json::{JSONDeserializationError, JSON};
use phoenix_channels_client::message::{
    Broadcast, Control, EventPayload, JoinReference, Message, Payload, Push, Reference, Reply, Topic,
};
use phoenix_channels_client::registry::{ByMessage, ByTopic};
use phoenix_channels_client::shutdown::SocketShutdownError;
use phoenix_channels_client::socket::{
    handshake_headers, heartbeat_message, is_supported_scheme, join_message, leave_message, ConnectError,
    ConnectStep, Connected, Incoming, Received, ReplyRouting, Routing, SocketState, SocketStatus,
};
use phoenix_channels_client::time::TimeSpan;
use phoenix_channels_client::web_socket::{CapacityError, WebSocketError};

fn secs(n: u64) -> TimeSpan {
    TimeSpan::from_secs(n)
}

fn topic(name: &str) -> Topic {
    Topic::from_string(name.to_string())
}

fn reply(t: &str, j: &str, r: &str, status: ReplyStatus, text: &str) -> Reply {
    Reply {
        topic: topic(t),
        event: Event::Phoenix { phoenix: PhoenixEvent::Reply },
        payload: Payload::JSON { json: JSON::Str { string: text.to_string() } },
        join_reference: JoinReference::from_str(j),
        reference: Reference::from_str(r),
        status,
    }
}

#[test]
fn by_topic_gives_back_what_was_filed_and_drops_empty_topics() {
    let mut files: ByTopic<u64> = ByTopic::new();
    assert!(files.is_empty());
    assert_eq!(files.insert("room", "a", 1), None);
    assert_eq!(files.insert("room", "b", 2), None);
    assert_eq!(files.insert("room", "a", 3), Some(1));
    assert_eq!(files.get("room", "a"), Some(&3));
    assert_eq!(files.remove("room", "a"), Some(3));
    assert_eq!(files.remove("room", "a"), None);
    assert!(files.has_topic("room"));
    assert_eq!(files.remove("room", "b"), Some(2));
    assert!(!files.has_topic("room"));
    assert!(files.is_empty());
}

#[test]
fn by_topic_drain_hands_out_every_value() {
    let mut files: ByTopic<u64> = ByTopic::new();
    files.insert("a", "1", 10);
    files.insert("a", "2", 20);
    files.insert("b", "1", 30);
    let mut values = files.drain();
    values.sort();
    assert_eq!(values, vec![10, 20, 30]);
    assert!(files.is_empty());
}

#[test]
fn by_message_gives_back_what_was_filed() {
    let mut files: ByMessage<u64> = ByMessage::new();
    assert_eq!(files.insert("room", "j", "r1", 1), None);
    assert_eq!(files.insert("room", "j", "r2", 2), None);
    assert_eq!(files.remove("room", "j", "r1"), Some(1));
    assert_eq!(files.remove("room", "j", "r1"), None);
    assert_eq!(files.remove("room", "x", "r2"), None);
    let values = files.drain();
    assert_eq!(values, vec![2]);
}

#[test]
fn join_reply_registers_the_channel_and_relays_its_topic() {
    let mut connected = Connected::new(secs(10));
    assert_eq!(connected.join_sent(&topic("room"), &JoinReference::from_str("j"), 7), None);
    match connected.handle_reply(reply("room", "j", "r", ReplyStatus::Okay, "welcome")) {
        ReplyRouting::Joined { join, payload: Payload::JSON { json: JSON::Str { string } }, new_topic, topic } => {
            assert_eq!(topic.as_str(), "room");
            assert_eq!(join, 7);
            assert_eq!(string, "welcome");
            assert!(new_topic);
        }
        other => panic!("unexpected {:?}", other),
    }
    assert_eq!(connected.push_target(&topic("room"), &JoinReference::from_str("j")), Some(7));
    assert!(connected.relays(&topic("room")));
    assert_eq!(connected.join_timed_out(&topic("room"), &JoinReference::from_str("j")), None);
}

#[test]
fn second_join_of_a_topic_reuses_its_broadcasts() {
    let mut connected = Connected::new(secs(10));
    connected.join_sent(&topic("room"), &JoinReference::from_str("j1"), 1);
    connected.join_sent(&topic("room"), &JoinReference::from_str("j2"), 2);
    connected.handle_reply(reply("room", "j1", "r", ReplyStatus::Okay, "ok"));
    match connected.handle_reply(reply("room", "j2", "r", ReplyStatus::Okay, "ok")) {
        ReplyRouting::Joined { join: 2, new_topic: false, .. } => {}
        other => panic!("unexpected {:?}", other),
    }
}

#[test]
fn rejected_join_registers_nothing() {
    let mut connected = Connected::new(secs(10));
    connected.join_sent(&topic("room"), &JoinReference::from_str("j"), 7);
    match connected.handle_reply(reply("room", "j", "r", ReplyStatus::Error, "unauthorized")) {
        ReplyRouting::JoinRejected { join: 7, .. } => {}
        other => panic!("unexpected {:?}", other),
    }
    assert_eq!(connected.push_target(&topic("room"), &JoinReference::from_str("j")), None);
    assert!(!connected.relays(&topic("room")));
}

#[test]
fn call_reply_reaches_its_caller_once() {
    let mut connected = Connected::new(secs(10));
    let j = JoinReference::from_str("j");
    connected.call_sent(&topic("room"), &j, &Reference::from_str("r1"), 5);
    match connected.handle_reply(reply("room", "j", "r1", ReplyStatus::Error, "bad")) {
        ReplyRouting::CallAnswered { call: 5, result: Err(_) } => {}
        other => panic!("unexpected {:?}", other),
    }
    assert!(matches!(connected.handle_reply(reply("room", "j", "r1", ReplyStatus::Okay, "again")), ReplyRouting::Ignored));
}

#[test]
fn lost_connection_hands_out_every_waiting_caller() {
    let mut connected = Connected::new(secs(1));
    let j = JoinReference::from_str("j");
    connected.join_sent(&topic("a"), &j, 1);
    connected.call_sent(&topic("b"), &j, &Reference::from_str("r"), 2);
    connected.call_sent(&topic("b"), &j, &Reference::from_str("s"), 3);
    let (state, disconnection) = SocketState::Connected { connected }.connection_lost();
    match state {
        SocketState::WaitingToReconnect { sleep, reconnect } => {
            assert_eq!(sleep, secs(0));
            assert_eq!(reconnect, Reconnect { connect_timeout: secs(1), attempts: 1 });
        }
        _ => panic!("expected to wait to reconnect"),
    }
    assert!(matches!(disconnection.connectivity, Connectivity::Disconnected { disconnected: Disconnected::Reconnect }));
    assert_eq!(disconnection.joins.len(), 1);
    assert!(matches!(disconnection.joins[0], (1, SocketJoinError::Disconnected)));
    assert!(disconnection.calls.iter().all(|(_, answer)| matches!(answer, CallError::SocketDisconnected)));
    let mut calls: Vec<u64> = disconnection.calls.iter().map(|(call, _)| *call).collect();
    calls.sort();
    assert_eq!(calls, vec![2, 3]);
}

#[test]
fn heartbeat_is_sent_once_until_answered() {
    let mut connected = Connected::new(secs(10));
    let reference = connected.heartbeat().expect("a heartbeat is due");
    assert!(reference.as_str().starts_with("heartbeat:"));
    assert_eq!(reference.as_str().len(), 46);
    connected.heartbeat_sent(reference.copy());
    assert!(connected.heartbeat().is_none());
    let other = Control {
        event: Event::Phoenix { phoenix: PhoenixEvent::Reply },
        payload: Payload::JSON { json: JSON::Null },
        reference: Some(Reference::from_str("someone else")),
    };
    assert!(!connected.control_received(&other));
    let answer = Control {
        event: Event::Phoenix { phoenix: PhoenixEvent::Reply },
        payload: Payload::JSON { json: JSON::Null },
        reference: Some(reference),
    };
    match connected.route(Message::Control(answer)) {
        Routing::Control { heartbeat_answered } => assert!(heartbeat_answered),
        other => panic!("unexpected {:?}", other),
    }
    assert!(connected.heartbeat_due());
}

#[test]
fn route_sends_pushes_to_joined_channels_and_skips_heartbeat_replies() {
    let mut connected = Connected::new(secs(10));
    connected.join_sent(&topic("room"), &JoinReference::from_str("j"), 4);
    connected.handle_reply(reply("room", "j", "r", ReplyStatus::Okay, "ok"));
    let push = Push {
        topic: topic("room"),
        event_payload: EventPayload { event: Event::from_string("shout".to_string()), payload: Payload::default() },
        join_reference: JoinReference::from_str("j"),
        reference: None,
    };
    assert!(matches!(connected.route(Message::Push(push)), Routing::Push { channel: Some(4), .. }));
    let broadcast = Broadcast {
        topic: topic("elsewhere"),
        event_payload: EventPayload { event: Event::from_string("shout".to_string()), payload: Payload::default() },
    };
    assert!(matches!(connected.route(Message::Broadcast(broadcast)), Routing::Broadcast { relayed: false, .. }));
    let mut heartbeat_reply = reply("phoenix", "j", "r", ReplyStatus::Okay, "");
    heartbeat_reply.event = Event::Phoenix { phoenix: PhoenixEvent::Heartbeat };
    assert!(matches!(connected.route(Message::Reply(heartbeat_reply)), Routing::HeartbeatReply));
}

#[test]
fn connect_depends_on_the_state() {
    let until = SystemTime::UNIX_EPOCH;
    match SocketState::NeverConnected.connect(secs(3), until) {
        ConnectStep::Dial { reconnect } => assert_eq!(reconnect, Reconnect { connect_timeout: secs(3), attempts: 0 }),
        _ => panic!("expected to dial"),
    }
    match (SocketState::WaitingToReconnect { sleep: secs(1), reconnect: Reconnect { connect_timeout: secs(1), attempts: 2 } })
        .connect(secs(3), until)
    {
        ConnectStep::Settled { result: Err(ConnectError::WaitingToReconnect { until: u }), .. } => assert_eq!(u, until),
        _ => panic!("expected to be told to wait"),
    }
    match SocketState::ShuttingDown.connect(secs(3), until) {
        ConnectStep::Settled { result: Err(ConnectError::ShuttingDown), .. } => {}
        _ => panic!("expected a shutting down error"),
    }
    match (SocketState::Connected { connected: Connected::new(secs(3)) }).connect(secs(3), until) {
        ConnectStep::Settled { state: SocketState::Connected { .. }, result: Ok(()) } => {}
        _ => panic!("expected to stay connected"),
    }
}

#[test]
fn dial_outcome_connects_or_backs_off() {
    let reconnect = Reconnect { connect_timeout: secs(2), attempts: 3 };
    let (state, connectivity) = SocketState::dialed(reconnect, true);
    assert!(matches!(state, SocketState::Connected { .. }));
    assert!(matches!(connectivity, Some(Connectivity::Connected)));
    let (state, connectivity) = SocketState::dialed(reconnect, false);
    match state {
        SocketState::WaitingToReconnect { sleep, reconnect } => {
            assert_eq!(sleep, secs(10));
            assert_eq!(reconnect.attempts, 4);
        }
        _ => panic!("expected to wait"),
    }
    assert!(connectivity.is_none());
}

#[test]
fn disconnect_and_shutdown_tell_the_channels() {
    let (state, d) = (SocketState::Connected { connected: Connected::new(secs(1)) }).disconnect();
    assert!(matches!(state, SocketState::Disconnected));
    assert!(matches!(d, Some(ref d) if matches!(d.connectivity, Connectivity::Disconnected { disconnected: Disconnected::Disconnect })));
    let (state, d) = SocketState::NeverConnected.disconnect();
    assert!(matches!(state, SocketState::NeverConnected));
    assert!(d.is_none());
    let (state, d) = (SocketState::Connected { connected: Connected::new(secs(1)) }).shutdown();
    assert!(matches!(state, SocketState::ShuttingDown));
    assert!(matches!(d, Some(ref d) if matches!(d.connectivity, Connectivity::Disconnected { disconnected: Disconnected::Shutdown })));
}

#[test]
fn socket_errors_are_sorted() {
    let connected = || SocketState::Connected { connected: Connected::new(secs(1)) };
    assert!(matches!(connected().socket_error(WebSocketError::ConnectionClosed), Ok((SocketState::WaitingToReconnect { .. }, Some(_)))));
    assert!(matches!(
        connected().socket_error(WebSocketError::Capacity { capacity_error: CapacityError::TooManyHeaders }),
        Ok((SocketState::Connected { .. }, None))
    ));
    assert!(matches!(connected().socket_error(WebSocketError::Utf8), Ok((SocketState::Connected { .. }, None))));
    assert!(matches!(connected().socket_error(WebSocketError::AttackAttempt), Err(SocketShutdownError::AttackAttempt)));
    match connected().socket_error(WebSocketError::Url { url_error: "bad url".to_string() }) {
        Err(SocketShutdownError::Url { url_error }) => assert_eq!(url_error, "bad url"),
        _ => panic!("expected a URL error"),
    }
}

#[test]
fn received_frames_are_sorted() {
    let connected = || SocketState::Connected { connected: Connected::new(secs(1)) };
    assert!(matches!(connected().received(Received::Ping { bytes: vec![1] }), (_, Incoming::Pong { ref bytes }) if bytes == &vec![1u8]));
    assert!(matches!(connected().received(Received::Pong), (SocketState::Connected { .. }, Incoming::Nothing)));
    assert!(matches!(
        connected().received(Received::Close { close_frame: None }),
        (SocketState::WaitingToReconnect { .. }, Incoming::Closed { close_frame: None, .. })
    ));
    assert!(matches!(
        connected().received(Received::Text { text: "[1,".to_string() }),
        (_, Incoming::Dropped { error: MessageDecodingError::Json { error: JSONDeserializationError::EOF { line: 1, column: 3 } } })
    ));
    assert!(matches!(
        connected().received(Received::Text { text: "[null,null,\"room\",\"shout\",{}]".to_string() }),
        (_, Incoming::Decoded { message: Message::Broadcast(_) })
    ));
    assert!(matches!(connected().received(Received::Binary { bytes: vec![] }), (_, Incoming::Dropped { error: MessageDecodingError::InvalidBinary })));
    let mut frame = vec![2u8, 1, 1];
    frame.extend_from_slice(b"te");
    assert!(matches!(connected().received(Received::Binary { bytes: frame }), (_, Incoming::Decoded { message: Message::Broadcast(_) })));
}

#[test]
fn new_channels_start_by_the_socket_state() {
    assert!(matches!(SocketState::NeverConnected.channel_state(), ChannelState::WaitingForSocketToConnect { rejoin: None }));
    assert!(matches!((SocketState::Connected { connected: Connected::new(secs(1)) }).channel_state(), ChannelState::WaitingToJoin));
    assert!(matches!(SocketState::ShuttingDown.channel_state(), ChannelState::ShuttingDown));
}

#[test]
fn socket_status_names_the_state() {
    let until = SystemTime::UNIX_EPOCH;
    assert_eq!(SocketState::NeverConnected.status(until), SocketStatus::NeverConnected);
    assert_eq!(SocketState::Disconnected.status(until), SocketStatus::Disconnected);
    assert_eq!(
        (SocketState::WaitingToReconnect { sleep: secs(1), reconnect: Reconnect { connect_timeout: secs(1), attempts: 1 } })
            .status(until),
        SocketStatus::WaitingToReconnect { until }
    );
    assert_eq!(SocketState::ShutDown.status(until), SocketStatus::ShutDown);
}

#[test]
fn only_web_socket_schemes_are_supported() {
    assert!(is_supported_scheme("ws"));
    assert!(is_supported_scheme("wss"));
    assert!(!is_supported_scheme("http"));
    assert!(!is_supported_scheme(""));
}

#[test]
fn handshake_headers_carry_the_cookies_last() {
    let headers = handshake_headers(
        "example.com".to_string(),
        "dGhlIHNhbXBsZSBub25jZQ==".to_string(),
        &Some(vec!["a=1".to_string(), "b=2".to_string()]),
    );
    let expected: Vec<(String, String)> = vec![
        ("Host", "example.com"),
        ("Connection", "Upgrade"),
        ("Upgrade", "websocket"),
        ("Sec-WebSocket-Version", "13"),
        ("Sec-WebSocket-Key", "dGhlIHNhbXBsZSBub25jZQ=="),
        ("Cookie", "a=1"),
        ("Cookie", "b=2"),
    ]
    .into_iter()
    .map(|(n, v)| (n.to_string(), v.to_string()))
    .collect();
    assert_eq!(headers, expected);
    assert_eq!(handshake_headers("h".to_string(), "k".to_string(), &None).len(), 5);
}

#[test]
fn protocol_messages_have_their_phoenix_events() {
    let t = topic("room");
    let j = JoinReference::from_str("j");
    match join_message(&t, &j, Payload::default(), Reference::from_str("r")) {
        Message::Push(push) => {
            assert!(push.event_payload.event.is_phoenix(PhoenixEvent::Join));
            assert_eq!(push.reference.map(|r| r.to_string()), Some("r".to_string()));
        }
        other => panic!("unexpected {:?}", other),
    }
    match leave_message(&t, &j) {
        Message::Push(push) => {
            assert!(push.event_payload.event.is_phoenix(PhoenixEvent::Leave));
            assert!(push.reference.is_none());
            assert!(matches!(push.event_payload.payload, Payload::JSON { json: JSON::Null }));
        }
        other => panic!("unexpected {:?}", other),
    }
    match heartbeat_message(Reference::from_str("heartbeat:x")) {
        Message::Control(control) => assert!(control.event.is_phoenix(PhoenixEvent::Heartbeat)),
        other => panic!("unexpected {:?}", other),
    }
}

#[test]
fn socket_status_follows_connect_disconnect_and_shutdown() {
    let until = SystemTime::UNIX_EPOCH;
    let state = SocketState::NeverConnected;
    assert_eq!(state.status(until), SocketStatus::NeverConnected);
    let reconnect = match state.connect(secs(1), until) {
        ConnectStep::Dial { reconnect } => reconnect,
        _ => panic!("expected to dial"),
    };
    let (state, _) = SocketState::dialed(reconnect, true);
    assert_eq!(state.status(until), SocketStatus::Connected);
    let (state, _) = state.disconnect();
    assert_eq!(state.status(until), SocketStatus::Disconnected);
    let (state, _) = state.shutdown();
    assert_eq!(state.status(until), SocketStatus::ShuttingDown);
    assert_eq!(state.exited().status(until), SocketStatus::ShutDown);
}
