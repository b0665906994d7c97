use phoenix_channels_client::backoff::{Reconnect, Rejoin};
use phoenix_channels_client::errors::{
    EventsError, PresencesJoinsError, PresencesLeavesError, PresencesSyncsError, StatusesError,
};
use phoenix_channels_client::event::{Event, PhoenixEvent, ReplyStatus};
use phoenix_channels_client::message::{JoinReference, Payload, Reference, Topic};
use phoenix_channels_client::shutdown::{DisconnectError, SocketChannelError, SocketShutdownError};
use phoenix_channels_client::text::{bytes_eq, str_eq};
use phoenix_channels_client::time::TimeSpan;
use tokio::sync::broadcast::error::RecvError;

fn is_uuid_v4_text(text: &str) -> bool {
    let chars: Vec<char> = text.chars().collect();
    chars.len() == 36
        && chars.iter().enumerate().all(|(i, c)| {
            if [8, 13, 18, 23].contains(&i) {
                *c == '-'
            } else {
                c.is_ascii_digit() || ('A'..='F').contains(c)
            }
        })
        && chars[14] == '4'
        && ['8', '9', 'A', 'B'].contains(&chars[19])
}

#[test]
fn rejoin_back_off_grows_and_caps() {
    let timeout = TimeSpan::from_secs(2);
    let waits: Vec<u128> = (0u16..7)
        .map(|attempts| Rejoin { join_timeout: timeout, attempts }.sleep_duration().nanos)
        .collect();
    let second: u128 = 1_000_000_000;
    assert_eq!(waits, vec![0, 2 * second, 4 * second, 10 * second, 20 * second, 20 * second, 20 * second]);
}

#[test]
fn reconnect_back_off_grows_and_caps() {
    let timeout = TimeSpan::from_secs(1);
    let multipliers: Vec<u32> =
        (0u16..6).map(|attempts| Reconnect { connect_timeout: timeout, attempts }.sleep_duration_multiplier()).collect();
    assert_eq!(multipliers, vec![0, 1, 2, 5, 10, 10]);
}

#[test]
fn attempts_count_up_and_saturate() {
    let timeout = TimeSpan::from_secs(1);
    assert_eq!(Rejoin { join_timeout: timeout, attempts: 4 }.next().attempts, 5);
    assert_eq!(Rejoin { join_timeout: timeout, attempts: u16::MAX }.next().attempts, u16::MAX);
    assert_eq!(Reconnect { connect_timeout: timeout, attempts: u16::MAX }.next().attempts, u16::MAX);
    assert_eq!(Reconnect { connect_timeout: timeout, attempts: 0 }.next().connect_timeout, timeout);
}

#[test]
fn time_spans_count_nanoseconds() {
    assert_eq!(TimeSpan::from_secs(3).nanos, 3_000_000_000);
    assert_eq!(TimeSpan::from_nanos(5).mul(4).nanos, 20);
}

#[test]
fn phoenix_event_names_read_back() {
    for event in [
        PhoenixEvent::Join,
        PhoenixEvent::Leave,
        PhoenixEvent::Close,
        PhoenixEvent::Reply,
        PhoenixEvent::Error,
        PhoenixEvent::Heartbeat,
    ] {
        assert_eq!(PhoenixEvent::from_str(event.as_str()), Ok(event));
    }
    assert_eq!(PhoenixEvent::Join.as_str(), "phx_join");
    assert_eq!(PhoenixEvent::Heartbeat.to_string(), "heartbeat");
    assert_eq!(PhoenixEvent::from_str("phx_unknown"), Err(()));
}

#[test]
fn events_from_strings() {
    assert_eq!(Event::from_string("phx_reply".to_string()), Event::Phoenix { phoenix: PhoenixEvent::Reply });
    assert_eq!(Event::from_string("shout".to_string()), Event::User { user: "shout".to_string() });
    assert_eq!(Event::from_str_ref("phx_close"), Event::Phoenix { phoenix: PhoenixEvent::Close });
    assert_eq!(Event::User { user: "shout".to_string() }.to_string(), "shout");
    assert!(Event::from_string("phx_join".to_string()).is_phoenix(PhoenixEvent::Join));
    assert!(!Event::from_string("phx_join".to_string()).is_phoenix(PhoenixEvent::Leave));
}

#[test]
fn reply_status_names() {
    assert_eq!(ReplyStatus::Okay.as_str(), "ok");
    assert_eq!(ReplyStatus::Error.as_str(), "error");
    assert_eq!(ReplyStatus::from_str("ok"), ReplyStatus::Okay);
    assert_eq!(ReplyStatus::from_str("error"), ReplyStatus::Error);
    assert_eq!(ReplyStatus::from_str("anything else"), ReplyStatus::Error);
}

#[test]
fn references_are_fresh_uuids() {
    let a = Reference::new();
    let b = Reference::new();
    assert!(is_uuid_v4_text(a.as_str()));
    assert!(!a.same(&b));
    let heartbeat = Reference::heartbeat();
    assert!(heartbeat.as_str().starts_with("heartbeat:"));
    assert!(is_uuid_v4_text(&heartbeat.as_str()["heartbeat:".len()..]));
    let prefixed = Reference::prefixed("p-");
    assert!(prefixed.as_str().starts_with("p-"));
    assert!(is_uuid_v4_text(&prefixed.as_str()[2..]));
    assert!(is_uuid_v4_text(JoinReference::new().as_str()));
}

#[test]
fn names_keep_their_text() {
    assert_eq!(Topic::from_string("room:lobby".to_string()).to_string(), "room:lobby");
    assert_eq!(Reference::from_string("r".to_string()).copy().as_str(), "r");
    assert_eq!(JoinReference::from_string("j".to_string()).to_string(), "j");
    assert!(JoinReference::from_str("j").same(&JoinReference::from_str("j")));
    assert!(!Reference::from_str("x").same(&Reference::from_str("y")));
}

#[test]
fn payload_kinds() {
    let json = Payload::default();
    assert!(json.is_value());
    assert!(!json.is_binary());
    assert!(json.value().is_some());
    let binary = Payload::binary_from_bytes(vec![1, 2]);
    assert!(binary.is_binary());
    assert_eq!(binary.copy().into_binary(), Some(vec![1, 2]));
    assert!(binary.into_value().is_none());
}

#[test]
fn broadcast_receive_errors() {
    assert_eq!(EventsError::from_recv_error(RecvError::Closed), EventsError::NoMoreEvents);
    assert_eq!(
        EventsError::from_recv_error(RecvError::Lagged(3)),
        EventsError::MissedEvents { missed_event_count: 3 }
    );
    assert_eq!(PresencesJoinsError::from_recv_error(RecvError::Lagged(2)), PresencesJoinsError::MissedJoins {
        missed_join_count: 2
    });
    assert_eq!(PresencesLeavesError::from_recv_error(RecvError::Closed), PresencesLeavesError::NoMoreLeaves);
    assert_eq!(PresencesSyncsError::from_recv_error(RecvError::Lagged(9)), None);
    assert_eq!(PresencesSyncsError::from_recv_error(RecvError::Closed), Some(PresencesSyncsError::NoMoreSyncs));
    assert!(matches!(
        StatusesError::from_recv_error(RecvError::Lagged(4)),
        StatusesError::MissedStatuses { missed_status_count: 4 }
    ));
    assert!(matches!(StatusesError::from_recv_error(RecvError::Closed), StatusesError::NoMoreStatuses));
}

#[test]
fn shutdown_errors_wrap() {
    assert_eq!(
        DisconnectError::from_shutdown(SocketShutdownError::AlreadyJoined),
        DisconnectError::Shutdown { shutdown_error: SocketShutdownError::AlreadyJoined }
    );
    assert_eq!(
        SocketChannelError::from_shutdown(SocketShutdownError::AttackAttempt),
        SocketChannelError::Shutdown { shutdown_error: SocketShutdownError::AttackAttempt }
    );
}

#[test]
fn text_equality() {
    assert!(str_eq("abc", "abc"));
    assert!(!str_eq("abc", "abd"));
    assert!(bytes_eq(&[1, 2], &[1, 2]));
    assert!(!bytes_eq(&[1, 2], &[1]));
}

#[test]
fn reference_debug_without_alternate() {
    let reference = Reference::from_str("reference");

    assert_eq!(format!("{:?}", reference), "Reference(\"reference\")")
}

#[test]
fn join_reference_debug_without_alternate() {
    let join_reference = JoinReference::from_str("join_reference");

    assert_eq!(format!("{:?}", join_reference), "JoinReference(Reference(\"join_reference\"))")
}

#[test]
fn channel_status_join_error_carries_the_rejection() {
    let rejection = Payload::binary_from_bytes(vec![1, 2, 3]);
    match phoenix_channels_client::errors::ChannelStatusJoinError::rejected(&rejection) {
        phoenix_channels_client::errors::ChannelStatusJoinError::Rejected { response: Payload::Binary { bytes } } => {
            assert_eq!(bytes, vec![1, 2, 3])
        }
        other => panic!("unexpected {:?}", other),
    }
}
