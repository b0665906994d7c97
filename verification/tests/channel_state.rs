use std::time::SystemTime;

use phoenix_channels_client::backoff::Rejoin;
use phoenix_channels_client::channel::{
    ChannelNotification, ChannelState, ChannelStatus, Connectivity, Disconnected, JoinError, JoinStep, LeaveError,
    LeaveStep, SocketJoinError,
};
use phoenix_channels_client::json::JSON;
use phoenix_channels_client::message::Payload;
use phoenix_channels_client::shutdown::{ChannelShutdownError, SocketShutdownError};
use phoenix_channels_client::time::TimeSpan;

fn secs(n: u64) -> TimeSpan {
    TimeSpan::from_secs(n)
}

fn rejoin(attempts: u16) -> Rejoin {
    Rejoin { join_timeout: secs(2), attempts }
}

fn payload(text: &str) -> Payload {
    Payload::JSON { json: JSON::Str { string: text.to_string() } }
}

fn joining(waiters: Vec<u64>) -> ChannelState {
    ChannelState::Joining { joined_waiters: waiters, rejoin: rejoin(0) }
}

/// Every caller named in the notifications.
fn named(notifications: &[ChannelNotification]) -> Vec<u64> {
    let mut all = Vec::new();
    for n in notifications {
        match n {
            ChannelNotification::JoinResult { waiters, .. } => all.extend(waiters.iter().copied()),
            ChannelNotification::LeaveResult { waiters, .. } => all.extend(waiters.iter().copied()),
            ChannelNotification::Abandoned { waiters } => all.extend(waiters.iter().copied()),
        }
    }
    all
}

#[test]
fn connected_socket_lets_a_waiting_channel_join() {
    let (state, n) = ChannelState::WaitingForSocketToConnect { rejoin: None }.connectivity_changed(Connectivity::Connected);
    assert!(matches!(state, ChannelState::WaitingToJoin));
    assert!(n.is_empty());
}

#[test]
fn connected_socket_makes_a_rejoining_channel_wait_by_back_off() {
    let (state, n) = ChannelState::WaitingForSocketToConnect { rejoin: Some(rejoin(3)) }
        .connectivity_changed(Connectivity::Connected);
    match state {
        ChannelState::WaitingToRejoin { sleep, rejoin } => {
            assert_eq!(sleep, secs(10));
            assert_eq!(rejoin.attempts, 4);
            assert_eq!(rejoin.join_timeout, secs(2));
        }
        _ => panic!("expected to wait to rejoin"),
    }
    assert!(n.is_empty());
}

#[test]
fn disconnect_while_joining_fails_the_joiners_and_forgets_the_rejoin() {
    let (state, n) = joining(vec![1, 2]).connectivity_changed(Connectivity::Disconnected {
        disconnected: Disconnected::Disconnect,
    });
    assert!(matches!(state, ChannelState::WaitingForSocketToConnect { rejoin: None }));
    assert_eq!(n.len(), 1);
    match &n[0] {
        ChannelNotification::JoinResult { waiters, result: Err(JoinError::SocketDisconnected) } => {
            assert_eq!(waiters, &vec![1, 2])
        }
        other => panic!("unexpected {:?}", other),
    }
}

#[test]
fn reconnect_while_joined_rejoins_from_the_first_attempt() {
    let state = ChannelState::Joined { join_timeout: secs(5), payload: payload("ok") };
    let (state, n) = state.connectivity_changed(Connectivity::Disconnected { disconnected: Disconnected::Reconnect });
    match state {
        ChannelState::WaitingForSocketToConnect { rejoin: Some(r) } => {
            assert_eq!(r.join_timeout, secs(5));
            assert_eq!(r.attempts, 0);
        }
        _ => panic!("expected to wait with a rejoin"),
    }
    assert!(n.is_empty());
}

#[test]
fn socket_shutdown_while_leaving_answers_the_leavers() {
    let (state, n) = ChannelState::Leaving { left_waiters: vec![4] }
        .connectivity_changed(Connectivity::Disconnected { disconnected: Disconnected::Shutdown });
    assert!(matches!(state, ChannelState::ShuttingDown));
    assert!(matches!(&n[0], ChannelNotification::LeaveResult { waiters, result: Ok(()) } if waiters == &vec![4]));
}

#[test]
fn shutdown_answers_every_waiting_caller() {
    let (state, n) = joining(vec![1, 2, 3]).shutdown();
    assert!(matches!(state, ChannelState::ShuttingDown));
    assert!(matches!(&n[0], ChannelNotification::JoinResult { result: Err(JoinError::ShuttingDown), .. }));
    assert_eq!(named(&n), vec![1, 2, 3]);

    let (state, n) = ChannelState::Leaving { left_waiters: vec![7] }.shutdown();
    assert!(matches!(state, ChannelState::ShuttingDown));
    assert!(matches!(&n[0], ChannelNotification::LeaveResult { result: Err(LeaveError::ShuttingDown), .. }));
    assert_eq!(named(&n), vec![7]);

    let (_, n) = ChannelState::Left.shutdown();
    assert!(n.is_empty());
}

#[test]
fn join_on_a_waiting_channel_asks_the_socket() {
    match ChannelState::WaitingToJoin.join(false, secs(3), 9, SystemTime::UNIX_EPOCH) {
        JoinStep::SocketJoin { state, rejoin, waiters } => {
            assert!(matches!(state, ChannelState::WaitingToJoin));
            assert_eq!(rejoin, Rejoin { join_timeout: secs(3), attempts: 0 });
            assert_eq!(waiters, vec![9]);
        }
        _ => panic!("expected a socket join"),
    }
}

#[test]
fn join_past_its_deadline_waits_to_rejoin_and_drops_the_caller() {
    match ChannelState::Left.join(true, secs(3), 9, SystemTime::UNIX_EPOCH) {
        JoinStep::Settled { state, notifications } => {
            match state {
                ChannelState::WaitingToRejoin { sleep, rejoin } => {
                    assert_eq!(sleep, secs(0));
                    assert_eq!(rejoin.attempts, 1);
                }
                _ => panic!("expected to wait to rejoin"),
            }
            assert!(matches!(&notifications[0], ChannelNotification::Abandoned { waiters } if waiters == &vec![9]));
        }
        _ => panic!("expected a settled join"),
    }
}

#[test]
fn join_while_joining_waits_for_the_same_answer() {
    match joining(vec![1]).join(false, secs(3), 2, SystemTime::UNIX_EPOCH) {
        JoinStep::Settled { state: ChannelState::Joining { joined_waiters, .. }, notifications } => {
            assert_eq!(joined_waiters, vec![1, 2]);
            assert!(notifications.is_empty());
        }
        _ => panic!("expected to keep joining"),
    }
}

#[test]
fn join_when_joined_answers_with_the_join_payload() {
    let state = ChannelState::Joined { join_timeout: secs(5), payload: payload("welcome") };
    match state.join(false, secs(3), 2, SystemTime::UNIX_EPOCH) {
        JoinStep::Settled { state, notifications } => {
            assert!(matches!(state, ChannelState::Joined { .. }));
            match &notifications[0] {
                ChannelNotification::JoinResult { waiters, result: Ok(Payload::JSON { json: JSON::Str { string } }) } => {
                    assert_eq!(waiters, &vec![2]);
                    assert_eq!(string, "welcome");
                }
                other => panic!("unexpected {:?}", other),
            }
        }
        _ => panic!("expected a settled join"),
    }
}

#[test]
fn join_while_waiting_to_rejoin_or_shutting_down_fails() {
    let waiting = ChannelState::WaitingToRejoin { sleep: secs(1), rejoin: rejoin(1) };
    let until = SystemTime::UNIX_EPOCH + std::time::Duration::from_secs(60);
    match waiting.join(false, secs(3), 2, until) {
        JoinStep::Settled { notifications, .. } => {
            assert!(matches!(
                &notifications[0],
                ChannelNotification::JoinResult { result: Err(JoinError::WaitingToRejoin { until: when }), .. } if *when == until
            ))
        }
        _ => panic!("expected a settled join"),
    }
    match ChannelState::ShuttingDown.join(false, secs(3), 2, SystemTime::UNIX_EPOCH) {
        JoinStep::Settled { notifications, .. } => {
            assert!(matches!(&notifications[0], ChannelNotification::JoinResult { result: Err(JoinError::ShuttingDown), .. }))
        }
        _ => panic!("expected a settled join"),
    }
}

#[test]
fn sent_join_from_leaving_tells_the_leavers_a_join_came_first() {
    let result = ChannelState::Leaving { left_waiters: vec![5] }.socket_join_sent(Ok(()), rejoin(0), vec![6]);
    match result {
        Ok((ChannelState::Joining { joined_waiters, .. }, n)) => {
            assert_eq!(joined_waiters, vec![6]);
            assert!(matches!(&n[0], ChannelNotification::LeaveResult { waiters, result: Err(LeaveError::JoinBeforeLeft) } if waiters == &vec![5]));
        }
        _ => panic!("expected to be joining"),
    }
}

#[test]
fn join_refused_by_a_shut_down_socket_ends_the_channel() {
    let result = ChannelState::Leaving { left_waiters: vec![5] }.socket_join_sent(
        Err(SocketShutdownError::AlreadyJoined),
        rejoin(0),
        vec![6],
    );
    match result {
        Err((error, n)) => {
            assert_eq!(error, ChannelShutdownError::SocketShutdown);
            assert!(matches!(&n[0], ChannelNotification::LeaveResult { result: Err(LeaveError::SocketShutdown { .. }), .. }));
            assert!(matches!(&n[1], ChannelNotification::Abandoned { waiters } if waiters == &vec![6]));
        }
        Ok(_) => panic!("expected the channel to end"),
    }
}

#[test]
fn accepted_join_answers_the_joiners_with_the_payload() {
    match joining(vec![1, 2]).joined_result_received(Some(Ok(payload("hi")))) {
        Ok((ChannelState::Joined { join_timeout, .. }, n)) => {
            assert_eq!(join_timeout, secs(2));
            assert!(matches!(&n[0], ChannelNotification::JoinResult { waiters, result: Ok(_) } if waiters == &vec![1, 2]));
        }
        _ => panic!("expected to be joined"),
    }
}

#[test]
fn rejected_join_reports_the_rejection_and_waits_to_rejoin() {
    match joining(vec![1]).joined_result_received(Some(Err(SocketJoinError::Rejected { rejection: payload("no") }))) {
        Ok((ChannelState::WaitingToRejoin { sleep, rejoin }, n)) => {
            assert_eq!(sleep, secs(0));
            assert_eq!(rejoin.attempts, 1);
            match &n[0] {
                ChannelNotification::JoinResult {
                    waiters,
                    result: Err(JoinError::Rejected { rejection: Payload::JSON { json: JSON::Str { string } } }),
                } => {
                    assert_eq!(waiters, &vec![1]);
                    assert_eq!(string, "no");
                }
                other => panic!("unexpected {:?}", other),
            }
        }
        _ => panic!("expected to wait to rejoin"),
    }
}

#[test]
fn timed_out_join_waits_to_rejoin() {
    match joining(vec![1]).joined_result_received(Some(Err(SocketJoinError::Timeout))) {
        Ok((ChannelState::WaitingToRejoin { sleep, rejoin }, n)) => {
            assert_eq!(sleep, secs(0));
            assert_eq!(rejoin.attempts, 1);
            assert!(matches!(&n[0], ChannelNotification::JoinResult { result: Err(JoinError::Timeout), .. }));
        }
        _ => panic!("expected to wait to rejoin"),
    }
    match joining(vec![1]).joined_result_received(Some(Err(SocketJoinError::Disconnected))) {
        Ok((ChannelState::WaitingToRejoin { .. }, n)) => {
            assert!(matches!(&n[0], ChannelNotification::JoinResult { result: Err(JoinError::SocketDisconnected), .. }))
        }
        _ => panic!("expected to wait to rejoin"),
    }
}

#[test]
fn lost_join_answer_ends_the_channel() {
    match joining(vec![3]).joined_result_received(None) {
        Err((ChannelShutdownError::SocketShutdown, n)) => {
            assert!(matches!(&n[0], ChannelNotification::JoinResult { result: Err(JoinError::Shutdown), .. }))
        }
        _ => panic!("expected the channel to end"),
    }
    match joining(vec![3]).joined_result_received(Some(Err(SocketJoinError::Shutdown {
        shutdown_error: SocketShutdownError::AttackAttempt,
    }))) {
        Ok((ChannelState::ShuttingDown, n)) => {
            assert!(matches!(&n[0], ChannelNotification::JoinResult { result: Err(JoinError::SocketShutdown { .. }), .. }))
        }
        _ => panic!("expected to shut down"),
    }
}

#[test]
fn leave_of_an_idle_channel_is_answered_at_once() {
    match ChannelState::WaitingToJoin.leave(4) {
        LeaveStep::Settled { state, notifications } => {
            assert!(matches!(state, ChannelState::WaitingToJoin));
            assert!(matches!(&notifications[0], ChannelNotification::LeaveResult { waiters, result: Ok(()) } if waiters == &vec![4]));
        }
        _ => panic!("expected a settled leave"),
    }
    match (ChannelState::WaitingToRejoin { sleep: secs(1), rejoin: rejoin(1) }).leave(4) {
        LeaveStep::Settled { state, .. } => assert!(matches!(state, ChannelState::Left)),
        _ => panic!("expected a settled leave"),
    }
}

#[test]
fn leave_of_a_joining_channel_asks_the_socket_and_fails_the_joiners() {
    let step = joining(vec![1]).leave(4);
    let state = match step {
        LeaveStep::SocketLeave { state, waiter } => {
            assert_eq!(waiter, 4);
            state
        }
        _ => panic!("expected a socket leave"),
    };
    let (state, n) = state.socket_leave_sent(Ok(()), 4);
    assert!(matches!(state, ChannelState::Leaving { ref left_waiters } if left_waiters == &vec![4]));
    assert!(matches!(&n[0], ChannelNotification::JoinResult { result: Err(JoinError::LeavingWhileJoining), .. }));
    let (state, n) = state.left(Ok(()));
    assert!(matches!(state, ChannelState::Left));
    assert!(matches!(&n[0], ChannelNotification::LeaveResult { waiters, result: Ok(()) } if waiters == &vec![4]));
}

#[test]
fn failed_socket_leave_keeps_the_channel() {
    let state = ChannelState::Joined { join_timeout: secs(1), payload: payload("p") };
    let (state, n) = state.socket_leave_sent(Err(LeaveError::Timeout), 8);
    assert!(matches!(state, ChannelState::Joined { .. }));
    assert!(matches!(&n[0], ChannelNotification::LeaveResult { result: Err(LeaveError::Timeout), .. }));
}

#[test]
fn leave_while_leaving_waits_for_the_same_answer() {
    match (ChannelState::Leaving { left_waiters: vec![1] }).leave(2) {
        LeaveStep::Settled { state: ChannelState::Leaving { left_waiters }, notifications } => {
            assert_eq!(left_waiters, vec![1, 2]);
            assert!(notifications.is_empty());
        }
        _ => panic!("expected to keep leaving"),
    }
}

#[test]
fn rejoin_due_asks_the_socket_with_nobody_waiting() {
    match (ChannelState::WaitingToRejoin { sleep: secs(1), rejoin: rejoin(2) }).sleep_elapsed() {
        JoinStep::SocketJoin { rejoin: r, waiters, .. } => {
            assert_eq!(r, rejoin(2));
            assert!(waiters.is_empty());
        }
        _ => panic!("expected a socket join"),
    }
}

#[test]
fn undelivered_send_shuts_the_channel_down() {
    let state = ChannelState::Joined { join_timeout: secs(1), payload: payload("p") };
    assert!(matches!(state.send_result(false), ChannelState::ShuttingDown));
    let state = ChannelState::Joined { join_timeout: secs(1), payload: payload("p") };
    assert!(matches!(state.send_result(true), ChannelState::Joined { .. }));
}

#[test]
fn status_names_the_state() {
    let until = SystemTime::UNIX_EPOCH;
    assert_eq!(ChannelState::WaitingToJoin.status(until), ChannelStatus::WaitingToJoin);
    assert_eq!(joining(vec![]).status(until), ChannelStatus::Joining);
    assert_eq!(
        (ChannelState::WaitingToRejoin { sleep: secs(1), rejoin: rejoin(1) }).status(until),
        ChannelStatus::WaitingToRejoin { until }
    );
    assert_eq!(ChannelState::Left.status(until), ChannelStatus::Left);
    assert_eq!(ChannelState::ShuttingDown.status(until), ChannelStatus::ShuttingDown);
}

#[test]
fn no_caller_is_forgotten_when_the_socket_goes_away_mid_join() {
    for connectivity in [
        Connectivity::Connected,
        Connectivity::Disconnected { disconnected: Disconnected::Disconnect },
        Connectivity::Disconnected { disconnected: Disconnected::Reconnect },
        Connectivity::Disconnected { disconnected: Disconnected::Shutdown },
    ] {
        let (_, n) = joining(vec![10, 11]).connectivity_changed(connectivity);
        assert_eq!(named(&n), vec![10, 11]);
    }
}

#[test]
fn channel_status_follows_connect_join_leave_and_shutdown() {
    let until = SystemTime::UNIX_EPOCH;
    let state = ChannelState::WaitingForSocketToConnect { rejoin: None };
    assert!(matches!(state.status(until), ChannelStatus::WaitingForSocketToConnect));
    let (state, _) = state.connectivity_changed(Connectivity::Connected);
    assert!(matches!(state.status(until), ChannelStatus::WaitingToJoin));
    let (state, rejoin, waiters) = match state.join(false, secs(3), 1, until) {
        JoinStep::SocketJoin { state, rejoin, waiters } => (state, rejoin, waiters),
        _ => panic!("expected a socket join"),
    };
    let (state, _) = match state.socket_join_sent(Ok(()), rejoin, waiters) {
        Ok(next) => next,
        Err(_) => panic!("expected to be joining"),
    };
    assert!(matches!(state.status(until), ChannelStatus::Joining));
    let (state, _) = match state.joined_result_received(Some(Ok(payload("welcome")))) {
        Ok(next) => next,
        Err(_) => panic!("expected to be joined"),
    };
    assert!(matches!(state.status(until), ChannelStatus::Joined));
    let (state, waiter) = match state.leave(2) {
        LeaveStep::SocketLeave { state, waiter } => (state, waiter),
        _ => panic!("expected a socket leave"),
    };
    let (state, _) = state.socket_leave_sent(Ok(()), waiter);
    assert!(matches!(state.status(until), ChannelStatus::Leaving));
    let (state, _) = state.left(Ok(()));
    assert!(matches!(state.status(until), ChannelStatus::Left));
    let (state, _) = state.shutdown();
    assert!(matches!(state.status(until), ChannelStatus::ShuttingDown));
    assert!(matches!(state.exited().status(until), ChannelStatus::ShutDown));
}

#[test]
fn channel_waits_for_what_its_state_admits() {
    let a = ChannelState::WaitingForSocketToConnect { rejoin: None }.admission().unwrap();
    assert!(a.connectivity && !a.requests);
    let a = joining(vec![1]).admission().unwrap();
    assert!(!a.connectivity && a.requests && a.join_answer && !a.joined_events);
    let a = (ChannelState::Joined { join_timeout: secs(1), payload: payload("p") }).admission().unwrap();
    assert!(a.connectivity && a.joined_events && !a.leave_answer);
    let a = (ChannelState::WaitingToRejoin { sleep: secs(1), rejoin: rejoin(1) }).admission().unwrap();
    assert!(a.rejoin_wait);
    let a = (ChannelState::Leaving { left_waiters: vec![] }).admission().unwrap();
    assert!(a.leave_answer);
    assert!(ChannelState::ShuttingDown.admission().is_none());
    assert!(ChannelState::ShutDown.admission().is_none());
}

#[test]
fn server_closing_a_joined_channel_leaves_it() {
    let state = ChannelState::Joined { join_timeout: secs(1), payload: payload("p") };
    assert!(matches!(state.server_left(), ChannelState::Left));
}

#[test]
fn rejected_join_is_reported_as_a_status_error() {
    let rejected = ChannelNotification::JoinResult { waiters: vec![1], result: Err(JoinError::Rejected { rejection: payload("no") }) };
    assert!(matches!(rejected.status_error(), Some(Payload::JSON { json: JSON::Str { ref string } }) if string == "no"));
    let timed_out = ChannelNotification::JoinResult { waiters: vec![1], result: Err(JoinError::Timeout) };
    assert!(timed_out.status_error().is_none());
}

#[test]
fn exited_channel_is_shut_down() {
    let state = ChannelState::ShuttingDown.exited();
    assert!(matches!(state.status(SystemTime::UNIX_EPOCH), ChannelStatus::ShutDown));
}
