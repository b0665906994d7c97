use vstd::prelude::*;

use std::time::SystemTime;

use crate::backoff::{sleep_multiplier, Rejoin};
use crate::message::{Payload, PayloadView};
use crate::shutdown::{ChannelShutdownError, SocketShutdownError};
use crate::time::{TimeSpan, MAX_SPAN_NANOS};
use crate::web_socket::WebSocketError;
use crate::http::{HttpError, Response};

verus! {

/// How the socket's connection changed, as channels are told.
#[derive(Clone, Copy, Debug, PartialEq, Eq, Structural)]
pub enum Connectivity {
    Connected,
    Disconnected { disconnected: Disconnected },
}

/// Why the socket disconnected.
#[derive(Clone, Copy, Debug, PartialEq, Eq, Structural)]
pub enum Disconnected {
    /// `Socket::disconnect` was called.
    Disconnect,
    /// `Socket::shutdown` was called.
    Shutdown,
    /// The socket reconnects automatically; channels should rejoin when it is connected again.
    Reconnect,
}

/// Errors when joining a channel.
#[derive(Debug)]
pub enum JoinError {
    /// Timeout joining channel
    Timeout,
    /// The channel is shutting down.
    ShuttingDown,
    /// The channel's task was already joined by another call.
    Shutdown,
    /// The socket the channel is on shut down.
    SocketShutdown { socket_shutdown_error: SocketShutdownError },
    /// The socket was disconnected while waiting for the server to answer the join.
    SocketDisconnected,
    /// The channel was left while waiting for the server to answer the join.
    LeavingWhileJoining,
    /// The channel waits `until` a time to rejoin, so as not to overload the
    /// server, and can't honor an explicit join now.
    WaitingToRejoin { until: SystemTime },
    /// The server rejected the join.
    Rejected { rejection: Payload },
}

pub enum JoinErrorView {
    Timeout,
    ShuttingDown,
    Shutdown,
    SocketShutdown(SocketShutdownError),
    SocketDisconnected,
    LeavingWhileJoining,
    WaitingToRejoin(SystemTime),
    Rejected(PayloadView),
}

impl View for JoinError {
    type V = JoinErrorView;

    open spec fn view(&self) -> JoinErrorView {
        match self {
            JoinError::Timeout => JoinErrorView::Timeout,
            JoinError::ShuttingDown => JoinErrorView::ShuttingDown,
            JoinError::Shutdown => JoinErrorView::Shutdown,
            JoinError::SocketShutdown { socket_shutdown_error } => JoinErrorView::SocketShutdown(*socket_shutdown_error),
            JoinError::SocketDisconnected => JoinErrorView::SocketDisconnected,
            JoinError::LeavingWhileJoining => JoinErrorView::LeavingWhileJoining,
            JoinError::WaitingToRejoin { until } => JoinErrorView::WaitingToRejoin(*until),
            JoinError::Rejected { rejection } => JoinErrorView::Rejected(rejection@),
        }
    }
}

/// Errors when casting on a channel.
#[derive(Debug)]
pub enum CastError {
    /// The channel's task was already joined by another call.
    Shutdown,
}

/// Errors when calling on a channel.
#[derive(Debug)]
pub enum CallError {
    /// The channel's task was already joined by another call.
    Shutdown,
    /// The socket shut down.
    SocketShutdown { socket_shutdown_error: SocketShutdownError },
    /// The timeout given to the call expired.
    Timeout,
    /// An error of the socket's web socket.
    WebSocket { web_socket_error: WebSocketError },
    /// The socket was disconnected while waiting for the reply.
    SocketDisconnected,
    /// The server answered with an error.
    Reply { reply: Payload },
}

/// Errors for when leaving a channel fails.
#[derive(Debug)]
pub enum LeaveError {
    /// The leave operation timeout.
    Timeout,
    /// The channel was shutting down when the client was leaving the channel.
    ShuttingDown,
    /// The channel's task was already joined by another call.
    Shutdown,
    /// The socket shut down.
    SocketShutdown { socket_shutdown_error: SocketShutdownError },
    /// There was a websocket error when the client was leaving the channel.
    WebSocket { web_socket_error: WebSocketError },
    /// The server rejected the clients request to leave the channel.
    Rejected { rejection: Payload },
    /// A join was initiated before the server could respond if leave was successful
    JoinBeforeLeft,
    /// There was a URL error when leaving the channel.
    Url { url_error: String },
    /// There was an HTTP error when leaving the channel.
    Http { response: Response },
    /// HTTP format error.
    HttpFormat { error: HttpError },
}

/// What the channel has to tell the callers that wait on it.
#[derive(Debug)]
pub enum ChannelNotification {
    /// Answer the join callers `waiters` with `result`.
    JoinResult { waiters: Vec<u64>, result: Result<Payload, JoinError> },
    /// Answer the leave callers `waiters` with `result`.
    LeaveResult { waiters: Vec<u64>, result: Result<(), LeaveError> },
    /// Drop the join callers `waiters` without an answer.
    Abandoned { waiters: Vec<u64> },
}

pub enum NotificationView {
    JoinResult(Seq<u64>, Result<PayloadView, JoinErrorView>),
    LeaveResult(Seq<u64>, Result<(), LeaveError>),
    Abandoned(Seq<u64>),
}

impl View for ChannelNotification {
    type V = NotificationView;

    open spec fn view(&self) -> NotificationView {
        match self {
            ChannelNotification::JoinResult { waiters, result } => NotificationView::JoinResult(
                waiters@,
                match result {
                    Ok(p) => Ok(p@),
                    Err(e) => Err(e@),
                },
            ),
            ChannelNotification::LeaveResult { waiters, result } => NotificationView::LeaveResult(waiters@, *result),
            ChannelNotification::Abandoned { waiters } => NotificationView::Abandoned(waiters@),
        }
    }
}

pub open spec fn notification_views(notifications: Seq<ChannelNotification>) -> Seq<NotificationView> {
    notifications.map_values(|n: ChannelNotification| n@)
}

/// The state of a channel.
#[derive(Debug)]
pub enum ChannelState {
    /// Waiting for the socket to connect; rejoin on connect when `rejoin` is some.
    WaitingForSocketToConnect { rejoin: Option<Rejoin> },
    /// The socket is connected and the channel waits for `join` to be called.
    WaitingToJoin,
    /// A join was sent; `joined_waiters` wait for its answer.
    Joining { joined_waiters: Vec<u64>, rejoin: Rejoin },
    /// Waiting `sleep` before rejoining.
    WaitingToRejoin { sleep: TimeSpan, rejoin: Rejoin },
    /// The server accepted the join with `payload`.
    Joined { join_timeout: TimeSpan, payload: Payload },
    /// A leave was sent; `left_waiters` wait for its answer.
    Leaving { left_waiters: Vec<u64> },
    /// The channel was left.
    Left,
    /// The channel is shutting down.
    ShuttingDown,
    /// The channel's task has exited.
    ShutDown,
}

pub enum ChannelStateView {
    WaitingForSocketToConnect { rejoin: Option<Rejoin> },
    WaitingToJoin,
    Joining { joined_waiters: Seq<u64>, rejoin: Rejoin },
    WaitingToRejoin { sleep: TimeSpan, rejoin: Rejoin },
    Joined { join_timeout: TimeSpan, payload: PayloadView },
    Leaving { left_waiters: Seq<u64> },
    Left,
    ShuttingDown,
    ShutDown,
}

impl View for ChannelState {
    type V = ChannelStateView;

    open spec fn view(&self) -> ChannelStateView {
        match self {
            ChannelState::WaitingForSocketToConnect { rejoin } => ChannelStateView::WaitingForSocketToConnect { rejoin: *rejoin },
            ChannelState::WaitingToJoin => ChannelStateView::WaitingToJoin,
            ChannelState::Joining { joined_waiters, rejoin } => ChannelStateView::Joining {
                joined_waiters: joined_waiters@,
                rejoin: *rejoin,
            },
            ChannelState::WaitingToRejoin { sleep, rejoin } => ChannelStateView::WaitingToRejoin { sleep: *sleep, rejoin: *rejoin },
            ChannelState::Joined { join_timeout, payload } => ChannelStateView::Joined {
                join_timeout: *join_timeout,
                payload: payload@,
            },
            ChannelState::Leaving { left_waiters } => ChannelStateView::Leaving { left_waiters: left_waiters@ },
            ChannelState::Left => ChannelStateView::Left,
            ChannelState::ShuttingDown => ChannelStateView::ShuttingDown,
            ChannelState::ShutDown => ChannelStateView::ShutDown,
        }
    }
}

/// A timeout whose every back-off wait fits in a `Duration`.
pub open spec fn timeout_ok(timeout: TimeSpan) -> bool {
    timeout.nanos * 10 <= MAX_SPAN_NANOS
}

/// Every timeout that the state holds has back-off waits that fit in a `Duration`.
pub open spec fn state_ok(state: ChannelStateView) -> bool {
    match state {
        ChannelStateView::WaitingForSocketToConnect { rejoin } => rejoin matches Some(r) ==> timeout_ok(r.join_timeout),
        ChannelStateView::Joining { rejoin, .. } => timeout_ok(rejoin.join_timeout),
        ChannelStateView::WaitingToRejoin { rejoin, .. } => timeout_ok(rejoin.join_timeout),
        ChannelStateView::Joined { join_timeout, .. } => timeout_ok(join_timeout),
        _ => true,
    }
}

/// The rejoin after one more attempt.
pub open spec fn rejoin_next(rejoin: Rejoin) -> Rejoin {
    Rejoin {
        join_timeout: rejoin.join_timeout,
        attempts: if rejoin.attempts == u16::MAX { u16::MAX } else { (rejoin.attempts + 1) as u16 },
    }
}

/// Waiting to rejoin: sleep for the back-off of the attempts so far, then
/// rejoin as one more attempt.
pub open spec fn rejoin_wait(rejoin: Rejoin) -> ChannelStateView {
    ChannelStateView::WaitingToRejoin {
        sleep: TimeSpan { nanos: (rejoin.join_timeout.nanos * sleep_multiplier(rejoin.attempts as int)) as u128 },
        rejoin: rejoin_next(rejoin),
    }
}

/// A notification to the join callers of a state (none when nobody waits).
pub open spec fn notify_joiners(waiters: Seq<u64>, error: JoinErrorView) -> Seq<NotificationView> {
    seq![NotificationView::JoinResult(waiters, Err(error))]
}

/// The next state and notifications when the socket's connectivity changes.
pub open spec fn connectivity_changed_spec(
    state: ChannelStateView,
    connectivity: Connectivity,
) -> (ChannelStateView, Seq<NotificationView>) {
    match state {
        ChannelStateView::WaitingForSocketToConnect { rejoin } => match connectivity {
            Connectivity::Connected => match rejoin {
                None => (ChannelStateView::WaitingToJoin, Seq::empty()),
                Some(r) => (rejoin_wait(r), Seq::empty()),
            },
            Connectivity::Disconnected { disconnected: Disconnected::Shutdown } => (ChannelStateView::ShuttingDown, Seq::empty()),
            Connectivity::Disconnected { .. } => (state, Seq::empty()),
        },
        ChannelStateView::WaitingToJoin | ChannelStateView::Left => match connectivity {
            Connectivity::Connected => (state, Seq::empty()),
            Connectivity::Disconnected { disconnected: Disconnected::Shutdown } => (ChannelStateView::ShuttingDown, Seq::empty()),
            Connectivity::Disconnected { .. } => (ChannelStateView::WaitingForSocketToConnect { rejoin: None }, Seq::empty()),
        },
        ChannelStateView::Joining { joined_waiters, rejoin } => match connectivity {
            Connectivity::Connected | Connectivity::Disconnected { disconnected: Disconnected::Reconnect } => (
                ChannelStateView::WaitingForSocketToConnect { rejoin: Some(rejoin) },
                notify_joiners(joined_waiters, JoinErrorView::SocketDisconnected),
            ),
            Connectivity::Disconnected { disconnected: Disconnected::Disconnect } => (
                ChannelStateView::WaitingForSocketToConnect { rejoin: None },
                notify_joiners(joined_waiters, JoinErrorView::SocketDisconnected),
            ),
            Connectivity::Disconnected { disconnected: Disconnected::Shutdown } => (
                ChannelStateView::ShuttingDown,
                notify_joiners(joined_waiters, JoinErrorView::ShuttingDown),
            ),
        },
        ChannelStateView::WaitingToRejoin { rejoin, .. } => match connectivity {
            Connectivity::Connected => (state, Seq::empty()),
            Connectivity::Disconnected { disconnected: Disconnected::Disconnect } => (ChannelStateView::WaitingForSocketToConnect { rejoin: None }, Seq::empty()),
            Connectivity::Disconnected { disconnected: Disconnected::Shutdown } => (ChannelStateView::ShuttingDown, Seq::empty()),
            Connectivity::Disconnected { disconnected: Disconnected::Reconnect } => (ChannelStateView::WaitingForSocketToConnect { rejoin: Some(rejoin) }, Seq::empty()),
        },
        ChannelStateView::Joined { join_timeout, .. } => match connectivity {
            Connectivity::Connected | Connectivity::Disconnected { disconnected: Disconnected::Reconnect } => (
                ChannelStateView::WaitingForSocketToConnect { rejoin: Some(Rejoin { join_timeout, attempts: 0 }) },
                Seq::empty(),
            ),
            Connectivity::Disconnected { disconnected: Disconnected::Disconnect } => (ChannelStateView::WaitingForSocketToConnect { rejoin: None }, Seq::empty()),
            Connectivity::Disconnected { disconnected: Disconnected::Shutdown } => (ChannelStateView::ShuttingDown, Seq::empty()),
        },
        ChannelStateView::Leaving { left_waiters } => (
            match connectivity {
                Connectivity::Connected => ChannelStateView::Left,
                Connectivity::Disconnected { disconnected: Disconnected::Shutdown } => ChannelStateView::ShuttingDown,
                Connectivity::Disconnected { .. } => ChannelStateView::WaitingForSocketToConnect { rejoin: None },
            },
            seq![NotificationView::LeaveResult(left_waiters, Ok(()))],
        ),
        ChannelStateView::ShuttingDown | ChannelStateView::ShutDown => (state, Seq::empty()),
    }
}

/// Waiting to rejoin after `rejoin` attempts.
fn rejoin_wait_state(rejoin: Rejoin) -> (s: ChannelState)
    requires
        timeout_ok(rejoin.join_timeout),
    ensures
        s@ == rejoin_wait(rejoin),
        state_ok(s@),
{
    assert(rejoin.sleep_fits()) by (nonlinear_arith)
        requires
            rejoin.join_timeout.nanos * 10 <= MAX_SPAN_NANOS,
            0 <= sleep_multiplier(rejoin.attempts as int) <= 10,
    ;
    ChannelState::WaitingToRejoin { sleep: rejoin.sleep_duration(), rejoin: rejoin.next() }
}

/// The single notification that answers `waiters` with `error`.
fn join_failure(waiters: Vec<u64>, error: JoinError) -> (n: Vec<ChannelNotification>)
    ensures
        notification_views(n@) == notify_joiners(waiters@, error@),
{
    let mut n: Vec<ChannelNotification> = Vec::new();
    n.push(ChannelNotification::JoinResult { waiters, result: Err(error) });
    assert(notification_views(n@) =~= notify_joiners(waiters@, error@));
    n
}

/// No notifications.
fn nothing() -> (n: Vec<ChannelNotification>)
    ensures
        notification_views(n@) == Seq::<NotificationView>::empty(),
{
    let n: Vec<ChannelNotification> = Vec::new();
    assert(notification_views(n@) =~= Seq::<NotificationView>::empty());
    n
}

impl ChannelState {
    /// The next state when the socket's connectivity changes, and what to
    /// tell the waiting callers.
    pub fn connectivity_changed(self, connectivity: Connectivity) -> (r: (ChannelState, Vec<ChannelNotification>))
        requires
            state_ok(self@),
        ensures
            (r.0@, notification_views(r.1@)) == connectivity_changed_spec(self@, connectivity),
            state_ok(r.0@),
    {
        match self {
            ChannelState::WaitingForSocketToConnect { rejoin } => match connectivity {
                Connectivity::Connected => match rejoin {
                    None => (ChannelState::WaitingToJoin, nothing()),
                    Some(r) => (rejoin_wait_state(r), nothing()),
                },
                Connectivity::Disconnected { disconnected } => match disconnected {
                    Disconnected::Shutdown => (ChannelState::ShuttingDown, nothing()),
                    _ => (ChannelState::WaitingForSocketToConnect { rejoin }, nothing()),
                },
            },
            ChannelState::WaitingToJoin => match connectivity {
                Connectivity::Connected => (ChannelState::WaitingToJoin, nothing()),
                Connectivity::Disconnected { disconnected } => match disconnected {
                    Disconnected::Shutdown => (ChannelState::ShuttingDown, nothing()),
                    _ => (ChannelState::WaitingForSocketToConnect { rejoin: None }, nothing()),
                },
            },
            ChannelState::Left => match connectivity {
                Connectivity::Connected => (ChannelState::Left, nothing()),
                Connectivity::Disconnected { disconnected } => match disconnected {
                    Disconnected::Shutdown => (ChannelState::ShuttingDown, nothing()),
                    _ => (ChannelState::WaitingForSocketToConnect { rejoin: None }, nothing()),
                },
            },
            ChannelState::Joining { joined_waiters, rejoin } => match connectivity {
                Connectivity::Connected => (
                    ChannelState::WaitingForSocketToConnect { rejoin: Some(rejoin) },
                    join_failure(joined_waiters, JoinError::SocketDisconnected),
                ),
                Connectivity::Disconnected { disconnected } => match disconnected {
                    Disconnected::Reconnect => (
                        ChannelState::WaitingForSocketToConnect { rejoin: Some(rejoin) },
                        join_failure(joined_waiters, JoinError::SocketDisconnected),
                    ),
                    Disconnected::Disconnect => (
                        ChannelState::WaitingForSocketToConnect { rejoin: None },
                        join_failure(joined_waiters, JoinError::SocketDisconnected),
                    ),
                    Disconnected::Shutdown => (
                        ChannelState::ShuttingDown,
                        join_failure(joined_waiters, JoinError::ShuttingDown),
                    ),
                },
            },
            ChannelState::WaitingToRejoin { sleep, rejoin } => match connectivity {
                Connectivity::Connected => (ChannelState::WaitingToRejoin { sleep, rejoin }, nothing()),
                Connectivity::Disconnected { disconnected } => match disconnected {
                    Disconnected::Disconnect => (ChannelState::WaitingForSocketToConnect { rejoin: None }, nothing()),
                    Disconnected::Shutdown => (ChannelState::ShuttingDown, nothing()),
                    Disconnected::Reconnect => (
                        ChannelState::WaitingForSocketToConnect { rejoin: Some(rejoin) },
                        nothing(),
                    ),
                },
            },
            ChannelState::Joined { join_timeout, .. } => match connectivity {
                Connectivity::Connected => (
                    ChannelState::WaitingForSocketToConnect { rejoin: Some(Rejoin { join_timeout, attempts: 0 }) },
                    nothing(),
                ),
                Connectivity::Disconnected { disconnected } => match disconnected {
                    Disconnected::Reconnect => (
                        ChannelState::WaitingForSocketToConnect { rejoin: Some(Rejoin { join_timeout, attempts: 0 }) },
                        nothing(),
                    ),
                    Disconnected::Disconnect => (ChannelState::WaitingForSocketToConnect { rejoin: None }, nothing()),
                    Disconnected::Shutdown => (ChannelState::ShuttingDown, nothing()),
                },
            },
            ChannelState::Leaving { left_waiters } => {
                let mut n: Vec<ChannelNotification> = Vec::new();
                let ghost waiters = left_waiters@;
                n.push(ChannelNotification::LeaveResult { waiters: left_waiters, result: Ok(()) });
                assert(notification_views(n@) =~= seq![NotificationView::LeaveResult(waiters, Ok(()))]);
                let next = match connectivity {
                    Connectivity::Connected => ChannelState::Left,
                    Connectivity::Disconnected { disconnected } => match disconnected {
                        Disconnected::Shutdown => ChannelState::ShuttingDown,
                        _ => ChannelState::WaitingForSocketToConnect { rejoin: None },
                    },
                };
                (next, n)
            },
            ChannelState::ShuttingDown => (ChannelState::ShuttingDown, nothing()),
            ChannelState::ShutDown => (ChannelState::ShutDown, nothing()),
        }
    }
}


/// What the socket answered to a join it sent to the server.
#[derive(Debug)]
pub enum SocketJoinError {
    /// The server rejected the join with `rejection`.
    Rejected { rejection: Payload },
    /// The socket disconnected while waiting for the server's answer.
    Disconnected,
    /// The server did not answer before the join's deadline.
    Timeout,
    /// The socket shut down.
    Shutdown { shutdown_error: SocketShutdownError },
}

pub enum SocketJoinErrorView {
    Rejected(PayloadView),
    Disconnected,
    Timeout,
    Shutdown(SocketShutdownError),
}

impl View for SocketJoinError {
    type V = SocketJoinErrorView;

    open spec fn view(&self) -> SocketJoinErrorView {
        match self {
            SocketJoinError::Rejected { rejection } => SocketJoinErrorView::Rejected(rejection@),
            SocketJoinError::Disconnected => SocketJoinErrorView::Disconnected,
            SocketJoinError::Timeout => SocketJoinErrorView::Timeout,
            SocketJoinError::Shutdown { shutdown_error } => SocketJoinErrorView::Shutdown(*shutdown_error),
        }
    }
}

/// The outcome of a join request or of a rejoin that is due.
#[derive(Debug)]
pub enum JoinStep {
    /// Ask the socket to join with `rejoin`, then hand its answer, `state` and
    /// `waiters` to [`ChannelState::socket_join_sent`].
    SocketJoin { state: ChannelState, rejoin: Rejoin, waiters: Vec<u64> },
    /// Nothing to send: the next state and what to tell the waiting callers.
    Settled { state: ChannelState, notifications: Vec<ChannelNotification> },
}

pub enum JoinStepView {
    SocketJoin { state: ChannelStateView, rejoin: Rejoin, waiters: Seq<u64> },
    Settled { state: ChannelStateView, notifications: Seq<NotificationView> },
}

impl View for JoinStep {
    type V = JoinStepView;

    open spec fn view(&self) -> JoinStepView {
        match self {
            JoinStep::SocketJoin { state, rejoin, waiters } => JoinStepView::SocketJoin {
                state: state@,
                rejoin: *rejoin,
                waiters: waiters@,
            },
            JoinStep::Settled { state, notifications } => JoinStepView::Settled {
                state: state@,
                notifications: notification_views(notifications@),
            },
        }
    }
}

/// The outcome of a leave request.
#[derive(Debug)]
pub enum LeaveStep {
    /// Ask the socket to leave, then hand its answer, `state` and `waiter` to
    /// [`ChannelState::socket_leave_sent`].
    SocketLeave { state: ChannelState, waiter: u64 },
    /// Nothing to send: the next state and what to tell the waiting callers.
    Settled { state: ChannelState, notifications: Vec<ChannelNotification> },
}

pub enum LeaveStepView {
    SocketLeave { state: ChannelStateView, waiter: u64 },
    Settled { state: ChannelStateView, notifications: Seq<NotificationView> },
}

impl View for LeaveStep {
    type V = LeaveStepView;

    open spec fn view(&self) -> LeaveStepView {
        match self {
            LeaveStep::SocketLeave { state, waiter } => LeaveStepView::SocketLeave { state: state@, waiter: *waiter },
            LeaveStep::Settled { state, notifications } => LeaveStepView::Settled {
                state: state@,
                notifications: notification_views(notifications@),
            },
        }
    }
}

/// The status of a channel, as its users see it.
#[derive(Clone, Copy, Debug, PartialEq, Eq)]
pub enum ChannelStatus {
    /// The channel is waiting for the socket to connect or automatically reconnect.
    WaitingForSocketToConnect,
    /// The socket is connected and the channel is waiting for `join` to be called.
    WaitingToJoin,
    /// `join` was called and the channel waits for the server's answer.
    Joining,
    /// The channel was joined before, the socket reconnected, and the channel
    /// waits `until` to rejoin.
    WaitingToRejoin { until: SystemTime },
    /// The server answered that the topic was joined.
    Joined,
    /// `leave` was called and the channel waits for the server's answer.
    Leaving,
    /// The server answered that the topic was left.
    Left,
    /// `shutdown` was called, but the channel's task hasn't exited yet.
    ShuttingDown,
    /// The channel's task has exited.
    ShutDown,
}

/// What a channel waits for: changes of the socket's connectivity, join
/// and leave requests, the socket's answer to a join, the end of a wait to
/// rejoin, the events of a joined channel (pushes, broadcasts, the server
/// closing it, casts and calls), and the socket's answer to a leave.
#[derive(Clone, Copy, Debug, PartialEq, Eq, Structural)]
pub struct Admission {
    pub connectivity: bool,
    pub requests: bool,
    pub join_answer: bool,
    pub rejoin_wait: bool,
    pub joined_events: bool,
    pub leave_answer: bool,
}

impl Admission {
    /// The admission with the given flags.
    pub open spec fn spec_of(
        connectivity: bool,
        requests: bool,
        join_answer: bool,
        rejoin_wait: bool,
        joined_events: bool,
        leave_answer: bool,
    ) -> Admission {
        Admission { connectivity, requests, join_answer, rejoin_wait, joined_events, leave_answer }
    }

    /// The admission with the given flags.
    #[verifier::when_used_as_spec(spec_of)]
    pub fn of(
        connectivity: bool,
        requests: bool,
        join_answer: bool,
        rejoin_wait: bool,
        joined_events: bool,
        leave_answer: bool,
    ) -> (a: Admission)
        ensures
            a == Admission::spec_of(connectivity, requests, join_answer, rejoin_wait, joined_events, leave_answer),
    {
        Admission { connectivity, requests, join_answer, rejoin_wait, joined_events, leave_answer }
    }
}

/// What a channel in `state` waits for; `None` when its task stops (it is
/// shutting down or shut down).  A joining channel hears of a lost connection
/// through the socket's answer to its join.
pub open spec fn admission_spec(state: ChannelStateView) -> Option<Admission> {
    match state {
        ChannelStateView::WaitingForSocketToConnect { .. } => Some(Admission::spec_of(true, false, false, false, false, false)),
        ChannelStateView::WaitingToJoin | ChannelStateView::Left => Some(Admission::spec_of(true, true, false, false, false, false)),
        ChannelStateView::Joining { .. } => Some(Admission::spec_of(false, true, true, false, false, false)),
        ChannelStateView::WaitingToRejoin { .. } => Some(Admission::spec_of(true, true, false, true, false, false)),
        ChannelStateView::Joined { .. } => Some(Admission::spec_of(true, true, false, false, true, false)),
        ChannelStateView::Leaving { .. } => Some(Admission::spec_of(true, true, false, false, false, true)),
        ChannelStateView::ShuttingDown | ChannelStateView::ShutDown => None,
    }
}

impl ChannelNotification {
    /// The error that the channel's statuses report for this notification:
    /// the server's rejection when it answers joins with a rejection.
    pub fn status_error(&self) -> (error: Option<Payload>)
        ensures
            match self@ {
                NotificationView::JoinResult(_, Err(JoinErrorView::Rejected(rejection))) => error matches Some(p) && p@ == rejection,
                _ => error is None,
            },
    {
        match self {
            ChannelNotification::JoinResult { result: Err(JoinError::Rejected { rejection }), .. } => Some(rejection.copy()),
            _ => None,
        }
    }
}

/// One answer to `waiters` with `result`.
pub open spec fn leave_answer(waiters: Seq<u64>, result: Result<(), LeaveError>) -> Seq<NotificationView> {
    seq![NotificationView::LeaveResult(waiters, result)]
}

/// The next state and notifications when the channel is told to shut down:
/// it shuts down, and whoever waits on a join or a leave hears so.
pub open spec fn shutdown_spec(state: ChannelStateView) -> (ChannelStateView, Seq<NotificationView>) {
    (
        ChannelStateView::ShuttingDown,
        match state {
            ChannelStateView::Joining { joined_waiters, .. } => notify_joiners(joined_waiters, JoinErrorView::ShuttingDown),
            ChannelStateView::Leaving { left_waiters } => leave_answer(left_waiters, Err(LeaveError::ShuttingDown)),
            _ => Seq::empty(),
        },
    )
}

/// What the waiting callers of `state` are told when the socket shut down
/// with `error`.
pub open spec fn socket_shutdown_spec(state: ChannelStateView, error: SocketShutdownError) -> Seq<NotificationView> {
    match state {
        ChannelStateView::Joining { joined_waiters, .. } => notify_joiners(
            joined_waiters,
            JoinErrorView::SocketShutdown(error),
        ),
        ChannelStateView::Leaving { left_waiters } => leave_answer(
            left_waiters,
            Err(LeaveError::SocketShutdown { socket_shutdown_error: error }),
        ),
        _ => Seq::empty(),
    }
}

/// A fresh rejoin for the join timeout `timeout`.
pub open spec fn first_rejoin(timeout: TimeSpan) -> Rejoin {
    Rejoin { join_timeout: timeout, attempts: 0 }
}

/// The outcome of a join request by `waiter` with `timeout`, when the request
/// was (`timed_out`) or was not yet past its deadline on arrival; a channel
/// waiting to rejoin refuses it, saying it waits `until` then.
pub open spec fn join_spec(
    state: ChannelStateView,
    timed_out: bool,
    timeout: TimeSpan,
    waiter: u64,
    until: SystemTime,
) -> JoinStepView {
    match state {
        ChannelStateView::Joining { joined_waiters, rejoin } => JoinStepView::Settled {
            state: ChannelStateView::Joining { joined_waiters: joined_waiters.push(waiter), rejoin },
            notifications: Seq::empty(),
        },
        ChannelStateView::WaitingToRejoin { .. } => JoinStepView::Settled {
            state,
            notifications: notify_joiners(seq![waiter], JoinErrorView::WaitingToRejoin(until)),
        },
        ChannelStateView::Joined { payload, .. } => JoinStepView::Settled {
            state,
            notifications: seq![NotificationView::JoinResult(seq![waiter], Ok(payload))],
        },
        ChannelStateView::ShuttingDown | ChannelStateView::ShutDown => JoinStepView::Settled {
            state,
            notifications: notify_joiners(seq![waiter], JoinErrorView::ShuttingDown),
        },
        _ => if timed_out {
            JoinStepView::Settled {
                state: rejoin_wait(first_rejoin(timeout)),
                notifications: seq![NotificationView::Abandoned(waiters_of(state).push(waiter))],
            }
        } else {
            JoinStepView::SocketJoin { state, rejoin: first_rejoin(timeout), waiters: seq![waiter] }
        },
    }
}

/// The callers that wait on a channel in `state`.
pub open spec fn waiters_of(state: ChannelStateView) -> Seq<u64> {
    match state {
        ChannelStateView::Joining { joined_waiters, .. } => joined_waiters,
        ChannelStateView::Leaving { left_waiters } => left_waiters,
        _ => Seq::empty(),
    }
}

/// What follows the socket's answer to a join that was sent for `waiters`
/// with `rejoin`: `Ok` when the socket took the join, else the error that
/// ends the channel and what its callers are told.
pub open spec fn socket_join_sent_spec(
    state: ChannelStateView,
    sent: Result<(), SocketShutdownError>,
    rejoin: Rejoin,
    waiters: Seq<u64>,
) -> Result<(ChannelStateView, Seq<NotificationView>), (ChannelShutdownError, Seq<NotificationView>)> {
    match sent {
        Ok(()) => Ok((
            ChannelStateView::Joining { joined_waiters: waiters, rejoin },
            match state {
                ChannelStateView::Leaving { left_waiters } => leave_answer(left_waiters, Err(LeaveError::JoinBeforeLeft)),
                _ => Seq::empty(),
            },
        )),
        Err(error) => Err((
            ChannelShutdownError::SocketShutdown,
            socket_shutdown_spec(state, error).push(NotificationView::Abandoned(waiters)),
        )),
    }
}

/// What follows the socket's answer to a pending join: `None` when the
/// socket went away without answering.
pub open spec fn joined_result_spec(
    joined_waiters: Seq<u64>,
    rejoin: Rejoin,
    result: Option<Result<PayloadView, SocketJoinErrorView>>,
) -> Result<(ChannelStateView, Seq<NotificationView>), (ChannelShutdownError, Seq<NotificationView>)> {
    match result {
        None => Err((ChannelShutdownError::SocketShutdown, notify_joiners(joined_waiters, JoinErrorView::Shutdown))),
        Some(Ok(payload)) => Ok((
            ChannelStateView::Joined { join_timeout: rejoin.join_timeout, payload },
            seq![NotificationView::JoinResult(joined_waiters, Ok(payload))],
        )),
        Some(Err(SocketJoinErrorView::Shutdown(error))) => Ok((
            ChannelStateView::ShuttingDown,
            notify_joiners(joined_waiters, JoinErrorView::SocketShutdown(error)),
        )),
        Some(Err(SocketJoinErrorView::Rejected(rejection))) => Ok((
            rejoin_wait(rejoin),
            notify_joiners(joined_waiters, JoinErrorView::Rejected(rejection)),
        )),
        Some(Err(SocketJoinErrorView::Disconnected)) => Ok((
            rejoin_wait(rejoin),
            notify_joiners(joined_waiters, JoinErrorView::SocketDisconnected),
        )),
        Some(Err(SocketJoinErrorView::Timeout)) => Ok((
            rejoin_wait(rejoin),
            notify_joiners(joined_waiters, JoinErrorView::Timeout),
        )),
    }
}

/// The outcome of a leave request by `waiter`.
pub open spec fn leave_spec(state: ChannelStateView, waiter: u64) -> LeaveStepView {
    match state {
        ChannelStateView::Joining { .. } | ChannelStateView::Joined { .. } => LeaveStepView::SocketLeave { state, waiter },
        ChannelStateView::WaitingToRejoin { .. } => LeaveStepView::Settled {
            state: ChannelStateView::Left,
            notifications: leave_answer(seq![waiter], Ok(())),
        },
        ChannelStateView::Leaving { left_waiters } => LeaveStepView::Settled {
            state: ChannelStateView::Leaving { left_waiters: left_waiters.push(waiter) },
            notifications: Seq::empty(),
        },
        _ => LeaveStepView::Settled { state, notifications: leave_answer(seq![waiter], Ok(())) },
    }
}

/// What follows the socket's answer to a leave that `waiter` asked for.
pub open spec fn socket_leave_sent_spec(
    state: ChannelStateView,
    sent: Result<(), LeaveError>,
    waiter: u64,
) -> (ChannelStateView, Seq<NotificationView>) {
    match sent {
        Ok(()) => (
            ChannelStateView::Leaving { left_waiters: seq![waiter] },
            match state {
                ChannelStateView::Joining { joined_waiters, .. } => notify_joiners(
                    joined_waiters,
                    JoinErrorView::LeavingWhileJoining,
                ),
                _ => Seq::empty(),
            },
        ),
        Err(error) => (state, leave_answer(seq![waiter], Err(error))),
    }
}

/// The status that users see of a channel in `state`; `until` is when a
/// waiting rejoin is due.
pub open spec fn status_spec(state: ChannelStateView, until: SystemTime) -> ChannelStatus {
    match state {
        ChannelStateView::WaitingForSocketToConnect { .. } => ChannelStatus::WaitingForSocketToConnect,
        ChannelStateView::WaitingToJoin => ChannelStatus::WaitingToJoin,
        ChannelStateView::Joining { .. } => ChannelStatus::Joining,
        ChannelStateView::WaitingToRejoin { .. } => ChannelStatus::WaitingToRejoin { until },
        ChannelStateView::Joined { .. } => ChannelStatus::Joined,
        ChannelStateView::Leaving { .. } => ChannelStatus::Leaving,
        ChannelStateView::Left => ChannelStatus::Left,
        ChannelStateView::ShuttingDown => ChannelStatus::ShuttingDown,
        ChannelStateView::ShutDown => ChannelStatus::ShutDown,
    }
}

/// One notification holding `notification`.
fn single(notification: ChannelNotification) -> (n: Vec<ChannelNotification>)
    ensures
        notification_views(n@) == seq![notification@],
{
    let mut n: Vec<ChannelNotification> = Vec::new();
    n.push(notification);
    assert(notification_views(n@) =~= seq![notification@]);
    n
}

/// A list of one caller.
fn one_waiter(waiter: u64) -> (w: Vec<u64>)
    ensures
        w@ == seq![waiter],
{
    let mut w: Vec<u64> = Vec::new();
    w.push(waiter);
    assert(w@ =~= seq![waiter]);
    w
}

impl ChannelState {
    /// Shuts the channel down, telling whoever waits on a join or a leave.
    pub fn shutdown(self) -> (r: (ChannelState, Vec<ChannelNotification>))
        ensures
            (r.0@, notification_views(r.1@)) == shutdown_spec(self@),
            state_ok(r.0@),
    {
        match self {
            ChannelState::Joining { joined_waiters, .. } => (
                ChannelState::ShuttingDown,
                join_failure(joined_waiters, JoinError::ShuttingDown),
            ),
            ChannelState::Leaving { left_waiters } => (
                ChannelState::ShuttingDown,
                single(ChannelNotification::LeaveResult { waiters: left_waiters, result: Err(LeaveError::ShuttingDown) }),
            ),
            _ => (ChannelState::ShuttingDown, nothing()),
        }
    }

    /// A join request by `waiter` with `timeout`; `timed_out` says whether its
    /// deadline had passed when the channel got to it, and `until` is when a
    /// channel waiting to rejoin will rejoin.  A channel still waiting for its
    /// socket never gets join requests.
    pub fn join(self, timed_out: bool, timeout: TimeSpan, waiter: u64, until: SystemTime) -> (r: JoinStep)
        requires
            state_ok(self@),
            timeout_ok(timeout),
            !(self@ is WaitingForSocketToConnect),
        ensures
            r@ == join_spec(self@, timed_out, timeout, waiter, until),
            r@ matches JoinStepView::SocketJoin { state, rejoin, .. } ==> state_ok(state) && timeout_ok(rejoin.join_timeout),
            r@ matches JoinStepView::Settled { state, .. } ==> state_ok(state),
    {
        match self {
            ChannelState::Joining { mut joined_waiters, rejoin } => {
                joined_waiters.push(waiter);
                JoinStep::Settled { state: ChannelState::Joining { joined_waiters, rejoin }, notifications: nothing() }
            },
            ChannelState::WaitingToRejoin { sleep, rejoin } => JoinStep::Settled {
                state: ChannelState::WaitingToRejoin { sleep, rejoin },
                notifications: join_failure(one_waiter(waiter), JoinError::WaitingToRejoin { until }),
            },
            ChannelState::Joined { join_timeout, payload } => {
                let answer = payload.copy();
                let notifications = single(ChannelNotification::JoinResult { waiters: one_waiter(waiter), result: Ok(answer) });
                JoinStep::Settled { state: ChannelState::Joined { join_timeout, payload }, notifications }
            },
            ChannelState::ShuttingDown => JoinStep::Settled {
                state: ChannelState::ShuttingDown,
                notifications: join_failure(one_waiter(waiter), JoinError::ShuttingDown),
            },
            ChannelState::ShutDown => JoinStep::Settled {
                state: ChannelState::ShutDown,
                notifications: join_failure(one_waiter(waiter), JoinError::ShuttingDown),
            },
            state => {
                let rejoin = Rejoin { join_timeout: timeout, attempts: 0 };
                if timed_out {
                    let mut abandoned: Vec<u64> = match state {
                        ChannelState::Leaving { left_waiters } => left_waiters,
                        _ => Vec::new(),
                    };
                    abandoned.push(waiter);
                    JoinStep::Settled {
                        state: rejoin_wait_state(rejoin),
                        notifications: single(ChannelNotification::Abandoned { waiters: abandoned }),
                    }
                } else {
                    JoinStep::SocketJoin { state, rejoin, waiters: one_waiter(waiter) }
                }
            },
        }
    }

    /// The wait before a rejoin is over: the socket is asked to join again,
    /// with nobody waiting on the answer.
    pub fn sleep_elapsed(self) -> (r: JoinStep)
        requires
            state_ok(self@),
            self@ is WaitingToRejoin,
        ensures
            r@ == (JoinStepView::SocketJoin {
                state: self@,
                rejoin: self@->WaitingToRejoin_rejoin,
                waiters: Seq::empty(),
            }),
            timeout_ok(self@->WaitingToRejoin_rejoin.join_timeout),
    {
        match self {
            ChannelState::WaitingToRejoin { sleep, rejoin } => JoinStep::SocketJoin {
                state: ChannelState::WaitingToRejoin { sleep, rejoin },
                rejoin,
                waiters: Vec::new(),
            },
            _ => vstd::pervasive::unreached(),
        }
    }

    /// The socket answered a join sent for `waiters` with `rejoin`: the
    /// channel is now joining, or, when the socket shut down, the channel
    /// ends with the error and tells its callers.
    pub fn socket_join_sent(
        self,
        sent: Result<(), SocketShutdownError>,
        rejoin: Rejoin,
        waiters: Vec<u64>,
    ) -> (r: Result<(ChannelState, Vec<ChannelNotification>), (ChannelShutdownError, Vec<ChannelNotification>)>)
        requires
            timeout_ok(rejoin.join_timeout),
        ensures
            match (r, socket_join_sent_spec(self@, sent, rejoin, waiters@)) {
                (Ok((state, n)), Ok((state_view, n_view))) => state@ == state_view && notification_views(n@) == n_view,
                (Err((error, n)), Err((error_view, n_view))) => error == error_view && notification_views(n@) == n_view,
                _ => false,
            },
            r matches Ok((state, _)) ==> state_ok(state@),
    {
        match sent {
            Ok(()) => {
                let notifications = match self {
                    ChannelState::Leaving { left_waiters } => single(
                        ChannelNotification::LeaveResult { waiters: left_waiters, result: Err(LeaveError::JoinBeforeLeft) },
                    ),
                    _ => nothing(),
                };
                Ok((ChannelState::Joining { joined_waiters: waiters, rejoin }, notifications))
            },
            Err(error) => {
                let ghost state_view = self@;
                let ghost waiters_view = waiters@;
                let mut notifications = self.socket_shutdown(error);
                let ghost before = notification_views(notifications@);
                notifications.push(ChannelNotification::Abandoned { waiters });
                assert(notification_views(notifications@) =~= before.push(NotificationView::Abandoned(waiters_view)));
                Err((ChannelShutdownError::SocketShutdown, notifications))
            },
        }
    }

    /// What the waiting callers are told when the socket shut down with `error`.
    fn socket_shutdown(self, error: SocketShutdownError) -> (n: Vec<ChannelNotification>)
        ensures
            notification_views(n@) == socket_shutdown_spec(self@, error),
    {
        match self {
            ChannelState::Joining { joined_waiters, .. } => join_failure(
                joined_waiters,
                JoinError::SocketShutdown { socket_shutdown_error: error },
            ),
            ChannelState::Leaving { left_waiters } => single(
                ChannelNotification::LeaveResult {
                    waiters: left_waiters,
                    result: Err(LeaveError::SocketShutdown { socket_shutdown_error: error }),
                },
            ),
            _ => nothing(),
        }
    }

    /// The socket answered the pending join (`None`: it went away without
    /// answering).
    pub fn joined_result_received(
        self,
        result: Option<Result<Payload, SocketJoinError>>,
    ) -> (r: Result<(ChannelState, Vec<ChannelNotification>), (ChannelShutdownError, Vec<ChannelNotification>)>)
        requires
            state_ok(self@),
            self@ is Joining,
        ensures
            match (r, joined_result_spec(
                self@->Joining_joined_waiters,
                self@->Joining_rejoin,
                match result {
                    None => None,
                    Some(Ok(p)) => Some(Ok(p@)),
                    Some(Err(e)) => Some(Err(e@)),
                },
            )) {
                (Ok((state, n)), Ok((state_view, n_view))) => state@ == state_view && notification_views(n@) == n_view,
                (Err((error, n)), Err((error_view, n_view))) => error == error_view && notification_views(n@) == n_view,
                _ => false,
            },
            r matches Ok((state, _)) ==> state_ok(state@),
    {
        match self {
            ChannelState::Joining { joined_waiters, rejoin } => match result {
                None => Err((ChannelShutdownError::SocketShutdown, join_failure(joined_waiters, JoinError::Shutdown))),
                Some(Ok(payload)) => {
                    let answer = payload.copy();
                    let notifications = single(ChannelNotification::JoinResult { waiters: joined_waiters, result: Ok(answer) });
                    Ok((ChannelState::Joined { join_timeout: rejoin.join_timeout, payload }, notifications))
                },
                Some(Err(error)) => match error {
                    SocketJoinError::Shutdown { shutdown_error } => Ok((
                        ChannelState::ShuttingDown,
                        join_failure(joined_waiters, JoinError::SocketShutdown { socket_shutdown_error: shutdown_error }),
                    )),
                    SocketJoinError::Rejected { rejection } => Ok((
                        rejoin_wait_state(rejoin),
                        join_failure(joined_waiters, JoinError::Rejected { rejection }),
                    )),
                    SocketJoinError::Disconnected => Ok((
                        rejoin_wait_state(rejoin),
                        join_failure(joined_waiters, JoinError::SocketDisconnected),
                    )),
                    SocketJoinError::Timeout => Ok((
                        rejoin_wait_state(rejoin),
                        join_failure(joined_waiters, JoinError::Timeout),
                    )),
                },
            },
            _ => vstd::pervasive::unreached(),
        }
    }

    /// A leave request by `waiter`.
    pub fn leave(self, waiter: u64) -> (r: LeaveStep)
        requires
            state_ok(self@),
        ensures
            r@ == leave_spec(self@, waiter),
            r@ matches LeaveStepView::SocketLeave { state, .. } ==> state_ok(state),
            r@ matches LeaveStepView::Settled { state, .. } ==> state_ok(state),
    {
        match self {
            ChannelState::Joining { joined_waiters, rejoin } => LeaveStep::SocketLeave {
                state: ChannelState::Joining { joined_waiters, rejoin },
                waiter,
            },
            ChannelState::Joined { join_timeout, payload } => LeaveStep::SocketLeave {
                state: ChannelState::Joined { join_timeout, payload },
                waiter,
            },
            ChannelState::WaitingToRejoin { .. } => LeaveStep::Settled {
                state: ChannelState::Left,
                notifications: single(ChannelNotification::LeaveResult { waiters: one_waiter(waiter), result: Ok(()) }),
            },
            ChannelState::Leaving { mut left_waiters } => {
                left_waiters.push(waiter);
                LeaveStep::Settled { state: ChannelState::Leaving { left_waiters }, notifications: nothing() }
            },
            state => LeaveStep::Settled {
                state,
                notifications: single(ChannelNotification::LeaveResult { waiters: one_waiter(waiter), result: Ok(()) }),
            },
        }
    }

    /// The socket answered a leave that `waiter` asked for.
    pub fn socket_leave_sent(self, sent: Result<(), LeaveError>, waiter: u64) -> (r: (ChannelState, Vec<ChannelNotification>))
        requires
            state_ok(self@),
            self@ is Joining || self@ is Joined,
        ensures
            (r.0@, notification_views(r.1@)) == socket_leave_sent_spec(self@, sent, waiter),
            state_ok(r.0@),
    {
        match sent {
            Ok(()) => {
                let notifications = match self {
                    ChannelState::Joining { joined_waiters, .. } => join_failure(joined_waiters, JoinError::LeavingWhileJoining),
                    _ => nothing(),
                };
                (ChannelState::Leaving { left_waiters: one_waiter(waiter) }, notifications)
            },
            Err(error) => (
                self,
                single(ChannelNotification::LeaveResult { waiters: one_waiter(waiter), result: Err(error) }),
            ),
        }
    }

    /// The server answered the pending leave with `result`: the channel is
    /// left and every caller waiting on the leave hears the answer.
    pub fn left(self, result: Result<(), LeaveError>) -> (r: (ChannelState, Vec<ChannelNotification>))
        requires
            self@ is Leaving,
        ensures
            r.0@ == ChannelStateView::Left,
            notification_views(r.1@) == leave_answer(self@->Leaving_left_waiters, result),
    {
        match self {
            ChannelState::Leaving { left_waiters } => (
                ChannelState::Left,
                single(ChannelNotification::LeaveResult { waiters: left_waiters, result }),
            ),
            _ => vstd::pervasive::unreached(),
        }
    }

    /// The socket reported whether a cast or call of a joined channel was
    /// handed over; when it was not, the socket is gone and the channel shuts
    /// down.
    pub fn send_result(self, delivered: bool) -> (r: ChannelState)
        requires
            state_ok(self@),
            self@ is Joined,
        ensures
            r@ == (if delivered { self@ } else { ChannelStateView::ShuttingDown }),
            state_ok(r@),
    {
        if delivered {
            self
        } else {
            ChannelState::ShuttingDown
        }
    }

    /// The status of the channel; `until` is when a waiting rejoin is due.
    pub fn status(&self, until: SystemTime) -> (s: ChannelStatus)
        ensures
            s == status_spec(self@, until),
    {
        match self {
            ChannelState::WaitingForSocketToConnect { .. } => ChannelStatus::WaitingForSocketToConnect,
            ChannelState::WaitingToJoin => ChannelStatus::WaitingToJoin,
            ChannelState::Joining { .. } => ChannelStatus::Joining,
            ChannelState::WaitingToRejoin { .. } => ChannelStatus::WaitingToRejoin { until },
            ChannelState::Joined { .. } => ChannelStatus::Joined,
            ChannelState::Leaving { .. } => ChannelStatus::Leaving,
            ChannelState::Left => ChannelStatus::Left,
            ChannelState::ShuttingDown => ChannelStatus::ShuttingDown,
            ChannelState::ShutDown => ChannelStatus::ShutDown,
        }
    }

    /// The server closed the joined channel: the channel is left.
    pub fn server_left(self) -> (state: ChannelState)
        requires
            self@ is Joined,
        ensures
            state@ == ChannelStateView::Left,
    {
        ChannelState::Left
    }

    /// What the channel waits for in its state (`None`: its task stops).
    pub fn admission(&self) -> (admission: Option<Admission>)
        ensures
            admission == admission_spec(self@),
    {
        match self {
            ChannelState::WaitingForSocketToConnect { .. } => Some(Admission::of(true, false, false, false, false, false)),
            ChannelState::WaitingToJoin | ChannelState::Left => Some(Admission::of(true, true, false, false, false, false)),
            ChannelState::Joining { .. } => Some(Admission::of(false, true, true, false, false, false)),
            ChannelState::WaitingToRejoin { .. } => Some(Admission::of(true, true, false, true, false, false)),
            ChannelState::Joined { .. } => Some(Admission::of(true, true, false, false, true, false)),
            ChannelState::Leaving { .. } => Some(Admission::of(true, true, false, false, false, true)),
            ChannelState::ShuttingDown | ChannelState::ShutDown => None,
        }
    }

    /// The channel's task has exited: the channel is shut down.
    pub fn exited(self) -> (state: ChannelState)
        ensures
            state@ == ChannelStateView::ShutDown,
    {
        ChannelState::ShutDown
    }
}

} // verus!
