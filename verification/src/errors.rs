use vstd::prelude::*;

use tokio::sync::broadcast::error::RecvError;

use crate::message::Payload;
use crate::web_socket::WebSocketError;

verus! {

/// The error of a receive from a `tokio` broadcast channel.
#[verifier::external_type_specification]
#[verifier::external_body]
pub struct ExRecvError(RecvError);

/// How many messages a failed broadcast receive skipped: `None` when the
/// channel closed (`RecvError::Closed`), `Some(n)` when the receiver lagged
/// `n` messages behind (`RecvError::Lagged(n)`).
pub uninterp spec fn recv_error_lag(error: RecvError) -> Option<u64>;

/// Tells the two variants of `tokio::sync::broadcast::error::RecvError`
/// apart: `None` for `Closed`, `Some(n)` for `Lagged(n)`.
#[verifier::external_body]
fn lag_of(error: RecvError) -> (lag: Option<u64>)
    ensures
        lag == recv_error_lag(error),
{
    match error {
        RecvError::Closed => None,
        RecvError::Lagged(missed) => Some(missed),
    }
}

/// An error in parsing a URL.
#[derive(Clone, Copy, Debug, PartialEq, Eq, Structural)]
pub enum URLParseError {
    /// Empty host
    EmptyHost,
    /// Invalid international domain
    IdnaError,
    /// Invalid port number
    InvalidPort,
    /// Invalid ipv4 address.
    InvalidIpv4Address,
    /// Invalid ipv6 address.
    InvalidIpv6Address,
    /// Invalid domain character
    InvalidDomainCharacter,
    /// Relative URL without a base
    RelativeUrlWithoutBase,
    /// Relative URL with a cannot-be-a-base base
    RelativeUrlWithCannotBeABaseBase,
    /// A cannot-be-a-base URL doesn't have a host to set
    SetHostOnCannotBeABaseUrl,
    /// URLs more than 4 GB are not supported
    Overflow,
}

/// Errors when waiting for the next event of a channel.
#[derive(Clone, Copy, Debug, PartialEq, Eq, Structural)]
pub enum EventsError {
    /// There are no more events because the channel shut down.
    NoMoreEvents,
    /// Events were not awaited often enough and `missed_event_count` of them
    /// were dropped; the next one is the oldest still kept.
    MissedEvents { missed_event_count: u64 },
}

impl EventsError {
    /// The events error for a failed receive of the channel's events.
    pub fn from_recv_error(error: RecvError) -> (e: EventsError)
        ensures
            e == (match recv_error_lag(error) {
                None => EventsError::NoMoreEvents,
                Some(n) => EventsError::MissedEvents { missed_event_count: n },
            }),
    {
        match lag_of(error) {
            None => EventsError::NoMoreEvents,
            Some(missed_event_count) => EventsError::MissedEvents { missed_event_count },
        }
    }
}

/// Errors when waiting for the next change of the presences.
#[derive(Clone, Copy, Debug, PartialEq, Eq, Structural)]
pub enum PresencesSyncsError {
    NoMoreSyncs,
}

impl PresencesSyncsError {
    /// What a failed receive of presence syncs means: a missed sync carries
    /// no data, so waiting goes on (`None`); a closed channel ends it.
    pub fn from_recv_error(error: RecvError) -> (e: Option<PresencesSyncsError>)
        ensures
            e == (match recv_error_lag(error) {
                None => Some(PresencesSyncsError::NoMoreSyncs),
                Some(_) => None,
            }),
    {
        match lag_of(error) {
            None => Some(PresencesSyncsError::NoMoreSyncs),
            Some(_) => None,
        }
    }
}

/// Errors when waiting for the next presence join.
#[derive(Clone, Copy, Debug, PartialEq, Eq, Structural)]
pub enum PresencesJoinsError {
    NoMoreJoins,
    MissedJoins { missed_join_count: u64 },
}

impl PresencesJoinsError {
    /// The joins error for a failed receive of presence joins.
    pub fn from_recv_error(error: RecvError) -> (e: PresencesJoinsError)
        ensures
            e == (match recv_error_lag(error) {
                None => PresencesJoinsError::NoMoreJoins,
                Some(n) => PresencesJoinsError::MissedJoins { missed_join_count: n },
            }),
    {
        match lag_of(error) {
            None => PresencesJoinsError::NoMoreJoins,
            Some(missed_join_count) => PresencesJoinsError::MissedJoins { missed_join_count },
        }
    }
}

/// Errors when waiting for the next presence leave.
#[derive(Clone, Copy, Debug, PartialEq, Eq, Structural)]
pub enum PresencesLeavesError {
    NoMoreLeaves,
    MissedLeaves { missed_leave_count: u64 },
}

impl PresencesLeavesError {
    /// The leaves error for a failed receive of presence leaves.
    pub fn from_recv_error(error: RecvError) -> (e: PresencesLeavesError)
        ensures
            e == (match recv_error_lag(error) {
                None => PresencesLeavesError::NoMoreLeaves,
                Some(n) => PresencesLeavesError::MissedLeaves { missed_leave_count: n },
            }),
    {
        match lag_of(error) {
            None => PresencesLeavesError::NoMoreLeaves,
            Some(missed_leave_count) => PresencesLeavesError::MissedLeaves { missed_leave_count },
        }
    }
}

/// Error from shutting down the presences.
#[derive(Clone, Copy, Debug, PartialEq, Eq, Structural)]
pub enum PresencesShutdownError {
    /// The task was already joined once from another caller.
    AlreadyJoined,
}

/// Errors returned by the presences.
#[derive(Clone, Copy, Debug, PartialEq, Eq, Structural)]
pub enum PresencesError {
    PresencesJoins { presences_joins: PresencesJoinsError },
    PresencesLeaves { presences_leave: PresencesLeavesError },
    PresencesSyncs { presences_syncs: PresencesSyncsError },
    Shutdown { shutdown: PresencesShutdownError },
}

/// A join of a channel failed, as seen through its statuses.
#[derive(Debug)]
pub enum ChannelStatusJoinError {
    /// The server rejected the join with `response`.
    Rejected { response: Payload },
}

impl ChannelStatusJoinError {
    /// The join error for the server's rejection `response`.
    pub fn rejected(response: &Payload) -> (e: ChannelStatusJoinError)
        ensures
            e matches ChannelStatusJoinError::Rejected { response: r } && r@ == response@,
    {
        ChannelStatusJoinError::Rejected { response: response.copy() }
    }
}

/// Errors when waiting for the next status of a socket or a channel.
#[derive(Debug)]
pub enum StatusesError {
    /// No more statuses.
    NoMoreStatuses,
    /// `missed_status_count` statuses were missed; the next one is the oldest still kept.
    MissedStatuses { missed_status_count: u64 },
    /// A channel's join failed.
    ChannelStatusJoin { join_error: ChannelStatusJoinError },
    /// An error of the web socket.
    WebSocket { websocket_error: WebSocketError },
}

impl StatusesError {
    /// The statuses error for a failed receive of statuses.
    pub fn from_recv_error(error: RecvError) -> (e: StatusesError)
        ensures
            match recv_error_lag(error) {
                None => e is NoMoreStatuses,
                Some(n) => e matches StatusesError::MissedStatuses { missed_status_count } && missed_status_count == n,
            },
    {
        match lag_of(error) {
            None => StatusesError::NoMoreStatuses,
            Some(missed_status_count) => StatusesError::MissedStatuses { missed_status_count },
        }
    }
}

} // verus!
