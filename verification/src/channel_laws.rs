use vstd::prelude::*;

use crate::backoff::Rejoin;
use crate::channel::{
    connectivity_changed_spec, first_rejoin, join_spec, joined_result_spec, leave_spec, shutdown_spec,
    socket_join_sent_spec, socket_leave_sent_spec, socket_shutdown_spec, status_spec, waiters_of, ChannelStateView,
    ChannelStatus, Connectivity, Disconnected, JoinStepView, LeaveError, LeaveStepView, NotificationView, SocketJoinErrorView,
};
use crate::message::PayloadView;
use crate::shutdown::SocketShutdownError;
use crate::time::TimeSpan;
use std::time::SystemTime;

verus! {

/// The callers that a notification answers or drops.
pub open spec fn notification_waiters(notification: NotificationView) -> Seq<u64> {
    match notification {
        NotificationView::JoinResult(waiters, _) => waiters,
        NotificationView::LeaveResult(waiters, _) => waiters,
        NotificationView::Abandoned(waiters) => waiters,
    }
}

/// Some notification in `notifications` names the caller `waiter`.
pub open spec fn notified(notifications: Seq<NotificationView>, waiter: u64) -> bool {
    exists|i: int| 0 <= i < notifications.len() && #[trigger] notification_waiters(notifications[i]).contains(waiter)
}

/// The caller `waiter` still waits on `state` or is named in `notifications`.
pub open spec fn accounted(state: ChannelStateView, notifications: Seq<NotificationView>, waiter: u64) -> bool {
    waiters_of(state).contains(waiter) || notified(notifications, waiter)
}

proof fn lemma_push_contains(s: Seq<u64>, x: u64, w: u64)
    requires
        s.contains(w) || w == x,
    ensures
        s.push(x).contains(w),
{
    if s.contains(w) {
        let i = choose|i: int| 0 <= i < s.len() && s[i] == w;
        assert(s.push(x)[i] == w);
    } else {
        assert(s.push(x)[s.len() as int] == w);
    }
}

proof fn lemma_notified_first(notifications: Seq<NotificationView>, waiter: u64)
    requires
        notifications.len() > 0,
        notification_waiters(notifications[0]).contains(waiter),
    ensures
        notified(notifications, waiter),
{
}

proof fn lemma_notified_prefix(notifications: Seq<NotificationView>, extra: NotificationView, waiter: u64)
    requires
        notified(notifications, waiter) || notification_waiters(extra).contains(waiter),
    ensures
        notified(notifications.push(extra), waiter),
{
    if notified(notifications, waiter) {
        let i = choose|i: int| 0 <= i < notifications.len() && #[trigger] notification_waiters(notifications[i]).contains(waiter);
        assert(notifications.push(extra)[i] == notifications[i]);
    } else {
        assert(notifications.push(extra)[notifications.len() as int] == extra);
    }
}

/// No caller waiting on a channel is ever forgotten: whatever happens to the
/// channel (the socket's connectivity changes, it is shut down, the socket
/// answers a join or a leave), every caller that waited on it before, and
/// every caller whose request is being handled, still waits on the next
/// state, is carried to the socket, or is named in a notification.  (A join
/// is only ever sent to the socket from a channel that is not joining.)
pub proof fn lemma_no_caller_forgotten(
    state: ChannelStateView,
    waiter: u64,
    connectivity: Connectivity,
    timed_out: bool,
    timeout: TimeSpan,
    new_waiter: u64,
    until: SystemTime,
    sent: Result<(), SocketShutdownError>,
    rejoin: Rejoin,
    waiters: Seq<u64>,
    result: Option<Result<PayloadView, SocketJoinErrorView>>,
    left: Result<(), LeaveError>,
)
    ensures
        waiters_of(state).contains(waiter) ==> {
            let (next, notifications) = connectivity_changed_spec(state, connectivity);
            accounted(next, notifications, waiter)
        },
        waiters_of(state).contains(waiter) ==> {
            let (next, notifications) = shutdown_spec(state);
            notified(notifications, waiter)
        },
        !(state is WaitingForSocketToConnect) && (waiters_of(state).contains(waiter) || waiter == new_waiter) ==> match join_spec(state, timed_out, timeout, new_waiter, until) {
            JoinStepView::SocketJoin { state: next, waiters: carried, .. } => waiters_of(next).contains(waiter) || carried.contains(waiter),
            JoinStepView::Settled { state: next, notifications } => accounted(next, notifications, waiter),
        },
        !(state is Joining) && (waiters_of(state).contains(waiter) || waiters.contains(waiter)) ==> match socket_join_sent_spec(state, sent, rejoin, waiters) {
            Ok((next, notifications)) => accounted(next, notifications, waiter),
            Err((_, notifications)) => notified(notifications, waiter),
        },
        state is Joining && waiters_of(state).contains(waiter) ==> match joined_result_spec(
            state->Joining_joined_waiters,
            state->Joining_rejoin,
            result,
        ) {
            Ok((next, notifications)) => accounted(next, notifications, waiter),
            Err((_, notifications)) => notified(notifications, waiter),
        },
        waiters_of(state).contains(waiter) || waiter == new_waiter ==> match leave_spec(state, new_waiter) {
            LeaveStepView::SocketLeave { state: next, waiter: carried } => waiters_of(next).contains(waiter) || carried == waiter,
            LeaveStepView::Settled { state: next, notifications } => accounted(next, notifications, waiter),
        },
        (state is Joining || state is Joined) && (waiters_of(state).contains(waiter) || waiter == new_waiter) ==> {
            let (next, notifications) = socket_leave_sent_spec(state, left, new_waiter);
            accounted(next, notifications, waiter)
        },
{
    if waiters_of(state).contains(waiter) {
        let (next, notifications) = connectivity_changed_spec(state, connectivity);
        if notifications.len() > 0 && notification_waiters(notifications[0]).contains(waiter) {
            lemma_notified_first(notifications, waiter);
        }
        let (_, down) = shutdown_spec(state);
        lemma_notified_first(down, waiter);
    }
    if !(state is WaitingForSocketToConnect) && (waiters_of(state).contains(waiter) || waiter == new_waiter) {
        match state {
            ChannelStateView::Joining { joined_waiters, .. } => lemma_push_contains(joined_waiters, new_waiter, waiter),
            ChannelStateView::WaitingToRejoin { .. } | ChannelStateView::Joined { .. } | ChannelStateView::ShuttingDown
            | ChannelStateView::ShutDown => {
                let settled = match join_spec(state, timed_out, timeout, new_waiter, until) {
                    JoinStepView::Settled { notifications, .. } => notifications,
                    _ => Seq::empty(),
                };
                assert(notification_waiters(settled[0]) =~= seq![new_waiter]);
                assert(seq![new_waiter][0] == new_waiter);
                lemma_notified_first(settled, waiter);
            },
            _ => {
                if timed_out {
                    lemma_push_contains(waiters_of(state), new_waiter, waiter);
                    let notifications = seq![NotificationView::Abandoned(waiters_of(state).push(new_waiter))];
                    lemma_notified_first(notifications, waiter);
                } else {
                    assert(seq![new_waiter][0] == new_waiter);
                }
            },
        }
    }
    if !(state is Joining) && (waiters_of(state).contains(waiter) || waiters.contains(waiter)) {
        match sent {
            Ok(()) => {
                if let ChannelStateView::Leaving { left_waiters } = state {
                    if left_waiters.contains(waiter) {
                        lemma_notified_first(seq![NotificationView::LeaveResult(left_waiters, Err(LeaveError::JoinBeforeLeft))], waiter);
                    }
                }
            },
            Err(error) => {
                let before = socket_shutdown_spec(state, error);
                if before.len() > 0 && notification_waiters(before[0]).contains(waiter) {
                    lemma_notified_first(before, waiter);
                }
                lemma_notified_prefix(before, NotificationView::Abandoned(waiters), waiter);
            },
        }
    }
    if state is Joining && waiters_of(state).contains(waiter) {
        match joined_result_spec(state->Joining_joined_waiters, state->Joining_rejoin, result) {
            Ok((_, notifications)) => lemma_notified_first(notifications, waiter),
            Err((_, notifications)) => lemma_notified_first(notifications, waiter),
        }
    }
    if waiters_of(state).contains(waiter) || waiter == new_waiter {
        match state {
            ChannelStateView::Joining { .. } | ChannelStateView::Joined { .. } => {},
            ChannelStateView::Leaving { left_waiters } => lemma_push_contains(left_waiters, new_waiter, waiter),
            _ => {
                let notifications = seq![NotificationView::LeaveResult(seq![new_waiter], Ok(()))];
                assert(seq![new_waiter][0] == new_waiter);
                lemma_notified_first(notifications, waiter);
            },
        }
    }
    if (state is Joining || state is Joined) && (waiters_of(state).contains(waiter) || waiter == new_waiter) {
        let (next, notifications) = socket_leave_sent_spec(state, left, new_waiter);
        assert(seq![new_waiter][0] == new_waiter);
        if notifications.len() > 0 && notification_waiters(notifications[0]).contains(waiter) {
            lemma_notified_first(notifications, waiter);
        }
        if next is Leaving {
            assert(waiters_of(next)[0] == new_waiter);
        }
    }
}

/// A channel's status through its life: a channel of a socket that never
/// connected waits for the socket; once the socket connects it waits to be
/// joined; a join is sent to the socket and the channel is joining; when the
/// server accepts, it is joined and the joiner gets the server's payload; a
/// leave is sent to the socket and the channel is leaving; once the server
/// answers it is left; a shutdown shuts it down; and once its task exits
/// (`ChannelState::exited`) it is shut down.
pub proof fn lemma_channel_status_through_its_life(
    timeout: TimeSpan,
    joiner: u64,
    leaver: u64,
    payload: PayloadView,
    until: SystemTime,
)
    ensures
        ({
            let start = ChannelStateView::WaitingForSocketToConnect { rejoin: None };
            let joined = ChannelStateView::Joined { join_timeout: timeout, payload };
            &&& status_spec(start, until) == ChannelStatus::WaitingForSocketToConnect
            &&& connectivity_changed_spec(start, Connectivity::Connected).0 == ChannelStateView::WaitingToJoin
            &&& status_spec(ChannelStateView::WaitingToJoin, until) == ChannelStatus::WaitingToJoin
            &&& join_spec(ChannelStateView::WaitingToJoin, false, timeout, joiner, until) == (JoinStepView::SocketJoin {
                state: ChannelStateView::WaitingToJoin,
                rejoin: first_rejoin(timeout),
                waiters: seq![joiner],
            })
            &&& socket_join_sent_spec(ChannelStateView::WaitingToJoin, Ok(()), first_rejoin(timeout), seq![joiner])
                matches Ok((joining, _)) && joining == (ChannelStateView::Joining {
                joined_waiters: seq![joiner],
                rejoin: first_rejoin(timeout),
            }) && status_spec(joining, until) == ChannelStatus::Joining
            &&& joined_result_spec(seq![joiner], first_rejoin(timeout), Some(Ok(payload))) == Ok::<
                (ChannelStateView, Seq<NotificationView>),
                (crate::shutdown::ChannelShutdownError, Seq<NotificationView>),
            >((joined, seq![NotificationView::JoinResult(seq![joiner], Ok(payload))]))
            &&& status_spec(joined, until) == ChannelStatus::Joined
            &&& leave_spec(joined, leaver) == (LeaveStepView::SocketLeave { state: joined, waiter: leaver })
            &&& socket_leave_sent_spec(joined, Ok(()), leaver).0 == (ChannelStateView::Leaving { left_waiters: seq![leaver] })
            &&& status_spec(ChannelStateView::Leaving { left_waiters: seq![leaver] }, until) == ChannelStatus::Leaving
            &&& status_spec(ChannelStateView::Left, until) == ChannelStatus::Left
            &&& shutdown_spec(ChannelStateView::Left).0 == ChannelStateView::ShuttingDown
            &&& status_spec(ChannelStateView::ShuttingDown, until) == ChannelStatus::ShuttingDown
            &&& status_spec(ChannelStateView::ShutDown, until) == ChannelStatus::ShutDown
        }),
{
}

/// A channel that is joining, joined or waiting to rejoin rejoins once the
/// socket reconnects: when the socket loses its connection and reconnects
/// on its own, the channel waits for the socket keeping its rejoin (the very
/// rejoin it was waiting to retry, or a fresh one for the join it was
/// doing or held), and once the socket is connected again it waits to
/// rejoin.  Only an explicit disconnect drops the rejoin, after which the
/// reconnected channel waits to be joined.
pub proof fn lemma_channel_rejoins_after_reconnect(state: ChannelStateView)
    requires
        state is Joining || state is WaitingToRejoin || state is Joined,
    ensures
        ({
            let reconnecting = connectivity_changed_spec(
                state,
                Connectivity::Disconnected { disconnected: Disconnected::Reconnect },
            ).0;
            &&& reconnecting matches ChannelStateView::WaitingForSocketToConnect { rejoin: Some(r) }
                && (state matches ChannelStateView::WaitingToRejoin { rejoin, .. } ==> r == rejoin)
                && (state matches ChannelStateView::Joining { rejoin, .. } ==> r == rejoin)
                && (state matches ChannelStateView::Joined { join_timeout, .. } ==> r.join_timeout == join_timeout && r.attempts == 0)
            &&& connectivity_changed_spec(reconnecting, Connectivity::Connected).0 is WaitingToRejoin
        }),
        ({
            let disconnected = connectivity_changed_spec(
                state,
                Connectivity::Disconnected { disconnected: Disconnected::Disconnect },
            ).0;
            &&& disconnected == (ChannelStateView::WaitingForSocketToConnect { rejoin: None })
            &&& connectivity_changed_spec(disconnected, Connectivity::Connected).0 == ChannelStateView::WaitingToJoin
        }),
{
}

} // verus!
