use vstd::prelude::*;

use crate::event::ReplyStatus;
use crate::message::PayloadView;
use crate::channel::Connectivity;
use crate::socket::{
    connect_outcome, dialed_outcome, disconnect_outcome, handle_reply_spec, shutdown_outcome, socket_status_of,
    ConnectStep, Connected, Disconnection, RegistryView, ReplyRoutingView, SocketState, SocketStatus,
};
use crate::backoff::Reconnect;
use crate::time::TimeSpan;
use std::time::SystemTime;

verus! {

/// A reply reaches the caller that waits on its message: when a call was
/// registered under `(topic, join_reference, reference)` and no join is
/// pending for the topic and join reference, the reply to that message
/// answers exactly that caller, with the payload as `Ok` or as the server's
/// error, and takes the caller out of the registry, leaving it as it was
/// before the call was registered.
pub proof fn lemma_reply_reaches_its_caller(
    registry: RegistryView,
    topic: Seq<char>,
    join_reference: Seq<char>,
    reference: Seq<char>,
    call: u64,
    status: ReplyStatus,
    payload: PayloadView,
)
    requires
        !registry.joins.dom().contains((topic, join_reference)),
        !registry.replies.dom().contains((topic, join_reference, reference)),
    ensures
        ({
            let registered = RegistryView {
                replies: registry.replies.insert((topic, join_reference, reference), call),
                ..registry
            };
            let (after, routing) = handle_reply_spec(registered, topic, join_reference, reference, status, payload);
            &&& routing == (ReplyRoutingView::CallAnswered {
                call,
                result: match status {
                    ReplyStatus::Okay => Ok(payload),
                    ReplyStatus::Error => Err(payload),
                },
            })
            &&& after == registry
        }),
{
    let registered = RegistryView {
        replies: registry.replies.insert((topic, join_reference, reference), call),
        ..registry
    };
    let (after, _) = handle_reply_spec(registered, topic, join_reference, reference, status, payload);
    assert(after.replies =~= registry.replies);
}

/// A join's reply reaches the join: when a join was registered under
/// `(topic, join_reference)`, the reply for that topic and join reference
/// answers exactly that join.  When the server accepted it, the channel is
/// joined under the same number (so pushes for it go to it) and the topic's
/// broadcasts are relayed; when the server rejected it, nothing stays
/// registered for it.
pub proof fn lemma_join_reply_reaches_its_join(
    registry: RegistryView,
    topic: Seq<char>,
    join_reference: Seq<char>,
    reference: Seq<char>,
    join: u64,
    status: ReplyStatus,
    payload: PayloadView,
)
    requires
        !registry.joins.dom().contains((topic, join_reference)),
    ensures
        ({
            let registered = RegistryView { joins: registry.joins.insert((topic, join_reference), join), ..registry };
            let (after, routing) = handle_reply_spec(registered, topic, join_reference, reference, status, payload);
            &&& after.joins == registry.joins
            &&& after.replies == registry.replies
            &&& match status {
                ReplyStatus::Okay => {
                    &&& routing == (ReplyRoutingView::Joined {
                        join,
                        topic,
                        payload,
                        new_topic: !registry.relayed.contains(topic),
                    })
                    &&& after.joined.dom().contains((topic, join_reference))
                    &&& after.joined[(topic, join_reference)] == join
                    &&& after.relayed.contains(topic)
                    &&& after.joined.dom() == registry.joined.dom().insert((topic, join_reference))
                    &&& forall|k: (Seq<char>, Seq<char>)| #[trigger] registry.joined.dom().contains(k) && k != (topic, join_reference)
                        ==> after.joined[k] == registry.joined[k]
                    &&& after.relayed == registry.relayed.insert(topic)
                },
                ReplyStatus::Error => {
                    &&& routing == (ReplyRoutingView::JoinRejected { join, rejection: payload })
                    &&& after.joined == registry.joined
                    &&& after.relayed == registry.relayed
                },
            }
        }),
{
    let registered = RegistryView { joins: registry.joins.insert((topic, join_reference), join), ..registry };
    let (after, _) = handle_reply_spec(registered, topic, join_reference, reference, status, payload);
    assert(after.joins =~= registry.joins);
    if status == ReplyStatus::Okay {
        assert(after.joined.dom() =~= registry.joined.dom().insert((topic, join_reference)));
        assert(after.relayed =~= registry.relayed.insert(topic));
    }
}

/// A socket's status through its life: a socket that never connected says
/// so; a connect request dials, and once the web socket opens the socket is
/// connected; a disconnect request disconnects it; a shutdown request shuts
/// it down, and once its task exits (`SocketState::exited`) it is shut down.
pub proof fn lemma_socket_status_through_its_life(
    timeout: TimeSpan,
    until: SystemTime,
    step: ConnectStep,
    dialed: (SocketState, Option<Connectivity>),
    disconnected: (SocketState, Option<Disconnection>),
    shut: (SocketState, Option<Disconnection>),
)
    requires
        connect_outcome(SocketState::NeverConnected, timeout, until, step),
        step matches ConnectStep::Dial { reconnect } ==> dialed_outcome(reconnect, true, dialed),
        disconnect_outcome(dialed.0, disconnected),
        shutdown_outcome(disconnected.0, shut),
    ensures
        socket_status_of(SocketState::NeverConnected, until) == SocketStatus::NeverConnected,
        step is Dial,
        socket_status_of(dialed.0, until) == SocketStatus::Connected,
        socket_status_of(disconnected.0, until) == SocketStatus::Disconnected,
        socket_status_of(shut.0, until) == SocketStatus::ShuttingDown,
        socket_status_of(SocketState::ShutDown, until) == SocketStatus::ShutDown,
{
}

/// A connect request on a socket that was disconnected dials the server
/// again, as for a socket that never connected: with the request's timeout
/// and no back-off attempts yet.  So connecting a connected socket,
/// disconnecting it, and connecting it again dials anew.
pub proof fn lemma_connect_after_disconnect_dials(
    connected: Connected,
    disconnected: (SocketState, Option<Disconnection>),
    timeout: TimeSpan,
    until: SystemTime,
    step: ConnectStep,
    first: ConnectStep,
)
    ensures
        connect_outcome(SocketState::Disconnected, timeout, until, step) ==> step == (ConnectStep::Dial {
            reconnect: Reconnect { connect_timeout: timeout, attempts: 0 },
        }),
        connect_outcome(SocketState::NeverConnected, timeout, until, step) ==> step == (ConnectStep::Dial {
            reconnect: Reconnect { connect_timeout: timeout, attempts: 0 },
        }),
        connect_outcome(SocketState::Connected { connected }, timeout, until, first) && disconnect_outcome(
            SocketState::Connected { connected },
            disconnected,
        ) && connect_outcome(disconnected.0, timeout, until, step) ==> first is Settled && step == (ConnectStep::Dial {
            reconnect: Reconnect { connect_timeout: timeout, attempts: 0 },
        }),
{
}

} // verus!
