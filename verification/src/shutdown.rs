use vstd::prelude::*;

use crate::http::{HttpError, Response};

verus! {

/// Error from [Socket::shutdown] or from the server itself that caused the socket to shutdown.
#[derive(Clone, Debug, PartialEq, Eq)]
pub enum SocketShutdownError {
    /// The async task was already joined by another call, so the [Result] or panic from the async
    /// task can't be reported here.
    AlreadyJoined,
    /// CVE-2023-43669 attack attempt
    AttackAttempt,
    /// Invalid URL.
    Url { url_error: String },
    /// HTTP error.
    Http { response: Response },
    /// HTTP format error.
    HttpFormat { error: HttpError },
}

/// Error from shutting down a channel.
#[derive(Clone, Copy, Debug, PartialEq, Eq, Structural)]
pub enum ChannelShutdownError {
    SocketShutdown,
    AlreadyJoined,
}

/// Error when calling `Socket::disconnect`.
#[derive(Clone, Debug, PartialEq, Eq)]
pub enum DisconnectError {
    Shutdown { shutdown_error: SocketShutdownError },
}

/// Errors when calling `Socket::channel`.
#[derive(Clone, Debug, PartialEq, Eq)]
pub enum SocketChannelError {
    Shutdown { shutdown_error: SocketShutdownError },
}

impl DisconnectError {
    /// The disconnect error of a socket that shut down.
    pub fn from_shutdown(shutdown_error: SocketShutdownError) -> (r: DisconnectError)
        ensures
            r == (DisconnectError::Shutdown { shutdown_error }),
    {
        DisconnectError::Shutdown { shutdown_error }
    }
}

impl SocketChannelError {
    /// The channel error of a socket that shut down.
    pub fn from_shutdown(shutdown_error: SocketShutdownError) -> (r: SocketChannelError)
        ensures
            r == (SocketChannelError::Shutdown { shutdown_error }),
    {
        SocketChannelError::Shutdown { shutdown_error }
    }
}

} // verus!
