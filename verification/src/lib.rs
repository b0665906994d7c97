//! A Phoenix Channels (v2) client: the verified protocol core.
//!
//! The library holds the wire format of Phoenix messages, the presence
//! tracking algorithm, the reconnect/rejoin back-off and the decision logic of
//! the socket and channel state machines.  The asynchronous plumbing that
//! drives these state machines lives outside this crate's verified part.

pub mod time;
pub mod backoff;
pub mod text;
pub mod event;
pub mod json;
pub mod json_text;
pub mod message;
pub mod encode;
pub mod decode;
pub mod string_map;
pub mod registry;
pub mod presence;
pub mod presence_laws;
pub mod presence_format;
pub mod http;
pub mod web_socket;
pub mod clock;
pub mod shutdown;
pub mod channel;
pub mod channel_laws;
pub mod socket;
pub mod socket_laws;
pub mod errors;
