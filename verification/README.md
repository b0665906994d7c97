# phoenix_channels_client

A client for Phoenix Channels (protocol v2), whose protocol core is written
in Verus and proved against its contracts.

## Layout

- `src/` — the verified library:
  - `message`, `encode`, `decode`, `event`, `json`, `json_text`: the
    messages of the protocol, their binary wire form and their JSON values,
    the reading of received JSON text (parsed by `serde_json`, then decoded),
    and the laws that tie them (a message's JSON value decodes back to the
    message, event and status names read back).  Writing a JSON value as
    text is left to the runtime, as a float is rebuilt there from its bits.
  - `channel`, `channel_laws`: the channel state machine (join, rejoin with
    back-off, leave, shutdown) as functions from state and event to the next
    state and what to tell the waiting callers; the laws that no waiting
    caller is ever forgotten and how the status follows a channel's life.
  - `socket`, `registry`, `socket_laws`: the socket state machine
    (connect, reconnect with back-off, disconnect, shutdown, heartbeats, the
    routing of replies, pushes and broadcasts) over registries of pending
    joins, joined channels and reply waiters; the laws that a reply reaches
    the caller waiting on it, that a join's reply reaches the join, and how
    the status follows a socket's life.
  - `presence`, `presence_format`, `presence_laws`: presence tracking, the
    presence payloads, and the laws that a full state sync makes the tracked
    presences match the server's (each vanished key leaving with all its
    metas) and that a diff adds and removes exactly the
    connections it names.
  - `backoff`, `time`, `string_map`, `text`, `errors`, `shutdown`, `http`,
    `web_socket`, `clock`: supporting types.
- `app/` — the asynchronous runtime: `tokio` tasks that own the web socket
  and the callers' senders, drive the state machines of the library, and
  convert between the outside crates' values and the library's types;
  `serialized` holds copies of the topic and reference types that serialize
  with `serde`.
- `tests/` — tests of the library on concrete values.
