use vstd::prelude::*;

use crate::http::{HTTParseError, HttpError, Response};
use crate::json::IoError;
use crate::text::{decimal_text, owned, push_decimal, push_text, text_of_encoding};
use vstd::utf8::encode_utf8;

verus! {

/// A web socket data opcode (RFC 6455).
#[derive(Clone, Copy, Debug, PartialEq, Eq, Structural)]
pub enum TungsteniteData {
    /// 0x0 denotes a continuation frame
    Continue,
    /// 0x1 denotes a text frame
    Text,
    /// 0x2 denotes a binary frame
    Binary,
    /// 0x3-7 are reserved for further non-control frames
    Reserved { bits: u8 },
}

/// How a data opcode displays: `CONTINUE`, `TEXT`, `BINARY`, or
/// `RESERVED_DATA_` and the reserved bits in decimal.
pub open spec fn data_opcode_text(data: TungsteniteData) -> Seq<char> {
    match data {
        TungsteniteData::Continue => "CONTINUE"@,
        TungsteniteData::Text => "TEXT"@,
        TungsteniteData::Binary => "BINARY"@,
        TungsteniteData::Reserved { bits } => "RESERVED_DATA_"@ + decimal_text(bits as nat),
    }
}

impl TungsteniteData {
    /// The opcode's display text, such as `TEXT` or `RESERVED_DATA_3`.
    pub fn to_string(&self) -> (s: String)
        ensures
            s@ == data_opcode_text(*self),
    {
        match *self {
            TungsteniteData::Continue => owned("CONTINUE"),
            TungsteniteData::Text => owned("TEXT"),
            TungsteniteData::Binary => owned("BINARY"),
            TungsteniteData::Reserved { bits } => {
                let mut buffer: Vec<u8> = Vec::new();
                assert(buffer@ =~= encode_utf8(Seq::<char>::empty()));
                push_text(&mut buffer, "RESERVED_DATA_", Ghost(Seq::empty()));
                assert(Seq::<char>::empty() + "RESERVED_DATA_"@ =~= "RESERVED_DATA_"@);
                push_decimal(&mut buffer, bits, Ghost("RESERVED_DATA_"@));
                text_of_encoding(buffer.as_slice(), Ghost("RESERVED_DATA_"@ + decimal_text(bits as nat)))
            },
        }
    }
}

/// A web socket control opcode (RFC 6455).
#[derive(Clone, Copy, Debug, PartialEq, Eq, Structural)]
pub enum TungsteniteControl {
    /// 0x8 denotes a connection close
    Close,
    /// 0x9 denotes a ping
    Ping,
    /// 0xa denotes a pong
    Pong,
    /// 0xb-f are reserved for further control frames
    Reserved { bit: u8 },
}

/// A web socket opcode.
#[derive(Clone, Copy, Debug, PartialEq, Eq, Structural)]
pub enum TungsteniteOpCode {
    /// Data (text or binary).
    Data { data: TungsteniteData },
    /// Control message (close, ping, pong).
    Control { control: TungsteniteControl },
}

/// Status code used to indicate why an endpoint is closing the web socket connection.
#[derive(Clone, Copy, Debug, PartialEq, Eq, Structural)]
pub enum TungsteniteCloseCode {
    Normal,
    Away,
    Protocol,
    Unsupported,
    Status,
    Abnormal,
    Invalid,
    Policy,
    Size,
    Extension,
    Error,
    Restart,
    Again,
    Tls,
    Reserved { code: u16 },
    Iana { code: u16 },
    Library { code: u16 },
    Bad { code: u16 },
}

/// A web socket frame header.
#[derive(Clone, Debug, PartialEq, Eq)]
pub struct FrameHeader {
    /// Indicates that the frame is the last one of a possibly fragmented message.
    pub is_final: bool,
    /// Reserved for protocol extensions.
    pub rsv1: bool,
    /// Reserved for protocol extensions.
    pub rsv2: bool,
    /// Reserved for protocol extensions.
    pub rsv3: bool,
    /// WebSocket protocol opcode.
    pub opcode: TungsteniteOpCode,
    /// A frame mask, if any.
    pub mask: Option<Vec<u8>>,
}

/// A web socket frame.
#[derive(Clone, Debug, PartialEq, Eq)]
pub struct Frame {
    pub header: FrameHeader,
    pub payload: Vec<u8>,
}

/// The close command of a web socket.
#[derive(Clone, Debug, PartialEq, Eq)]
pub struct CloseFrame {
    /// The reason as a code.
    pub code: TungsteniteCloseCode,
    /// The reason as text string.
    pub reason: String,
}

/// The various forms of a web socket message.
#[derive(Clone, Debug, PartialEq, Eq)]
pub enum WebSocketMessage {
    Text { text: String },
    Binary { bytes: Vec<u8> },
    Ping { bytes: Vec<u8> },
    Pong { bytes: Vec<u8> },
    Close { close_frame: Option<CloseFrame> },
    WebSocketFrame { frame: Frame },
}

/// The specific type/cause of a capacity error.
#[derive(Clone, Copy, Debug, PartialEq, Eq, Structural)]
pub enum CapacityError {
    /// Too many headers provided.
    TooManyHeaders,
    /// Message is bigger than the maximum allowed size.
    MessageTooLong { size: u64, max_size: u64 },
}

/// The specific type/cause of a web socket protocol error.
#[derive(Clone, Debug, PartialEq, Eq)]
pub enum ProtocolError {
    WrongHttpMethod,
    WrongHttpVersion,
    MissingConnectionUpgradeHeader,
    MissingUpgradeWebSocketHeader,
    MissingSecWebSocketVersionHeader,
    MissingSecWebSocketKey,
    SecWebSocketAcceptKeyMismatch,
    JunkAfterRequest,
    CustomResponseSuccessful,
    InvalidHeader { header: String },
    HandshakeIncomplete,
    HttparseError { httparse_error: HTTParseError },
    SendAfterClosing,
    ReceivedAfterClosing,
    NonZeroReservedBits,
    UnmaskedFrameFromClient,
    MaskedFrameFromServer,
    FragmentedControlFrame,
    ControlFrameTooBig,
    UnknownControlFrameType { control_frame_type: u8 },
    UnknownDataFrameType { data_frame_type: u8 },
    UnexpectedContinueFrame,
    ExpectedFragment { data: TungsteniteData },
    ResetWithoutClosingHandshake,
    InvalidOpcode { opcode: u8 },
    InvalidCloseSequence,
}

/// An error of the web socket.
#[derive(Clone, Debug, PartialEq, Eq)]
pub enum WebSocketError {
    /// The connection closed normally.
    ConnectionClosed,
    /// Trying to work with an already closed connection.
    AlreadyClosed,
    /// Input-output error.
    Io { io_error: IoError },
    /// TLS error.
    Tls { tls_error: String },
    /// Buffer capacity exhausted or message too big.
    Capacity { capacity_error: CapacityError },
    /// Protocol violation.
    Protocol { protocol_error: ProtocolError },
    /// Message write buffer is full.
    WriteBufferFull { message: WebSocketMessage },
    /// UTF coding error.
    Utf8,
    /// CVE-2023-43669 attack attempt.
    AttackAttempt,
    /// Invalid URL.
    Url { url_error: String },
    /// HTTP error.
    Http { response: Response },
    /// HTTP format error.
    HttpFormat { error: HttpError },
}

} // verus!
