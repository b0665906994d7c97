use vstd::prelude::*;

use std::collections::HashMap;

verus! {

/// An invalid part of an HTTP request or response.
#[derive(Clone, Debug, PartialEq, Eq)]
pub enum HttpError {
    StatusCode,
    Method,
    Uri { invalid_uri: String },
    UriParts { invalid_uri: String },
    HeaderName,
    HeaderValue,
}

/// Why a URI is invalid.
#[derive(Clone, Copy, Debug, PartialEq, Eq, Structural)]
pub enum InvalidUri {
    InvalidUriChar,
    InvalidScheme,
    InvalidAuthority,
    InvalidPort,
    InvalidFormat,
    SchemeMissing,
    AuthorityMissing,
    PathAndQueryMissing,
    TooLong,
    Empty,
    SchemeTooLong,
}

/// An HTTP response: its status code, its headers (every value of each
/// header name) and its body.
#[derive(Clone, Debug, PartialEq, Eq)]
pub struct Response {
    pub status_code: u16,
    pub headers: HashMap<String, Vec<String>>,
    pub body: Option<Vec<u8>>,
}

/// An error in parsing HTTP.
#[derive(Clone, Copy, Debug, PartialEq, Eq, Structural)]
pub enum HTTParseError {
    /// Invalid byte in header name.
    HeaderName,
    /// Invalid byte in header value.
    HeaderValue,
    /// Invalid byte in new line.
    NewLine,
    /// Invalid byte in Response status.
    Status,
    /// Invalid byte where token is required.
    Token,
    /// Parsed more headers than provided buffer can contain.
    TooManyHeaders,
    /// Invalid byte in HTTP version.
    Version,
}

} // verus!
