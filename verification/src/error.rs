//! The failure taxonomy of the framing layer.

use vstd::prelude::*;

verus! {

/// Everything that can go wrong while reading, framing, parsing or answering
/// one request. All failures are local to one connection.
#[derive(Debug, Clone, PartialEq, Eq)]
pub enum HttpError {
    /// The read deadline expired before any bytes arrived.
    ReadTimeout,
    /// The write deadline expired before the response was handed off.
    WriteTimeout,
    /// The transport reported a failure; the message describes it.
    IoError(String),
    /// The peer closed the connection before sending any bytes.
    ConnectionClosed,
    /// The buffer filled (or was exhausted) without a complete line.
    RequestTooLarge,
    /// The request line holds no tokens at all.
    MissingMethod,
    /// The request line holds a method but no path token.
    MissingPath,
    /// The method token is not one of the supported methods.
    UnsupportedMethod(String),
    /// The framed request line is not valid UTF-8.
    InvalidUtf8,
    /// A header line holds no `:` separator.
    MalformedHeader,
}

} // verus!
