//! What can go wrong while talking to a POP3 server.

use vstd::prelude::*;

verus! {

/// A failure of a POP3 session. The transport failures carry the message of
/// the underlying error.
#[derive(Debug, Clone, PartialEq, Eq)]
pub enum Pop3Error {
    /// Reading or writing the socket failed.
    Io(String),
    /// Setting up TLS failed.
    Tls(String),
    /// The TLS handshake failed.
    TlsHandshake(String),
    /// A plaintext connection was asked for without allowing it.
    PlaintextNotAllowed(String),
    /// The server answered `-ERR`, with this text.
    ServerError(String),
    /// The server's reply did not have the expected form.
    Protocol(String),
    /// The server closed the connection.
    ConnectionClosed,
}

} // verus!
