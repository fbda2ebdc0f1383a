//! Error taxonomy of the coordinator core.

use vstd::prelude::*;

verus! {

/// Failure of a transport operation on a connection.
#[derive(Clone, Copy, Debug, PartialEq, Eq, Structural)]
pub enum TransportError {
    /// A read or write exceeded the fixed transport timeout.
    Timeout,
    /// The peer disconnected before a full frame was exchanged.
    ConnectionClosed,
    /// Any other I/O failure on the underlying socket.
    Io,
}

/// Failure to interpret bytes as a framed message.
#[derive(Clone, Copy, Debug, PartialEq, Eq, Structural)]
pub enum ProtocolError {
    /// The length prefix or the payload could not be decoded.
    Malformed,
    /// A payload exceeded the fixed maximum frame size.
    TooLarge,
}

impl TransportError {
    /// A short description, for logging outside the core.
    pub fn label(&self) -> (r: &'static str)
        ensures
            matches!(*self, TransportError::Timeout) ==> r@ == "timeout"@,
            matches!(*self, TransportError::ConnectionClosed) ==> r@ == "connection closed"@,
            matches!(*self, TransportError::Io) ==> r@ == "io error"@,
    {
        match self {
            TransportError::Timeout => "timeout",
            TransportError::ConnectionClosed => "connection closed",
            TransportError::Io => "io error",
        }
    }
}

impl ProtocolError {
    /// A short description, for logging outside the core.
    pub fn label(&self) -> (r: &'static str)
        ensures
            matches!(*self, ProtocolError::Malformed) ==> r@ == "malformed frame"@,
            matches!(*self, ProtocolError::TooLarge) ==> r@ == "frame too large"@,
    {
        match self {
            ProtocolError::Malformed => "malformed frame",
            ProtocolError::TooLarge => "frame too large",
        }
    }
}

} // verus!
