use vstd::prelude::*;

verus! {

/// What went wrong in one call of the bridge.
#[derive(Clone, Copy, Debug, PartialEq, Eq, Structural)]
pub enum ErrorKind {
    /// The header description is not JSON text.
    InvalidJson,
    /// The header description is JSON, but not an object.
    NotAnObject,
    /// A header name is not a valid HTTP token.
    InvalidHeaderName,
    /// A header value holds a byte that HTTP does not allow.
    InvalidHeaderValue,
    /// The exchange with the server failed (resolve, connect, TLS, timeout, transfer).
    Transport,
    /// A response header value cannot be represented as text.
    Encoding,
}

/// A failure of the bridge: its kind and a human-readable message.
#[derive(Debug)]
pub struct BridgeError {
    pub kind: ErrorKind,
    pub message: String,
}

impl BridgeError {
    pub fn new(kind: ErrorKind, message: String) -> (r: BridgeError)
        ensures
            r.kind == kind,
            r.message@ == message@,
    {
        BridgeError { kind, message }
    }

    /// A failure of the exchange with the server, carrying the transport's own description.
    pub fn transport(message: String) -> (r: BridgeError)
        ensures
            r.kind == ErrorKind::Transport,
            r.message@ == message@,
    {
        BridgeError { kind: ErrorKind::Transport, message }
    }

    pub fn message(&self) -> (r: String)
        ensures
            r@ == self.message@,
    {
        self.message.clone()
    }
}

} // verus!
