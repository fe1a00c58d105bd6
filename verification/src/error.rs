//! What an operation on a stream can report instead of succeeding.

use vstd::prelude::*;

verus! {

/// Why an event on a stream was not carried out.
#[derive(Clone, Copy, Debug, PartialEq, Eq, Structural)]
pub enum StreamError {
    /// The sending half no longer takes application bytes.
    StreamClosed,
    /// The operation is not allowed in the state the half is in.
    InvalidTransition,
    /// What the peer sent contradicts the state the half is in. By convention
    /// the connection that owns the stream is torn down on this.
    ProtocolError,
    /// The flow-control window has no room; the call may be repeated once it
    /// has grown.
    Blocked,
}

impl StreamError {
    /// The text shown to a user for each error.
    pub open spec fn message_of(self) -> Seq<char> {
        match self {
            StreamError::StreamClosed => "stream is closed"@,
            StreamError::InvalidTransition => "operation not allowed in this state"@,
            StreamError::ProtocolError => "peer violated the stream protocol"@,
            StreamError::Blocked => "blocked by flow control"@,
        }
    }

    /// A short description of the error.
    pub fn message(&self) -> (text: &'static str)
        ensures
            text@ == self.message_of(),
    {
        match self {
            StreamError::StreamClosed => "stream is closed",
            StreamError::InvalidTransition => "operation not allowed in this state",
            StreamError::ProtocolError => "peer violated the stream protocol",
            StreamError::Blocked => "blocked by flow control",
        }
    }

    /// Whether the call may succeed if repeated later. Only `Blocked` is
    /// transient.
    pub fn is_transient(&self) -> (yes: bool)
        ensures
            yes == (*self == StreamError::Blocked),
    {
        match self {
            StreamError::Blocked => true,
            _ => false,
        }
    }
}

} // verus!
