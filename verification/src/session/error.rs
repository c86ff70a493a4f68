//! Why a session, or a part of it, failed.

use vstd::prelude::*;
use crate::coding::error::{DecodeError, EncodeError};
use crate::serve::error::ServeError;

verus! {

/// The code that closes a session on bytes that do not follow the protocol.
pub const PROTOCOL_VIOLATION: u64 = 0x3;

/// The code that closes a session on a failure of the transport.
pub const INTERNAL_ERROR: u64 = 0x1;

/// Why a session, or a part of it, failed.
#[derive(Debug, PartialEq, Eq)]
pub enum SessionError {
    /// The track, the subscription or the fetch came to an end.
    Serve(ServeError),
    /// A message or an object header has no wire form.
    Encode(EncodeError),
    /// The bytes received do not make a message or an object header.
    Decode(DecodeError),
    /// The transport failed, with the words of its failure.
    Transport(String),
}

impl Clone for SessionError {
    fn clone(&self) -> (r: Self)
        ensures
            r == *self,
    {
        match self {
            SessionError::Serve(e) => SessionError::Serve(e.clone()),
            SessionError::Encode(e) => SessionError::Encode(*e),
            SessionError::Decode(e) => SessionError::Decode(*e),
            SessionError::Transport(words) => SessionError::Transport(words.clone()),
        }
    }
}

impl SessionError {
    /// The code that a subscription or a fetch is closed with when the session
    /// fails in this way.
    pub open spec fn code_of(&self) -> u64 {
        match self {
            SessionError::Serve(e) => e.code_of(),
            SessionError::Encode(_) => PROTOCOL_VIOLATION,
            SessionError::Decode(_) => PROTOCOL_VIOLATION,
            SessionError::Transport(_) => INTERNAL_ERROR,
        }
    }

    /// The words that go with the failure.
    pub open spec fn reason_of(&self) -> Seq<char> {
        match self {
            SessionError::Serve(e) => e.reason_of(),
            SessionError::Encode(_) => "encode error"@,
            SessionError::Decode(_) => "decode error"@,
            SessionError::Transport(words) => words@,
        }
    }

    /// The error that a subscription or a fetch is closed with when the
    /// session fails in this way: the serve error itself, or else a close
    /// with the code and the words of the failure.
    pub fn into_serve(self) -> (r: ServeError)
        ensures
            self matches SessionError::Serve(e) ==> r == e,
            !(self is Serve) ==> r is Closed,
            r.code_of() == self.code_of(),
            r.reason_of() == self.reason_of(),
    {
        match self {
            SessionError::Serve(e) => e,
            SessionError::Encode(_) => ServeError::Closed {
                code: PROTOCOL_VIOLATION,
                reason: "encode error".to_owned(),
            },
            SessionError::Decode(_) => ServeError::Closed {
                code: PROTOCOL_VIOLATION,
                reason: "decode error".to_owned(),
            },
            SessionError::Transport(words) => ServeError::Closed {
                code: INTERNAL_ERROR,
                reason: words,
            },
        }
    }
}

} // verus!
