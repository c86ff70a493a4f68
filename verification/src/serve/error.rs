//! Why a track, a subscription or a fetch came to an end.

use vstd::prelude::*;

verus! {

/// Why a track, a subscription or a fetch came to an end.
#[derive(Debug, PartialEq, Eq)]
pub enum ServeError {
    /// The other side let go.
    Done,
    /// The peer gave up.
    Cancel,
    /// The peer closed with a code and a reason.
    Closed { code: u64, reason: String },
    /// There is no such track.
    NotFound,
    /// The same thing was announced or accepted twice.
    Duplicate,
    /// A track was used in a mode other than the one it is in.
    Mode,
}

impl Clone for ServeError {
    fn clone(&self) -> (r: Self)
        ensures
            r == *self,
    {
        match self {
            ServeError::Done => ServeError::Done,
            ServeError::Cancel => ServeError::Cancel,
            ServeError::Closed { code, reason } => ServeError::Closed {
                code: *code,
                reason: reason.clone(),
            },
            ServeError::NotFound => ServeError::NotFound,
            ServeError::Duplicate => ServeError::Duplicate,
            ServeError::Mode => ServeError::Mode,
        }
    }
}

impl ServeError {
    /// The number that stands for this error on the wire.
    pub open spec fn code_of(&self) -> u64 {
        match self {
            ServeError::Done => 0,
            ServeError::Cancel => 1,
            ServeError::Closed { code, .. } => *code,
            ServeError::NotFound => 404,
            ServeError::Duplicate => 409,
            ServeError::Mode => 400,
        }
    }

    /// The words that go with this error on the wire.
    pub open spec fn reason_of(&self) -> Seq<char> {
        match self {
            ServeError::Done => "done"@,
            ServeError::Cancel => "cancelled"@,
            ServeError::Closed { reason, .. } => reason@,
            ServeError::NotFound => "not found"@,
            ServeError::Duplicate => "duplicate"@,
            ServeError::Mode => "multiple stream modes"@,
        }
    }

    /// The number that stands for this error on the wire.
    pub fn code(&self) -> (r: u64)
        ensures
            r == self.code_of(),
    {
        match self {
            ServeError::Done => 0,
            ServeError::Cancel => 1,
            ServeError::Closed { code, .. } => *code,
            ServeError::NotFound => 404,
            ServeError::Duplicate => 409,
            ServeError::Mode => 400,
        }
    }

    /// The words that go with this error on the wire.
    pub fn reason(&self) -> (r: String)
        ensures
            r@ == self.reason_of(),
    {
        match self {
            ServeError::Done => "done".to_owned(),
            ServeError::Cancel => "cancelled".to_owned(),
            ServeError::Closed { reason, .. } => reason.clone(),
            ServeError::NotFound => "not found".to_owned(),
            ServeError::Duplicate => "duplicate".to_owned(),
            ServeError::Mode => "multiple stream modes".to_owned(),
        }
    }
}

/// Passes when nothing was closed, and fails with the error that it was
/// closed with.
pub fn check_open(closed: &Result<(), ServeError>) -> (r: Result<(), ServeError>)
    ensures
        match *closed {
            Ok(_) => r is Ok,
            Err(e) => r == Err::<(), ServeError>(e),
        },
{
    match closed {
        Ok(_) => Ok(()),
        Err(e) => Err(e.clone()),
    }
}

} // verus!
