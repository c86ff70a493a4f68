//! The message that gives up a fetch.

use vstd::prelude::*;
use crate::coding::error::{DecodeError, EncodeError};
use crate::coding::traits::{Decode, Encode, RoundTrip};

verus! {

/// Sent by the subscriber to give up a fetch.
#[derive(Clone, Copy, Debug, PartialEq, Eq, Structural)]
pub struct FetchCancel {
    /// The number of the fetch.
    pub id: u64,
}

impl View for FetchCancel {
    type V = FetchCancel;

    open spec fn view(&self) -> FetchCancel {
        *self
    }
}

/// Reads a fetch-cancel message off the front of `s`.
pub open spec fn fetch_cancel_parse(s: Seq<u8>) -> Result<(FetchCancel, nat), DecodeError> {
    match u64::parse(s) {
        Err(e) => Err(e),
        Ok((id, n0)) => Ok(
            (FetchCancel { id }, n0),
        ),
    }
}

impl Encode for FetchCancel {
    open spec fn wire(&self) -> Seq<u8> {
        self.id.wire()
    }

    open spec fn encode_error(&self) -> Option<EncodeError> {
        self.id.encode_error()
    }

    fn write(&self, out: &mut Vec<u8>) -> (r: Result<(), EncodeError>) {
        self.id.write(out)
    }
}

impl Decode for FetchCancel {
    open spec fn parse(s: Seq<u8>) -> Result<(FetchCancel, nat), DecodeError> {
        fetch_cancel_parse(s)
    }

    fn read(data: &[u8], pos: usize) -> (r: Result<(Self, usize), DecodeError>) {
        let (id, at1) = u64::read(data, pos)?;
        Ok((FetchCancel { id }, at1))
    }
}

impl RoundTrip for FetchCancel {
    open spec fn faithful(&self) -> bool {
        true
    }

    proof fn lemma_round_trip(&self, rest: Seq<u8>) {
        self.id.lemma_round_trip(rest);
    }
}

} // verus!
