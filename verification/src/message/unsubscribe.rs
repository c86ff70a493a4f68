//! The message that ends a subscription.

use vstd::prelude::*;
use crate::coding::error::{DecodeError, EncodeError};
use crate::coding::traits::{Decode, Encode, RoundTrip};

verus! {

/// Sent by the subscriber to end a subscription.
#[derive(Clone, Copy, Debug, PartialEq, Eq, Structural)]
pub struct Unsubscribe {
    /// The number of the subscription.
    pub id: u64,
}

impl View for Unsubscribe {
    type V = Unsubscribe;

    open spec fn view(&self) -> Unsubscribe {
        *self
    }
}

/// Reads an unsubscribe message off the front of `s`.
pub open spec fn unsubscribe_parse(s: Seq<u8>) -> Result<(Unsubscribe, nat), DecodeError> {
    match u64::parse(s) {
        Err(e) => Err(e),
        Ok((id, n0)) => Ok(
            (Unsubscribe { id }, n0),
        ),
    }
}

impl Encode for Unsubscribe {
    open spec fn wire(&self) -> Seq<u8> {
        self.id.wire()
    }

    open spec fn encode_error(&self) -> Option<EncodeError> {
        self.id.encode_error()
    }

    fn write(&self, out: &mut Vec<u8>) -> (r: Result<(), EncodeError>) {
        self.id.write(out)
    }
}

impl Decode for Unsubscribe {
    open spec fn parse(s: Seq<u8>) -> Result<(Unsubscribe, nat), DecodeError> {
        unsubscribe_parse(s)
    }

    fn read(data: &[u8], pos: usize) -> (r: Result<(Self, usize), DecodeError>) {
        let (id, at1) = u64::read(data, pos)?;
        Ok((Unsubscribe { id }, at1))
    }
}

impl RoundTrip for Unsubscribe {
    open spec fn faithful(&self) -> bool {
        true
    }

    proof fn lemma_round_trip(&self, rest: Seq<u8>) {
        self.id.lemma_round_trip(rest);
    }
}

} // verus!
