//! The orders in which groups can be delivered.

use vstd::prelude::*;
use crate::coding::error::{DecodeError, EncodeError};
use crate::coding::traits::{Decode, Encode, RoundTrip};
use crate::coding::varint::byte_parse;

verus! {

/// The order in which groups are delivered.
#[derive(Clone, Copy, Debug, PartialEq, Eq, Structural)]
pub enum GroupOrder {
    /// As the publisher chooses.
    Publisher,
    /// Lowest group first.
    Ascending,
    /// Highest group first.
    Descending,
}

impl View for GroupOrder {
    type V = GroupOrder;

    open spec fn view(&self) -> GroupOrder {
        *self
    }
}

/// The byte that stands for a group order.
pub open spec fn group_order_byte(order: GroupOrder) -> u8 {
    match order {
        GroupOrder::Publisher => 0,
        GroupOrder::Ascending => 1,
        GroupOrder::Descending => 2,
    }
}

/// Reads a group order off the front of `s`: one byte, 0, 1 or 2.
pub open spec fn group_order_parse(s: Seq<u8>) -> Result<(GroupOrder, nat), DecodeError> {
    match byte_parse(s) {
        Err(e) => Err(e),
        Ok((b, n)) => if b == 0 {
            Ok((GroupOrder::Publisher, n))
        } else if b == 1 {
            Ok((GroupOrder::Ascending, n))
        } else if b == 2 {
            Ok((GroupOrder::Descending, n))
        } else {
            Err(DecodeError::InvalidValue)
        },
    }
}

impl Encode for GroupOrder {
    open spec fn wire(&self) -> Seq<u8> {
        seq![group_order_byte(*self)]
    }

    open spec fn encode_error(&self) -> Option<EncodeError> {
        None
    }

    fn write(&self, out: &mut Vec<u8>) -> (r: Result<(), EncodeError>) {
        let b: u8 = match self {
            GroupOrder::Publisher => 0,
            GroupOrder::Ascending => 1,
            GroupOrder::Descending => 2,
        };
        out.push(b);
        Ok(())
    }
}

impl Decode for GroupOrder {
    open spec fn parse(s: Seq<u8>) -> Result<(GroupOrder, nat), DecodeError> {
        group_order_parse(s)
    }

    fn read(data: &[u8], pos: usize) -> (r: Result<(Self, usize), DecodeError>) {
        let (b, next) = u8::read(data, pos)?;
        match b {
            0 => Ok((GroupOrder::Publisher, next)),
            1 => Ok((GroupOrder::Ascending, next)),
            2 => Ok((GroupOrder::Descending, next)),
            _ => Err(DecodeError::InvalidValue),
        }
    }
}

impl RoundTrip for GroupOrder {
    open spec fn faithful(&self) -> bool {
        true
    }

    proof fn lemma_round_trip(&self, rest: Seq<u8>) {
    }
}

} // verus!
