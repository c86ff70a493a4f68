//! The kinds of filter that a subscription can ask for.

use vstd::prelude::*;
use crate::coding::error::{DecodeError, EncodeError};
use crate::coding::traits::{Decode, Encode, RoundTrip};
use crate::coding::varint::{
    lemma_varint_lengths, lemma_varint_round_trip, read_varint, varint_parse, varint_wire,
    write_varint,
};

verus! {

/// Where a subscription begins and ends.
#[derive(Clone, Copy, Debug, PartialEq, Eq, Structural)]
pub enum FilterType {
    /// From the latest object on.
    LatestObject,
    /// From a given group and object on.
    AbsoluteStart,
    /// From a given group and object to the end of a given group.
    AbsoluteRange,
}

impl View for FilterType {
    type V = FilterType;

    open spec fn view(&self) -> FilterType {
        *self
    }
}

/// The number that stands for a filter type.
pub open spec fn filter_type_code(filter: FilterType) -> u64 {
    match filter {
        FilterType::LatestObject => 0x2,
        FilterType::AbsoluteStart => 0x3,
        FilterType::AbsoluteRange => 0x4,
    }
}

/// Reads a filter type off the front of `s`: a variable-length integer, 2, 3
/// or 4.
pub open spec fn filter_type_parse(s: Seq<u8>) -> Result<(FilterType, nat), DecodeError> {
    match varint_parse(s) {
        Err(e) => Err(e),
        Ok((code, n)) => if code == 0x2 {
            Ok((FilterType::LatestObject, n))
        } else if code == 0x3 {
            Ok((FilterType::AbsoluteStart, n))
        } else if code == 0x4 {
            Ok((FilterType::AbsoluteRange, n))
        } else {
            Err(DecodeError::InvalidValue)
        },
    }
}

impl Encode for FilterType {
    open spec fn wire(&self) -> Seq<u8> {
        varint_wire(filter_type_code(*self))
    }

    open spec fn encode_error(&self) -> Option<EncodeError> {
        None
    }

    fn write(&self, out: &mut Vec<u8>) -> (r: Result<(), EncodeError>) {
        let code: u64 = match self {
            FilterType::LatestObject => 0x2,
            FilterType::AbsoluteStart => 0x3,
            FilterType::AbsoluteRange => 0x4,
        };
        write_varint(code, out);
        Ok(())
    }
}

impl Decode for FilterType {
    open spec fn parse(s: Seq<u8>) -> Result<(FilterType, nat), DecodeError> {
        filter_type_parse(s)
    }

    fn read(data: &[u8], pos: usize) -> (r: Result<(Self, usize), DecodeError>) {
        let (code, next) = read_varint(data, pos)?;
        match code {
            0x2 => Ok((FilterType::LatestObject, next)),
            0x3 => Ok((FilterType::AbsoluteStart, next)),
            0x4 => Ok((FilterType::AbsoluteRange, next)),
            _ => Err(DecodeError::InvalidValue),
        }
    }
}

impl RoundTrip for FilterType {
    open spec fn faithful(&self) -> bool {
        true
    }

    proof fn lemma_round_trip(&self, rest: Seq<u8>) {
        lemma_varint_round_trip(filter_type_code(*self), rest);
        lemma_varint_lengths(filter_type_code(*self));
    }
}

} // verus!
