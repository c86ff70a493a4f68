//! Strings on the wire: the length of the UTF-8 form, then the UTF-8 bytes.

use vstd::prelude::*;
use vstd::utf8::{
    decode_utf8,
    encode_utf8,
    encode_utf8_decode_utf8,
    encode_utf8_valid_utf8,
    valid_utf8,
};
use crate::coding::bytestring::{
    bytes_parse,
    bytes_wire,
    lemma_bytes_round_trip,
    read_bytes,
    write_bytes,
};
use crate::coding::error::{DecodeError, EncodeError};
use crate::coding::traits::{Decode, Encode, RoundTrip};
use crate::coding::varint::VARINT_MAX;

verus! {

/// Whether a length can be written as a prefix and held in memory.
pub open spec fn length_fits(n: nat) -> bool {
    n <= VARINT_MAX && n <= usize::MAX
}

/// Reads a length-prefixed string off the front of `s`; the bytes must be
/// well-formed UTF-8.
#[verifier::opaque]
pub open spec fn string_parse(s: Seq<u8>) -> Result<(Seq<char>, nat), DecodeError> {
    match bytes_parse(s) {
        Err(e) => Err(e),
        Ok((b, n)) => if valid_utf8(b) {
            Ok((decode_utf8(b), n))
        } else {
            Err(DecodeError::InvalidValue)
        },
    }
}

/// `String::from_utf8`: gives the string that the bytes spell in UTF-8, and
/// nothing when they are not well-formed UTF-8.
#[verifier::external_body]
fn string_from_utf8(bytes: Vec<u8>) -> (r: Option<String>)
    ensures
        r is Some <==> valid_utf8(bytes@),
        r matches Some(s) ==> s@ == decode_utf8(bytes@),
{
    match String::from_utf8(bytes) {
        Ok(s) => Some(s),
        Err(_) => None,
    }
}

impl Encode for String {
    open spec fn wire(&self) -> Seq<u8> {
        bytes_wire(encode_utf8(self@))
    }

    open spec fn encode_error(&self) -> Option<EncodeError> {
        if encode_utf8(self@).len() <= VARINT_MAX {
            None
        } else {
            Some(EncodeError::BoundsExceeded)
        }
    }

    fn write(&self, out: &mut Vec<u8>) -> (r: Result<(), EncodeError>) {
        write_bytes(self.as_str().as_bytes(), out)
    }
}

impl Decode for String {
    open spec fn parse(s: Seq<u8>) -> Result<(Seq<char>, nat), DecodeError> {
        string_parse(s)
    }

    fn read(data: &[u8], pos: usize) -> (r: Result<(Self, usize), DecodeError>) {
        reveal(string_parse);
        match read_bytes(data, pos) {
            Err(e) => Err(e),
            Ok((bytes, next)) => match string_from_utf8(bytes) {
                Some(s) => Ok((s, next)),
                None => Err(DecodeError::InvalidValue),
            },
        }
    }
}

impl RoundTrip for String {
    open spec fn faithful(&self) -> bool {
        encode_utf8(self@).len() <= usize::MAX
    }

    proof fn lemma_round_trip(&self, rest: Seq<u8>) {
        reveal(string_parse);
        lemma_bytes_round_trip(encode_utf8(self@), rest);
        encode_utf8_valid_utf8(self@);
        encode_utf8_decode_utf8(self@);
    }
}

} // verus!
