//! Length-prefixed byte strings: a variable-length integer that gives the
//! length, then that many bytes.

use vstd::prelude::*;
use vstd::slice::{slice_subrange, slice_to_vec};
use crate::coding::error::{DecodeError, EncodeError};
use crate::coding::traits::{Decode, Encode, RoundTrip};
use crate::coding::varint::{
    lemma_varint_lengths, lemma_varint_round_trip, read_varint, usize_parse, varint_size,
    varint_wire, write_varint, VARINT_MAX,
};

verus! {

/// The wire form of a byte string: its length, then its bytes.
pub open spec fn bytes_wire(b: Seq<u8>) -> Seq<u8> {
    varint_wire(b.len() as u64) + b
}

/// Reads a length-prefixed byte string off the front of `s`.
pub open spec fn bytes_parse(s: Seq<u8>) -> Result<(Seq<u8>, nat), DecodeError> {
    match usize_parse(s) {
        Err(e) => Err(e),
        Ok((size, n)) => if s.len() - n < size {
            Err(DecodeError::UnexpectedEnd)
        } else {
            Ok((s.subrange(n as int, n + size), (n + size) as nat))
        },
    }
}

/// Skipping twice is skipping once by the sum.
pub proof fn lemma_skip_twice(s: Seq<u8>, a: int, b: int)
    requires
        0 <= a,
        0 <= b,
        a + b <= s.len(),
    ensures
        s.skip(a).skip(b) == s.skip(a + b),
{
}

/// What follows a prefix is what was appended to it.
pub proof fn lemma_skip_prefix(head: Seq<u8>, tail: Seq<u8>)
    ensures
        (head + tail).skip(head.len() as int) == tail,
        (head + tail).subrange(0, head.len() as int) == head,
{
}

/// Appending in two steps is appending the two pieces joined.
pub proof fn lemma_concat_assoc(a: Seq<u8>, b: Seq<u8>, c: Seq<u8>)
    ensures
        (a + b) + c == a + (b + c),
{
}

/// Past a field that stands at `at` comes what follows the field.
pub proof fn lemma_skip_field(s: Seq<u8>, at: int, field: Seq<u8>, tail: Seq<u8>)
    requires
        0 <= at <= s.len(),
        s.skip(at) == field + tail,
    ensures
        at + field.len() <= s.len(),
        s.skip(at + field.len()) == tail,
{
    lemma_skip_twice(s, at, field.len() as int);
}

/// A byte string reads back as itself, whatever follows it.
pub proof fn lemma_bytes_round_trip(b: Seq<u8>, rest: Seq<u8>)
    requires
        b.len() <= usize::MAX,
        b.len() <= VARINT_MAX,
    ensures
        bytes_parse(bytes_wire(b) + rest) == Ok::<(Seq<u8>, nat), DecodeError>(
            (b, bytes_wire(b).len()),
        ),
{
    let n = b.len() as u64;
    let s = bytes_wire(b) + rest;
    lemma_varint_lengths(n);
    assert(s =~= varint_wire(n) + (b + rest));
    lemma_varint_round_trip(n, b + rest);
    assert(s.subrange(varint_size(n) as int, (varint_size(n) + b.len()) as int) =~= b);
}

/// Appends the length of `b` and then `b` to `out`, unless the length is
/// beyond what a variable-length integer can carry.
pub fn write_bytes(b: &[u8], out: &mut Vec<u8>) -> (r: Result<(), EncodeError>)
    ensures
        match r {
            Ok(()) => b@.len() <= VARINT_MAX && final(out)@ == old(out)@ + bytes_wire(b@),
            Err(e) => b@.len() > VARINT_MAX && e == EncodeError::BoundsExceeded && final(out)@
                == old(out)@,
        },
{
    let n: u64 = b.len() as u64;
    if n > VARINT_MAX {
        return Err(EncodeError::BoundsExceeded);
    }
    write_varint(n, out);
    out.extend_from_slice(b);
    Ok(())
}

/// Reads a length-prefixed byte string from `data` at `pos`.
pub fn read_bytes(data: &[u8], pos: usize) -> (r: Result<(Vec<u8>, usize), DecodeError>)
    requires
        pos <= data@.len(),
    ensures
        match bytes_parse(data@.skip(pos as int)) {
            Ok((value, len)) => r matches Ok((v, next)) && v@ == value && next == pos + len && next
                <= data@.len(),
            Err(e) => r matches Err(got) && got == e,
        },
{
    let (n, at) = match read_varint(data, pos) {
        Ok(pair) => pair,
        Err(e) => {
            return Err(e);
        },
    };
    if n > usize::MAX as u64 {
        return Err(DecodeError::BoundsExceeded);
    }
    let size: usize = n as usize;
    if data.len() - at < size {
        return Err(DecodeError::UnexpectedEnd);
    }
    let v = slice_to_vec(slice_subrange(data, at, at + size));
    Ok((v, at + size))
}

impl Encode for Vec<u8> {
    open spec fn wire(&self) -> Seq<u8> {
        bytes_wire(self@)
    }

    open spec fn encode_error(&self) -> Option<EncodeError> {
        if self@.len() <= VARINT_MAX {
            None
        } else {
            Some(EncodeError::BoundsExceeded)
        }
    }

    fn write(&self, out: &mut Vec<u8>) -> (r: Result<(), EncodeError>) {
        write_bytes(self.as_slice(), out)
    }
}

impl Decode for Vec<u8> {
    open spec fn parse(s: Seq<u8>) -> Result<(Seq<u8>, nat), DecodeError> {
        bytes_parse(s)
    }

    fn read(data: &[u8], pos: usize) -> (r: Result<(Self, usize), DecodeError>) {
        read_bytes(data, pos)
    }
}

impl RoundTrip for Vec<u8> {
    open spec fn faithful(&self) -> bool {
        self@.len() <= usize::MAX
    }

    proof fn lemma_round_trip(&self, rest: Seq<u8>) {
        lemma_bytes_round_trip(self@, rest);
    }
}

} // verus!
