//! Variable-length integers: numbers below 2^62 in 1, 2, 4 or 8 bytes, the
//! length told by the two high bits of the first byte.

use vstd::prelude::*;
use crate::coding::error::{DecodeError, EncodeError};
use crate::coding::traits::{Decode, Encode, RoundTrip};

verus! {

/// The largest value that a variable-length integer can carry: 2^62 - 1.
pub const VARINT_MAX: u64 = 0x3FFF_FFFF_FFFF_FFFF;

/// How many bytes the wire form of `n` takes: 1, 2, 4 or 8.
pub open spec fn varint_size(n: u64) -> nat {
    if n < 0x40 {
        1
    } else if n < 0x4000 {
        2
    } else if n < 0x4000_0000 {
        4
    } else {
        8
    }
}

/// The wire form of `n`: big-endian, in the shortest of the four lengths that
/// holds it, with the length written into the two high bits of the first byte.
#[verifier::opaque]
pub open spec fn varint_wire(n: u64) -> Seq<u8> {
    if n < 0x40 {
        seq![n as u8]
    } else if n < 0x4000 {
        seq![(0x40 + n / 0x100) as u8, (n % 0x100) as u8]
    } else if n < 0x4000_0000 {
        seq![
            (0x80 + n / 0x100_0000) as u8,
            (n / 0x1_0000 % 0x100) as u8,
            (n / 0x100 % 0x100) as u8,
            (n % 0x100) as u8,
        ]
    } else {
        seq![
            (0xC0 + n / 0x100_0000_0000_0000) as u8,
            (n / 0x1_0000_0000_0000 % 0x100) as u8,
            (n / 0x100_0000_0000 % 0x100) as u8,
            (n / 0x1_0000_0000 % 0x100) as u8,
            (n / 0x100_0000 % 0x100) as u8,
            (n / 0x1_0000 % 0x100) as u8,
            (n / 0x100 % 0x100) as u8,
            (n % 0x100) as u8,
        ]
    }
}

/// The length that the first byte of a variable-length integer announces.
pub open spec fn varint_announced(first: u8) -> nat {
    if first < 0x40 {
        1
    } else if first < 0x80 {
        2
    } else if first < 0xC0 {
        4
    } else {
        8
    }
}

/// The number that the first `len` bytes of `s` spell, the two high bits of
/// the first byte left out.
#[verifier::opaque]
pub open spec fn varint_value(s: Seq<u8>, len: nat) -> int {
    if len == 1 {
        (s[0] % 0x40) as int
    } else if len == 2 {
        (s[0] % 0x40) * 0x100 + s[1]
    } else if len == 4 {
        (s[0] % 0x40) * 0x100_0000 + s[1] * 0x1_0000 + s[2] * 0x100 + s[3]
    } else {
        (s[0] % 0x40) * 0x100_0000_0000_0000 + s[1] * 0x1_0000_0000_0000 + s[2]
            * 0x100_0000_0000 + s[3] * 0x1_0000_0000 + s[4] * 0x100_0000 + s[5] * 0x1_0000 + s[6]
            * 0x100 + s[7]
    }
}

/// Reads a variable-length integer off the front of `s`. Any bit pattern of
/// the announced length is accepted, the shortest form or not.
pub open spec fn varint_parse(s: Seq<u8>) -> Result<(u64, nat), DecodeError> {
    if s.len() < 1 {
        Err(DecodeError::UnexpectedEnd)
    } else if s.len() < varint_announced(s[0]) {
        Err(DecodeError::UnexpectedEnd)
    } else {
        Ok((varint_value(s, varint_announced(s[0])) as u64, varint_announced(s[0])))
    }
}

/// The four lengths cover the four intervals [0, 2^6), [2^6, 2^14),
/// [2^14, 2^30) and [2^30, 2^62), and the wire form has the length of its
/// interval.
pub proof fn lemma_varint_lengths(n: u64)
    requires
        n <= VARINT_MAX,
    ensures
        varint_wire(n).len() == varint_size(n),
        varint_size(n) == 1 <==> n < 0x40,
        varint_size(n) == 2 <==> 0x40 <= n < 0x4000,
        varint_size(n) == 4 <==> 0x4000 <= n < 0x4000_0000,
        varint_size(n) == 8 <==> 0x4000_0000 <= n <= VARINT_MAX,
{
    reveal(varint_wire);
}

/// What was read is below 2^62 and took the announced number of bytes, all
/// of them there.
pub proof fn lemma_varint_parse_bounds(s: Seq<u8>)
    ensures
        varint_parse(s) matches Ok((n, len)) ==> n <= VARINT_MAX && 1 <= len <= 8 && len
            <= s.len(),
        varint_parse(s) matches Err(e) ==> e == DecodeError::UnexpectedEnd,
{
    reveal(varint_value);
}

/// The bytes of a number add up to the number: each byte is what is left of
/// the number above it once the bytes above are taken away.
proof fn lemma_byte_steps(n: u64)
    ensures
        n / 0x100 % 0x100 * 0x100 == n / 0x100 * 0x100 - n / 0x1_0000 * 0x1_0000,
        n / 0x1_0000 % 0x100 * 0x1_0000 == n / 0x1_0000 * 0x1_0000 - n / 0x100_0000 * 0x100_0000,
        n / 0x100_0000 % 0x100 * 0x100_0000 == n / 0x100_0000 * 0x100_0000 - n / 0x1_0000_0000
            * 0x1_0000_0000,
        n / 0x1_0000_0000 % 0x100 * 0x1_0000_0000 == n / 0x1_0000_0000 * 0x1_0000_0000 - n
            / 0x100_0000_0000 * 0x100_0000_0000,
        n / 0x100_0000_0000 % 0x100 * 0x100_0000_0000 == n / 0x100_0000_0000 * 0x100_0000_0000 - n
            / 0x1_0000_0000_0000 * 0x1_0000_0000_0000,
        n / 0x1_0000_0000_0000 % 0x100 * 0x1_0000_0000_0000 == n / 0x1_0000_0000_0000
            * 0x1_0000_0000_0000 - n / 0x100_0000_0000_0000 * 0x100_0000_0000_0000,
        n % 0x100 == n - n / 0x100 * 0x100,
{
    assert(n / 0x1_0000_0000 / 0x100 == n / 0x100_0000_0000);
    assert(n / 0x100_0000_0000 / 0x100 == n / 0x1_0000_0000_0000);
}

/// Reading back what was written gives the number that was written, and
/// consumes exactly the bytes that were written, whatever follows them.
pub proof fn lemma_varint_round_trip(n: u64, rest: Seq<u8>)
    requires
        n <= VARINT_MAX,
    ensures
        varint_parse(varint_wire(n) + rest) == Ok::<(u64, nat), DecodeError>((n, varint_size(n))),
{
    reveal(varint_wire);
    reveal(varint_value);
    let s = varint_wire(n) + rest;
    lemma_byte_steps(n);
    if n < 0x40 {
        assert(s[0] == n as u8);
    } else if n < 0x4000 {
        assert(s[0] == (0x40 + n / 0x100) as u8);
        assert(s[1] == (n % 0x100) as u8);
    } else if n < 0x4000_0000 {
        assert(s[0] == (0x80 + n / 0x100_0000) as u8);
        assert(s[1] == (n / 0x1_0000 % 0x100) as u8);
        assert(s[2] == (n / 0x100 % 0x100) as u8);
        assert(s[3] == (n % 0x100) as u8);
        assert(n / 0x100_0000 < 0x40);
        assert(s[0] % 0x40 == n / 0x100_0000);
    } else {
        assert(s[0] == (0xC0 + n / 0x100_0000_0000_0000) as u8);
        assert(s[1] == (n / 0x1_0000_0000_0000 % 0x100) as u8);
        assert(s[2] == (n / 0x100_0000_0000 % 0x100) as u8);
        assert(s[3] == (n / 0x1_0000_0000 % 0x100) as u8);
        assert(s[4] == (n / 0x100_0000 % 0x100) as u8);
        assert(s[5] == (n / 0x1_0000 % 0x100) as u8);
        assert(s[6] == (n / 0x100 % 0x100) as u8);
        assert(s[7] == (n % 0x100) as u8);
        assert(n / 0x100_0000_0000_0000 < 0x40);
        assert(s[0] % 0x40 == n / 0x100_0000_0000_0000);
    }
}

/// Appends the wire form of `n` to `out`.
pub fn write_varint(n: u64, out: &mut Vec<u8>)
    requires
        n <= VARINT_MAX,
    ensures
        final(out)@ == old(out)@ + varint_wire(n),
{
    reveal(varint_wire);
    if n < 0x40 {
        out.push(n as u8);
    } else if n < 0x4000 {
        out.push((0x40 + n / 0x100) as u8);
        out.push((n % 0x100) as u8);
    } else if n < 0x4000_0000 {
        out.push((0x80 + n / 0x100_0000) as u8);
        out.push((n / 0x1_0000 % 0x100) as u8);
        out.push((n / 0x100 % 0x100) as u8);
        out.push((n % 0x100) as u8);
    } else {
        out.push((0xC0 + n / 0x100_0000_0000_0000) as u8);
        out.push((n / 0x1_0000_0000_0000 % 0x100) as u8);
        out.push((n / 0x100_0000_0000 % 0x100) as u8);
        out.push((n / 0x1_0000_0000 % 0x100) as u8);
        out.push((n / 0x100_0000 % 0x100) as u8);
        out.push((n / 0x1_0000 % 0x100) as u8);
        out.push((n / 0x100 % 0x100) as u8);
        out.push((n % 0x100) as u8);
    }
}

/// Reads a variable-length integer from `data` at `pos`.
pub fn read_varint(data: &[u8], pos: usize) -> (r: Result<(u64, usize), DecodeError>)
    requires
        pos <= data@.len(),
    ensures
        match varint_parse(data@.skip(pos as int)) {
            Ok((value, len)) => r matches Ok((v, next)) && v == value && next == pos + len && next
                <= data@.len() && value <= VARINT_MAX,
            Err(e) => r matches Err(got) && got == e,
        },
{
    reveal(varint_value);
    let left: usize = data.len() - pos;
    if left < 1 {
        return Err(DecodeError::UnexpectedEnd);
    }
    let first: u8 = data[pos];
    let head: u64 = (first % 0x40) as u64;
    if first < 0x40 {
        Ok((head, pos + 1))
    } else if first < 0x80 {
        if left < 2 {
            return Err(DecodeError::UnexpectedEnd);
        }
        Ok((head * 0x100 + data[pos + 1] as u64, pos + 2))
    } else if first < 0xC0 {
        if left < 4 {
            return Err(DecodeError::UnexpectedEnd);
        }
        Ok(
            (
                head * 0x100_0000 + data[pos + 1] as u64 * 0x1_0000 + data[pos + 2] as u64 * 0x100
                    + data[pos + 3] as u64,
                pos + 4,
            ),
        )
    } else {
        if left < 8 {
            return Err(DecodeError::UnexpectedEnd);
        }
        Ok(
            (
                head * 0x100_0000_0000_0000 + data[pos + 1] as u64 * 0x1_0000_0000_0000 + data[pos
                    + 2] as u64 * 0x100_0000_0000 + data[pos + 3] as u64 * 0x1_0000_0000 + data[pos
                    + 4] as u64 * 0x100_0000 + data[pos + 5] as u64 * 0x1_0000 + data[pos
                    + 6] as u64 * 0x100 + data[pos + 7] as u64,
                pos + 8,
            ),
        )
    }
}

/// An integer below 2^62: the range that a variable-length integer covers.
#[derive(Clone, Copy, Debug, PartialEq, Eq)]
pub struct VarInt(u64);

impl View for VarInt {
    type V = u64;

    closed spec fn view(&self) -> u64 {
        self.0
    }
}

impl VarInt {
    #[verifier::type_invariant]
    spec fn in_range(self) -> bool {
        self.0 <= VARINT_MAX
    }

    /// Accepts `value` if a variable-length integer can carry it.
    pub fn from_u64(value: u64) -> (r: Result<VarInt, EncodeError>)
        ensures
            match r {
                Ok(v) => value <= VARINT_MAX && v@ == value,
                Err(e) => value > VARINT_MAX && e == EncodeError::BoundsExceeded,
            },
    {
        if value <= VARINT_MAX {
            Ok(VarInt(value))
        } else {
            Err(EncodeError::BoundsExceeded)
        }
    }

    /// The integer itself.
    pub fn into_inner(self) -> (r: u64)
        ensures
            r == self@,
            r <= VARINT_MAX,
    {
        proof {
            use_type_invariant(&self);
        }
        self.0
    }
}

impl Encode for VarInt {
    open spec fn wire(&self) -> Seq<u8> {
        varint_wire(self@)
    }

    open spec fn encode_error(&self) -> Option<EncodeError> {
        if self@ <= VARINT_MAX {
            None
        } else {
            Some(EncodeError::BoundsExceeded)
        }
    }

    fn write(&self, out: &mut Vec<u8>) -> (r: Result<(), EncodeError>)
        ensures
            r is Ok,
    {
        write_varint(self.into_inner(), out);
        Ok(())
    }
}

impl Decode for VarInt {
    open spec fn parse(s: Seq<u8>) -> Result<(u64, nat), DecodeError> {
        varint_parse(s)
    }

    fn read(data: &[u8], pos: usize) -> (r: Result<(Self, usize), DecodeError>) {
        match read_varint(data, pos) {
            Ok((value, next)) => Ok((VarInt(value), next)),
            Err(e) => Err(e),
        }
    }
}

impl Encode for u64 {
    open spec fn wire(&self) -> Seq<u8> {
        varint_wire(*self)
    }

    open spec fn encode_error(&self) -> Option<EncodeError> {
        if *self <= VARINT_MAX {
            None
        } else {
            Some(EncodeError::BoundsExceeded)
        }
    }

    fn write(&self, out: &mut Vec<u8>) -> (r: Result<(), EncodeError>) {
        if *self > VARINT_MAX {
            return Err(EncodeError::BoundsExceeded);
        }
        write_varint(*self, out);
        Ok(())
    }
}

impl Decode for u64 {
    open spec fn parse(s: Seq<u8>) -> Result<(u64, nat), DecodeError> {
        varint_parse(s)
    }

    fn read(data: &[u8], pos: usize) -> (r: Result<(Self, usize), DecodeError>) {
        read_varint(data, pos)
    }
}

/// A length or a count read off the wire: a variable-length integer that
/// must fit the machine's `usize`.
pub open spec fn usize_parse(s: Seq<u8>) -> Result<(usize, nat), DecodeError> {
    match varint_parse(s) {
        Ok((value, len)) => if value <= usize::MAX {
            Ok((value as usize, len))
        } else {
            Err(DecodeError::BoundsExceeded)
        },
        Err(e) => Err(e),
    }
}

impl Encode for usize {
    open spec fn wire(&self) -> Seq<u8> {
        varint_wire(*self as u64)
    }

    open spec fn encode_error(&self) -> Option<EncodeError> {
        if *self <= VARINT_MAX {
            None
        } else {
            Some(EncodeError::BoundsExceeded)
        }
    }

    fn write(&self, out: &mut Vec<u8>) -> (r: Result<(), EncodeError>) {
        let n: u64 = *self as u64;
        if n > VARINT_MAX {
            return Err(EncodeError::BoundsExceeded);
        }
        write_varint(n, out);
        Ok(())
    }
}

impl Decode for usize {
    open spec fn parse(s: Seq<u8>) -> Result<(usize, nat), DecodeError> {
        usize_parse(s)
    }

    fn read(data: &[u8], pos: usize) -> (r: Result<(Self, usize), DecodeError>) {
        match read_varint(data, pos) {
            Ok((value, next)) => {
                if value > usize::MAX as u64 {
                    Err(DecodeError::BoundsExceeded)
                } else {
                    Ok((value as usize, next))
                }
            },
            Err(e) => Err(e),
        }
    }
}

/// A single byte, written as it is: priorities and flags.
pub open spec fn byte_parse(s: Seq<u8>) -> Result<(u8, nat), DecodeError> {
    if s.len() < 1 {
        Err(DecodeError::UnexpectedEnd)
    } else {
        Ok((s[0], 1))
    }
}

impl Encode for u8 {
    open spec fn wire(&self) -> Seq<u8> {
        seq![*self]
    }

    open spec fn encode_error(&self) -> Option<EncodeError> {
        None
    }

    fn write(&self, out: &mut Vec<u8>) -> (r: Result<(), EncodeError>) {
        out.push(*self);
        assert(out@ =~= old(out)@ + seq![*self]);
        Ok(())
    }
}

impl Decode for u8 {
    open spec fn parse(s: Seq<u8>) -> Result<(u8, nat), DecodeError> {
        byte_parse(s)
    }

    fn read(data: &[u8], pos: usize) -> (r: Result<(Self, usize), DecodeError>) {
        if data.len() - pos < 1 {
            Err(DecodeError::UnexpectedEnd)
        } else {
            Ok((data[pos], pos + 1))
        }
    }
}

impl RoundTrip for VarInt {
    open spec fn faithful(&self) -> bool {
        true
    }

    proof fn lemma_round_trip(&self, rest: Seq<u8>) {
        lemma_varint_round_trip(self@, rest);
        lemma_varint_lengths(self@);
    }
}

impl RoundTrip for u64 {
    open spec fn faithful(&self) -> bool {
        true
    }

    proof fn lemma_round_trip(&self, rest: Seq<u8>) {
        lemma_varint_round_trip(*self, rest);
        lemma_varint_lengths(*self);
    }
}

impl RoundTrip for usize {
    open spec fn faithful(&self) -> bool {
        true
    }

    proof fn lemma_round_trip(&self, rest: Seq<u8>) {
        lemma_varint_round_trip(*self as u64, rest);
        lemma_varint_lengths(*self as u64);
    }
}

impl RoundTrip for u8 {
    open spec fn faithful(&self) -> bool {
        true
    }

    proof fn lemma_round_trip(&self, rest: Seq<u8>) {
    }
}

} // verus!
