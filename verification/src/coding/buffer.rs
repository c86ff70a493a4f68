//! The byte buffer that values are written to and taken from at the edge of the
//! library. Everything inside works on vectors and slices; the buffer is
//! touched in three places, each of which is believed and not proved.

use vstd::prelude::*;

verus! {

/// The growable byte buffer of the `bytes` crate, which values are written to
/// and read from. What it holds is known only through [`buffered`].
#[verifier::external_type_specification]
#[verifier::external_body]
pub struct ExBytesMut(bytes::BytesMut);

/// The bytes that a buffer holds, front first.
pub uninterp spec fn buffered(b: bytes::BytesMut) -> Seq<u8>;

/// `BytesMut`'s view as a slice (`AsRef<[u8]>`): all the bytes it holds, in
/// order, without consuming any.
#[verifier::external_body]
pub(crate) fn buffer_bytes(b: &bytes::BytesMut) -> (s: &[u8])
    ensures
        s@ == buffered(*b),
{
    b.as_ref()
}

/// `Buf::advance` on `BytesMut`: drops the first `n` bytes and keeps the rest.
/// The outside function panics when `n` exceeds what the buffer holds.
#[verifier::external_body]
pub(crate) fn buffer_advance(b: &mut bytes::BytesMut, n: usize)
    requires
        n <= buffered(*old(b)).len(),
    ensures
        buffered(*final(b)) == buffered(*old(b)).skip(n as int),
{
    bytes::Buf::advance(b, n)
}

/// `BytesMut::extend_from_slice`: appends `src` behind the bytes already
/// held, growing the buffer as needed.
#[verifier::external_body]
pub(crate) fn buffer_extend(b: &mut bytes::BytesMut, src: &[u8])
    ensures
        buffered(*final(b)) == buffered(*old(b)) + src@,
{
    b.extend_from_slice(src)
}

} // verus!
