//! The three traits of the codec: a value has a wire form, a value can be read
//! off the front of a byte string, and reading undoes writing.

use vstd::prelude::*;
use crate::coding::buffer::{buffered, buffer_advance, buffer_bytes, buffer_extend};
use crate::coding::bytestring::lemma_skip_twice;
use crate::coding::error::{DecodeError, EncodeError};

verus! {

/// A value with a wire form.
pub trait Encode {
    /// The bytes that stand for this value on the wire.
    spec fn wire(&self) -> Seq<u8>;

    /// The reason this value cannot be written, if there is one.
    spec fn encode_error(&self) -> Option<EncodeError>;

    /// Appends the wire form to `out`. A value that cannot be written leaves
    /// `out` as it was.
    fn write(&self, out: &mut Vec<u8>) -> (r: Result<(), EncodeError>)
        ensures
            match r {
                Ok(()) => self.encode_error() is None && final(out)@ == old(out)@ + self.wire(),
                Err(e) => self.encode_error() == Some(e) && final(out)@ == old(out)@,
            },
    ;

    /// Appends the wire form to the buffer, or leaves the buffer untouched
    /// when the value cannot be written.
    fn encode(&self, w: &mut bytes::BytesMut) -> (r: Result<(), EncodeError>)
        ensures
            match r {
                Ok(()) => self.encode_error() is None && buffered(*final(w)) == buffered(*old(w))
                    + self.wire(),
                Err(e) => self.encode_error() == Some(e) && buffered(*final(w)) == buffered(
                    *old(w),
                ),
            },
    {
        let mut scratch: Vec<u8> = Vec::new();
        match self.write(&mut scratch) {
            Ok(()) => {
                buffer_extend(w, scratch.as_slice());
                Ok(())
            },
            Err(e) => Err(e),
        }
    }
}

/// A value that can be read off the front of a byte string.
pub trait Decode: Sized + View {
    /// What the front of `s` stands for and how many bytes that takes, or why
    /// it stands for nothing.
    spec fn parse(s: Seq<u8>) -> Result<(Self::V, nat), DecodeError>;

    /// Reads one value from `data`, starting at `pos`, and says where the
    /// next value begins.
    fn read(data: &[u8], pos: usize) -> (r: Result<(Self, usize), DecodeError>)
        requires
            pos <= data@.len(),
        ensures
            match Self::parse(data@.skip(pos as int)) {
                Ok((value, len)) => r matches Ok((v, next)) && v@ == value && next == pos + len
                    && next <= data@.len(),
                Err(e) => r matches Err(got) && got == e,
            },
    ;

    /// Takes one value off the front of the buffer. On an error the buffer
    /// keeps every byte, so the same read can be tried again once more bytes
    /// have arrived.
    fn decode(r: &mut bytes::BytesMut) -> (res: Result<Self, DecodeError>)
        ensures
            match Self::parse(buffered(*old(r))) {
                Ok((value, len)) => res matches Ok(v) && v@ == value && len <= buffered(
                    *old(r),
                ).len() && buffered(*final(r)) == buffered(*old(r)).skip(len as int),
                Err(e) => res matches Err(got) && got == e && buffered(*final(r)) == buffered(
                    *old(r),
                ),
            },
    {
        let got = Self::read(buffer_bytes(r), 0);
        match got {
            Ok((v, next)) => {
                assert(buffered(*r).skip(0) =~= buffered(*r));
                buffer_advance(r, next);
                Ok(v)
            },
            Err(e) => {
                assert(buffered(*r).skip(0) =~= buffered(*r));
                Err(e)
            },
        }
    }
}

/// Reads a field of a record that begins at `origin`: one value from `data`
/// at `at`.
pub fn read_field<T: Decode>(data: &[u8], origin: usize, at: usize) -> (r: Result<
    (T, usize),
    DecodeError,
>)
    requires
        origin <= at <= data@.len(),
    ensures
        match T::parse(data@.skip(origin as int).skip(at - origin)) {
            Ok((value, len)) => r matches Ok((v, next)) && v@ == value && next == at + len && next
                <= data@.len(),
            Err(e) => r matches Err(got) && got == e,
        },
{
    proof {
        lemma_skip_twice(data@, origin as int, at - origin);
    }
    T::read(data, at)
}

/// A value whose wire form reads back as the value.
pub trait RoundTrip: Encode + Decode {
    /// Whether reading gives back this very value. It fails only where writing
    /// normalises: a field that the wire form leaves out, or a stored byte
    /// string that is written in its shortest form.
    spec fn faithful(&self) -> bool;

    /// Reading what was written gives the value that was written and consumes
    /// exactly the bytes that were written, whatever follows them.
    proof fn lemma_round_trip(&self, rest: Seq<u8>)
        requires
            self.encode_error() is None,
            self.faithful(),
        ensures
            Self::parse(self.wire() + rest) == Ok::<(Self::V, nat), DecodeError>(
                (self@, self.wire().len()),
            ),
    ;
}

} // verus!
