//! The status of an object, and how it is written beside the size.

use vstd::prelude::*;
use crate::coding::error::{DecodeError, EncodeError};
use crate::coding::traits::{Decode, Encode, RoundTrip};
use crate::coding::varint::{
    lemma_varint_lengths, lemma_varint_round_trip, read_varint, varint_parse, varint_wire,
    write_varint,
};

verus! {

/// What an object is: a payload, or a marker that stands in for one.
#[derive(Clone, Copy, Debug, PartialEq, Eq, Structural)]
pub enum ObjectStatus {
    /// An ordinary object with a payload.
    Object,
    /// The object does not exist.
    ObjectNotExists,
    /// The group does not exist.
    GroupNotExists,
    /// No object follows in this group.
    EndOfGroup,
    /// No object follows in this track.
    EndOfTrack,
}

impl View for ObjectStatus {
    type V = ObjectStatus;

    open spec fn view(&self) -> ObjectStatus {
        *self
    }
}

/// The number that stands for an object status.
pub open spec fn object_status_code(status: ObjectStatus) -> u64 {
    match status {
        ObjectStatus::Object => 0x0,
        ObjectStatus::ObjectNotExists => 0x1,
        ObjectStatus::GroupNotExists => 0x2,
        ObjectStatus::EndOfGroup => 0x3,
        ObjectStatus::EndOfTrack => 0x4,
    }
}

/// Reads an object status off the front of `s`: a variable-length integer
/// from 0 to 4.
pub open spec fn object_status_parse(s: Seq<u8>) -> Result<(ObjectStatus, nat), DecodeError> {
    match varint_parse(s) {
        Err(e) => Err(e),
        Ok((code, n)) => if code == 0x0 {
            Ok((ObjectStatus::Object, n))
        } else if code == 0x1 {
            Ok((ObjectStatus::ObjectNotExists, n))
        } else if code == 0x2 {
            Ok((ObjectStatus::GroupNotExists, n))
        } else if code == 0x3 {
            Ok((ObjectStatus::EndOfGroup, n))
        } else if code == 0x4 {
            Ok((ObjectStatus::EndOfTrack, n))
        } else {
            Err(DecodeError::InvalidValue)
        },
    }
}

impl Encode for ObjectStatus {
    open spec fn wire(&self) -> Seq<u8> {
        varint_wire(object_status_code(*self))
    }

    open spec fn encode_error(&self) -> Option<EncodeError> {
        None
    }

    fn write(&self, out: &mut Vec<u8>) -> (r: Result<(), EncodeError>) {
        let code: u64 = match self {
            ObjectStatus::Object => 0x0,
            ObjectStatus::ObjectNotExists => 0x1,
            ObjectStatus::GroupNotExists => 0x2,
            ObjectStatus::EndOfGroup => 0x3,
            ObjectStatus::EndOfTrack => 0x4,
        };
        write_varint(code, out);
        Ok(())
    }
}

impl Decode for ObjectStatus {
    open spec fn parse(s: Seq<u8>) -> Result<(ObjectStatus, nat), DecodeError> {
        object_status_parse(s)
    }

    fn read(data: &[u8], pos: usize) -> (r: Result<(Self, usize), DecodeError>) {
        let (code, next) = read_varint(data, pos)?;
        match code {
            0x0 => Ok((ObjectStatus::Object, next)),
            0x1 => Ok((ObjectStatus::ObjectNotExists, next)),
            0x2 => Ok((ObjectStatus::GroupNotExists, next)),
            0x3 => Ok((ObjectStatus::EndOfGroup, next)),
            0x4 => Ok((ObjectStatus::EndOfTrack, next)),
            _ => Err(DecodeError::InvalidValue),
        }
    }
}

impl RoundTrip for ObjectStatus {
    open spec fn faithful(&self) -> bool {
        true
    }

    proof fn lemma_round_trip(&self, rest: Seq<u8>) {
        lemma_varint_round_trip(object_status_code(*self), rest);
        lemma_varint_lengths(object_status_code(*self));
    }
}

/// Reads the status that belongs to an object of the given size off the front
/// of `s`: written out where the size is zero, understood otherwise.
pub open spec fn status_parse(s: Seq<u8>, size: u64) -> Result<(ObjectStatus, nat), DecodeError> {
    if size == 0 {
        ObjectStatus::parse(s)
    } else {
        Ok((ObjectStatus::Object, 0))
    }
}

/// The wire form of the status of an object of the given size.
pub open spec fn status_wire(status: ObjectStatus, size: u64) -> Seq<u8> {
    if size == 0 {
        status.wire()
    } else {
        Seq::empty()
    }
}

/// Appends the status of an object of the given size, where it is written
/// out.
pub fn write_status(status: ObjectStatus, size: u64, out: &mut Vec<u8>)
    ensures
        final(out)@ == old(out)@ + status_wire(status, size),
{
    if size == 0 {
        let _ = status.write(out);
    }
}

/// Reads the status of an object of the given size from `data` at `pos`.
pub fn read_status(data: &[u8], pos: usize, size: u64) -> (r: Result<
    (ObjectStatus, usize),
    DecodeError,
>)
    requires
        pos <= data@.len(),
    ensures
        match status_parse(data@.skip(pos as int), size) {
            Ok((value, len)) => r matches Ok((v, next)) && v == value && next == pos + len && next
                <= data@.len(),
            Err(e) => r matches Err(got) && got == e,
        },
{
    if size == 0 {
        ObjectStatus::read(data, pos)
    } else {
        Ok((ObjectStatus::Object, pos))
    }
}

/// The status of an object reads back as it was written, or as it is
/// understood.
pub proof fn lemma_status_round_trip(status: ObjectStatus, size: u64, rest: Seq<u8>)
    requires
        size == 0 || status == ObjectStatus::Object,
    ensures
        status_parse(status_wire(status, size) + rest, size) == Ok::<
            (ObjectStatus, nat),
            DecodeError,
        >((status, status_wire(status, size).len())),
{
    if size == 0 {
        status.lemma_round_trip(rest);
    }
}

} // verus!
