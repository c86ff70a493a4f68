//! The stream that carries a whole track: its header, and the header of each
//! object on it.

use vstd::prelude::*;
use crate::coding::bytestring::{lemma_concat_assoc, lemma_skip_field, lemma_skip_twice};
use crate::coding::error::{DecodeError, EncodeError};
use crate::coding::traits::{read_field, Decode, Encode, RoundTrip};
use crate::data::object::{
    lemma_status_round_trip, read_status, status_parse, status_wire, write_status, ObjectStatus,
};

verus! {

/// Opens a stream that carries a whole track, object after object.
#[derive(Clone, Copy, Debug, PartialEq, Eq, Structural)]
pub struct TrackHeader {
    /// The subscription that the stream answers.
    pub subscribe_id: u64,
    pub track_alias: u64,
    pub publisher_priority: u8,
}

impl View for TrackHeader {
    type V = TrackHeader;

    open spec fn view(&self) -> TrackHeader {
        *self
    }
}

/// Reads a track header off the front of `s`.
pub open spec fn track_header_parse(s: Seq<u8>) -> Result<(TrackHeader, nat), DecodeError> {
    match u64::parse(s) {
        Err(e) => Err(e),
        Ok((subscribe_id, n0)) => match u64::parse(s.skip(n0 as int)) {
            Err(e) => Err(e),
            Ok((track_alias, n1)) => match u8::parse(s.skip((n0 + n1) as int)) {
                Err(e) => Err(e),
                Ok((publisher_priority, n2)) => Ok(
                    (TrackHeader { subscribe_id, track_alias, publisher_priority }, n0 + n1 + n2),
                ),
            },
        },
    }
}

impl Encode for TrackHeader {
    open spec fn wire(&self) -> Seq<u8> {
        self.subscribe_id.wire() + self.track_alias.wire() + self.publisher_priority.wire()
    }

    open spec fn encode_error(&self) -> Option<EncodeError> {
        if self.subscribe_id.encode_error() is Some {
            self.subscribe_id.encode_error()
        } else if self.track_alias.encode_error() is Some {
            self.track_alias.encode_error()
        } else {
            self.publisher_priority.encode_error()
        }
    }

    fn write(&self, out: &mut Vec<u8>) -> (r: Result<(), EncodeError>) {
        let mark: usize = out.len();
        self.subscribe_id.write(out)?;
        match self.track_alias.write(out) {
            Ok(()) => {},
            Err(e) => {
                out.truncate(mark);
                return Err(e);
            },
        }
        match self.publisher_priority.write(out) {
            Ok(()) => {},
            Err(e) => {
                out.truncate(mark);
                return Err(e);
            },
        }
        Ok(())
    }
}

impl Decode for TrackHeader {
    open spec fn parse(s: Seq<u8>) -> Result<(TrackHeader, nat), DecodeError> {
        track_header_parse(s)
    }

    fn read(data: &[u8], pos: usize) -> (r: Result<(Self, usize), DecodeError>) {
        let (subscribe_id, at1) = u64::read(data, pos)?;
        let (track_alias, at2) = read_field::<u64>(data, pos, at1)?;
        let (publisher_priority, at3) = read_field::<u8>(data, pos, at2)?;
        Ok((TrackHeader { subscribe_id, track_alias, publisher_priority }, at3))
    }
}

impl RoundTrip for TrackHeader {
    open spec fn faithful(&self) -> bool {
        true
    }

    proof fn lemma_round_trip(&self, rest: Seq<u8>) {
        let f0 = self.subscribe_id.wire();
        let f1 = self.track_alias.wire();
        let f2 = self.publisher_priority.wire();
        let s = self.wire() + rest;
        let t2 = f2 + rest;
        let t1 = f1 + t2;
        assert(s == f0 + t1) by {
            lemma_concat_assoc(f0 + f1, f2, rest);
            lemma_concat_assoc(f0, f1, t2);
        }
        let n0 = f0.len() as int;
        let n1 = n0 + f1.len();
        assert(s.skip(0) == f0 + t1);
        lemma_skip_field(s, 0, f0, t1);
        lemma_skip_field(s, n0, f1, t2);
        assert(u64::parse(s) == Ok::<(u64, nat), DecodeError>((self.subscribe_id, f0.len()))) by {
            self.subscribe_id.lemma_round_trip(t1);
        }
        assert(u64::parse(s.skip(n0)) == Ok::<(u64, nat), DecodeError>(
            (self.track_alias, f1.len()),
        )) by {
            self.track_alias.lemma_round_trip(t2);
        }
        assert(u8::parse(s.skip(n1)) == Ok::<(u8, nat), DecodeError>(
            (self.publisher_priority, f2.len()),
        )) by {
            self.publisher_priority.lemma_round_trip(rest);
        }
    }
}

/// Stands before each object on a stream that carries a whole track. The
/// status is written only where the size is zero.
#[derive(Clone, Copy, Debug, PartialEq, Eq, Structural)]
pub struct TrackObject {
    pub group_id: u64,
    pub object_id: u64,
    /// The number of payload bytes that follow.
    pub size: u64,
    pub status: ObjectStatus,
}

impl View for TrackObject {
    type V = TrackObject;

    open spec fn view(&self) -> TrackObject {
        *self
    }
}

/// Reads the header of an object of a track stream off the front of `s`.
#[verifier::opaque]
pub open spec fn track_object_parse(s: Seq<u8>) -> Result<(TrackObject, nat), DecodeError> {
    match u64::parse(s) {
        Err(e) => Err(e),
        Ok((group_id, n0)) => match u64::parse(s.skip(n0 as int)) {
            Err(e) => Err(e),
            Ok((object_id, n1)) => match u64::parse(s.skip((n0 + n1) as int)) {
                Err(e) => Err(e),
                Ok((size, n2)) => match status_parse(s.skip((n0 + n1 + n2) as int), size) {
                    Err(e) => Err(e),
                    Ok((status, n3)) => Ok(
                        (TrackObject { group_id, object_id, size, status }, n0 + n1 + n2 + n3),
                    ),
                },
            },
        },
    }
}

impl Encode for TrackObject {
    open spec fn wire(&self) -> Seq<u8> {
        self.group_id.wire() + self.object_id.wire() + self.size.wire() + status_wire(
            self.status,
            self.size,
        )
    }

    open spec fn encode_error(&self) -> Option<EncodeError> {
        if self.group_id.encode_error() is Some {
            self.group_id.encode_error()
        } else if self.object_id.encode_error() is Some {
            self.object_id.encode_error()
        } else {
            self.size.encode_error()
        }
    }

    fn write(&self, out: &mut Vec<u8>) -> (r: Result<(), EncodeError>) {
        let mark: usize = out.len();
        self.group_id.write(out)?;
        match self.object_id.write(out) {
            Ok(()) => {},
            Err(e) => {
                out.truncate(mark);
                return Err(e);
            },
        }
        match self.size.write(out) {
            Ok(()) => {},
            Err(e) => {
                out.truncate(mark);
                return Err(e);
            },
        }
        write_status(self.status, self.size, out);
        Ok(())
    }
}

impl Decode for TrackObject {
    open spec fn parse(s: Seq<u8>) -> Result<(TrackObject, nat), DecodeError> {
        track_object_parse(s)
    }

    fn read(data: &[u8], pos: usize) -> (r: Result<(Self, usize), DecodeError>) {
        reveal(track_object_parse);
        let (group_id, at1) = u64::read(data, pos)?;
        let (object_id, at2) = read_field::<u64>(data, pos, at1)?;
        let (size, at3) = read_field::<u64>(data, pos, at2)?;
        proof {
            lemma_skip_twice(data@, pos as int, at3 - pos);
        }
        let (status, at4) = read_status(data, at3, size)?;
        Ok((TrackObject { group_id, object_id, size, status }, at4))
    }
}

/// Fields that read one behind the other make up the record.
proof fn lemma_track_object_steps(
    s: Seq<u8>,
    v: TrackObject,
    n0: nat,
    n1: nat,
    n2: nat,
    n3: nat,
)
    requires
        u64::parse(s) == Ok::<(u64, nat), DecodeError>((v.group_id, n0)),
        u64::parse(s.skip(n0 as int)) == Ok::<(u64, nat), DecodeError>((v.object_id, n1)),
        u64::parse(s.skip((n0 + n1) as int)) == Ok::<(u64, nat), DecodeError>((v.size, n2)),
        status_parse(s.skip((n0 + n1 + n2) as int), v.size) == Ok::<
            (ObjectStatus, nat),
            DecodeError,
        >(
            (v.status, n3),
        ),
    ensures
        track_object_parse(s) == Ok::<(TrackObject, nat), DecodeError>((v, n0 + n1 + n2 + n3)),
{
    reveal(track_object_parse);
}

impl RoundTrip for TrackObject {
    /// An object with a payload is an ordinary object.
    open spec fn faithful(&self) -> bool {
        self.size == 0 || self.status == ObjectStatus::Object
    }

    proof fn lemma_round_trip(&self, rest: Seq<u8>) {
        let f0 = self.group_id.wire();
        let f1 = self.object_id.wire();
        let f2 = self.size.wire();
        let f3 = status_wire(self.status, self.size);
        let s = self.wire() + rest;
        let t3 = f3 + rest;
        let t2 = f2 + t3;
        let t1 = f1 + t2;
        assert(s == f0 + t1) by {
            lemma_concat_assoc(f0 + f1 + f2, f3, rest);
            lemma_concat_assoc(f0 + f1, f2, t3);
            lemma_concat_assoc(f0, f1, t2);
        }
        let n0 = f0.len() as int;
        let n1 = n0 + f1.len();
        let n2 = n1 + f2.len();
        assert(s.skip(0) == f0 + t1);
        lemma_skip_field(s, 0, f0, t1);
        lemma_skip_field(s, n0, f1, t2);
        lemma_skip_field(s, n1, f2, t3);
        assert(u64::parse(s) == Ok::<(u64, nat), DecodeError>((self.group_id, f0.len()))) by {
            self.group_id.lemma_round_trip(t1);
        }
        assert(u64::parse(s.skip(n0)) == Ok::<(u64, nat), DecodeError>(
            (self.object_id, f1.len()),
        )) by {
            self.object_id.lemma_round_trip(t2);
        }
        assert(u64::parse(s.skip(n1)) == Ok::<(u64, nat), DecodeError>((self.size, f2.len()))) by {
            self.size.lemma_round_trip(t3);
        }
        assert(status_parse(s.skip(n2), self.size) == Ok::<(ObjectStatus, nat), DecodeError>(
            (self.status, f3.len()),
        )) by {
            lemma_status_round_trip(self.status, self.size, rest);
        }
        lemma_track_object_steps(s, *self, f0.len(), f1.len(), f2.len(), f3.len());
    }
}
} // verus!
