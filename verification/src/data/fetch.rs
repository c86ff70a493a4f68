//! The stream that answers a fetch: its header, and the header of each object
//! on it.

use vstd::prelude::*;
use crate::coding::bytestring::{lemma_concat_assoc, lemma_skip_field};
use crate::coding::error::{DecodeError, EncodeError};
use crate::coding::traits::{read_field, Decode, Encode, RoundTrip};
use crate::data::object::{
    lemma_status_round_trip, read_status, status_parse, status_wire, write_status, ObjectStatus,
};

verus! {

/// Opens the stream that carries the answer to a fetch. Only the number of
/// the fetch is written; the other two fields are zero in a header that was
/// read.
#[derive(Clone, Copy, Debug, PartialEq, Eq, Structural)]
pub struct FetchHeader {
    /// The fetch that the stream answers.
    pub subscribe_id: u64,
    pub track_alias: u64,
    pub publisher_priority: u8,
}

impl View for FetchHeader {
    type V = FetchHeader;

    open spec fn view(&self) -> FetchHeader {
        *self
    }
}

/// Reads a fetch header off the front of `s`.
pub open spec fn fetch_header_parse(s: Seq<u8>) -> Result<(FetchHeader, nat), DecodeError> {
    match u64::parse(s) {
        Err(e) => Err(e),
        Ok((subscribe_id, n)) => Ok(
            (FetchHeader { subscribe_id, track_alias: 0, publisher_priority: 0 }, n),
        ),
    }
}

impl Encode for FetchHeader {
    open spec fn wire(&self) -> Seq<u8> {
        self.subscribe_id.wire()
    }

    open spec fn encode_error(&self) -> Option<EncodeError> {
        self.subscribe_id.encode_error()
    }

    fn write(&self, out: &mut Vec<u8>) -> (r: Result<(), EncodeError>) {
        self.subscribe_id.write(out)
    }
}

impl Decode for FetchHeader {
    open spec fn parse(s: Seq<u8>) -> Result<(FetchHeader, nat), DecodeError> {
        fetch_header_parse(s)
    }

    fn read(data: &[u8], pos: usize) -> (r: Result<(Self, usize), DecodeError>) {
        let (subscribe_id, next) = u64::read(data, pos)?;
        Ok((FetchHeader { subscribe_id, track_alias: 0, publisher_priority: 0 }, next))
    }
}

/// A fetch header reads back with the number that was written and with the
/// two fields that are not written set to zero.
pub proof fn lemma_fetch_header_read_back(header: FetchHeader, rest: Seq<u8>)
    requires
        header.encode_error() is None,
    ensures
        fetch_header_parse(header.wire() + rest) == Ok::<(FetchHeader, nat), DecodeError>(
            (
                FetchHeader {
                    subscribe_id: header.subscribe_id,
                    track_alias: 0,
                    publisher_priority: 0,
                },
                header.wire().len(),
            ),
        ),
{
    header.subscribe_id.lemma_round_trip(rest);
}

impl RoundTrip for FetchHeader {
    open spec fn faithful(&self) -> bool {
        self.track_alias == 0 && self.publisher_priority == 0
    }

    proof fn lemma_round_trip(&self, rest: Seq<u8>) {
        lemma_fetch_header_read_back(*self, rest);
    }
}

/// Stands before each object on the stream that answers a fetch. The status
/// is written only where the size is zero; an object with a payload is an
/// ordinary object.
#[derive(Clone, Copy, Debug, PartialEq, Eq, Structural)]
pub struct FetchObject {
    pub group_id: u64,
    pub subgroup_id: u64,
    pub object_id: u64,
    pub publisher_priority: u8,
    /// The number of payload bytes that follow.
    pub size: u64,
    pub status: ObjectStatus,
}

impl View for FetchObject {
    type V = FetchObject;

    open spec fn view(&self) -> FetchObject {
        *self
    }
}

/// Reads the header of a fetched object off the front of `s`.
#[verifier::opaque]
pub open spec fn fetch_object_parse(s: Seq<u8>) -> Result<(FetchObject, nat), DecodeError> {
    match u64::parse(s) {
        Err(e) => Err(e),
        Ok((group_id, n0)) => match u64::parse(s.skip(n0 as int)) {
            Err(e) => Err(e),
            Ok((subgroup_id, n1)) => match u64::parse(s.skip((n0 + n1) as int)) {
                Err(e) => Err(e),
                Ok((object_id, n2)) => match u8::parse(s.skip((n0 + n1 + n2) as int)) {
                    Err(e) => Err(e),
                    Ok((publisher_priority, n3)) => match u64::parse(
                        s.skip((n0 + n1 + n2 + n3) as int),
                    ) {
                        Err(e) => Err(e),
                        Ok((size, n4)) => match status_parse(
                            s.skip((n0 + n1 + n2 + n3 + n4) as int),
                            size,
                        ) {
                            Err(e) => Err(e),
                            Ok((status, n5)) => Ok(
                                (
                                    FetchObject {
                                        group_id,
                                        subgroup_id,
                                        object_id,
                                        publisher_priority,
                                        size,
                                        status,
                                    },
                                    n0 + n1 + n2 + n3 + n4 + n5,
                                ),
                            ),
                        },
                    },
                },
            },
        },
    }
}

impl Encode for FetchObject {
    open spec fn wire(&self) -> Seq<u8> {
        self.group_id.wire() + self.subgroup_id.wire() + self.object_id.wire()
            + self.publisher_priority.wire() + self.size.wire() + status_wire(
            self.status,
            self.size,
        )
    }

    open spec fn encode_error(&self) -> Option<EncodeError> {
        if self.group_id.encode_error() is Some {
            self.group_id.encode_error()
        } else if self.subgroup_id.encode_error() is Some {
            self.subgroup_id.encode_error()
        } else if self.object_id.encode_error() is Some {
            self.object_id.encode_error()
        } else {
            self.size.encode_error()
        }
    }

    fn write(&self, out: &mut Vec<u8>) -> (r: Result<(), EncodeError>) {
        let mark: usize = out.len();
        self.group_id.write(out)?;
        match self.subgroup_id.write(out) {
            Ok(()) => {},
            Err(e) => {
                out.truncate(mark);
                return Err(e);
            },
        }
        match self.object_id.write(out) {
            Ok(()) => {},
            Err(e) => {
                out.truncate(mark);
                return Err(e);
            },
        }
        let _ = self.publisher_priority.write(out);
        match self.size.write(out) {
            Ok(()) => {},
            Err(e) => {
                out.truncate(mark);
                return Err(e);
            },
        }
        write_status(self.status, self.size, out);
        Ok(())
    }
}

impl Decode for FetchObject {
    open spec fn parse(s: Seq<u8>) -> Result<(FetchObject, nat), DecodeError> {
        fetch_object_parse(s)
    }

    #[verifier::rlimit(30)]
    fn read(data: &[u8], pos: usize) -> (r: Result<(Self, usize), DecodeError>) {
        reveal(fetch_object_parse);
        let (group_id, at1) = u64::read(data, pos)?;
        let (subgroup_id, at2) = read_field::<u64>(data, pos, at1)?;
        let (object_id, at3) = read_field::<u64>(data, pos, at2)?;
        let (publisher_priority, at4) = read_field::<u8>(data, pos, at3)?;
        let (size, at5) = read_field::<u64>(data, pos, at4)?;
        proof {
            crate::coding::bytestring::lemma_skip_twice(data@, pos as int, at5 - pos);
        }
        let (status, at6) = read_status(data, at5, size)?;
        Ok(
            (
                FetchObject { group_id, subgroup_id, object_id, publisher_priority, size, status },
                at6,
            ),
        )
    }
}

/// Fields that read one behind the other make up the record.
proof fn lemma_fetch_object_steps(
    s: Seq<u8>,
    v: FetchObject,
    n0: nat,
    n1: nat,
    n2: nat,
    n3: nat,
    n4: nat,
    n5: nat,
)
    requires
        u64::parse(s) == Ok::<(u64, nat), DecodeError>((v.group_id, n0)),
        u64::parse(s.skip(n0 as int)) == Ok::<(u64, nat), DecodeError>((v.subgroup_id, n1)),
        u64::parse(s.skip((n0 + n1) as int)) == Ok::<(u64, nat), DecodeError>((v.object_id, n2)),
        u8::parse(s.skip((n0 + n1 + n2) as int)) == Ok::<(u8, nat), DecodeError>(
            (v.publisher_priority, n3),
        ),
        u64::parse(s.skip((n0 + n1 + n2 + n3) as int)) == Ok::<(u64, nat), DecodeError>(
            (v.size, n4),
        ),
        status_parse(s.skip((n0 + n1 + n2 + n3 + n4) as int), v.size) == Ok::<
            (ObjectStatus, nat),
            DecodeError,
        >((v.status, n5)),
    ensures
        fetch_object_parse(s) == Ok::<(FetchObject, nat), DecodeError>(
            (v, n0 + n1 + n2 + n3 + n4 + n5),
        ),
{
    reveal(fetch_object_parse);
}

impl RoundTrip for FetchObject {
    /// An object with a payload is an ordinary object.
    open spec fn faithful(&self) -> bool {
        self.size == 0 || self.status == ObjectStatus::Object
    }

    proof fn lemma_round_trip(&self, rest: Seq<u8>) {
        let f0 = self.group_id.wire();
        let f1 = self.subgroup_id.wire();
        let f2 = self.object_id.wire();
        let f3 = self.publisher_priority.wire();
        let f4 = self.size.wire();
        let f5 = status_wire(self.status, self.size);
        let s = self.wire() + rest;
        let t5 = f5 + rest;
        let t4 = f4 + t5;
        let t3 = f3 + t4;
        let t2 = f2 + t3;
        let t1 = f1 + t2;
        assert(s == f0 + t1) by {
            lemma_concat_assoc(f0 + f1 + f2 + f3 + f4, f5, rest);
            lemma_concat_assoc(f0 + f1 + f2 + f3, f4, t5);
            lemma_concat_assoc(f0 + f1 + f2, f3, t4);
            lemma_concat_assoc(f0 + f1, f2, t3);
            lemma_concat_assoc(f0, f1, t2);
        }
        let n0 = f0.len() as int;
        let n1 = n0 + f1.len();
        let n2 = n1 + f2.len();
        let n3 = n2 + f3.len();
        let n4 = n3 + f4.len();
        assert(s.skip(0) == f0 + t1);
        lemma_skip_field(s, 0, f0, t1);
        lemma_skip_field(s, n0, f1, t2);
        lemma_skip_field(s, n1, f2, t3);
        lemma_skip_field(s, n2, f3, t4);
        lemma_skip_field(s, n3, f4, t5);
        assert(u64::parse(s) == Ok::<(u64, nat), DecodeError>((self.group_id, f0.len()))) by {
            self.group_id.lemma_round_trip(t1);
        }
        assert(u64::parse(s.skip(n0)) == Ok::<(u64, nat), DecodeError>(
            (self.subgroup_id, f1.len()),
        )) by {
            self.subgroup_id.lemma_round_trip(t2);
        }
        assert(u64::parse(s.skip(n1)) == Ok::<(u64, nat), DecodeError>(
            (self.object_id, f2.len()),
        )) by {
            self.object_id.lemma_round_trip(t3);
        }
        assert(u8::parse(s.skip(n2)) == Ok::<(u8, nat), DecodeError>(
            (self.publisher_priority, f3.len()),
        )) by {
            self.publisher_priority.lemma_round_trip(t4);
        }
        assert(u64::parse(s.skip(n3)) == Ok::<(u64, nat), DecodeError>((self.size, f4.len()))) by {
            self.size.lemma_round_trip(t5);
        }
        assert(status_parse(s.skip(n4), self.size) == Ok::<(ObjectStatus, nat), DecodeError>(
            (self.status, f5.len()),
        )) by {
            lemma_status_round_trip(self.status, self.size, rest);
        }
        lemma_fetch_object_steps(
            s,
            *self,
            f0.len(),
            f1.len(),
            f2.len(),
            f3.len(),
            f4.len(),
            f5.len(),
        );
    }
}

} // verus!
