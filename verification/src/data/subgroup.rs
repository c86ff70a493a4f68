//! The stream that carries one subgroup: its header, and the header of each
//! object on it.

use vstd::prelude::*;
use crate::coding::bytestring::{lemma_concat_assoc, lemma_skip_field, lemma_skip_twice};
use crate::coding::error::{DecodeError, EncodeError};
use crate::coding::traits::{read_field, Decode, Encode, RoundTrip};
use crate::data::object::{
    lemma_status_round_trip, read_status, status_parse, status_wire, write_status, ObjectStatus,
};

verus! {

/// Opens a stream that carries one subgroup, object after object.
#[derive(Clone, Copy, Debug, PartialEq, Eq, Structural)]
pub struct SubgroupHeader {
    /// The subscription that the stream answers.
    pub subscribe_id: u64,
    pub track_alias: u64,
    pub group_id: u64,
    pub subgroup_id: u64,
    pub publisher_priority: u8,
}

impl View for SubgroupHeader {
    type V = SubgroupHeader;

    open spec fn view(&self) -> SubgroupHeader {
        *self
    }
}

/// Reads a subgroup header off the front of `s`.
#[verifier::opaque]
pub open spec fn subgroup_header_parse(s: Seq<u8>) -> Result<(SubgroupHeader, nat), DecodeError> {
    match u64::parse(s) {
        Err(e) => Err(e),
        Ok((subscribe_id, n0)) => match u64::parse(s.skip(n0 as int)) {
            Err(e) => Err(e),
            Ok((track_alias, n1)) => match u64::parse(s.skip((n0 + n1) as int)) {
                Err(e) => Err(e),
                Ok((group_id, n2)) => match u64::parse(s.skip((n0 + n1 + n2) as int)) {
                    Err(e) => Err(e),
                    Ok((subgroup_id, n3)) => match u8::parse(s.skip((n0 + n1 + n2 + n3) as int)) {
                        Err(e) => Err(e),
                        Ok((publisher_priority, n4)) => Ok(
                            (
                                SubgroupHeader {
                                    subscribe_id,
                                    track_alias,
                                    group_id,
                                    subgroup_id,
                                    publisher_priority,
                                },
                                n0 + n1 + n2 + n3 + n4,
                            ),
                        ),
                    },
                },
            },
        },
    }
}

impl Encode for SubgroupHeader {
    open spec fn wire(&self) -> Seq<u8> {
        self.subscribe_id.wire() + self.track_alias.wire() + self.group_id.wire()
            + self.subgroup_id.wire() + self.publisher_priority.wire()
    }

    open spec fn encode_error(&self) -> Option<EncodeError> {
        if self.subscribe_id.encode_error() is Some {
            self.subscribe_id.encode_error()
        } else if self.track_alias.encode_error() is Some {
            self.track_alias.encode_error()
        } else if self.group_id.encode_error() is Some {
            self.group_id.encode_error()
        } else if self.subgroup_id.encode_error() is Some {
            self.subgroup_id.encode_error()
        } else {
            self.publisher_priority.encode_error()
        }
    }

    fn write(&self, out: &mut Vec<u8>) -> (r: Result<(), EncodeError>) {
        let mark: usize = out.len();
        self.subscribe_id.write(out)?;
        match self.track_alias.write(out) {
            Ok(()) => {},
            Err(e) => {
                out.truncate(mark);
                return Err(e);
            },
        }
        match self.group_id.write(out) {
            Ok(()) => {},
            Err(e) => {
                out.truncate(mark);
                return Err(e);
            },
        }
        match self.subgroup_id.write(out) {
            Ok(()) => {},
            Err(e) => {
                out.truncate(mark);
                return Err(e);
            },
        }
        match self.publisher_priority.write(out) {
            Ok(()) => {},
            Err(e) => {
                out.truncate(mark);
                return Err(e);
            },
        }
        Ok(())
    }
}

impl Decode for SubgroupHeader {
    open spec fn parse(s: Seq<u8>) -> Result<(SubgroupHeader, nat), DecodeError> {
        subgroup_header_parse(s)
    }

    fn read(data: &[u8], pos: usize) -> (r: Result<(Self, usize), DecodeError>) {
        reveal(subgroup_header_parse);
        let (subscribe_id, at1) = u64::read(data, pos)?;
        let (track_alias, at2) = read_field::<u64>(data, pos, at1)?;
        let (group_id, at3) = read_field::<u64>(data, pos, at2)?;
        let (subgroup_id, at4) = read_field::<u64>(data, pos, at3)?;
        let (publisher_priority, at5) = read_field::<u8>(data, pos, at4)?;
        Ok(
            (
                SubgroupHeader {
                    subscribe_id,
                    track_alias,
                    group_id,
                    subgroup_id,
                    publisher_priority,
                },
                at5,
            ),
        )
    }
}

/// Fields that read one behind the other make up the record.
proof fn lemma_subgroup_header_steps(
    s: Seq<u8>,
    v: SubgroupHeader,
    n0: nat,
    n1: nat,
    n2: nat,
    n3: nat,
    n4: nat,
)
    requires
        u64::parse(s) == Ok::<(u64, nat), DecodeError>((v.subscribe_id, n0)),
        u64::parse(s.skip(n0 as int)) == Ok::<(u64, nat), DecodeError>((v.track_alias, n1)),
        u64::parse(s.skip((n0 + n1) as int)) == Ok::<(u64, nat), DecodeError>((v.group_id, n2)),
        u64::parse(s.skip((n0 + n1 + n2) as int)) == Ok::<(u64, nat), DecodeError>(
            (v.subgroup_id, n3),
        ),
        u8::parse(s.skip((n0 + n1 + n2 + n3) as int)) == Ok::<(u8, nat), DecodeError>(
            (v.publisher_priority, n4),
        ),
    ensures
        subgroup_header_parse(s) == Ok::<(SubgroupHeader, nat), DecodeError>(
            (v, n0 + n1 + n2 + n3 + n4),
        ),
{
    reveal(subgroup_header_parse);
}

impl RoundTrip for SubgroupHeader {
    open spec fn faithful(&self) -> bool {
        true
    }

    proof fn lemma_round_trip(&self, rest: Seq<u8>) {
        let f0 = self.subscribe_id.wire();
        let f1 = self.track_alias.wire();
        let f2 = self.group_id.wire();
        let f3 = self.subgroup_id.wire();
        let f4 = self.publisher_priority.wire();
        let s = self.wire() + rest;
        let t4 = f4 + rest;
        let t3 = f3 + t4;
        let t2 = f2 + t3;
        let t1 = f1 + t2;
        assert(s == f0 + t1) by {
            lemma_concat_assoc(f0 + f1 + f2 + f3, f4, rest);
            lemma_concat_assoc(f0 + f1 + f2, f3, t4);
            lemma_concat_assoc(f0 + f1, f2, t3);
            lemma_concat_assoc(f0, f1, t2);
        }
        let n0 = f0.len() as int;
        let n1 = n0 + f1.len();
        let n2 = n1 + f2.len();
        let n3 = n2 + f3.len();
        assert(s.skip(0) == f0 + t1);
        lemma_skip_field(s, 0, f0, t1);
        lemma_skip_field(s, n0, f1, t2);
        lemma_skip_field(s, n1, f2, t3);
        lemma_skip_field(s, n2, f3, t4);
        assert(u64::parse(s) == Ok::<(u64, nat), DecodeError>((self.subscribe_id, f0.len()))) by {
            self.subscribe_id.lemma_round_trip(t1);
        }
        assert(u64::parse(s.skip(n0)) == Ok::<(u64, nat), DecodeError>(
            (self.track_alias, f1.len()),
        )) by {
            self.track_alias.lemma_round_trip(t2);
        }
        assert(u64::parse(s.skip(n1)) == Ok::<(u64, nat), DecodeError>(
            (self.group_id, f2.len()),
        )) by {
            self.group_id.lemma_round_trip(t3);
        }
        assert(u64::parse(s.skip(n2)) == Ok::<(u64, nat), DecodeError>(
            (self.subgroup_id, f3.len()),
        )) by {
            self.subgroup_id.lemma_round_trip(t4);
        }
        assert(u8::parse(s.skip(n3)) == Ok::<(u8, nat), DecodeError>(
            (self.publisher_priority, f4.len()),
        )) by {
            self.publisher_priority.lemma_round_trip(rest);
        }
        lemma_subgroup_header_steps(s, self@, f0.len(), f1.len(), f2.len(), f3.len(), f4.len());
    }
}

/// Stands before each object on a stream that carries one subgroup. The
/// status is written only where the size is zero.
#[derive(Clone, Copy, Debug, PartialEq, Eq, Structural)]
pub struct SubgroupObject {
    pub object_id: u64,
    /// The number of payload bytes that follow.
    pub size: u64,
    pub status: ObjectStatus,
}

impl View for SubgroupObject {
    type V = SubgroupObject;

    open spec fn view(&self) -> SubgroupObject {
        *self
    }
}

/// Reads the header of an object of a subgroup stream off the front of `s`.
#[verifier::opaque]
pub open spec fn subgroup_object_parse(s: Seq<u8>) -> Result<(SubgroupObject, nat), DecodeError> {
    match u64::parse(s) {
        Err(e) => Err(e),
        Ok((object_id, n0)) => match u64::parse(s.skip(n0 as int)) {
            Err(e) => Err(e),
            Ok((size, n1)) => match status_parse(s.skip((n0 + n1) as int), size) {
                Err(e) => Err(e),
                Ok((status, n2)) => Ok(
                    (SubgroupObject { object_id, size, status }, n0 + n1 + n2),
                ),
            },
        },
    }
}

impl Encode for SubgroupObject {
    open spec fn wire(&self) -> Seq<u8> {
        self.object_id.wire() + self.size.wire() + status_wire(self.status, self.size)
    }

    open spec fn encode_error(&self) -> Option<EncodeError> {
        if self.object_id.encode_error() is Some {
            self.object_id.encode_error()
        } else {
            self.size.encode_error()
        }
    }

    fn write(&self, out: &mut Vec<u8>) -> (r: Result<(), EncodeError>) {
        let mark: usize = out.len();
        self.object_id.write(out)?;
        match self.size.write(out) {
            Ok(()) => {},
            Err(e) => {
                out.truncate(mark);
                return Err(e);
            },
        }
        write_status(self.status, self.size, out);
        Ok(())
    }
}

impl Decode for SubgroupObject {
    open spec fn parse(s: Seq<u8>) -> Result<(SubgroupObject, nat), DecodeError> {
        subgroup_object_parse(s)
    }

    fn read(data: &[u8], pos: usize) -> (r: Result<(Self, usize), DecodeError>) {
        reveal(subgroup_object_parse);
        let (object_id, at1) = u64::read(data, pos)?;
        let (size, at2) = read_field::<u64>(data, pos, at1)?;
        proof {
            lemma_skip_twice(data@, pos as int, at2 - pos);
        }
        let (status, at3) = read_status(data, at2, size)?;
        Ok((SubgroupObject { object_id, size, status }, at3))
    }
}

/// Fields that read one behind the other make up the record.
proof fn lemma_subgroup_object_steps(
    s: Seq<u8>,
    v: SubgroupObject,
    n0: nat,
    n1: nat,
    n2: nat,
)
    requires
        u64::parse(s) == Ok::<(u64, nat), DecodeError>((v.object_id, n0)),
        u64::parse(s.skip(n0 as int)) == Ok::<(u64, nat), DecodeError>((v.size, n1)),
        status_parse(s.skip((n0 + n1) as int), v.size) == Ok::<(ObjectStatus, nat), DecodeError>(
            (v.status, n2),
        ),
    ensures
        subgroup_object_parse(s) == Ok::<(SubgroupObject, nat), DecodeError>((v, n0 + n1 + n2)),
{
    reveal(subgroup_object_parse);
}

impl RoundTrip for SubgroupObject {
    /// An object with a payload is an ordinary object.
    open spec fn faithful(&self) -> bool {
        self.size == 0 || self.status == ObjectStatus::Object
    }

    proof fn lemma_round_trip(&self, rest: Seq<u8>) {
        let f0 = self.object_id.wire();
        let f1 = self.size.wire();
        let f2 = status_wire(self.status, self.size);
        let s = self.wire() + rest;
        let t2 = f2 + rest;
        let t1 = f1 + t2;
        assert(s == f0 + t1) by {
            lemma_concat_assoc(f0 + f1, f2, rest);
            lemma_concat_assoc(f0, f1, t2);
        }
        let n0 = f0.len() as int;
        let n1 = n0 + f1.len();
        assert(s.skip(0) == f0 + t1);
        lemma_skip_field(s, 0, f0, t1);
        lemma_skip_field(s, n0, f1, t2);
        assert(u64::parse(s) == Ok::<(u64, nat), DecodeError>((self.object_id, f0.len()))) by {
            self.object_id.lemma_round_trip(t1);
        }
        assert(u64::parse(s.skip(n0)) == Ok::<(u64, nat), DecodeError>((self.size, f1.len()))) by {
            self.size.lemma_round_trip(t2);
        }
        assert(status_parse(s.skip(n1), self.size) == Ok::<(ObjectStatus, nat), DecodeError>(
            (self.status, f2.len()),
        )) by {
            lemma_status_round_trip(self.status, self.size, rest);
        }
        lemma_subgroup_object_steps(s, *self, f0.len(), f1.len(), f2.len());
    }
}
} // verus!
