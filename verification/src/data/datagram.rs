//! Datagrams: one object each, with everything that names it.

use vstd::prelude::*;
use crate::coding::bytestring::{lemma_concat_assoc, lemma_skip_field, lemma_skip_prefix};
use crate::coding::error::{DecodeError, EncodeError};
use crate::data::object::ObjectStatus;
use crate::coding::traits::{read_field, Decode, Encode, RoundTrip};
use crate::coding::varint::{lemma_varint_lengths, lemma_varint_round_trip, varint_wire};

verus! {

/// One object of a track that is sent as datagrams, with its payload.
#[derive(Debug, PartialEq, Eq)]
pub struct Datagram {
    /// The subscription that the datagram answers.
    pub subscribe_id: u64,
    pub track_alias: u64,
    pub group_id: u64,
    pub object_id: u64,
    pub publisher_priority: u8,
    pub object_status: ObjectStatus,
    /// The payload, which is written behind its length.
    pub payload: Vec<u8>,
}

/// What a datagram says.
pub struct DatagramView {
    pub subscribe_id: u64,
    pub track_alias: u64,
    pub group_id: u64,
    pub object_id: u64,
    pub publisher_priority: u8,
    pub object_status: ObjectStatus,
    pub payload: Seq<u8>,
}

impl View for Datagram {
    type V = DatagramView;

    open spec fn view(&self) -> DatagramView {
        DatagramView {
            subscribe_id: self.subscribe_id,
            track_alias: self.track_alias,
            group_id: self.group_id,
            object_id: self.object_id,
            publisher_priority: self.publisher_priority,
            object_status: self.object_status,
            payload: self.payload@,
        }
    }
}

impl Clone for Datagram {
    fn clone(&self) -> (r: Self)
        ensures
            r@ == self@,
    {
        Datagram {
            subscribe_id: self.subscribe_id,
            track_alias: self.track_alias,
            group_id: self.group_id,
            object_id: self.object_id,
            publisher_priority: self.publisher_priority,
            object_status: self.object_status,
            payload: self.payload.clone(),
        }
    }
}

/// Reads the fields of a datagram off the front of `s`, behind its type.
#[verifier::opaque]
pub open spec fn datagram_parse(s: Seq<u8>) -> Result<(DatagramView, nat), DecodeError> {
    match u64::parse(s) {
        Err(e) => Err(e),
        Ok((subscribe_id, n0)) => match u64::parse(s.skip(n0 as int)) {
            Err(e) => Err(e),
            Ok((track_alias, n1)) => match u64::parse(s.skip((n0 + n1) as int)) {
                Err(e) => Err(e),
                Ok((group_id, n2)) => match u64::parse(s.skip((n0 + n1 + n2) as int)) {
                    Err(e) => Err(e),
                    Ok((object_id, n3)) => match u8::parse(s.skip((n0 + n1 + n2 + n3) as int)) {
                        Err(e) => Err(e),
                        Ok((publisher_priority, n4)) => match ObjectStatus::parse(
                            s.skip((n0 + n1 + n2 + n3 + n4) as int),
                        ) {
                            Err(e) => Err(e),
                            Ok((object_status, n5)) => match Vec::<u8>::parse(
                                s.skip((n0 + n1 + n2 + n3 + n4 + n5) as int),
                            ) {
                                Err(e) => Err(e),
                                Ok((payload, n6)) => Ok(
                                    (
                                        DatagramView {
                                            subscribe_id,
                                            track_alias,
                                            group_id,
                                            object_id,
                                            publisher_priority,
                                            object_status,
                                            payload,
                                        },
                                        n0 + n1 + n2 + n3 + n4 + n5 + n6,
                                    ),
                                ),
                            },
                        },
                    },
                },
            },
        },
    }
}

impl Encode for Datagram {
    open spec fn wire(&self) -> Seq<u8> {
        self.subscribe_id.wire() + self.track_alias.wire() + self.group_id.wire()
            + self.object_id.wire() + self.publisher_priority.wire() + self.object_status.wire()
            + self.payload.wire()
    }

    open spec fn encode_error(&self) -> Option<EncodeError> {
        if self.subscribe_id.encode_error() is Some {
            self.subscribe_id.encode_error()
        } else if self.track_alias.encode_error() is Some {
            self.track_alias.encode_error()
        } else if self.group_id.encode_error() is Some {
            self.group_id.encode_error()
        } else if self.object_id.encode_error() is Some {
            self.object_id.encode_error()
        } else if self.publisher_priority.encode_error() is Some {
            self.publisher_priority.encode_error()
        } else if self.object_status.encode_error() is Some {
            self.object_status.encode_error()
        } else {
            self.payload.encode_error()
        }
    }

    fn write(&self, out: &mut Vec<u8>) -> (r: Result<(), EncodeError>) {
        let mark: usize = out.len();
        self.subscribe_id.write(out)?;
        match self.track_alias.write(out) {
            Ok(()) => {},
            Err(e) => {
                out.truncate(mark);
                return Err(e);
            },
        }
        match self.group_id.write(out) {
            Ok(()) => {},
            Err(e) => {
                out.truncate(mark);
                return Err(e);
            },
        }
        match self.object_id.write(out) {
            Ok(()) => {},
            Err(e) => {
                out.truncate(mark);
                return Err(e);
            },
        }
        match self.publisher_priority.write(out) {
            Ok(()) => {},
            Err(e) => {
                out.truncate(mark);
                return Err(e);
            },
        }
        match self.object_status.write(out) {
            Ok(()) => {},
            Err(e) => {
                out.truncate(mark);
                return Err(e);
            },
        }
        match self.payload.write(out) {
            Ok(()) => {},
            Err(e) => {
                out.truncate(mark);
                return Err(e);
            },
        }
        Ok(())
    }
}

impl Decode for Datagram {
    open spec fn parse(s: Seq<u8>) -> Result<(DatagramView, nat), DecodeError> {
        datagram_parse(s)
    }

    fn read(data: &[u8], pos: usize) -> (r: Result<(Self, usize), DecodeError>) {
        reveal(datagram_parse);
        let (subscribe_id, at1) = u64::read(data, pos)?;
        let (track_alias, at2) = read_field::<u64>(data, pos, at1)?;
        let (group_id, at3) = read_field::<u64>(data, pos, at2)?;
        let (object_id, at4) = read_field::<u64>(data, pos, at3)?;
        let (publisher_priority, at5) = read_field::<u8>(data, pos, at4)?;
        let (object_status, at6) = read_field::<ObjectStatus>(data, pos, at5)?;
        let (payload, at7) = read_field::<Vec<u8>>(data, pos, at6)?;
        Ok(
            (
                Datagram {
                    subscribe_id,
                    track_alias,
                    group_id,
                    object_id,
                    publisher_priority,
                    object_status,
                    payload,
                },
                at7,
            ),
        )
    }
}

/// Fields that read one behind the other make up the record.
proof fn lemma_datagram_steps(
    s: Seq<u8>,
    v: DatagramView,
    n0: nat,
    n1: nat,
    n2: nat,
    n3: nat,
    n4: nat,
    n5: nat,
    n6: nat,
)
    requires
        u64::parse(s) == Ok::<(u64, nat), DecodeError>((v.subscribe_id, n0)),
        u64::parse(s.skip(n0 as int)) == Ok::<(u64, nat), DecodeError>((v.track_alias, n1)),
        u64::parse(s.skip((n0 + n1) as int)) == Ok::<(u64, nat), DecodeError>((v.group_id, n2)),
        u64::parse(s.skip((n0 + n1 + n2) as int)) == Ok::<(u64, nat), DecodeError>(
            (v.object_id, n3),
        ),
        u8::parse(s.skip((n0 + n1 + n2 + n3) as int)) == Ok::<(u8, nat), DecodeError>(
            (v.publisher_priority, n4),
        ),
        ObjectStatus::parse(s.skip((n0 + n1 + n2 + n3 + n4) as int)) == Ok::<
            (ObjectStatus, nat),
            DecodeError,
        >((v.object_status, n5)),
        Vec::<u8>::parse(s.skip((n0 + n1 + n2 + n3 + n4 + n5) as int)) == Ok::<
            (Seq<u8>, nat),
            DecodeError,
        >((v.payload, n6)),
    ensures
        datagram_parse(s) == Ok::<(DatagramView, nat), DecodeError>(
            (v, n0 + n1 + n2 + n3 + n4 + n5 + n6),
        ),
{
    reveal(datagram_parse);
}

impl RoundTrip for Datagram {
    open spec fn faithful(&self) -> bool {
        self.payload.faithful()
    }

    proof fn lemma_round_trip(&self, rest: Seq<u8>) {
        let f0 = self.subscribe_id.wire();
        let f1 = self.track_alias.wire();
        let f2 = self.group_id.wire();
        let f3 = self.object_id.wire();
        let f4 = self.publisher_priority.wire();
        let f5 = self.object_status.wire();
        let f6 = self.payload.wire();
        let s = self.wire() + rest;
        let t6 = f6 + rest;
        let t5 = f5 + t6;
        let t4 = f4 + t5;
        let t3 = f3 + t4;
        let t2 = f2 + t3;
        let t1 = f1 + t2;
        assert(s == f0 + t1) by {
            lemma_concat_assoc(f0 + f1 + f2 + f3 + f4 + f5, f6, rest);
            lemma_concat_assoc(f0 + f1 + f2 + f3 + f4, f5, t6);
            lemma_concat_assoc(f0 + f1 + f2 + f3, f4, t5);
            lemma_concat_assoc(f0 + f1 + f2, f3, t4);
            lemma_concat_assoc(f0 + f1, f2, t3);
            lemma_concat_assoc(f0, f1, t2);
        }
        let n0 = f0.len() as int;
        let n1 = n0 + f1.len();
        let n2 = n1 + f2.len();
        let n3 = n2 + f3.len();
        let n4 = n3 + f4.len();
        let n5 = n4 + f5.len();
        assert(s.skip(0) == f0 + t1);
        lemma_skip_field(s, 0, f0, t1);
        lemma_skip_field(s, n0, f1, t2);
        lemma_skip_field(s, n1, f2, t3);
        lemma_skip_field(s, n2, f3, t4);
        lemma_skip_field(s, n3, f4, t5);
        lemma_skip_field(s, n4, f5, t6);
        assert(u64::parse(s) == Ok::<(u64, nat), DecodeError>((self.subscribe_id, f0.len()))) by {
            self.subscribe_id.lemma_round_trip(t1);
        }
        assert(u64::parse(s.skip(n0)) == Ok::<(u64, nat), DecodeError>(
            (self.track_alias, f1.len()),
        )) by {
            self.track_alias.lemma_round_trip(t2);
        }
        assert(u64::parse(s.skip(n1)) == Ok::<(u64, nat), DecodeError>(
            (self.group_id, f2.len()),
        )) by {
            self.group_id.lemma_round_trip(t3);
        }
        assert(u64::parse(s.skip(n2)) == Ok::<(u64, nat), DecodeError>(
            (self.object_id, f3.len()),
        )) by {
            self.object_id.lemma_round_trip(t4);
        }
        assert(u8::parse(s.skip(n3)) == Ok::<(u8, nat), DecodeError>(
            (self.publisher_priority, f4.len()),
        )) by {
            self.publisher_priority.lemma_round_trip(t5);
        }
        assert(ObjectStatus::parse(s.skip(n4)) == Ok::<(ObjectStatus, nat), DecodeError>(
            (self.object_status, f5.len()),
        )) by {
            self.object_status.lemma_round_trip(t6);
        }
        assert(Vec::<u8>::parse(s.skip(n5)) == Ok::<(Seq<u8>, nat), DecodeError>(
            (self.payload@, f6.len()),
        )) by {
            self.payload.lemma_round_trip(rest);
        }
        lemma_datagram_steps(
            s,
            self@,
            f0.len(),
            f1.len(),
            f2.len(),
            f3.len(),
            f4.len(),
            f5.len(),
            f6.len(),
        );
    }
}

/// The type that a datagram begins with.
pub const DATAGRAM: u64 = 0x2;

/// A datagram as it is sent: its type, then its fields.
pub open spec fn datagram_frame(datagram: &Datagram) -> Seq<u8> {
    varint_wire(DATAGRAM) + datagram.wire()
}

/// Reads a datagram as it was sent off the front of `s`.
pub open spec fn datagram_frame_parse(s: Seq<u8>) -> Result<(DatagramView, nat), DecodeError> {
    match u64::parse(s) {
        Err(e) => Err(e),
        Ok((kind, n0)) => if kind != DATAGRAM {
            Err(DecodeError::InvalidMessage(kind))
        } else {
            match datagram_parse(s.skip(n0 as int)) {
                Err(e) => Err(e),
                Ok((datagram, n1)) => Ok((datagram, n0 + n1)),
            }
        },
    }
}

/// Appends a datagram as it is sent, or leaves `out` as it was.
pub fn write_datagram(datagram: &Datagram, out: &mut Vec<u8>) -> (r: Result<(), EncodeError>)
    ensures
        match r {
            Ok(()) => datagram.encode_error() is None && final(out)@ == old(out)@
                + datagram_frame(datagram),
            Err(e) => datagram.encode_error() == Some(e) && final(out)@ == old(out)@,
        },
{
    let mark: usize = out.len();
    let _ = DATAGRAM.write(out);
    match datagram.write(out) {
        Ok(()) => {
            Ok(())
        },
        Err(e) => {
            out.truncate(mark);
            Err(e)
        },
    }
}

/// Reads a datagram as it was sent from `data` at `pos`.
pub fn read_datagram(data: &[u8], pos: usize) -> (r: Result<(Datagram, usize), DecodeError>)
    requires
        pos <= data@.len(),
    ensures
        match datagram_frame_parse(data@.skip(pos as int)) {
            Ok((value, len)) => r matches Ok((v, next)) && v@ == value && next == pos + len && next
                <= data@.len(),
            Err(e) => r matches Err(got) && got == e,
        },
{
    let (kind, at1) = u64::read(data, pos)?;
    if kind != DATAGRAM {
        return Err(DecodeError::InvalidMessage(kind));
    }
    read_field::<Datagram>(data, pos, at1)
}

/// A datagram reads back as it was sent.
pub proof fn lemma_datagram_frame_round_trip(datagram: &Datagram, rest: Seq<u8>)
    requires
        datagram.encode_error() is None,
        datagram.faithful(),
    ensures
        datagram_frame_parse(datagram_frame(datagram) + rest) == Ok::<
            (DatagramView, nat),
            DecodeError,
        >((datagram@, datagram_frame(datagram).len())),
{
    let s = datagram_frame(datagram) + rest;
    lemma_varint_lengths(DATAGRAM);
    assert(s =~= varint_wire(DATAGRAM) + (datagram.wire() + rest));
    lemma_varint_round_trip(DATAGRAM, datagram.wire() + rest);
    lemma_skip_prefix(varint_wire(DATAGRAM), datagram.wire() + rest);
    datagram.lemma_round_trip(rest);
}

} // verus!
