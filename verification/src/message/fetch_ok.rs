//! The message that accepts a fetch.

use vstd::prelude::*;
use crate::coding::bytestring::{lemma_concat_assoc, lemma_skip_field};
use crate::coding::error::{DecodeError, EncodeError};
use crate::coding::params::Params;
use crate::message::group_order::GroupOrder;
use crate::coding::traits::{read_field, Decode, Encode, RoundTrip};

verus! {

/// Sent by the publisher to accept a fetch.
#[derive(Debug, PartialEq, Eq)]
pub struct FetchOk {
    /// The number of the fetch.
    pub id: u64,
    /// The order in which the groups will come.
    pub group_order: GroupOrder,
    /// 1 if the fetch reaches the end of the track, else 0.
    pub end_of_track: u8,
    /// The largest group that the track held when the fetch was accepted.
    pub largest_group_id: u64,
    /// The largest object in that group at that moment.
    pub largest_object_id: u64,
    pub params: Params,
}

/// What a fetch-ok message says.
pub struct FetchOkView {
    pub id: u64,
    pub group_order: GroupOrder,
    pub end_of_track: u8,
    pub largest_group_id: u64,
    pub largest_object_id: u64,
    pub params: Map<u64, Seq<u8>>,
}

impl View for FetchOk {
    type V = FetchOkView;

    open spec fn view(&self) -> FetchOkView {
        FetchOkView {
            id: self.id,
            group_order: self.group_order,
            end_of_track: self.end_of_track,
            largest_group_id: self.largest_group_id,
            largest_object_id: self.largest_object_id,
            params: self.params@,
        }
    }
}

impl Clone for FetchOk {
    fn clone(&self) -> (r: Self)
        ensures
            r@ == self@,
    {
        FetchOk {
            id: self.id,
            group_order: self.group_order,
            end_of_track: self.end_of_track,
            largest_group_id: self.largest_group_id,
            largest_object_id: self.largest_object_id,
            params: self.params.clone(),
        }
    }
}

/// Reads a fetch-ok message off the front of `s`.
#[verifier::opaque]
pub open spec fn fetch_ok_parse(s: Seq<u8>) -> Result<(FetchOkView, nat), DecodeError> {
    match u64::parse(s) {
        Err(e) => Err(e),
        Ok((id, n0)) => match GroupOrder::parse(s.skip(n0 as int)) {
            Err(e) => Err(e),
            Ok((group_order, n1)) => match u8::parse(s.skip((n0 + n1) as int)) {
                Err(e) => Err(e),
                Ok((end_of_track, n2)) => match u64::parse(s.skip((n0 + n1 + n2) as int)) {
                    Err(e) => Err(e),
                    Ok((largest_group_id, n3)) => match u64::parse(
                        s.skip((n0 + n1 + n2 + n3) as int),
                    ) {
                        Err(e) => Err(e),
                        Ok((largest_object_id, n4)) => match Params::parse(
                            s.skip((n0 + n1 + n2 + n3 + n4) as int),
                        ) {
                            Err(e) => Err(e),
                            Ok((params, n5)) => Ok(
                                (
                                    FetchOkView {
                                        id,
                                        group_order,
                                        end_of_track,
                                        largest_group_id,
                                        largest_object_id,
                                        params,
                                    },
                                    n0 + n1 + n2 + n3 + n4 + n5,
                                ),
                            ),
                        },
                    },
                },
            },
        },
    }
}

impl Encode for FetchOk {
    open spec fn wire(&self) -> Seq<u8> {
        self.id.wire() + self.group_order.wire() + self.end_of_track.wire()
            + self.largest_group_id.wire() + self.largest_object_id.wire() + self.params.wire()
    }

    open spec fn encode_error(&self) -> Option<EncodeError> {
        if self.id.encode_error() is Some {
            self.id.encode_error()
        } else if self.group_order.encode_error() is Some {
            self.group_order.encode_error()
        } else if self.end_of_track.encode_error() is Some {
            self.end_of_track.encode_error()
        } else if self.largest_group_id.encode_error() is Some {
            self.largest_group_id.encode_error()
        } else if self.largest_object_id.encode_error() is Some {
            self.largest_object_id.encode_error()
        } else {
            self.params.encode_error()
        }
    }

    fn write(&self, out: &mut Vec<u8>) -> (r: Result<(), EncodeError>) {
        let mark: usize = out.len();
        self.id.write(out)?;
        match self.group_order.write(out) {
            Ok(()) => {},
            Err(e) => {
                out.truncate(mark);
                return Err(e);
            },
        }
        match self.end_of_track.write(out) {
            Ok(()) => {},
            Err(e) => {
                out.truncate(mark);
                return Err(e);
            },
        }
        match self.largest_group_id.write(out) {
            Ok(()) => {},
            Err(e) => {
                out.truncate(mark);
                return Err(e);
            },
        }
        match self.largest_object_id.write(out) {
            Ok(()) => {},
            Err(e) => {
                out.truncate(mark);
                return Err(e);
            },
        }
        match self.params.write(out) {
            Ok(()) => {},
            Err(e) => {
                out.truncate(mark);
                return Err(e);
            },
        }
        Ok(())
    }
}

impl Decode for FetchOk {
    open spec fn parse(s: Seq<u8>) -> Result<(FetchOkView, nat), DecodeError> {
        fetch_ok_parse(s)
    }

    fn read(data: &[u8], pos: usize) -> (r: Result<(Self, usize), DecodeError>) {
        reveal(fetch_ok_parse);
        let (id, at1) = u64::read(data, pos)?;
        let (group_order, at2) = read_field::<GroupOrder>(data, pos, at1)?;
        let (end_of_track, at3) = read_field::<u8>(data, pos, at2)?;
        let (largest_group_id, at4) = read_field::<u64>(data, pos, at3)?;
        let (largest_object_id, at5) = read_field::<u64>(data, pos, at4)?;
        let (params, at6) = read_field::<Params>(data, pos, at5)?;
        Ok(
            (
                FetchOk {
                    id,
                    group_order,
                    end_of_track,
                    largest_group_id,
                    largest_object_id,
                    params,
                },
                at6,
            ),
        )
    }
}

/// Fields that read one behind the other make up the record.
proof fn lemma_fetch_ok_steps(
    s: Seq<u8>,
    v: FetchOkView,
    n0: nat,
    n1: nat,
    n2: nat,
    n3: nat,
    n4: nat,
    n5: nat,
)
    requires
        u64::parse(s) == Ok::<(u64, nat), DecodeError>((v.id, n0)),
        GroupOrder::parse(s.skip(n0 as int)) == Ok::<(GroupOrder, nat), DecodeError>(
            (v.group_order, n1),
        ),
        u8::parse(s.skip((n0 + n1) as int)) == Ok::<(u8, nat), DecodeError>((v.end_of_track, n2)),
        u64::parse(s.skip((n0 + n1 + n2) as int)) == Ok::<(u64, nat), DecodeError>(
            (v.largest_group_id, n3),
        ),
        u64::parse(s.skip((n0 + n1 + n2 + n3) as int)) == Ok::<(u64, nat), DecodeError>(
            (v.largest_object_id, n4),
        ),
        Params::parse(s.skip((n0 + n1 + n2 + n3 + n4) as int)) == Ok::<
            (Map<u64, Seq<u8>>, nat),
            DecodeError,
        >((v.params, n5)),
    ensures
        fetch_ok_parse(s) == Ok::<(FetchOkView, nat), DecodeError>(
            (v, n0 + n1 + n2 + n3 + n4 + n5),
        ),
{
    reveal(fetch_ok_parse);
}

impl RoundTrip for FetchOk {
    open spec fn faithful(&self) -> bool {
        self.params.faithful()
    }

    proof fn lemma_round_trip(&self, rest: Seq<u8>) {
        let f0 = self.id.wire();
        let f1 = self.group_order.wire();
        let f2 = self.end_of_track.wire();
        let f3 = self.largest_group_id.wire();
        let f4 = self.largest_object_id.wire();
        let f5 = self.params.wire();
        let s = self.wire() + rest;
        let t5 = f5 + rest;
        let t4 = f4 + t5;
        let t3 = f3 + t4;
        let t2 = f2 + t3;
        let t1 = f1 + t2;
        assert(s == f0 + t1) by {
            lemma_concat_assoc(f0 + f1 + f2 + f3 + f4, f5, rest);
            lemma_concat_assoc(f0 + f1 + f2 + f3, f4, t5);
            lemma_concat_assoc(f0 + f1 + f2, f3, t4);
            lemma_concat_assoc(f0 + f1, f2, t3);
            lemma_concat_assoc(f0, f1, t2);
        }
        let n0 = f0.len() as int;
        let n1 = n0 + f1.len();
        let n2 = n1 + f2.len();
        let n3 = n2 + f3.len();
        let n4 = n3 + f4.len();
        assert(s.skip(0) == f0 + t1);
        lemma_skip_field(s, 0, f0, t1);
        lemma_skip_field(s, n0, f1, t2);
        lemma_skip_field(s, n1, f2, t3);
        lemma_skip_field(s, n2, f3, t4);
        lemma_skip_field(s, n3, f4, t5);
        assert(u64::parse(s) == Ok::<(u64, nat), DecodeError>((self.id, f0.len()))) by {
            self.id.lemma_round_trip(t1);
        }
        assert(GroupOrder::parse(s.skip(n0)) == Ok::<(GroupOrder, nat), DecodeError>(
            (self.group_order, f1.len()),
        )) by {
            self.group_order.lemma_round_trip(t2);
        }
        assert(u8::parse(s.skip(n1)) == Ok::<(u8, nat), DecodeError>(
            (self.end_of_track, f2.len()),
        )) by {
            self.end_of_track.lemma_round_trip(t3);
        }
        assert(u64::parse(s.skip(n2)) == Ok::<(u64, nat), DecodeError>(
            (self.largest_group_id, f3.len()),
        )) by {
            self.largest_group_id.lemma_round_trip(t4);
        }
        assert(u64::parse(s.skip(n3)) == Ok::<(u64, nat), DecodeError>(
            (self.largest_object_id, f4.len()),
        )) by {
            self.largest_object_id.lemma_round_trip(t5);
        }
        assert(Params::parse(s.skip(n4)) == Ok::<(Map<u64, Seq<u8>>, nat), DecodeError>(
            (self.params@, f5.len()),
        )) by {
            self.params.lemma_round_trip(rest);
        }
        lemma_fetch_ok_steps(s, self@, f0.len(), f1.len(), f2.len(), f3.len(), f4.len(), f5.len());
    }
}

} // verus!
