//! The message that asks for a bounded range of a track.

use vstd::prelude::*;
use crate::coding::bytestring::{lemma_concat_assoc, lemma_skip_field};
use crate::coding::error::{DecodeError, EncodeError};
use crate::coding::params::Params;
use crate::coding::tuple::Tuple;
use crate::message::group_order::GroupOrder;
use crate::coding::traits::{read_field, Decode, Encode, RoundTrip};

verus! {

/// Sent by the subscriber to ask for a bounded range of a track.
#[derive(Debug, PartialEq, Eq)]
pub struct Fetch {
    /// The number of the fetch.
    pub id: u64,
    pub track_namespace: Tuple,
    pub track_name: String,
    pub subscriber_priority: u8,
    pub group_order: GroupOrder,
    /// The first group of the range.
    pub start_group: u64,
    /// The first object of the range, in the first group.
    pub start_object: u64,
    /// The last group of the range.
    pub end_group: u64,
    /// The last object of the range, in the last group.
    pub end_object: u64,
    pub params: Params,
}

/// What a fetch message says.
pub struct FetchView {
    pub id: u64,
    pub track_namespace: Seq<Seq<u8>>,
    pub track_name: Seq<char>,
    pub subscriber_priority: u8,
    pub group_order: GroupOrder,
    pub start_group: u64,
    pub start_object: u64,
    pub end_group: u64,
    pub end_object: u64,
    pub params: Map<u64, Seq<u8>>,
}

impl View for Fetch {
    type V = FetchView;

    open spec fn view(&self) -> FetchView {
        FetchView {
            id: self.id,
            track_namespace: self.track_namespace@,
            track_name: self.track_name@,
            subscriber_priority: self.subscriber_priority,
            group_order: self.group_order,
            start_group: self.start_group,
            start_object: self.start_object,
            end_group: self.end_group,
            end_object: self.end_object,
            params: self.params@,
        }
    }
}

impl Clone for Fetch {
    fn clone(&self) -> (r: Self)
        ensures
            r@ == self@,
    {
        Fetch {
            id: self.id,
            track_namespace: self.track_namespace.clone(),
            track_name: self.track_name.clone(),
            subscriber_priority: self.subscriber_priority,
            group_order: self.group_order,
            start_group: self.start_group,
            start_object: self.start_object,
            end_group: self.end_group,
            end_object: self.end_object,
            params: self.params.clone(),
        }
    }
}

/// Reads a fetch message off the front of `s`.
#[verifier::opaque]
pub open spec fn fetch_parse(s: Seq<u8>) -> Result<(FetchView, nat), DecodeError> {
    match u64::parse(s) {
        Err(e) => Err(e),
        Ok((id, n0)) => match Tuple::parse(s.skip(n0 as int)) {
            Err(e) => Err(e),
            Ok((track_namespace, n1)) => match String::parse(s.skip((n0 + n1) as int)) {
                Err(e) => Err(e),
                Ok((track_name, n2)) => match u8::parse(s.skip((n0 + n1 + n2) as int)) {
                    Err(e) => Err(e),
                    Ok((subscriber_priority, n3)) => match GroupOrder::parse(
                        s.skip((n0 + n1 + n2 + n3) as int),
                    ) {
                        Err(e) => Err(e),
                        Ok((group_order, n4)) => match u64::parse(
                            s.skip((n0 + n1 + n2 + n3 + n4) as int),
                        ) {
                            Err(e) => Err(e),
                            Ok((start_group, n5)) => match u64::parse(
                                s.skip((n0 + n1 + n2 + n3 + n4 + n5) as int),
                            ) {
                                Err(e) => Err(e),
                                Ok((start_object, n6)) => match u64::parse(
                                    s.skip((n0 + n1 + n2 + n3 + n4 + n5 + n6) as int),
                                ) {
                                    Err(e) => Err(e),
                                    Ok((end_group, n7)) => match u64::parse(
                                        s.skip((n0 + n1 + n2 + n3 + n4 + n5 + n6 + n7) as int),
                                    ) {
                                        Err(e) => Err(e),
                                        Ok((end_object, n8)) => match Params::parse(
                                            s.skip(
                                                (n0 + n1 + n2 + n3 + n4 + n5 + n6 + n7 + n8) as int,
                                            ),
                                        ) {
                                            Err(e) => Err(e),
                                            Ok((params, n9)) => Ok(
                                                (
                                                    FetchView {
                                                        id,
                                                        track_namespace,
                                                        track_name,
                                                        subscriber_priority,
                                                        group_order,
                                                        start_group,
                                                        start_object,
                                                        end_group,
                                                        end_object,
                                                        params,
                                                    },
                                                    n0 + n1 + n2 + n3 + n4 + n5 + n6 + n7 + n8 + n9,
                                                ),
                                            ),
                                        },
                                    },
                                },
                            },
                        },
                    },
                },
            },
        },
    }
}

impl Encode for Fetch {
    open spec fn wire(&self) -> Seq<u8> {
        self.id.wire() + self.track_namespace.wire() + self.track_name.wire()
            + self.subscriber_priority.wire() + self.group_order.wire() + self.start_group.wire()
            + self.start_object.wire() + self.end_group.wire() + self.end_object.wire()
            + self.params.wire()
    }

    open spec fn encode_error(&self) -> Option<EncodeError> {
        if self.id.encode_error() is Some {
            self.id.encode_error()
        } else if self.track_namespace.encode_error() is Some {
            self.track_namespace.encode_error()
        } else if self.track_name.encode_error() is Some {
            self.track_name.encode_error()
        } else if self.subscriber_priority.encode_error() is Some {
            self.subscriber_priority.encode_error()
        } else if self.group_order.encode_error() is Some {
            self.group_order.encode_error()
        } else if self.start_group.encode_error() is Some {
            self.start_group.encode_error()
        } else if self.start_object.encode_error() is Some {
            self.start_object.encode_error()
        } else if self.end_group.encode_error() is Some {
            self.end_group.encode_error()
        } else if self.end_object.encode_error() is Some {
            self.end_object.encode_error()
        } else {
            self.params.encode_error()
        }
    }

    #[verifier::rlimit(30)]
    fn write(&self, out: &mut Vec<u8>) -> (r: Result<(), EncodeError>) {
        let mark: usize = out.len();
        self.id.write(out)?;
        match self.track_namespace.write(out) {
            Ok(()) => {},
            Err(e) => {
                out.truncate(mark);
                return Err(e);
            },
        }
        match self.track_name.write(out) {
            Ok(()) => {},
            Err(e) => {
                out.truncate(mark);
                return Err(e);
            },
        }
        match self.subscriber_priority.write(out) {
            Ok(()) => {},
            Err(e) => {
                out.truncate(mark);
                assert(out@ =~= old(out)@);
                return Err(e);
            },
        }
        match self.group_order.write(out) {
            Ok(()) => {},
            Err(e) => {
                out.truncate(mark);
                return Err(e);
            },
        }
        match self.start_group.write(out) {
            Ok(()) => {},
            Err(e) => {
                out.truncate(mark);
                return Err(e);
            },
        }
        match self.start_object.write(out) {
            Ok(()) => {},
            Err(e) => {
                out.truncate(mark);
                return Err(e);
            },
        }
        match self.end_group.write(out) {
            Ok(()) => {},
            Err(e) => {
                out.truncate(mark);
                return Err(e);
            },
        }
        match self.end_object.write(out) {
            Ok(()) => {},
            Err(e) => {
                out.truncate(mark);
                return Err(e);
            },
        }
        match self.params.write(out) {
            Ok(()) => {},
            Err(e) => {
                out.truncate(mark);
                return Err(e);
            },
        }
        Ok(())
    }
}

impl Decode for Fetch {
    open spec fn parse(s: Seq<u8>) -> Result<(FetchView, nat), DecodeError> {
        fetch_parse(s)
    }

    #[verifier::rlimit(50)]
    fn read(data: &[u8], pos: usize) -> (r: Result<(Self, usize), DecodeError>) {
        reveal(fetch_parse);
        let (id, at1) = u64::read(data, pos)?;
        let (track_namespace, at2) = read_field::<Tuple>(data, pos, at1)?;
        let (track_name, at3) = read_field::<String>(data, pos, at2)?;
        let (subscriber_priority, at4) = read_field::<u8>(data, pos, at3)?;
        let (group_order, at5) = read_field::<GroupOrder>(data, pos, at4)?;
        let (start_group, at6) = read_field::<u64>(data, pos, at5)?;
        let (start_object, at7) = read_field::<u64>(data, pos, at6)?;
        let (end_group, at8) = read_field::<u64>(data, pos, at7)?;
        let (end_object, at9) = read_field::<u64>(data, pos, at8)?;
        let (params, at10) = read_field::<Params>(data, pos, at9)?;
        Ok(
            (
                Fetch {
                    id,
                    track_namespace,
                    track_name,
                    subscriber_priority,
                    group_order,
                    start_group,
                    start_object,
                    end_group,
                    end_object,
                    params,
                },
                at10,
            ),
        )
    }
}

/// Fields that read one behind the other make up the record.
proof fn lemma_fetch_steps(
    s: Seq<u8>,
    v: FetchView,
    n0: nat,
    n1: nat,
    n2: nat,
    n3: nat,
    n4: nat,
    n5: nat,
    n6: nat,
    n7: nat,
    n8: nat,
    n9: nat,
)
    requires
        u64::parse(s) == Ok::<(u64, nat), DecodeError>((v.id, n0)),
        Tuple::parse(s.skip(n0 as int)) == Ok::<(Seq<Seq<u8>>, nat), DecodeError>(
            (v.track_namespace, n1),
        ),
        String::parse(s.skip((n0 + n1) as int)) == Ok::<(Seq<char>, nat), DecodeError>(
            (v.track_name, n2),
        ),
        u8::parse(s.skip((n0 + n1 + n2) as int)) == Ok::<(u8, nat), DecodeError>(
            (v.subscriber_priority, n3),
        ),
        GroupOrder::parse(s.skip((n0 + n1 + n2 + n3) as int)) == Ok::<
            (GroupOrder, nat),
            DecodeError,
        >((v.group_order, n4)),
        u64::parse(s.skip((n0 + n1 + n2 + n3 + n4) as int)) == Ok::<(u64, nat), DecodeError>(
            (v.start_group, n5),
        ),
        u64::parse(s.skip((n0 + n1 + n2 + n3 + n4 + n5) as int)) == Ok::<(u64, nat), DecodeError>(
            (v.start_object, n6),
        ),
        u64::parse(s.skip((n0 + n1 + n2 + n3 + n4 + n5 + n6) as int)) == Ok::<
            (u64, nat),
            DecodeError,
        >((v.end_group, n7)),
        u64::parse(s.skip((n0 + n1 + n2 + n3 + n4 + n5 + n6 + n7) as int)) == Ok::<
            (u64, nat),
            DecodeError,
        >((v.end_object, n8)),
        Params::parse(s.skip((n0 + n1 + n2 + n3 + n4 + n5 + n6 + n7 + n8) as int)) == Ok::<
            (Map<u64, Seq<u8>>, nat),
            DecodeError,
        >((v.params, n9)),
    ensures
        fetch_parse(s) == Ok::<(FetchView, nat), DecodeError>(
            (v, n0 + n1 + n2 + n3 + n4 + n5 + n6 + n7 + n8 + n9),
        ),
{
    reveal(fetch_parse);
}

impl RoundTrip for Fetch {
    open spec fn faithful(&self) -> bool {
        &&& self.track_namespace.faithful()
        &&& self.track_name.faithful()
        &&& self.params.faithful()
    }

    proof fn lemma_round_trip(&self, rest: Seq<u8>) {
        let f0 = self.id.wire();
        let f1 = self.track_namespace.wire();
        let f2 = self.track_name.wire();
        let f3 = self.subscriber_priority.wire();
        let f4 = self.group_order.wire();
        let f5 = self.start_group.wire();
        let f6 = self.start_object.wire();
        let f7 = self.end_group.wire();
        let f8 = self.end_object.wire();
        let f9 = self.params.wire();
        let s = self.wire() + rest;
        let t9 = f9 + rest;
        let t8 = f8 + t9;
        let t7 = f7 + t8;
        let t6 = f6 + t7;
        let t5 = f5 + t6;
        let t4 = f4 + t5;
        let t3 = f3 + t4;
        let t2 = f2 + t3;
        let t1 = f1 + t2;
        assert(s == f0 + t1) by {
            lemma_concat_assoc(f0 + f1 + f2 + f3 + f4 + f5 + f6 + f7 + f8, f9, rest);
            lemma_concat_assoc(f0 + f1 + f2 + f3 + f4 + f5 + f6 + f7, f8, t9);
            lemma_concat_assoc(f0 + f1 + f2 + f3 + f4 + f5 + f6, f7, t8);
            lemma_concat_assoc(f0 + f1 + f2 + f3 + f4 + f5, f6, t7);
            lemma_concat_assoc(f0 + f1 + f2 + f3 + f4, f5, t6);
            lemma_concat_assoc(f0 + f1 + f2 + f3, f4, t5);
            lemma_concat_assoc(f0 + f1 + f2, f3, t4);
            lemma_concat_assoc(f0 + f1, f2, t3);
            lemma_concat_assoc(f0, f1, t2);
        }
        let n0 = f0.len() as int;
        let n1 = n0 + f1.len();
        let n2 = n1 + f2.len();
        let n3 = n2 + f3.len();
        let n4 = n3 + f4.len();
        let n5 = n4 + f5.len();
        let n6 = n5 + f6.len();
        let n7 = n6 + f7.len();
        let n8 = n7 + f8.len();
        assert(s.skip(0) == f0 + t1);
        lemma_skip_field(s, 0, f0, t1);
        lemma_skip_field(s, n0, f1, t2);
        lemma_skip_field(s, n1, f2, t3);
        lemma_skip_field(s, n2, f3, t4);
        lemma_skip_field(s, n3, f4, t5);
        lemma_skip_field(s, n4, f5, t6);
        lemma_skip_field(s, n5, f6, t7);
        lemma_skip_field(s, n6, f7, t8);
        lemma_skip_field(s, n7, f8, t9);
        assert(u64::parse(s) == Ok::<(u64, nat), DecodeError>((self.id, f0.len()))) by {
            self.id.lemma_round_trip(t1);
        }
        assert(Tuple::parse(s.skip(n0)) == Ok::<(Seq<Seq<u8>>, nat), DecodeError>(
            (self.track_namespace@, f1.len()),
        )) by {
            self.track_namespace.lemma_round_trip(t2);
        }
        assert(String::parse(s.skip(n1)) == Ok::<(Seq<char>, nat), DecodeError>(
            (self.track_name@, f2.len()),
        )) by {
            self.track_name.lemma_round_trip(t3);
        }
        assert(u8::parse(s.skip(n2)) == Ok::<(u8, nat), DecodeError>(
            (self.subscriber_priority, f3.len()),
        )) by {
            self.subscriber_priority.lemma_round_trip(t4);
        }
        assert(GroupOrder::parse(s.skip(n3)) == Ok::<(GroupOrder, nat), DecodeError>(
            (self.group_order, f4.len()),
        )) by {
            self.group_order.lemma_round_trip(t5);
        }
        assert(u64::parse(s.skip(n4)) == Ok::<(u64, nat), DecodeError>(
            (self.start_group, f5.len()),
        )) by {
            self.start_group.lemma_round_trip(t6);
        }
        assert(u64::parse(s.skip(n5)) == Ok::<(u64, nat), DecodeError>(
            (self.start_object, f6.len()),
        )) by {
            self.start_object.lemma_round_trip(t7);
        }
        assert(u64::parse(s.skip(n6)) == Ok::<(u64, nat), DecodeError>(
            (self.end_group, f7.len()),
        )) by {
            self.end_group.lemma_round_trip(t8);
        }
        assert(u64::parse(s.skip(n7)) == Ok::<(u64, nat), DecodeError>(
            (self.end_object, f8.len()),
        )) by {
            self.end_object.lemma_round_trip(t9);
        }
        assert(Params::parse(s.skip(n8)) == Ok::<(Map<u64, Seq<u8>>, nat), DecodeError>(
            (self.params@, f9.len()),
        )) by {
            self.params.lemma_round_trip(rest);
        }
        lemma_fetch_steps(
            s,
            self@,
            f0.len(),
            f1.len(),
            f2.len(),
            f3.len(),
            f4.len(),
            f5.len(),
            f6.len(),
            f7.len(),
            f8.len(),
            f9.len(),
        );
    }
}

} // verus!
