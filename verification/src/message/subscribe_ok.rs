//! The message that accepts a subscription.

use vstd::prelude::*;
use crate::coding::bytestring::{lemma_concat_assoc, lemma_skip_field, lemma_skip_twice};
use crate::coding::error::{DecodeError, EncodeError};
use crate::coding::params::Params;
use crate::coding::traits::{read_field, Decode, Encode, RoundTrip};
use crate::coding::varint::VARINT_MAX;
use crate::message::group_order::GroupOrder;

verus! {

/// Sent by the publisher to accept a subscription.
#[derive(Debug, PartialEq, Eq)]
pub struct SubscribeOk {
    /// The number of the subscription.
    pub id: u64,
    /// The number that stands for the track on data streams.
    pub track_alias: u64,
    /// After how many milliseconds the subscription expires, if it does.
    pub expires: Option<u64>,
    /// The order in which the groups will come.
    pub group_order: GroupOrder,
    /// 1 if the track holds any object, else 0.
    pub content_exists: u8,
    /// The largest group and the largest object in it; there exactly where
    /// `content_exists` is 1.
    pub largest_location: Option<(u64, u64)>,
    pub params: Params,
}

/// What a subscribe-ok message says.
pub struct SubscribeOkView {
    pub id: u64,
    pub track_alias: u64,
    pub expires: Option<u64>,
    pub group_order: GroupOrder,
    pub content_exists: u8,
    pub largest_location: Option<(u64, u64)>,
    pub params: Map<u64, Seq<u8>>,
}

impl View for SubscribeOk {
    type V = SubscribeOkView;

    open spec fn view(&self) -> SubscribeOkView {
        SubscribeOkView {
            id: self.id,
            track_alias: self.track_alias,
            expires: self.expires,
            group_order: self.group_order,
            content_exists: self.content_exists,
            largest_location: self.largest_location,
            params: self.params@,
        }
    }
}

impl Clone for SubscribeOk {
    fn clone(&self) -> (r: Self)
        ensures
            r@ == self@,
    {
        SubscribeOk {
            id: self.id,
            track_alias: self.track_alias,
            expires: self.expires,
            group_order: self.group_order,
            content_exists: self.content_exists,
            largest_location: self.largest_location,
            params: self.params.clone(),
        }
    }
}

/// The number written for an expiry: zero where there is none.
pub open spec fn expires_number(expires: Option<u64>) -> u64 {
    match expires {
        Some(after) => after,
        None => 0,
    }
}

/// Reads an expiry off the front of `s`: zero stands for none.
pub open spec fn expires_parse(s: Seq<u8>) -> Result<(Option<u64>, nat), DecodeError> {
    match u64::parse(s) {
        Err(e) => Err(e),
        Ok((after, n)) => if after == 0 {
            Ok((None, n))
        } else {
            Ok((Some(after), n))
        },
    }
}

/// The wire form of the flag that says whether content exists, and of the
/// largest location behind it where it does.
pub open spec fn location_wire(content_exists: u8, location: Option<(u64, u64)>) -> Seq<u8> {
    match location {
        Some((group, object)) => seq![content_exists] + group.wire() + object.wire(),
        None => seq![content_exists],
    }
}

/// Why the flag and the largest location cannot be written, if so: a flag
/// that is neither 0 nor 1, a location that is absent where the flag is 1
/// or there where it is 0, or a number that is too large.
pub open spec fn location_error(content_exists: u8, location: Option<(u64, u64)>) -> Option<
    EncodeError,
> {
    if content_exists > 1 {
        Some(EncodeError::InvalidValue)
    } else {
        match location {
            None => if content_exists == 1 {
                Some(EncodeError::MissingField)
            } else {
                None
            },
            Some((group, object)) => if content_exists == 0 {
                Some(EncodeError::InvalidValue)
            } else if group > VARINT_MAX || object > VARINT_MAX {
                Some(EncodeError::BoundsExceeded)
            } else {
                None
            },
        }
    }
}

/// Reads the flag, and the largest location where the flag is 1, off the
/// front of `s`.
pub open spec fn location_parse(
    s: Seq<u8>,
) -> Result<((u8, Option<(u64, u64)>), nat), DecodeError> {
    match u8::parse(s) {
        Err(e) => Err(e),
        Ok((flag, n0)) => if flag == 0 {
            Ok(((flag, None), n0))
        } else if flag == 1 {
            match u64::parse(s.skip(n0 as int)) {
                Err(e) => Err(e),
                Ok((group, n1)) => match u64::parse(s.skip((n0 + n1) as int)) {
                    Err(e) => Err(e),
                    Ok((object, n2)) => Ok(((flag, Some((group, object))), n0 + n1 + n2)),
                },
            }
        } else {
            Err(DecodeError::InvalidValue)
        },
    }
}

/// Appends the flag and the largest location, or leaves `out` as it was.
pub fn write_location(
    content_exists: u8,
    location: Option<(u64, u64)>,
    out: &mut Vec<u8>,
) -> (r: Result<(), EncodeError>)
    ensures
        match r {
            Ok(()) => location_error(content_exists, location) is None && final(out)@ == old(out)@
                + location_wire(content_exists, location),
            Err(e) => location_error(content_exists, location) == Some(e) && final(out)@ == old(
                out,
            )@,
        },
{
    if content_exists > 1 {
        return Err(EncodeError::InvalidValue);
    }
    match location {
        None => {
            if content_exists == 1 {
                return Err(EncodeError::MissingField);
            }
            out.push(content_exists);
            Ok(())
        },
        Some((group, object)) => {
            if content_exists == 0 {
                return Err(EncodeError::InvalidValue);
            }
            if group > VARINT_MAX || object > VARINT_MAX {
                return Err(EncodeError::BoundsExceeded);
            }
            out.push(content_exists);
            let _ = group.write(out);
            let _ = object.write(out);
            Ok(())
        },
    }
}

/// Reads the flag and the largest location from `data` at `pos`.
pub fn read_location(data: &[u8], pos: usize) -> (r: Result<
    ((u8, Option<(u64, u64)>), usize),
    DecodeError,
>)
    requires
        pos <= data@.len(),
    ensures
        match location_parse(data@.skip(pos as int)) {
            Ok((value, len)) => r matches Ok((v, next)) && v == value && next == pos + len && next
                <= data@.len(),
            Err(e) => r matches Err(got) && got == e,
        },
{
    let (flag, at1) = u8::read(data, pos)?;
    if flag == 0 {
        Ok(((flag, None), at1))
    } else if flag == 1 {
        let (group, at2) = read_field::<u64>(data, pos, at1)?;
        let (object, at3) = read_field::<u64>(data, pos, at2)?;
        Ok(((flag, Some((group, object))), at3))
    } else {
        Err(DecodeError::InvalidValue)
    }
}

/// The flag and the largest location read back as they were written.
pub proof fn lemma_location_round_trip(
    content_exists: u8,
    location: Option<(u64, u64)>,
    rest: Seq<u8>,
)
    requires
        location_error(content_exists, location) is None,
    ensures
        location_parse(location_wire(content_exists, location) + rest) == Ok::<
            ((u8, Option<(u64, u64)>), nat),
            DecodeError,
        >(((content_exists, location), location_wire(content_exists, location).len())),
{
    let s = location_wire(content_exists, location) + rest;
    match location {
        None => {},
        Some((group, object)) => {
            let f0 = seq![content_exists];
            let f1 = group.wire();
            let f2 = object.wire();
            let t2 = f2 + rest;
            let t1 = f1 + t2;
            assert(s == f0 + t1) by {
                lemma_concat_assoc(f0 + f1, f2, rest);
                lemma_concat_assoc(f0, f1, t2);
            }
            assert(s.skip(0) == f0 + t1);
            lemma_skip_field(s, 0, f0, t1);
            lemma_skip_field(s, 1, f1, t2);
            group.lemma_round_trip(t2);
            object.lemma_round_trip(rest);
        },
    }
}

/// Reads a subscribe-ok message off the front of `s`.
#[verifier::opaque]
pub open spec fn subscribe_ok_parse(s: Seq<u8>) -> Result<(SubscribeOkView, nat), DecodeError> {
    match u64::parse(s) {
        Err(e) => Err(e),
        Ok((id, n0)) => match u64::parse(s.skip(n0 as int)) {
            Err(e) => Err(e),
            Ok((track_alias, n1)) => match expires_parse(s.skip((n0 + n1) as int)) {
                Err(e) => Err(e),
                Ok((expires, n2)) => match GroupOrder::parse(s.skip((n0 + n1 + n2) as int)) {
                    Err(e) => Err(e),
                    Ok((group_order, n3)) => match location_parse(
                        s.skip((n0 + n1 + n2 + n3) as int),
                    ) {
                        Err(e) => Err(e),
                        Ok((location, n4)) => match Params::parse(
                            s.skip((n0 + n1 + n2 + n3 + n4) as int),
                        ) {
                            Err(e) => Err(e),
                            Ok((params, n5)) => Ok(
                                (
                                    SubscribeOkView {
                                        id,
                                        track_alias,
                                        expires,
                                        group_order,
                                        content_exists: location.0,
                                        largest_location: location.1,
                                        params,
                                    },
                                    n0 + n1 + n2 + n3 + n4 + n5,
                                ),
                            ),
                        },
                    },
                },
            },
        },
    }
}

impl Encode for SubscribeOk {
    open spec fn wire(&self) -> Seq<u8> {
        self.id.wire() + self.track_alias.wire() + expires_number(self.expires).wire()
            + self.group_order.wire() + location_wire(self.content_exists, self.largest_location)
            + self.params.wire()
    }

    open spec fn encode_error(&self) -> Option<EncodeError> {
        if self.id.encode_error() is Some {
            self.id.encode_error()
        } else if self.track_alias.encode_error() is Some {
            self.track_alias.encode_error()
        } else if expires_number(self.expires).encode_error() is Some {
            expires_number(self.expires).encode_error()
        } else if location_error(self.content_exists, self.largest_location) is Some {
            location_error(self.content_exists, self.largest_location)
        } else {
            self.params.encode_error()
        }
    }

    fn write(&self, out: &mut Vec<u8>) -> (r: Result<(), EncodeError>) {
        let mark: usize = out.len();
        self.id.write(out)?;
        match self.track_alias.write(out) {
            Ok(()) => {},
            Err(e) => {
                out.truncate(mark);
                return Err(e);
            },
        }
        let after: u64 = match self.expires {
            Some(after) => after,
            None => 0,
        };
        match after.write(out) {
            Ok(()) => {},
            Err(e) => {
                out.truncate(mark);
                return Err(e);
            },
        }
        let _ = self.group_order.write(out);
        match write_location(self.content_exists, self.largest_location, out) {
            Ok(()) => {},
            Err(e) => {
                out.truncate(mark);
                return Err(e);
            },
        }
        match self.params.write(out) {
            Ok(()) => {},
            Err(e) => {
                out.truncate(mark);
                return Err(e);
            },
        }
        Ok(())
    }
}

impl Decode for SubscribeOk {
    open spec fn parse(s: Seq<u8>) -> Result<(SubscribeOkView, nat), DecodeError> {
        subscribe_ok_parse(s)
    }

    #[verifier::rlimit(50)]
    fn read(data: &[u8], pos: usize) -> (r: Result<(Self, usize), DecodeError>) {
        reveal(subscribe_ok_parse);
        let (id, at1) = u64::read(data, pos)?;
        let (track_alias, at2) = read_field::<u64>(data, pos, at1)?;
        let (after, at3) = read_field::<u64>(data, pos, at2)?;
        let expires = if after == 0 {
            None
        } else {
            Some(after)
        };
        let (group_order, at4) = read_field::<GroupOrder>(data, pos, at3)?;
        proof {
            lemma_skip_twice(data@, pos as int, at4 - pos);
        }
        let (location, at5) = read_location(data, at4)?;
        let (params, at6) = read_field::<Params>(data, pos, at5)?;
        Ok(
            (
                SubscribeOk {
                    id,
                    track_alias,
                    expires,
                    group_order,
                    content_exists: location.0,
                    largest_location: location.1,
                    params,
                },
                at6,
            ),
        )
    }
}

/// Fields that read one behind the other make up the record.
proof fn lemma_subscribe_ok_steps(
    s: Seq<u8>,
    v: SubscribeOkView,
    n0: nat,
    n1: nat,
    n2: nat,
    n3: nat,
    n4: nat,
    n5: nat,
)
    requires
        u64::parse(s) == Ok::<(u64, nat), DecodeError>((v.id, n0)),
        u64::parse(s.skip(n0 as int)) == Ok::<(u64, nat), DecodeError>((v.track_alias, n1)),
        expires_parse(s.skip((n0 + n1) as int)) == Ok::<(Option<u64>, nat), DecodeError>(
            (v.expires, n2),
        ),
        GroupOrder::parse(s.skip((n0 + n1 + n2) as int)) == Ok::<(GroupOrder, nat), DecodeError>(
            (v.group_order, n3),
        ),
        location_parse(s.skip((n0 + n1 + n2 + n3) as int)) == Ok::<
            ((u8, Option<(u64, u64)>), nat),
            DecodeError,
        >(((v.content_exists, v.largest_location), n4)),
        Params::parse(s.skip((n0 + n1 + n2 + n3 + n4) as int)) == Ok::<
            (Map<u64, Seq<u8>>, nat),
            DecodeError,
        >((v.params, n5)),
    ensures
        subscribe_ok_parse(s) == Ok::<(SubscribeOkView, nat), DecodeError>(
            (v, n0 + n1 + n2 + n3 + n4 + n5),
        ),
{
    reveal(subscribe_ok_parse);
}

impl RoundTrip for SubscribeOk {
    /// An expiry of zero is read back as none.
    open spec fn faithful(&self) -> bool {
        self.expires != Some(0u64) && self.params.faithful()
    }

    proof fn lemma_round_trip(&self, rest: Seq<u8>) {
        let f0 = self.id.wire();
        let f1 = self.track_alias.wire();
        let f2 = expires_number(self.expires).wire();
        let f3 = self.group_order.wire();
        let f4 = location_wire(self.content_exists, self.largest_location);
        let f5 = self.params.wire();
        let s = self.wire() + rest;
        let t5 = f5 + rest;
        let t4 = f4 + t5;
        let t3 = f3 + t4;
        let t2 = f2 + t3;
        let t1 = f1 + t2;
        assert(s == f0 + t1) by {
            lemma_concat_assoc(f0 + f1 + f2 + f3 + f4, f5, rest);
            lemma_concat_assoc(f0 + f1 + f2 + f3, f4, t5);
            lemma_concat_assoc(f0 + f1 + f2, f3, t4);
            lemma_concat_assoc(f0 + f1, f2, t3);
            lemma_concat_assoc(f0, f1, t2);
        }
        let n0 = f0.len() as int;
        let n1 = n0 + f1.len();
        let n2 = n1 + f2.len();
        let n3 = n2 + f3.len();
        let n4 = n3 + f4.len();
        assert(s.skip(0) == f0 + t1);
        lemma_skip_field(s, 0, f0, t1);
        lemma_skip_field(s, n0, f1, t2);
        lemma_skip_field(s, n1, f2, t3);
        lemma_skip_field(s, n2, f3, t4);
        lemma_skip_field(s, n3, f4, t5);
        assert(u64::parse(s) == Ok::<(u64, nat), DecodeError>((self.id, f0.len()))) by {
            self.id.lemma_round_trip(t1);
        }
        assert(u64::parse(s.skip(n0)) == Ok::<(u64, nat), DecodeError>(
            (self.track_alias, f1.len()),
        )) by {
            self.track_alias.lemma_round_trip(t2);
        }
        assert(expires_parse(s.skip(n1)) == Ok::<(Option<u64>, nat), DecodeError>(
            (self.expires, f2.len()),
        )) by {
            expires_number(self.expires).lemma_round_trip(t3);
        }
        assert(GroupOrder::parse(s.skip(n2)) == Ok::<(GroupOrder, nat), DecodeError>(
            (self.group_order, f3.len()),
        )) by {
            self.group_order.lemma_round_trip(t4);
        }
        assert(location_parse(s.skip(n3)) == Ok::<((u8, Option<(u64, u64)>), nat), DecodeError>(
            ((self.content_exists, self.largest_location), f4.len()),
        )) by {
            lemma_location_round_trip(self.content_exists, self.largest_location, t5);
        }
        assert(Params::parse(s.skip(n4)) == Ok::<(Map<u64, Seq<u8>>, nat), DecodeError>(
            (self.params@, f5.len()),
        )) by {
            self.params.lemma_round_trip(rest);
        }
        lemma_subscribe_ok_steps(
            s,
            self@,
            f0.len(),
            f1.len(),
            f2.len(),
            f3.len(),
            f4.len(),
            f5.len(),
        );
    }
}

/// A subscribe-ok message that was read carries the largest location exactly
/// where its flag says that content exists.
pub proof fn lemma_location_iff_content(s: Seq<u8>)
    ensures
        subscribe_ok_parse(s) matches Ok((ok, _)) ==> (ok.largest_location is Some
            <==> ok.content_exists == 1),
{
    reveal(subscribe_ok_parse);
}

} // verus!
