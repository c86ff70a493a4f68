//! The message that asks for the objects of a track.

use vstd::prelude::*;
use crate::coding::bytestring::{
    lemma_concat_assoc, lemma_skip_field, lemma_skip_prefix, lemma_skip_twice,
};
use crate::coding::error::{DecodeError, EncodeError};
use crate::coding::params::{params_parse, Params};
use crate::coding::string::string_parse;
use crate::coding::traits::{read_field, Decode, Encode, RoundTrip};
use crate::coding::tuple::{tuple_parse, Tuple};
use crate::coding::varint::{
    byte_parse, lemma_varint_lengths, lemma_varint_round_trip, read_varint, varint_parse,
    varint_wire, write_varint, VARINT_MAX,
};
use crate::message::filter_type::{filter_type_parse, FilterType};
use crate::message::group_order::{group_order_parse, GroupOrder};

verus! {

/// A place in a track: a group and an object in it. Places are ordered by
/// group first, then by object.
#[derive(Clone, Copy, Debug, PartialEq, Eq, Structural)]
pub struct SubscribePair {
    pub group: u64,
    pub object: u64,
}

impl View for SubscribePair {
    type V = SubscribePair;

    open spec fn view(&self) -> SubscribePair {
        *self
    }
}

/// Reads a place off the front of `s`: the group, then the object.
pub open spec fn pair_parse(s: Seq<u8>) -> Result<(SubscribePair, nat), DecodeError> {
    match varint_parse(s) {
        Err(e) => Err(e),
        Ok((group, n0)) => match varint_parse(s.skip(n0 as int)) {
            Err(e) => Err(e),
            Ok((object, n1)) => Ok((SubscribePair { group, object }, n0 + n1)),
        },
    }
}

impl SubscribePair {
    /// Whether this place lies before `other`.
    pub open spec fn before(&self, other: &SubscribePair) -> bool {
        self.group < other.group || (self.group == other.group && self.object < other.object)
    }

    /// Whether this place lies before `other`.
    pub fn lt(&self, other: &SubscribePair) -> (r: bool)
        ensures
            r == self.before(other),
    {
        self.group < other.group || (self.group == other.group && self.object < other.object)
    }
}

impl Encode for SubscribePair {
    open spec fn wire(&self) -> Seq<u8> {
        varint_wire(self.group) + varint_wire(self.object)
    }

    open spec fn encode_error(&self) -> Option<EncodeError> {
        if self.group <= VARINT_MAX && self.object <= VARINT_MAX {
            None
        } else {
            Some(EncodeError::BoundsExceeded)
        }
    }

    fn write(&self, out: &mut Vec<u8>) -> (r: Result<(), EncodeError>) {
        if self.group > VARINT_MAX || self.object > VARINT_MAX {
            return Err(EncodeError::BoundsExceeded);
        }
        write_varint(self.group, out);
        write_varint(self.object, out);
        Ok(())
    }
}

impl Decode for SubscribePair {
    open spec fn parse(s: Seq<u8>) -> Result<(SubscribePair, nat), DecodeError> {
        pair_parse(s)
    }

    fn read(data: &[u8], pos: usize) -> (r: Result<(Self, usize), DecodeError>) {
        let (group, at1) = read_varint(data, pos)?;
        let (object, at2) = read_field::<u64>(data, pos, at1)?;
        Ok((SubscribePair { group, object }, at2))
    }
}

impl RoundTrip for SubscribePair {
    open spec fn faithful(&self) -> bool {
        true
    }

    proof fn lemma_round_trip(&self, rest: Seq<u8>) {
        let s = self.wire() + rest;
        lemma_varint_lengths(self.group);
        lemma_varint_lengths(self.object);
        assert(s =~= varint_wire(self.group) + (varint_wire(self.object) + rest));
        lemma_varint_round_trip(self.group, varint_wire(self.object) + rest);
        lemma_skip_prefix(varint_wire(self.group), varint_wire(self.object) + rest);
        lemma_varint_round_trip(self.object, rest);
    }
}

/// Sent by the subscriber to ask for the objects of a track.
#[derive(Debug, PartialEq, Eq)]
pub struct Subscribe {
    /// The number of the subscription.
    pub id: u64,
    /// The number that stands for the track on data streams.
    pub track_alias: u64,
    pub track_namespace: Tuple,
    pub track_name: String,
    pub subscriber_priority: u8,
    pub group_order: GroupOrder,
    pub filter_type: FilterType,
    /// Where to begin, for the filter types that say so.
    pub start: Option<SubscribePair>,
    /// The last group, for the filter type that says so.
    pub end_group: Option<u64>,
    pub params: Params,
}

/// What a subscribe message says.
pub struct SubscribeView {
    pub id: u64,
    pub track_alias: u64,
    pub track_namespace: Seq<Seq<u8>>,
    pub track_name: Seq<char>,
    pub subscriber_priority: u8,
    pub group_order: GroupOrder,
    pub filter_type: FilterType,
    pub start: Option<SubscribePair>,
    pub end_group: Option<u64>,
    pub params: Map<u64, Seq<u8>>,
}

impl View for Subscribe {
    type V = SubscribeView;

    open spec fn view(&self) -> SubscribeView {
        SubscribeView {
            id: self.id,
            track_alias: self.track_alias,
            track_namespace: self.track_namespace@,
            track_name: self.track_name@,
            subscriber_priority: self.subscriber_priority,
            group_order: self.group_order,
            filter_type: self.filter_type,
            start: self.start,
            end_group: self.end_group,
            params: self.params@,
        }
    }
}

impl Clone for Subscribe {
    fn clone(&self) -> (r: Self)
        ensures
            r@ == self@,
    {
        Subscribe {
            id: self.id,
            track_alias: self.track_alias,
            track_namespace: self.track_namespace.clone(),
            track_name: self.track_name.clone(),
            subscriber_priority: self.subscriber_priority,
            group_order: self.group_order,
            filter_type: self.filter_type,
            start: self.start,
            end_group: self.end_group,
            params: self.params.clone(),
        }
    }
}

/// The fields that every subscribe message begins with.
pub struct SubscribeHead {
    pub id: u64,
    pub track_alias: u64,
    pub track_namespace: Seq<Seq<u8>>,
    pub track_name: Seq<char>,
    pub subscriber_priority: u8,
    pub group_order: GroupOrder,
    pub filter_type: FilterType,
}

/// Reads the fields up to the filter type off the front of `s`.
#[verifier::opaque]
pub open spec fn subscribe_head_parse(s: Seq<u8>) -> Result<(SubscribeHead, nat), DecodeError> {
    match varint_parse(s) {
        Err(e) => Err(e),
        Ok((id, n0)) => match varint_parse(s.skip(n0 as int)) {
            Err(e) => Err(e),
            Ok((track_alias, n1)) => match tuple_parse(s.skip((n0 + n1) as int)) {
                Err(e) => Err(e),
                Ok((track_namespace, n2)) => match string_parse(s.skip((n0 + n1 + n2) as int)) {
                    Err(e) => Err(e),
                    Ok((track_name, n3)) => match byte_parse(s.skip((n0 + n1 + n2 + n3) as int)) {
                        Err(e) => Err(e),
                        Ok((subscriber_priority, n4)) => match group_order_parse(
                            s.skip((n0 + n1 + n2 + n3 + n4) as int),
                        ) {
                            Err(e) => Err(e),
                            Ok((group_order, n5)) => match filter_type_parse(
                                s.skip((n0 + n1 + n2 + n3 + n4 + n5) as int),
                            ) {
                                Err(e) => Err(e),
                                Ok((filter_type, n6)) => Ok(
                                    (
                                        SubscribeHead {
                                            id,
                                            track_alias,
                                            track_namespace,
                                            track_name,
                                            subscriber_priority,
                                            group_order,
                                            filter_type,
                                        },
                                        n0 + n1 + n2 + n3 + n4 + n5 + n6,
                                    ),
                                ),
                            },
                        },
                    },
                },
            },
        },
    }
}

/// Reads what the filter type calls for off the front of `s`: nothing, a
/// start, or a start and an end group. Too few bytes for the shortest form of
/// these is a missing field.
pub open spec fn subscribe_range_parse(s: Seq<u8>, filter: FilterType) -> Result<
    ((Option<SubscribePair>, Option<u64>), nat),
    DecodeError,
> {
    match filter {
        FilterType::LatestObject => Ok(((None, None), 0)),
        FilterType::AbsoluteStart => if s.len() < 2 {
            Err(DecodeError::MissingField)
        } else {
            match pair_parse(s) {
                Err(e) => Err(e),
                Ok((start, n)) => Ok(((Some(start), None), n)),
            }
        },
        FilterType::AbsoluteRange => if s.len() < 4 {
            Err(DecodeError::MissingField)
        } else {
            match pair_parse(s) {
                Err(e) => Err(e),
                Ok((start, n0)) => match varint_parse(s.skip(n0 as int)) {
                    Err(e) => Err(e),
                    Ok((end_group, n1)) => Ok(((Some(start), Some(end_group)), n0 + n1)),
                },
            }
        },
    }
}

/// Reads a subscribe message off the front of `s`.
pub open spec fn subscribe_parse(s: Seq<u8>) -> Result<(SubscribeView, nat), DecodeError> {
    match subscribe_head_parse(s) {
        Err(e) => Err(e),
        Ok((head, n0)) => match subscribe_range_parse(s.skip(n0 as int), head.filter_type) {
            Err(e) => Err(e),
            Ok((range, n1)) => match params_parse(s.skip((n0 + n1) as int)) {
                Err(e) => Err(e),
                Ok((params, n2)) => Ok(
                    (
                        SubscribeView {
                            id: head.id,
                            track_alias: head.track_alias,
                            track_namespace: head.track_namespace,
                            track_name: head.track_name,
                            subscriber_priority: head.subscriber_priority,
                            group_order: head.group_order,
                            filter_type: head.filter_type,
                            start: range.0,
                            end_group: range.1,
                            params,
                        },
                        n0 + n1 + n2,
                    ),
                ),
            },
        },
    }
}

impl Subscribe {
    /// The wire form of the fields up to the filter type.
    pub open spec fn head_wire(&self) -> Seq<u8> {
        varint_wire(self.id) + varint_wire(self.track_alias) + self.track_namespace.wire()
            + self.track_name.wire() + seq![self.subscriber_priority] + self.group_order.wire()
            + self.filter_type.wire()
    }

    /// Why the fields up to the filter type cannot be written, if so.
    pub open spec fn head_error(&self) -> Option<EncodeError> {
        if self.id > VARINT_MAX || self.track_alias > VARINT_MAX {
            Some(EncodeError::BoundsExceeded)
        } else if self.track_namespace.encode_error() is Some {
            self.track_namespace.encode_error()
        } else {
            self.track_name.encode_error()
        }
    }

    /// The wire form of what the filter type calls for.
    pub open spec fn range_wire(&self) -> Seq<u8> {
        match self.filter_type {
            FilterType::LatestObject => Seq::empty(),
            FilterType::AbsoluteStart => self.start.unwrap().wire(),
            FilterType::AbsoluteRange => self.start.unwrap().wire() + varint_wire(
                self.end_group.unwrap(),
            ),
        }
    }

    /// Why what the filter type calls for cannot be written, if so: a field
    /// that is absent, or one that is too large.
    pub open spec fn range_error(&self) -> Option<EncodeError> {
        match self.filter_type {
            FilterType::LatestObject => None,
            FilterType::AbsoluteStart => match self.start {
                None => Some(EncodeError::MissingField),
                Some(start) => start.encode_error(),
            },
            FilterType::AbsoluteRange => match self.start {
                None => Some(EncodeError::MissingField),
                Some(start) => if start.encode_error() is Some {
                    start.encode_error()
                } else {
                    match self.end_group {
                        None => Some(EncodeError::MissingField),
                        Some(end_group) => end_group.encode_error(),
                    }
                },
            },
        }
    }

    /// Appends the fields up to the filter type, or leaves `out` as it was.
    fn write_head(&self, out: &mut Vec<u8>) -> (r: Result<(), EncodeError>)
        ensures
            match r {
                Ok(()) => self.head_error() is None && final(out)@ == old(out)@ + self.head_wire(),
                Err(e) => self.head_error() == Some(e) && final(out)@ == old(out)@,
            },
    {
        let mark: usize = out.len();
        if self.id > VARINT_MAX || self.track_alias > VARINT_MAX {
            return Err(EncodeError::BoundsExceeded);
        }
        write_varint(self.id, out);
        write_varint(self.track_alias, out);
        match self.track_namespace.write(out) {
            Ok(()) => {},
            Err(e) => {
                out.truncate(mark);
                return Err(e);
            },
        }
        match self.track_name.write(out) {
            Ok(()) => {},
            Err(e) => {
                out.truncate(mark);
                return Err(e);
            },
        }
        out.push(self.subscriber_priority);
        let _ = self.group_order.write(out);
        let _ = self.filter_type.write(out);
        Ok(())
    }

    /// Appends what the filter type calls for, or leaves `out` as it was.
    fn write_range(&self, out: &mut Vec<u8>) -> (r: Result<(), EncodeError>)
        ensures
            match r {
                Ok(()) => self.range_error() is None && final(out)@ == old(out)@
                    + self.range_wire(),
                Err(e) => self.range_error() == Some(e) && final(out)@ == old(out)@,
            },
    {
        match self.filter_type {
            FilterType::LatestObject => {
                Ok(())
            },
            FilterType::AbsoluteStart => match &self.start {
                None => Err(EncodeError::MissingField),
                Some(start) => start.write(out),
            },
            FilterType::AbsoluteRange => {
                let mark: usize = out.len();
                match &self.start {
                    None => {
                        return Err(EncodeError::MissingField);
                    },
                    Some(start) => {
                        start.write(out)?;
                    },
                }
                match &self.end_group {
                    None => {
                        out.truncate(mark);
                        assert(out@ =~= old(out)@);
                        Err(EncodeError::MissingField)
                    },
                    Some(end_group) => match end_group.write(out) {
                        Ok(()) => {
                            Ok(())
                        },
                        Err(e) => {
                            out.truncate(mark);
                            Err(e)
                        },
                    },
                }
            },
        }
    }
}

impl Encode for Subscribe {
    open spec fn wire(&self) -> Seq<u8> {
        self.head_wire() + self.range_wire() + self.params.wire()
    }

    open spec fn encode_error(&self) -> Option<EncodeError> {
        if self.head_error() is Some {
            self.head_error()
        } else if self.range_error() is Some {
            self.range_error()
        } else {
            self.params.encode_error()
        }
    }

    fn write(&self, out: &mut Vec<u8>) -> (r: Result<(), EncodeError>) {
        let mark: usize = out.len();
        self.write_head(out)?;
        match self.write_range(out) {
            Ok(()) => {},
            Err(e) => {
                out.truncate(mark);
                return Err(e);
            },
        }
        match self.params.write(out) {
            Ok(()) => {},
            Err(e) => {
                out.truncate(mark);
                return Err(e);
            },
        }
        Ok(())
    }
}

impl Decode for Subscribe {
    open spec fn parse(s: Seq<u8>) -> Result<(SubscribeView, nat), DecodeError> {
        subscribe_parse(s)
    }

    #[verifier::rlimit(50)]
    fn read(data: &[u8], pos: usize) -> (r: Result<(Self, usize), DecodeError>) {
        let (head, at1) = read_head(data, pos)?;
        proof {
            lemma_skip_twice(data@, pos as int, at1 - pos);
        }
        let (range, at2) = read_range(data, at1, head.filter_type)?;
        let (params, at3) = read_field::<Params>(data, pos, at2)?;
        Ok(
            (
                Subscribe {
                    id: head.id,
                    track_alias: head.track_alias,
                    track_namespace: head.track_namespace,
                    track_name: head.track_name,
                    subscriber_priority: head.subscriber_priority,
                    group_order: head.group_order,
                    filter_type: head.filter_type,
                    start: range.0,
                    end_group: range.1,
                    params,
                },
                at3,
            ),
        )
    }
}

/// The first fields of a subscribe message, as they were read.
struct Head {
    id: u64,
    track_alias: u64,
    track_namespace: Tuple,
    track_name: String,
    subscriber_priority: u8,
    group_order: GroupOrder,
    filter_type: FilterType,
}

impl View for Head {
    type V = SubscribeHead;

    closed spec fn view(&self) -> SubscribeHead {
        SubscribeHead {
            id: self.id,
            track_alias: self.track_alias,
            track_namespace: self.track_namespace@,
            track_name: self.track_name@,
            subscriber_priority: self.subscriber_priority,
            group_order: self.group_order,
            filter_type: self.filter_type,
        }
    }
}

/// Reads the fields up to the filter type from `data` at `pos`.
fn read_head(data: &[u8], pos: usize) -> (r: Result<(Head, usize), DecodeError>)
    requires
        pos <= data@.len(),
    ensures
        match subscribe_head_parse(data@.skip(pos as int)) {
            Ok((value, len)) => r matches Ok((v, next)) && v@ == value && next == pos + len && next
                <= data@.len(),
            Err(e) => r matches Err(got) && got == e,
        },
{
    reveal(subscribe_head_parse);
    let (id, at1) = read_varint(data, pos)?;
    let (track_alias, at2) = read_field::<u64>(data, pos, at1)?;
    let (track_namespace, at3) = read_field::<Tuple>(data, pos, at2)?;
    let (track_name, at4) = read_field::<String>(data, pos, at3)?;
    let (subscriber_priority, at5) = read_field::<u8>(data, pos, at4)?;
    let (group_order, at6) = read_field::<GroupOrder>(data, pos, at5)?;
    let (filter_type, at7) = read_field::<FilterType>(data, pos, at6)?;
    Ok(
        (
            Head {
                id,
                track_alias,
                track_namespace,
                track_name,
                subscriber_priority,
                group_order,
                filter_type,
            },
            at7,
        ),
    )
}

/// Reads what the filter type calls for from `data` at `pos`.
fn read_range(data: &[u8], pos: usize, filter: FilterType) -> (r: Result<
    ((Option<SubscribePair>, Option<u64>), usize),
    DecodeError,
>)
    requires
        pos <= data@.len(),
    ensures
        match subscribe_range_parse(data@.skip(pos as int), filter) {
            Ok((value, len)) => r matches Ok((v, next)) && v == value && next == pos + len && next
                <= data@.len(),
            Err(e) => r matches Err(got) && got == e,
        },
{
    match filter {
        FilterType::LatestObject => Ok(((None, None), pos)),
        FilterType::AbsoluteStart => {
            if data.len() - pos < 2 {
                return Err(DecodeError::MissingField);
            }
            let (start, next) = SubscribePair::read(data, pos)?;
            Ok(((Some(start), None), next))
        },
        FilterType::AbsoluteRange => {
            if data.len() - pos < 4 {
                return Err(DecodeError::MissingField);
            }
            let (start, mid) = SubscribePair::read(data, pos)?;
            let (end_group, next) = read_field::<u64>(data, pos, mid)?;
            Ok(((Some(start), Some(end_group)), next))
        },
    }
}

/// Seven fields that read one behind the other make up a head.
proof fn lemma_head_steps(
    s: Seq<u8>,
    head: SubscribeHead,
    n0: nat,
    n1: nat,
    n2: nat,
    n3: nat,
    n4: nat,
    n5: nat,
    n6: nat,
)
    requires
        varint_parse(s) == Ok::<(u64, nat), DecodeError>((head.id, n0)),
        varint_parse(s.skip(n0 as int)) == Ok::<(u64, nat), DecodeError>((head.track_alias, n1)),
        tuple_parse(s.skip((n0 + n1) as int)) == Ok::<(Seq<Seq<u8>>, nat), DecodeError>(
            (head.track_namespace, n2),
        ),
        string_parse(s.skip((n0 + n1 + n2) as int)) == Ok::<(Seq<char>, nat), DecodeError>(
            (head.track_name, n3),
        ),
        byte_parse(s.skip((n0 + n1 + n2 + n3) as int)) == Ok::<(u8, nat), DecodeError>(
            (head.subscriber_priority, n4),
        ),
        group_order_parse(s.skip((n0 + n1 + n2 + n3 + n4) as int)) == Ok::<
            (GroupOrder, nat),
            DecodeError,
        >((head.group_order, n5)),
        filter_type_parse(s.skip((n0 + n1 + n2 + n3 + n4 + n5) as int)) == Ok::<
            (FilterType, nat),
            DecodeError,
        >((head.filter_type, n6)),
    ensures
        subscribe_head_parse(s) == Ok::<(SubscribeHead, nat), DecodeError>(
            (head, n0 + n1 + n2 + n3 + n4 + n5 + n6),
        ),
{
    reveal(subscribe_head_parse);
}

impl Subscribe {
    /// The fields up to the filter type, as reading gives them.
    pub open spec fn head(&self) -> SubscribeHead {
        SubscribeHead {
            id: self.id,
            track_alias: self.track_alias,
            track_namespace: self.track_namespace@,
            track_name: self.track_name@,
            subscriber_priority: self.subscriber_priority,
            group_order: self.group_order,
            filter_type: self.filter_type,
        }
    }

    /// The fields up to the filter type read back as they were written.
    pub proof fn lemma_head_round_trip(&self, rest: Seq<u8>)
        requires
            self.head_error() is None,
            self.track_namespace.faithful(),
            self.track_name.faithful(),
        ensures
            subscribe_head_parse(self.head_wire() + rest) == Ok::<
                (SubscribeHead, nat),
                DecodeError,
            >(
                (self.head(), self.head_wire().len()),
            ),
    {
        let f0 = varint_wire(self.id);
        let f1 = varint_wire(self.track_alias);
        let f2 = self.track_namespace.wire();
        let f3 = self.track_name.wire();
        let f4 = seq![self.subscriber_priority];
        let f5 = self.group_order.wire();
        let f6 = self.filter_type.wire();
        let s = self.head_wire() + rest;
        let t6 = f6 + rest;
        let t5 = f5 + t6;
        let t4 = f4 + t5;
        let t3 = f3 + t4;
        let t2 = f2 + t3;
        let t1 = f1 + t2;
        assert(s == f0 + t1) by {
            lemma_concat_assoc(f0 + f1 + f2 + f3 + f4 + f5, f6, rest);
            lemma_concat_assoc(f0 + f1 + f2 + f3 + f4, f5, t6);
            lemma_concat_assoc(f0 + f1 + f2 + f3, f4, t5);
            lemma_concat_assoc(f0 + f1 + f2, f3, t4);
            lemma_concat_assoc(f0 + f1, f2, t3);
            lemma_concat_assoc(f0, f1, t2);
        }
        let n0 = f0.len() as int;
        let n1 = n0 + f1.len();
        let n2 = n1 + f2.len();
        let n3 = n2 + f3.len();
        let n4 = n3 + f4.len();
        let n5 = n4 + f5.len();
        assert(s.skip(0) == f0 + t1);
        lemma_skip_field(s, 0, f0, t1);
        lemma_skip_field(s, n0, f1, t2);
        lemma_skip_field(s, n1, f2, t3);
        lemma_skip_field(s, n2, f3, t4);
        lemma_skip_field(s, n3, f4, t5);
        lemma_skip_field(s, n4, f5, t6);
        assert(varint_parse(s) == Ok::<(u64, nat), DecodeError>((self.id, f0.len()))) by {
            lemma_varint_lengths(self.id);
            lemma_varint_round_trip(self.id, t1);
        }
        assert(varint_parse(s.skip(n0)) == Ok::<(u64, nat), DecodeError>(
            (self.track_alias, f1.len()),
        )) by {
            lemma_varint_lengths(self.track_alias);
            lemma_varint_round_trip(self.track_alias, t2);
        }
        assert(tuple_parse(s.skip(n1)) == Ok::<(Seq<Seq<u8>>, nat), DecodeError>(
            (self.track_namespace@, f2.len()),
        )) by {
            self.track_namespace.lemma_round_trip(t3);
        }
        assert(string_parse(s.skip(n2)) == Ok::<(Seq<char>, nat), DecodeError>(
            (self.track_name@, f3.len()),
        )) by {
            self.track_name.lemma_round_trip(t4);
        }
        assert(byte_parse(s.skip(n3)) == Ok::<(u8, nat), DecodeError>(
            (self.subscriber_priority, f4.len()),
        )) by {
            self.subscriber_priority.lemma_round_trip(t5);
        }
        assert(group_order_parse(s.skip(n4)) == Ok::<(GroupOrder, nat), DecodeError>(
            (self.group_order, f5.len()),
        )) by {
            self.group_order.lemma_round_trip(t6);
        }
        assert(filter_type_parse(s.skip(n5)) == Ok::<(FilterType, nat), DecodeError>(
            (self.filter_type, f6.len()),
        )) by {
            self.filter_type.lemma_round_trip(rest);
        }
        lemma_head_steps(
            s,
            self.head(),
            f0.len(),
            f1.len(),
            f2.len(),
            f3.len(),
            f4.len(),
            f5.len(),
            f6.len(),
        );
    }

    /// Whether the start and the end group are there exactly where the filter
    /// type calls for them.
    pub open spec fn range_fits_filter(&self) -> bool {
        match self.filter_type {
            FilterType::LatestObject => self.start is None && self.end_group is None,
            FilterType::AbsoluteStart => self.end_group is None,
            FilterType::AbsoluteRange => true,
        }
    }

    /// What the filter type calls for reads back as it was written, when at
    /// least one byte follows it.
    pub proof fn lemma_range_round_trip(&self, rest: Seq<u8>)
        requires
            self.range_error() is None,
            self.range_fits_filter(),
            rest.len() >= 1,
        ensures
            subscribe_range_parse(self.range_wire() + rest, self.filter_type) == Ok::<
                ((Option<SubscribePair>, Option<u64>), nat),
                DecodeError,
            >(((self.start, self.end_group), self.range_wire().len())),
    {
        let s = self.range_wire() + rest;
        match self.filter_type {
            FilterType::LatestObject => {},
            FilterType::AbsoluteStart => {
                let start = self.start.unwrap();
                lemma_varint_lengths(start.group);
                lemma_varint_lengths(start.object);
                start.lemma_round_trip(rest);
            },
            FilterType::AbsoluteRange => {
                let start = self.start.unwrap();
                let end = self.end_group.unwrap();
                lemma_varint_lengths(start.group);
                lemma_varint_lengths(start.object);
                lemma_varint_lengths(end);
                assert(s =~= start.wire() + (varint_wire(end) + rest));
                start.lemma_round_trip(varint_wire(end) + rest);
                lemma_skip_prefix(start.wire(), varint_wire(end) + rest);
                lemma_varint_round_trip(end, rest);
            },
        }
    }
}

impl RoundTrip for Subscribe {
    open spec fn faithful(&self) -> bool {
        &&& self.track_namespace.faithful()
        &&& self.track_name.faithful()
        &&& self.range_fits_filter()
        &&& self.params.faithful()
    }

    proof fn lemma_round_trip(&self, rest: Seq<u8>) {
        let h = self.head_wire();
        let r = self.range_wire();
        let p = self.params.wire();
        let s = self.wire() + rest;
        assert(s =~= h + (r + (p + rest)));
        self.lemma_head_round_trip(r + (p + rest));
        lemma_skip_prefix(h, r + (p + rest));
        lemma_varint_lengths(self.params.walk().len() as u64);
        self.lemma_range_round_trip(p + rest);
        assert(s.skip((h.len() + r.len()) as int) =~= p + rest);
        self.params.lemma_round_trip(rest);
    }
}

} // verus!
