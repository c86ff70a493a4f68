//! The message that narrows a subscription which is under way.

use vstd::prelude::*;
use crate::coding::bytestring::{lemma_concat_assoc, lemma_skip_field};
use crate::coding::error::{DecodeError, EncodeError};
use crate::coding::params::Params;
use crate::message::subscribe::SubscribePair;
use crate::coding::traits::{read_field, Decode, Encode, RoundTrip};
use crate::message::control::{Message, MessageView};
use crate::session::outbox::Subscriber;
use crate::session::subscribe::SubscribeFilter;

verus! {

/// Sent by the subscriber to narrow a subscription that is under way.
#[derive(Debug, PartialEq, Eq)]
pub struct SubscribeUpdate {
    /// The number of the subscription.
    pub id: u64,
    /// Where delivery begins from now on.
    pub start: SubscribePair,
    /// One more than the last group to deliver, or zero for no end.
    pub end_group: u64,
    pub subscriber_priority: u8,
    pub params: Params,
}

/// What a subscribe-update message says.
pub struct SubscribeUpdateView {
    pub id: u64,
    pub start: SubscribePair,
    pub end_group: u64,
    pub subscriber_priority: u8,
    pub params: Map<u64, Seq<u8>>,
}

impl View for SubscribeUpdate {
    type V = SubscribeUpdateView;

    open spec fn view(&self) -> SubscribeUpdateView {
        SubscribeUpdateView {
            id: self.id,
            start: self.start,
            end_group: self.end_group,
            subscriber_priority: self.subscriber_priority,
            params: self.params@,
        }
    }
}

impl Clone for SubscribeUpdate {
    fn clone(&self) -> (r: Self)
        ensures
            r@ == self@,
    {
        SubscribeUpdate {
            id: self.id,
            start: self.start,
            end_group: self.end_group,
            subscriber_priority: self.subscriber_priority,
            params: self.params.clone(),
        }
    }
}

/// Reads a subscribe-update message off the front of `s`.
#[verifier::opaque]
pub open spec fn subscribe_update_parse(
    s: Seq<u8>,
) -> Result<(SubscribeUpdateView, nat), DecodeError> {
    match u64::parse(s) {
        Err(e) => Err(e),
        Ok((id, n0)) => match SubscribePair::parse(s.skip(n0 as int)) {
            Err(e) => Err(e),
            Ok((start, n1)) => match u64::parse(s.skip((n0 + n1) as int)) {
                Err(e) => Err(e),
                Ok((end_group, n2)) => match u8::parse(s.skip((n0 + n1 + n2) as int)) {
                    Err(e) => Err(e),
                    Ok((subscriber_priority, n3)) => match Params::parse(
                        s.skip((n0 + n1 + n2 + n3) as int),
                    ) {
                        Err(e) => Err(e),
                        Ok((params, n4)) => Ok(
                            (
                                SubscribeUpdateView {
                                    id,
                                    start,
                                    end_group,
                                    subscriber_priority,
                                    params,
                                },
                                n0 + n1 + n2 + n3 + n4,
                            ),
                        ),
                    },
                },
            },
        },
    }
}

impl Encode for SubscribeUpdate {
    open spec fn wire(&self) -> Seq<u8> {
        self.id.wire() + self.start.wire() + self.end_group.wire() + self.subscriber_priority.wire()
            + self.params.wire()
    }

    open spec fn encode_error(&self) -> Option<EncodeError> {
        if self.id.encode_error() is Some {
            self.id.encode_error()
        } else if self.start.encode_error() is Some {
            self.start.encode_error()
        } else if self.end_group.encode_error() is Some {
            self.end_group.encode_error()
        } else if self.subscriber_priority.encode_error() is Some {
            self.subscriber_priority.encode_error()
        } else {
            self.params.encode_error()
        }
    }

    fn write(&self, out: &mut Vec<u8>) -> (r: Result<(), EncodeError>) {
        let mark: usize = out.len();
        self.id.write(out)?;
        match self.start.write(out) {
            Ok(()) => {},
            Err(e) => {
                out.truncate(mark);
                return Err(e);
            },
        }
        match self.end_group.write(out) {
            Ok(()) => {},
            Err(e) => {
                out.truncate(mark);
                return Err(e);
            },
        }
        match self.subscriber_priority.write(out) {
            Ok(()) => {},
            Err(e) => {
                out.truncate(mark);
                return Err(e);
            },
        }
        match self.params.write(out) {
            Ok(()) => {},
            Err(e) => {
                out.truncate(mark);
                return Err(e);
            },
        }
        Ok(())
    }
}

impl Decode for SubscribeUpdate {
    open spec fn parse(s: Seq<u8>) -> Result<(SubscribeUpdateView, nat), DecodeError> {
        subscribe_update_parse(s)
    }

    fn read(data: &[u8], pos: usize) -> (r: Result<(Self, usize), DecodeError>) {
        reveal(subscribe_update_parse);
        let (id, at1) = u64::read(data, pos)?;
        let (start, at2) = read_field::<SubscribePair>(data, pos, at1)?;
        let (end_group, at3) = read_field::<u64>(data, pos, at2)?;
        let (subscriber_priority, at4) = read_field::<u8>(data, pos, at3)?;
        let (params, at5) = read_field::<Params>(data, pos, at4)?;
        Ok((SubscribeUpdate { id, start, end_group, subscriber_priority, params }, at5))
    }
}

/// Fields that read one behind the other make up the record.
proof fn lemma_subscribe_update_steps(
    s: Seq<u8>,
    v: SubscribeUpdateView,
    n0: nat,
    n1: nat,
    n2: nat,
    n3: nat,
    n4: nat,
)
    requires
        u64::parse(s) == Ok::<(u64, nat), DecodeError>((v.id, n0)),
        SubscribePair::parse(s.skip(n0 as int)) == Ok::<(SubscribePair, nat), DecodeError>(
            (v.start, n1),
        ),
        u64::parse(s.skip((n0 + n1) as int)) == Ok::<(u64, nat), DecodeError>((v.end_group, n2)),
        u8::parse(s.skip((n0 + n1 + n2) as int)) == Ok::<(u8, nat), DecodeError>(
            (v.subscriber_priority, n3),
        ),
        Params::parse(s.skip((n0 + n1 + n2 + n3) as int)) == Ok::<
            (Map<u64, Seq<u8>>, nat),
            DecodeError,
        >((v.params, n4)),
    ensures
        subscribe_update_parse(s) == Ok::<(SubscribeUpdateView, nat), DecodeError>(
            (v, n0 + n1 + n2 + n3 + n4),
        ),
{
    reveal(subscribe_update_parse);
}

impl RoundTrip for SubscribeUpdate {
    open spec fn faithful(&self) -> bool {
        self.params.faithful()
    }

    proof fn lemma_round_trip(&self, rest: Seq<u8>) {
        let f0 = self.id.wire();
        let f1 = self.start.wire();
        let f2 = self.end_group.wire();
        let f3 = self.subscriber_priority.wire();
        let f4 = self.params.wire();
        let s = self.wire() + rest;
        let t4 = f4 + rest;
        let t3 = f3 + t4;
        let t2 = f2 + t3;
        let t1 = f1 + t2;
        assert(s == f0 + t1) by {
            lemma_concat_assoc(f0 + f1 + f2 + f3, f4, rest);
            lemma_concat_assoc(f0 + f1 + f2, f3, t4);
            lemma_concat_assoc(f0 + f1, f2, t3);
            lemma_concat_assoc(f0, f1, t2);
        }
        let n0 = f0.len() as int;
        let n1 = n0 + f1.len();
        let n2 = n1 + f2.len();
        let n3 = n2 + f3.len();
        assert(s.skip(0) == f0 + t1);
        lemma_skip_field(s, 0, f0, t1);
        lemma_skip_field(s, n0, f1, t2);
        lemma_skip_field(s, n1, f2, t3);
        lemma_skip_field(s, n2, f3, t4);
        assert(u64::parse(s) == Ok::<(u64, nat), DecodeError>((self.id, f0.len()))) by {
            self.id.lemma_round_trip(t1);
        }
        assert(SubscribePair::parse(s.skip(n0)) == Ok::<(SubscribePair, nat), DecodeError>(
            (self.start, f1.len()),
        )) by {
            self.start.lemma_round_trip(t2);
        }
        assert(u64::parse(s.skip(n1)) == Ok::<(u64, nat), DecodeError>(
            (self.end_group, f2.len()),
        )) by {
            self.end_group.lemma_round_trip(t3);
        }
        assert(u8::parse(s.skip(n2)) == Ok::<(u8, nat), DecodeError>(
            (self.subscriber_priority, f3.len()),
        )) by {
            self.subscriber_priority.lemma_round_trip(t4);
        }
        assert(Params::parse(s.skip(n3)) == Ok::<(Map<u64, Seq<u8>>, nat), DecodeError>(
            (self.params@, f4.len()),
        )) by {
            self.params.lemma_round_trip(rest);
        }
        lemma_subscribe_update_steps(s, self@, f0.len(), f1.len(), f2.len(), f3.len(), f4.len());
    }
}

impl SubscribeUpdate {
    /// What an update that asks for the given filter says. A filter without
    /// an end is written with an end group of zero, and one with an end with
    /// the group behind its last; the latest object is written as a start at
    /// the very beginning.
    pub open spec fn request(
        id: u64,
        filter: SubscribeFilter,
        priority: u8,
    ) -> SubscribeUpdateView {
        SubscribeUpdateView {
            id,
            start: match filter {
                SubscribeFilter::AbsoluteStart(start) => start,
                SubscribeFilter::AbsoluteRange(start, _) => start,
                SubscribeFilter::LatestObject => SubscribePair { group: 0, object: 0 },
            },
            end_group: match filter {
                SubscribeFilter::AbsoluteRange(_, end_group) => if end_group < u64::MAX {
                    (end_group + 1) as u64
                } else {
                    u64::MAX
                },
                _ => 0,
            },
            subscriber_priority: priority,
            params: Map::empty(),
        }
    }

    /// Narrows a subscription to the given filter: makes the update, queues
    /// it to be sent, and hands it out.
    pub fn new(
        subscriber: &mut Subscriber,
        id: u64,
        filter: SubscribeFilter,
        priority: u8,
    ) -> (r: Self)
        ensures
            r@ == Self::request(id, filter, priority),
            final(subscriber).closed() == old(subscriber).closed(),
            final(subscriber).next_id() == old(subscriber).next_id(),
            final(subscriber).sent() == if old(subscriber).closed() {
                old(subscriber).sent()
            } else {
                old(subscriber).sent().push(
                    MessageView::SubscribeUpdate(Self::request(id, filter, priority)),
                )
            },
    {
        let (start, end_group) = match filter {
            SubscribeFilter::AbsoluteStart(start) => (start, 0),
            SubscribeFilter::AbsoluteRange(start, end_group) => (
                start,
                if end_group < u64::MAX {
                    end_group + 1
                } else {
                    u64::MAX
                },
            ),
            SubscribeFilter::LatestObject => (SubscribePair { group: 0, object: 0 }, 0),
        };
        let update = SubscribeUpdate {
            id,
            start,
            end_group,
            subscriber_priority: priority,
            params: Params::new(),
        };
        subscriber.send_message(Message::SubscribeUpdate(update.clone()));
        update
    }
}

/// An update asks for the filter that it was made from, unless that filter
/// starts at the very beginning without an end, which an update cannot tell
/// from the latest object, or ends at the largest group there is.
pub proof fn lemma_update_says_filter(update: SubscribeUpdate, id: u64, filter: SubscribeFilter)
    requires
        update@ == SubscribeUpdate::request(id, filter, update.subscriber_priority),
        filter matches SubscribeFilter::AbsoluteStart(start) ==> !(start.group == 0 && start.object
            == 0),
        filter matches SubscribeFilter::AbsoluteRange(_, end_group) ==> end_group < u64::MAX,
    ensures
        (if update.end_group != 0 {
            SubscribeFilter::AbsoluteRange(update.start, (update.end_group - 1) as u64)
        } else if !(update.start.group == 0 && update.start.object == 0) {
            SubscribeFilter::AbsoluteStart(update.start)
        } else {
            SubscribeFilter::LatestObject
        }) == filter,
{
}

} // verus!
