//! The message that ends a subscription which had been accepted.

use vstd::prelude::*;
use crate::coding::bytestring::lemma_skip_field;
use crate::coding::error::{DecodeError, EncodeError};
use crate::coding::traits::{read_field, Decode, Encode, RoundTrip};

verus! {

/// Sent by the publisher to end a subscription that it had accepted.
#[derive(Debug, PartialEq, Eq)]
pub struct SubscribeDone {
    /// The number of the subscription.
    pub id: u64,
    /// Why the subscription ended.
    pub code: u64,
    /// How many data streams were opened for the subscription.
    pub count: u64,
    /// The reason in words.
    pub reason: String,
}

/// What a subscribe-done message says.
pub struct SubscribeDoneView {
    pub id: u64,
    pub code: u64,
    pub count: u64,
    pub reason: Seq<char>,
}

impl View for SubscribeDone {
    type V = SubscribeDoneView;

    open spec fn view(&self) -> SubscribeDoneView {
        SubscribeDoneView {
            id: self.id,
            code: self.code,
            count: self.count,
            reason: self.reason@,
        }
    }
}

impl Clone for SubscribeDone {
    fn clone(&self) -> (r: Self)
        ensures
            r@ == self@,
    {
        SubscribeDone {
            id: self.id,
            code: self.code,
            count: self.count,
            reason: self.reason.clone(),
        }
    }
}

/// Reads a subscribe-done message off the front of `s`.
#[verifier::opaque]
pub open spec fn subscribe_done_parse(s: Seq<u8>) -> Result<(SubscribeDoneView, nat), DecodeError> {
    match u64::parse(s) {
        Err(e) => Err(e),
        Ok((id, n0)) => match u64::parse(s.skip(n0 as int)) {
            Err(e) => Err(e),
            Ok((code, n1)) => match u64::parse(s.skip((n0 + n1) as int)) {
                Err(e) => Err(e),
                Ok((count, n2)) => match String::parse(s.skip((n0 + n1 + n2) as int)) {
                    Err(e) => Err(e),
                    Ok((reason, n3)) => Ok(
                        (SubscribeDoneView { id, code, count, reason }, n0 + n1 + n2 + n3),
                    ),
                },
            },
        },
    }
}

impl Encode for SubscribeDone {
    open spec fn wire(&self) -> Seq<u8> {
        self.id.wire() + self.code.wire() + self.count.wire() + self.reason.wire()
    }

    open spec fn encode_error(&self) -> Option<EncodeError> {
        if self.id.encode_error() is Some {
            self.id.encode_error()
        } else if self.code.encode_error() is Some {
            self.code.encode_error()
        } else if self.count.encode_error() is Some {
            self.count.encode_error()
        } else {
            self.reason.encode_error()
        }
    }

    fn write(&self, out: &mut Vec<u8>) -> (r: Result<(), EncodeError>) {
        let mark: usize = out.len();
        self.id.write(out)?;
        match self.code.write(out) {
            Ok(()) => {},
            Err(e) => {
                out.truncate(mark);
                return Err(e);
            },
        }
        match self.count.write(out) {
            Ok(()) => {},
            Err(e) => {
                out.truncate(mark);
                return Err(e);
            },
        }
        match self.reason.write(out) {
            Ok(()) => {},
            Err(e) => {
                out.truncate(mark);
                return Err(e);
            },
        }
        Ok(())
    }
}

impl Decode for SubscribeDone {
    open spec fn parse(s: Seq<u8>) -> Result<(SubscribeDoneView, nat), DecodeError> {
        subscribe_done_parse(s)
    }

    fn read(data: &[u8], pos: usize) -> (r: Result<(Self, usize), DecodeError>) {
        reveal(subscribe_done_parse);
        let (id, at1) = u64::read(data, pos)?;
        let (code, at2) = read_field::<u64>(data, pos, at1)?;
        let (count, at3) = read_field::<u64>(data, pos, at2)?;
        let (reason, at4) = read_field::<String>(data, pos, at3)?;
        Ok((SubscribeDone { id, code, count, reason }, at4))
    }
}

/// Fields that read one behind the other make up the record.
proof fn lemma_subscribe_done_steps(
    s: Seq<u8>,
    v: SubscribeDoneView,
    n0: nat,
    n1: nat,
    n2: nat,
    n3: nat,
)
    requires
        u64::parse(s) == Ok::<(u64, nat), DecodeError>((v.id, n0)),
        u64::parse(s.skip(n0 as int)) == Ok::<(u64, nat), DecodeError>((v.code, n1)),
        u64::parse(s.skip((n0 + n1) as int)) == Ok::<(u64, nat), DecodeError>((v.count, n2)),
        String::parse(s.skip((n0 + n1 + n2) as int)) == Ok::<(Seq<char>, nat), DecodeError>(
            (v.reason, n3),
        ),
    ensures
        subscribe_done_parse(s) == Ok::<(SubscribeDoneView, nat), DecodeError>(
            (v, n0 + n1 + n2 + n3),
        ),
{
    reveal(subscribe_done_parse);
}

impl RoundTrip for SubscribeDone {
    open spec fn faithful(&self) -> bool {
        self.reason.faithful()
    }

    proof fn lemma_round_trip(&self, rest: Seq<u8>) {
        let f0 = self.id.wire();
        let f1 = self.code.wire();
        let f2 = self.count.wire();
        let f3 = self.reason.wire();
        let s = self.wire() + rest;
        let t3 = f3 + rest;
        let t2 = f2 + t3;
        let t1 = f1 + t2;
        assert(s == f0 + t1);
        let n0 = f0.len() as int;
        let n1 = n0 + f1.len();
        let n2 = n1 + f2.len();
        assert(s.skip(0) == f0 + t1);
        lemma_skip_field(s, 0, f0, t1);
        lemma_skip_field(s, n0, f1, t2);
        lemma_skip_field(s, n1, f2, t3);
        assert(u64::parse(s) == Ok::<(u64, nat), DecodeError>((self.id, f0.len()))) by {
            self.id.lemma_round_trip(t1);
        }
        assert(u64::parse(s.skip(n0)) == Ok::<(u64, nat), DecodeError>((self.code, f1.len()))) by {
            self.code.lemma_round_trip(t2);
        }
        assert(u64::parse(s.skip(n1)) == Ok::<(u64, nat), DecodeError>((self.count, f2.len()))) by {
            self.count.lemma_round_trip(t3);
        }
        assert(String::parse(s.skip(n2)) == Ok::<(Seq<char>, nat), DecodeError>(
            (self.reason@, f3.len()),
        )) by {
            self.reason.lemma_round_trip(rest);
        }
        lemma_subscribe_done_steps(s, self@, f0.len(), f1.len(), f2.len(), f3.len());
    }
}

} // verus!
