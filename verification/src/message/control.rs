//! Control messages as they travel on the control stream: the type, the
//! length, and the message.

use vstd::prelude::*;
use crate::coding::bytestring::{lemma_skip_field, lemma_skip_prefix};
use crate::coding::error::{DecodeError, EncodeError};
use crate::coding::traits::{read_field, Decode, Encode, RoundTrip};
use crate::coding::varint::{
    lemma_varint_lengths, lemma_varint_round_trip, read_varint, varint_parse, varint_wire,
    write_varint, VARINT_MAX,
};
use crate::message::fetch::{Fetch, FetchView};
use crate::message::fetch_cancel::FetchCancel;
use crate::message::fetch_ok::{FetchOk, FetchOkView};
use crate::message::subscribe::{Subscribe, SubscribeView};
use crate::message::subscribe_done::{SubscribeDone, SubscribeDoneView};
use crate::message::subscribe_error::{SubscribeError, SubscribeErrorView};
use crate::message::subscribe_namespace_ok::{SubscribeNamespaceOk, SubscribeNamespaceOkView};
use crate::message::subscribe_ok::{SubscribeOk, SubscribeOkView};
use crate::message::subscribe_update::{SubscribeUpdate, SubscribeUpdateView};
use crate::message::unsubscribe::Unsubscribe;

verus! {

/// The type of the message that narrows a subscription.
pub const SUBSCRIBE_UPDATE: u64 = 0x2;

/// The type of the message that asks for a track.
pub const SUBSCRIBE: u64 = 0x3;

/// The type of the message that accepts a subscription.
pub const SUBSCRIBE_OK: u64 = 0x4;

/// The type of the message that refuses a subscription.
pub const SUBSCRIBE_ERROR: u64 = 0x5;

/// The type of the message that ends a subscription.
pub const UNSUBSCRIBE: u64 = 0xA;

/// The type of the message that ends a subscription that was accepted.
pub const SUBSCRIBE_DONE: u64 = 0xB;

/// The type of the message that accepts a subscription to a namespace.
pub const SUBSCRIBE_NAMESPACE_OK: u64 = 0x12;

/// The type of the message that asks for a range of a track.
pub const FETCH: u64 = 0x16;

/// The type of the message that gives up a fetch.
pub const FETCH_CANCEL: u64 = 0x17;

/// The type of the message that accepts a fetch.
pub const FETCH_OK: u64 = 0x18;

/// A control message of any type.
#[derive(Debug, PartialEq, Eq)]
pub enum Message {
    SubscribeUpdate(SubscribeUpdate),
    Subscribe(Subscribe),
    SubscribeOk(SubscribeOk),
    SubscribeError(SubscribeError),
    Unsubscribe(Unsubscribe),
    SubscribeDone(SubscribeDone),
    SubscribeNamespaceOk(SubscribeNamespaceOk),
    Fetch(Fetch),
    FetchCancel(FetchCancel),
    FetchOk(FetchOk),
}

/// What a control message says.
pub enum MessageView {
    SubscribeUpdate(SubscribeUpdateView),
    Subscribe(SubscribeView),
    SubscribeOk(SubscribeOkView),
    SubscribeError(SubscribeErrorView),
    Unsubscribe(Unsubscribe),
    SubscribeDone(SubscribeDoneView),
    SubscribeNamespaceOk(SubscribeNamespaceOkView),
    Fetch(FetchView),
    FetchCancel(FetchCancel),
    FetchOk(FetchOkView),
}

impl View for Message {
    type V = MessageView;

    open spec fn view(&self) -> MessageView {
        match self {
            Message::SubscribeUpdate(m) => MessageView::SubscribeUpdate(m@),
            Message::Subscribe(m) => MessageView::Subscribe(m@),
            Message::SubscribeOk(m) => MessageView::SubscribeOk(m@),
            Message::SubscribeError(m) => MessageView::SubscribeError(m@),
            Message::Unsubscribe(m) => MessageView::Unsubscribe(*m),
            Message::SubscribeDone(m) => MessageView::SubscribeDone(m@),
            Message::SubscribeNamespaceOk(m) => MessageView::SubscribeNamespaceOk(m@),
            Message::Fetch(m) => MessageView::Fetch(m@),
            Message::FetchCancel(m) => MessageView::FetchCancel(*m),
            Message::FetchOk(m) => MessageView::FetchOk(m@),
        }
    }
}

impl Message {
    /// The type that the message begins with on the wire.
    pub open spec fn kind(&self) -> u64 {
        match self {
            Message::SubscribeUpdate(_) => SUBSCRIBE_UPDATE,
            Message::Subscribe(_) => SUBSCRIBE,
            Message::SubscribeOk(_) => SUBSCRIBE_OK,
            Message::SubscribeError(_) => SUBSCRIBE_ERROR,
            Message::Unsubscribe(_) => UNSUBSCRIBE,
            Message::SubscribeDone(_) => SUBSCRIBE_DONE,
            Message::SubscribeNamespaceOk(_) => SUBSCRIBE_NAMESPACE_OK,
            Message::Fetch(_) => FETCH,
            Message::FetchCancel(_) => FETCH_CANCEL,
            Message::FetchOk(_) => FETCH_OK,
        }
    }

    /// The wire form of the message without its type and its length.
    pub open spec fn body(&self) -> Seq<u8> {
        match self {
            Message::SubscribeUpdate(m) => m.wire(),
            Message::Subscribe(m) => m.wire(),
            Message::SubscribeOk(m) => m.wire(),
            Message::SubscribeError(m) => m.wire(),
            Message::Unsubscribe(m) => m.wire(),
            Message::SubscribeDone(m) => m.wire(),
            Message::SubscribeNamespaceOk(m) => m.wire(),
            Message::Fetch(m) => m.wire(),
            Message::FetchCancel(m) => m.wire(),
            Message::FetchOk(m) => m.wire(),
        }
    }

    /// Why the message without its type and its length cannot be written,
    /// if so.
    pub open spec fn body_error(&self) -> Option<EncodeError> {
        match self {
            Message::SubscribeUpdate(m) => m.encode_error(),
            Message::Subscribe(m) => m.encode_error(),
            Message::SubscribeOk(m) => m.encode_error(),
            Message::SubscribeError(m) => m.encode_error(),
            Message::Unsubscribe(m) => m.encode_error(),
            Message::SubscribeDone(m) => m.encode_error(),
            Message::SubscribeNamespaceOk(m) => m.encode_error(),
            Message::Fetch(m) => m.encode_error(),
            Message::FetchCancel(m) => m.encode_error(),
            Message::FetchOk(m) => m.encode_error(),
        }
    }

    /// Whether the message without its type and its length reads back as
    /// it is.
    pub open spec fn body_faithful(&self) -> bool {
        match self {
            Message::SubscribeUpdate(m) => m.faithful(),
            Message::Subscribe(m) => m.faithful(),
            Message::SubscribeOk(m) => m.faithful(),
            Message::SubscribeError(m) => m.faithful(),
            Message::Unsubscribe(m) => m.faithful(),
            Message::SubscribeDone(m) => m.faithful(),
            Message::SubscribeNamespaceOk(m) => m.faithful(),
            Message::Fetch(m) => m.faithful(),
            Message::FetchCancel(m) => m.faithful(),
            Message::FetchOk(m) => m.faithful(),
        }
    }

    /// The type that the message begins with on the wire.
    pub fn id(&self) -> (r: u64)
        ensures
            r == self.kind(),
    {
        match self {
            Message::SubscribeUpdate(_) => SUBSCRIBE_UPDATE,
            Message::Subscribe(_) => SUBSCRIBE,
            Message::SubscribeOk(_) => SUBSCRIBE_OK,
            Message::SubscribeError(_) => SUBSCRIBE_ERROR,
            Message::Unsubscribe(_) => UNSUBSCRIBE,
            Message::SubscribeDone(_) => SUBSCRIBE_DONE,
            Message::SubscribeNamespaceOk(_) => SUBSCRIBE_NAMESPACE_OK,
            Message::Fetch(_) => FETCH,
            Message::FetchCancel(_) => FETCH_CANCEL,
            Message::FetchOk(_) => FETCH_OK,
        }
    }

    fn write_body(&self, out: &mut Vec<u8>) -> (r: Result<(), EncodeError>)
        ensures
            match r {
                Ok(()) => self.body_error() is None && final(out)@ == old(out)@ + self.body(),
                Err(e) => self.body_error() == Some(e) && final(out)@ == old(out)@,
            },
    {
        match self {
            Message::SubscribeUpdate(m) => m.write(out),
            Message::Subscribe(m) => m.write(out),
            Message::SubscribeOk(m) => m.write(out),
            Message::SubscribeError(m) => m.write(out),
            Message::Unsubscribe(m) => m.write(out),
            Message::SubscribeDone(m) => m.write(out),
            Message::SubscribeNamespaceOk(m) => m.write(out),
            Message::Fetch(m) => m.write(out),
            Message::FetchCancel(m) => m.write(out),
            Message::FetchOk(m) => m.write(out),
        }
    }
}

/// The side of a session that a message is for.
#[derive(Clone, Copy, Debug, PartialEq, Eq, Structural)]
pub enum Role {
    /// The side that serves tracks.
    Publisher,
    /// The side that asks for tracks.
    Subscriber,
}

impl Message {
    /// The side that the message is for: what asks for something, narrows it
    /// or ends it goes to the publisher, and every answer to the subscriber.
    pub fn receiver(&self) -> (r: Role)
        ensures
            r == match self {
                Message::Subscribe(_) => Role::Publisher,
                Message::SubscribeUpdate(_) => Role::Publisher,
                Message::Unsubscribe(_) => Role::Publisher,
                Message::Fetch(_) => Role::Publisher,
                Message::FetchCancel(_) => Role::Publisher,
                Message::SubscribeOk(_) => Role::Subscriber,
                Message::SubscribeError(_) => Role::Subscriber,
                Message::SubscribeDone(_) => Role::Subscriber,
                Message::SubscribeNamespaceOk(_) => Role::Subscriber,
                Message::FetchOk(_) => Role::Subscriber,
            },
    {
        match self {
            Message::Subscribe(_) => Role::Publisher,
            Message::SubscribeUpdate(_) => Role::Publisher,
            Message::Unsubscribe(_) => Role::Publisher,
            Message::Fetch(_) => Role::Publisher,
            Message::FetchCancel(_) => Role::Publisher,
            Message::SubscribeOk(_) => Role::Subscriber,
            Message::SubscribeError(_) => Role::Subscriber,
            Message::SubscribeDone(_) => Role::Subscriber,
            Message::SubscribeNamespaceOk(_) => Role::Subscriber,
            Message::FetchOk(_) => Role::Subscriber,
        }
    }
}

/// Reads the message of the given type off the front of `s`.
pub open spec fn body_parse(kind: u64, s: Seq<u8>) -> Result<(MessageView, nat), DecodeError> {
    if kind == SUBSCRIBE_UPDATE {
        match SubscribeUpdate::parse(s) {
            Err(e) => Err(e),
            Ok((m, n)) => Ok((MessageView::SubscribeUpdate(m), n)),
        }
    } else if kind == SUBSCRIBE {
        match Subscribe::parse(s) {
            Err(e) => Err(e),
            Ok((m, n)) => Ok((MessageView::Subscribe(m), n)),
        }
    } else if kind == SUBSCRIBE_OK {
        match SubscribeOk::parse(s) {
            Err(e) => Err(e),
            Ok((m, n)) => Ok((MessageView::SubscribeOk(m), n)),
        }
    } else if kind == SUBSCRIBE_ERROR {
        match SubscribeError::parse(s) {
            Err(e) => Err(e),
            Ok((m, n)) => Ok((MessageView::SubscribeError(m), n)),
        }
    } else if kind == UNSUBSCRIBE {
        match Unsubscribe::parse(s) {
            Err(e) => Err(e),
            Ok((m, n)) => Ok((MessageView::Unsubscribe(m), n)),
        }
    } else if kind == SUBSCRIBE_DONE {
        match SubscribeDone::parse(s) {
            Err(e) => Err(e),
            Ok((m, n)) => Ok((MessageView::SubscribeDone(m), n)),
        }
    } else if kind == SUBSCRIBE_NAMESPACE_OK {
        match SubscribeNamespaceOk::parse(s) {
            Err(e) => Err(e),
            Ok((m, n)) => Ok((MessageView::SubscribeNamespaceOk(m), n)),
        }
    } else if kind == FETCH {
        match Fetch::parse(s) {
            Err(e) => Err(e),
            Ok((m, n)) => Ok((MessageView::Fetch(m), n)),
        }
    } else if kind == FETCH_CANCEL {
        match FetchCancel::parse(s) {
            Err(e) => Err(e),
            Ok((m, n)) => Ok((MessageView::FetchCancel(m), n)),
        }
    } else if kind == FETCH_OK {
        match FetchOk::parse(s) {
            Err(e) => Err(e),
            Ok((m, n)) => Ok((MessageView::FetchOk(m), n)),
        }
    } else {
        Err(DecodeError::InvalidMessage(kind))
    }
}

/// Reads a control message off the front of `s`: its type, its length, and
/// the message of that type. The length tells whether the message has
/// arrived in full, and is not held against what the message takes.
pub open spec fn message_parse(s: Seq<u8>) -> Result<(MessageView, nat), DecodeError> {
    match varint_parse(s) {
        Err(e) => Err(e),
        Ok((kind, n0)) => match varint_parse(s.skip(n0 as int)) {
            Err(e) => Err(e),
            Ok((len, n1)) => if s.len() - n0 - n1 < len {
                Err(DecodeError::UnexpectedEnd)
            } else {
                match body_parse(kind, s.skip((n0 + n1) as int)) {
                    Err(e) => Err(e),
                    Ok((message, n2)) => Ok((message, n0 + n1 + n2)),
                }
            },
        },
    }
}

/// Reads the message of the given type from `data` at `pos`.
fn read_body(kind: u64, data: &[u8], pos: usize) -> (r: Result<(Message, usize), DecodeError>)
    requires
        pos <= data@.len(),
    ensures
        match body_parse(kind, data@.skip(pos as int)) {
            Ok((value, len)) => r matches Ok((v, next)) && v@ == value && next == pos + len && next
                <= data@.len(),
            Err(e) => r matches Err(got) && got == e,
        },
{
    if kind == SUBSCRIBE_UPDATE {
        let (m, next) = SubscribeUpdate::read(data, pos)?;
        Ok((Message::SubscribeUpdate(m), next))
    } else if kind == SUBSCRIBE {
        let (m, next) = Subscribe::read(data, pos)?;
        Ok((Message::Subscribe(m), next))
    } else if kind == SUBSCRIBE_OK {
        let (m, next) = SubscribeOk::read(data, pos)?;
        Ok((Message::SubscribeOk(m), next))
    } else if kind == SUBSCRIBE_ERROR {
        let (m, next) = SubscribeError::read(data, pos)?;
        Ok((Message::SubscribeError(m), next))
    } else if kind == UNSUBSCRIBE {
        let (m, next) = Unsubscribe::read(data, pos)?;
        Ok((Message::Unsubscribe(m), next))
    } else if kind == SUBSCRIBE_DONE {
        let (m, next) = SubscribeDone::read(data, pos)?;
        Ok((Message::SubscribeDone(m), next))
    } else if kind == SUBSCRIBE_NAMESPACE_OK {
        let (m, next) = SubscribeNamespaceOk::read(data, pos)?;
        Ok((Message::SubscribeNamespaceOk(m), next))
    } else if kind == FETCH {
        let (m, next) = Fetch::read(data, pos)?;
        Ok((Message::Fetch(m), next))
    } else if kind == FETCH_CANCEL {
        let (m, next) = FetchCancel::read(data, pos)?;
        Ok((Message::FetchCancel(m), next))
    } else if kind == FETCH_OK {
        let (m, next) = FetchOk::read(data, pos)?;
        Ok((Message::FetchOk(m), next))
    } else {
        Err(DecodeError::InvalidMessage(kind))
    }
}

impl Encode for Message {
    open spec fn wire(&self) -> Seq<u8> {
        varint_wire(self.kind()) + varint_wire(self.body().len() as u64) + self.body()
    }

    open spec fn encode_error(&self) -> Option<EncodeError> {
        if self.body_error() is Some {
            self.body_error()
        } else if self.body().len() > VARINT_MAX {
            Some(EncodeError::BoundsExceeded)
        } else {
            None
        }
    }

    fn write(&self, out: &mut Vec<u8>) -> (r: Result<(), EncodeError>) {
        let mut body: Vec<u8> = Vec::new();
        self.write_body(&mut body)?;
        if body.len() as u64 > VARINT_MAX {
            return Err(EncodeError::BoundsExceeded);
        }
        write_varint(self.id(), out);
        write_varint(body.len() as u64, out);
        out.extend_from_slice(body.as_slice());
        Ok(())
    }
}

impl Decode for Message {
    open spec fn parse(s: Seq<u8>) -> Result<(MessageView, nat), DecodeError> {
        message_parse(s)
    }

    fn read(data: &[u8], pos: usize) -> (r: Result<(Self, usize), DecodeError>) {
        let (kind, at1) = read_varint(data, pos)?;
        let (len, at2) = read_field::<u64>(data, pos, at1)?;
        if ((data.len() - at2) as u64) < len {
            return Err(DecodeError::UnexpectedEnd);
        }
        proof {
            crate::coding::bytestring::lemma_skip_twice(data@, pos as int, at2 - pos);
        }
        read_body(kind, data, at2)
    }
}

impl RoundTrip for Message {
    open spec fn faithful(&self) -> bool {
        self.body_faithful()
    }

    proof fn lemma_round_trip(&self, rest: Seq<u8>) {
        let kind = self.kind();
        let body = self.body();
        let len = body.len() as u64;
        let s = self.wire() + rest;
        let f0 = varint_wire(kind);
        let f1 = varint_wire(len);
        lemma_varint_lengths(kind);
        lemma_varint_lengths(len);
        assert(s =~= f0 + (f1 + (body + rest)));
        lemma_varint_round_trip(kind, f1 + (body + rest));
        lemma_skip_prefix(f0, f1 + (body + rest));
        lemma_varint_round_trip(len, body + rest);
        lemma_skip_field(s, f0.len() as int, f1, body + rest);
        match self {
            Message::SubscribeUpdate(m) => m.lemma_round_trip(rest),
            Message::Subscribe(m) => m.lemma_round_trip(rest),
            Message::SubscribeOk(m) => m.lemma_round_trip(rest),
            Message::SubscribeError(m) => m.lemma_round_trip(rest),
            Message::Unsubscribe(m) => m.lemma_round_trip(rest),
            Message::SubscribeDone(m) => m.lemma_round_trip(rest),
            Message::SubscribeNamespaceOk(m) => m.lemma_round_trip(rest),
            Message::Fetch(m) => m.lemma_round_trip(rest),
            Message::FetchCancel(m) => m.lemma_round_trip(rest),
            Message::FetchOk(m) => m.lemma_round_trip(rest),
        }
    }
}

} // verus!
