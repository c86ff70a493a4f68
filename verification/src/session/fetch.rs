//! The subscriber's side of a fetch: the request that goes out, and what
//! comes back for it.

use vstd::prelude::*;
use crate::coding::params::Params;
use crate::coding::tuple::Tuple;
use crate::data::fetch::FetchHeader;
use crate::message::control::{Message, MessageView};
use crate::message::fetch::{Fetch as FetchMessage, FetchView};
use crate::message::fetch_cancel::FetchCancel;
use crate::message::group_order::GroupOrder;
use crate::message::subscribe::SubscribePair;
use crate::serve::error::{check_open, ServeError};
use crate::serve::track::{StreamWriter, TrackState, TrackWriter, TrackWriterMode};
use crate::session::outbox::Subscriber;
use crate::watch::queue::Wait;
use crate::watch::state::State;

verus! {

/// What the two sides of an outgoing fetch share: whether it was accepted,
/// and the error that it was closed with.
pub struct FetchState {
    pub ok: bool,
    pub closed: Result<(), ServeError>,
}

impl Default for FetchState {
    fn default() -> (r: Self)
        ensures
            !r.ok,
            r.closed is Ok,
    {
        FetchState { ok: false, closed: Ok(()) }
    }
}

/// What a fetch is for.
#[derive(Debug, PartialEq, Eq)]
pub struct FetchInfo {
    pub namespace: Tuple,
    pub name: String,
}

/// What a fetch is for.
pub struct FetchInfoView {
    pub namespace: Seq<Seq<u8>>,
    pub name: Seq<char>,
}

impl View for FetchInfo {
    type V = FetchInfoView;

    open spec fn view(&self) -> FetchInfoView {
        FetchInfoView { namespace: self.namespace@, name: self.name@ }
    }
}

impl Clone for FetchInfo {
    fn clone(&self) -> (r: Self)
        ensures
            r@ == self@,
    {
        FetchInfo { namespace: self.namespace.clone(), name: self.name.clone() }
    }
}

/// The subscriber's handle on a fetch that it asked for.
#[derive(Debug, PartialEq, Eq)]
pub struct Fetch {
    pub id: u64,
    pub info: FetchInfo,
}

/// The session's handle on a fetch that the subscriber asked for: the right
/// to write what arrives into the subscriber's track.
#[derive(Debug, PartialEq, Eq)]
pub struct FetchRecv {
    pub writer: Option<TrackWriterMode>,
}

impl Fetch {
    /// What the fetch message for a track says: the range from `start` to
    /// `end`, both within, the order in which its groups are to come, and
    /// the priority of the subscriber. It carries no parameters.
    pub open spec fn request(
        id: u64,
        track: &TrackWriter,
        start: SubscribePair,
        end: SubscribePair,
        group_order: GroupOrder,
        priority: u8,
    ) -> FetchView {
        FetchView {
            id,
            track_namespace: track.info.namespace@,
            track_name: track.info.name@,
            subscriber_priority: priority,
            group_order,
            start_group: start.group,
            start_object: start.object,
            end_group: end.group,
            end_object: end.object,
            params: Map::empty(),
        }
    }

    /// Asks for a range of a track: queues the fetch message, and hands out
    /// the two handles of the fetch and what they share.
    pub fn new(
        subscriber: &mut Subscriber,
        id: u64,
        track: TrackWriter,
        start: SubscribePair,
        end: SubscribePair,
        group_order: GroupOrder,
        priority: u8,
    ) -> (r: (Fetch, FetchRecv, State<FetchState>))
        ensures
            final(subscriber).closed() == old(subscriber).closed(),
            final(subscriber).next_id() == old(subscriber).next_id(),
            final(subscriber).sent() == if old(subscriber).closed() {
                old(subscriber).sent()
            } else {
                old(subscriber).sent().push(
                    MessageView::Fetch(
                        Self::request(id, &track, start, end, group_order, priority),
                    ),
                )
            },
            r.0.id == id,
            r.0.info@ == (FetchInfoView {
                namespace: track.info.namespace@,
                name: track.info.name@,
            }),
            r.1.writer == Some(TrackWriterMode::Track(track)),
            !r.2.value().ok,
            r.2.value().closed is Ok,
            r.2.epoch() == 0,
            !r.2.dropped(),
    {
        subscriber.send_message(
            Message::Fetch(
                FetchMessage {
                    id,
                    track_namespace: track.info.namespace.clone(),
                    track_name: track.info.name.clone(),
                    subscriber_priority: priority,
                    group_order,
                    start_group: start.group,
                    start_object: start.object,
                    end_group: end.group,
                    end_object: end.object,
                    params: Params::new(),
                },
            ),
        );
        let info = FetchInfo {
            namespace: track.info.namespace.clone(),
            name: track.info.name.clone(),
        };
        let send = Fetch { id, info };
        let recv = FetchRecv { writer: Some(TrackWriterMode::Track(track)) };
        (send, recv, State::new(FetchState::default()))
    }

    /// Whether the fetch has come to an end: with the error that it was
    /// closed with, or without one once the session let go of it. While
    /// neither is so, the answer is to wait.
    pub fn closed(&self, state: &State<FetchState>) -> (r: Wait<Result<(), ServeError>>)
        ensures
            match state.value().closed {
                Err(e) => r == Wait::Ready(Err::<(), ServeError>(e)),
                Ok(_) => if state.dropped() {
                    r matches Wait::Ready(Ok(_))
                } else {
                    r is Pending
                },
            },
    {
        match check_open(&state.lock().closed) {
            Err(e) => Wait::Ready(Err(e)),
            Ok(()) => match state.modified() {
                Some(_) => Wait::Pending,
                None => Wait::Ready(Ok(())),
            },
        }
    }

    /// Lets go of the fetch: queues the message that cancels it, and leaves
    /// what the two sides share as it is from now on.
    pub fn drop(self, subscriber: &mut Subscriber, state: &mut State<FetchState>)
        ensures
            final(subscriber).closed() == old(subscriber).closed(),
            final(subscriber).next_id() == old(subscriber).next_id(),
            final(subscriber).sent() == if old(subscriber).closed() {
                old(subscriber).sent()
            } else {
                old(subscriber).sent().push(MessageView::FetchCancel(FetchCancel { id: self.id }))
            },
            final(state).dropped(),
            final(state).value() == old(state).value(),
            final(state).epoch() == old(state).epoch().wrapping_add(1),
    {
        subscriber.send_message(Message::FetchCancel(FetchCancel { id: self.id }));
        state.release();
    }
}

impl FetchRecv {
    /// The fetch was accepted. It is accepted once: a second acceptance is
    /// refused as a duplicate.
    pub fn ok(&mut self, state: &mut State<FetchState>) -> (r: Result<(), ServeError>)
        ensures
            *final(self) == *old(self),
            if old(state).value().ok {
                r == Err::<(), ServeError>(ServeError::Duplicate) && *final(state) == *old(state)
            } else if old(state).dropped() {
                r is Ok && *final(state) == *old(state)
            } else {
                &&& r is Ok
                &&& final(state).value().ok
                &&& final(state).value().closed == old(state).value().closed
                &&& final(state).epoch() == old(state).epoch().wrapping_add(1)
                &&& !final(state).dropped()
            },
    {
        if state.lock().ok {
            return Err(ServeError::Duplicate);
        }
        match state.lock_mut() {
            Some(shared) => {
                shared.ok = true;
            },
            None => {},
        }
        Ok(())
    }

    /// Why the stream that answers the fetch cannot be taken up, if so: the
    /// handle has lost its track, the track is in a mode other than stream
    /// mode, or the track refuses.
    pub open spec fn stream_error(&self, track: &TrackState) -> Option<ServeError> {
        match self.writer {
            None => Some(ServeError::Done),
            Some(TrackWriterMode::Track(_)) => track.entry_error(),
            Some(TrackWriterMode::Stream(_)) => None,
            Some(_) => Some(ServeError::Mode),
        }
    }

    /// The stream that answers the fetch has arrived: puts the track into
    /// stream mode if it is in none, and hands out the right to write it. A
    /// handle that fails loses its track.
    pub fn stream(&mut self, track: &mut TrackState, header: FetchHeader) -> (r: Result<
        StreamWriter,
        ServeError,
    >)
        ensures
            old(track).wf() ==> final(track).wf(),
            final(track).latest_of() == old(track).latest_of(),
            match r {
                Ok(writer) => {
                    &&& old(self).stream_error(old(track)) is None
                    &&& final(self).writer matches Some(TrackWriterMode::Stream(kept))
                        && kept.info@ == writer.info@ && kept.priority == writer.priority
                    &&& match old(self).writer->0 {
                        TrackWriterMode::Track(init) => {
                            &&& writer.info@ == init.info@
                            &&& writer.priority == 0
                            &&& final(track).mode() is Stream
                            &&& final(track).priority() == 0
                            &&& final(track).stream().len() == 0
                            &&& final(track).refusal() is None
                            &&& final(track).ended() == old(track).ended()
                        },
                        TrackWriterMode::Stream(held) => {
                            &&& writer.info@ == held.info@
                            &&& writer.priority == held.priority
                            &&& *final(track) == *old(track)
                        },
                        _ => false,
                    }
                },
                Err(e) => {
                    &&& old(self).stream_error(old(track)) == Some(e)
                    &&& final(self).writer is None
                    &&& *final(track) == *old(track)
                },
            },
    {
        let writer = match self.writer.take() {
            Some(writer) => writer,
            None => {
                return Err(ServeError::Done);
            },
        };
        let stream = match writer {
            TrackWriterMode::Track(init) => init.stream(track, 0)?,
            TrackWriterMode::Stream(stream) => stream,
            _ => {
                return Err(ServeError::Mode);
            },
        };
        let writer = stream.clone();
        self.writer = Some(TrackWriterMode::Stream(stream));
        Ok(writer)
    }
}

} // verus!
