//! The publisher's side of a subscription: the answer that goes out, the
//! objects that follow it, and the message that ends it.

use vstd::prelude::*;
use crate::coding::params::Params;
use crate::coding::traits::Encode;
use crate::data::datagram::{datagram_frame, write_datagram, Datagram};
use crate::data::header::Header;
use crate::data::subgroup::{SubgroupHeader, SubgroupObject};
use crate::data::track::{TrackHeader, TrackObject};
use crate::message::control::{Message, MessageView};
use crate::message::filter_type::FilterType;
use crate::message::group_order::GroupOrder;
use crate::message::subscribe::Subscribe as SubscribeMessage;
use crate::message::subscribe_done::{SubscribeDone, SubscribeDoneView};
use crate::message::subscribe_error::{SubscribeError, SubscribeErrorView};
use crate::message::subscribe_ok::{SubscribeOk, SubscribeOkView};
use crate::serve::error::{check_open, ServeError};
use crate::serve::channel::Next;
use crate::serve::track::{
    Datagram as TrackDatagram, DatagramsReader, Object, StreamObject, StreamReader, SubgroupReader,
    SubgroupsReader, TrackReader, TrackState,
};
use crate::session::error::SessionError;
use crate::session::outbox::Publisher;
use crate::session::subscribe::{
    SubscribeFilter,
    SubscribeInfo,
    SubscribeInfoView,
    DEFAULT_PRIORITY,
};
use crate::watch::queue::Wait;
use crate::watch::state::State;

verus! {

/// What the two sides of an incoming subscription share.
#[derive(Debug, PartialEq, Eq)]
pub struct SubscribedState {
    /// The largest group that anything was sent of.
    pub max_group_id: Option<u64>,
    /// How many data streams were opened.
    pub stream_count: u64,
    /// Which objects the subscriber asked for.
    pub filter: SubscribeFilter,
    pub priority: u8,
    /// The error that the subscription was closed with.
    pub closed: Result<(), ServeError>,
}

impl Default for SubscribedState {
    fn default() -> (r: Self)
        ensures
            r.max_group_id is None,
            r.stream_count == 0,
            r.filter == SubscribeFilter::LatestObject,
            r.priority == DEFAULT_PRIORITY,
            r.closed is Ok,
    {
        SubscribedState {
            max_group_id: None,
            stream_count: 0,
            filter: SubscribeFilter::LatestObject,
            priority: DEFAULT_PRIORITY,
            closed: Ok(()),
        }
    }
}

/// The larger of the largest group so far and a new one.
pub open spec fn larger_group(max_group_id: Option<u64>, group_id: u64) -> Option<u64> {
    match max_group_id {
        Some(known) => if group_id > known {
            Some(group_id)
        } else {
            Some(known)
        },
        None => Some(group_id),
    }
}

impl SubscribedState {
    /// Notes that something of the given group was sent.
    pub fn update_max_group_id(&mut self, group_id: u64) -> (r: Result<(), ServeError>)
        ensures
            r is Ok,
            final(self).max_group_id == larger_group(old(self).max_group_id, group_id),
            final(self).stream_count == old(self).stream_count,
            final(self).filter == old(self).filter,
            final(self).priority == old(self).priority,
            final(self).closed == old(self).closed,
    {
        let newer = match self.max_group_id {
            Some(known) => group_id > known,
            None => true,
        };
        if newer {
            self.max_group_id = Some(group_id);
        }
        Ok(())
    }

    /// Notes that a data stream was opened. The count stays at its largest
    /// value once it has reached it.
    pub fn increment_stream_count(&mut self) -> (r: Result<(), ServeError>)
        ensures
            r is Ok,
            final(self).stream_count == if old(self).stream_count < u64::MAX {
                (old(self).stream_count + 1) as u64
            } else {
                u64::MAX
            },
            final(self).max_group_id == old(self).max_group_id,
            final(self).filter == old(self).filter,
            final(self).priority == old(self).priority,
            final(self).closed == old(self).closed,
    {
        if self.stream_count < u64::MAX {
            self.stream_count = self.stream_count + 1;
        }
        Ok(())
    }
}

/// The publisher's handle on a subscription that a subscriber asked for.
#[derive(Debug, PartialEq, Eq)]
pub struct Subscribed {
    /// Whether the subscription was accepted, so that it ends with a
    /// subscribe-done message and not with a subscribe-error message.
    pub ok: bool,
    pub info: SubscribeInfo,
}

/// The session's handle on a subscription that a subscriber asked for.
#[derive(Debug, PartialEq, Eq)]
pub struct SubscribedRecv {
    /// The number of the subscription.
    pub id: u64,
}

/// The error that a subscription ends with: the one that it was closed with,
/// or `Done` where it was not closed.
pub open spec fn ending(closed: Result<(), ServeError>) -> ServeError {
    match closed {
        Err(e) => e,
        Ok(_) => ServeError::Done,
    }
}

impl Subscribed {
    /// Takes up a subscription that a subscriber asked for: hands out the two
    /// handles of the subscription and what they share.
    pub fn new(message: SubscribeMessage) -> (r: (Self, SubscribedRecv, State<SubscribedState>))
        requires
            SubscribeFilter::spelled_out(&message),
        ensures
            !r.0.ok,
            r.0.info@ == (SubscribeInfoView {
                id: message.id,
                namespace: message.track_namespace@,
                name: message.track_name@,
                alias: message.track_alias,
            }),
            r.1.id == message.id,
            r.2.value().max_group_id is None,
            r.2.value().stream_count == 0,
            r.2.value().filter == match message.filter_type {
                FilterType::LatestObject => SubscribeFilter::LatestObject,
                FilterType::AbsoluteStart => SubscribeFilter::AbsoluteStart(
                    message.start->0,
                ),
                FilterType::AbsoluteRange => SubscribeFilter::AbsoluteRange(
                    message.start->0,
                    message.end_group->0,
                ),
            },
            r.2.value().priority == DEFAULT_PRIORITY,
            r.2.value().closed is Ok,
            r.2.epoch() == 0,
            !r.2.dropped(),
    {
        let mut shared = SubscribedState::default();
        shared.filter = SubscribeFilter::from_subscribe(&message);
        let info = SubscribeInfo {
            id: message.id,
            namespace: message.track_namespace,
            name: message.track_name,
            alias: message.track_alias,
        };
        let id = info.id;
        (Subscribed { ok: false, info }, SubscribedRecv { id }, State::new(shared))
    }

    /// What the message that accepts the subscription says: no expiry, the
    /// lowest group first, and the latest place of the track where the track
    /// holds anything. The order is the publisher's own: it forwards the
    /// groups of a track as their writer makes them, whatever order the
    /// subscriber named.
    pub open spec fn acceptance(&self, latest: Option<(u64, u64)>) -> SubscribeOkView {
        SubscribeOkView {
            id: self.info.id,
            track_alias: self.info.alias,
            expires: None,
            group_order: GroupOrder::Ascending,
            content_exists: if latest is Some {
                1
            } else {
                0
            },
            largest_location: latest,
            params: Map::empty(),
        }
    }

    /// Accepts the subscription for a track: notes the latest group of the
    /// track and queues the message that accepts the subscription. A
    /// subscription that the session has let go of is not accepted.
    pub fn serve_inner(
        &mut self,
        publisher: &mut Publisher,
        state: &mut State<SubscribedState>,
        reader: &TrackReader,
        track: &TrackState,
    ) -> (r: Result<(), SessionError>)
        ensures
            final(self).info == old(self).info,
            final(publisher).closed() == old(publisher).closed(),
            if old(state).dropped() {
                &&& r == Err::<(), SessionError>(SessionError::Serve(ServeError::Cancel))
                &&& *final(self) == *old(self)
                &&& *final(state) == *old(state)
                &&& final(publisher).sent() == old(publisher).sent()
            } else {
                &&& r is Ok
                &&& final(self).ok
                &&& final(state).value().max_group_id == match track.latest_of() {
                    Some(latest) => Some(latest.0),
                    None => None,
                }
                &&& final(state).value().stream_count == old(state).value().stream_count
                &&& final(state).value().filter == old(state).value().filter
                &&& final(state).value().priority == old(state).value().priority
                &&& final(state).value().closed == old(state).value().closed
                &&& final(state).epoch() == old(state).epoch().wrapping_add(1)
                &&& !final(state).dropped()
                &&& final(publisher).sent() == if old(publisher).closed() {
                    old(publisher).sent()
                } else {
                    old(publisher).sent().push(
                        MessageView::SubscribeOk(old(self).acceptance(track.latest_of())),
                    )
                }
            },
    {
        let latest = reader.latest(track);
        match state.lock_mut() {
            Some(shared) => {
                shared.max_group_id = match latest {
                    Some(place) => Some(place.0),
                    None => None,
                };
            },
            None => {
                return Err(SessionError::Serve(ServeError::Cancel));
            },
        }
        publisher.send_message(
            Message::SubscribeOk(
                SubscribeOk {
                    id: self.info.id,
                    track_alias: self.info.alias,
                    expires: None,
                    group_order: GroupOrder::Ascending,
                    content_exists: if latest.is_some() {
                        1
                    } else {
                        0
                    },
                    largest_location: latest,
                    params: Params::new(),
                },
            ),
        );
        self.ok = true;
        Ok(())
    }

    /// What the message that ends the subscription says: a subscribe-done
    /// message with the count of the streams where the subscription was
    /// accepted, and a subscribe-error message where it was not.
    pub open spec fn farewell(&self, shared: SubscribedState) -> MessageView {
        if self.ok {
            MessageView::SubscribeDone(
                SubscribeDoneView {
                    id: self.info.id,
                    code: ending(shared.closed).code_of(),
                    count: shared.stream_count,
                    reason: ending(shared.closed).reason_of(),
                },
            )
        } else {
            MessageView::SubscribeError(
                SubscribeErrorView {
                    id: self.info.id,
                    code: ending(shared.closed).code_of(),
                    reason: ending(shared.closed).reason_of(),
                    alias: 0,
                },
            )
        }
    }

    /// Lets go of the subscription: queues the message that ends it, and
    /// leaves what the two sides share as it is from now on.
    pub fn drop(self, publisher: &mut Publisher, state: &mut State<SubscribedState>)
        ensures
            final(publisher).closed() == old(publisher).closed(),
            final(publisher).sent() == if old(publisher).closed() {
                old(publisher).sent()
            } else {
                old(publisher).sent().push(self.farewell(old(state).value()))
            },
            final(state).dropped(),
            final(state).value() == old(state).value(),
            final(state).epoch() == old(state).epoch().wrapping_add(1),
    {
        let (code, reason) = match &state.lock().closed {
            Err(e) => (e.code(), e.reason()),
            Ok(_) => (ServeError::Done.code(), ServeError::Done.reason()),
        };
        let count = state.lock().stream_count;
        if self.ok {
            publisher.send_message(
                Message::SubscribeDone(SubscribeDone { id: self.info.id, code, count, reason }),
            );
        } else {
            publisher.send_message(
                Message::SubscribeError(
                    SubscribeError { id: self.info.id, code, reason, alias: 0 },
                ),
            );
        }
        state.release();
    }

    /// Why the subscription cannot be closed, if so: it is closed already,
    /// or the session has let go of it.
    pub open spec fn close_error(state: &State<SubscribedState>) -> Option<ServeError> {
        match state.value().closed {
            Err(e) => Some(e),
            Ok(_) => if state.dropped() {
                Some(ServeError::Done)
            } else {
                None
            },
        }
    }

    /// What the two sides share once the subscription was closed with `err`,
    /// or was found not to let itself be closed.
    pub open spec fn closed_with(
        shared: SubscribedState,
        closes: bool,
        err: ServeError,
    ) -> SubscribedState {
        if closes {
            SubscribedState { closed: Err(err), ..shared }
        } else {
            shared
        }
    }

    /// Closes the subscription with `err` and lets go of it: the message that
    /// ends the subscription carries the error. A subscription is closed
    /// once; one that is closed already ends with the error of the first
    /// close.
    pub fn close(
        self,
        publisher: &mut Publisher,
        state: &mut State<SubscribedState>,
        err: ServeError,
    ) -> (r: Result<(), ServeError>)
        ensures
            match r {
                Ok(()) => Self::close_error(old(state)) is None,
                Err(e) => Self::close_error(old(state)) == Some(e),
            },
            final(publisher).closed() == old(publisher).closed(),
            final(publisher).sent() == if old(publisher).closed() {
                old(publisher).sent()
            } else {
                old(publisher).sent().push(self.farewell(final(state).value()))
            },
            final(state).dropped(),
            final(state).value() == Self::closed_with(old(state).value(), r is Ok, err),
            final(state).epoch() == if r is Ok {
                old(state).epoch().wrapping_add(1).wrapping_add(1)
            } else {
                old(state).epoch().wrapping_add(1)
            },
    {
        let closing = match check_open(&state.lock().closed) {
            Err(e) => Err(e),
            Ok(()) => match state.lock_mut() {
                Some(shared) => {
                    shared.closed = Err(err);
                    Ok(())
                },
                None => Err(ServeError::Done),
            },
        };
        self.drop(publisher, state);
        closing
    }

    /// Ends the serving of a track with what came of it, and lets go of the
    /// subscription. A failure closes the subscription with its error; where
    /// the subscription does not let itself be closed, that comes back in
    /// place of the failure.
    pub fn serve(
        self,
        publisher: &mut Publisher,
        state: &mut State<SubscribedState>,
        served: Result<(), SessionError>,
    ) -> (r: Result<(), SessionError>)
        ensures
            final(publisher).closed() == old(publisher).closed(),
            final(publisher).sent() == if old(publisher).closed() {
                old(publisher).sent()
            } else {
                old(publisher).sent().push(self.farewell(final(state).value()))
            },
            final(state).dropped(),
            match served {
                Ok(_) => {
                    &&& r is Ok
                    &&& final(state).value() == old(state).value()
                    &&& final(state).epoch() == old(state).epoch().wrapping_add(1)
                },
                Err(failure) => match Self::close_error(old(state)) {
                    Some(e) => {
                        &&& r == Err::<(), SessionError>(SessionError::Serve(e))
                        &&& final(state).value() == old(state).value()
                        &&& final(state).epoch() == old(state).epoch().wrapping_add(1)
                    },
                    None => {
                        &&& r == Err::<(), SessionError>(failure)
                        &&& final(state).value().closed is Err
                        &&& final(state).value().closed->Err_0.code_of() == failure.code_of()
                        &&& final(state).value().closed->Err_0.reason_of() == failure.reason_of()
                        &&& (failure matches SessionError::Serve(e) ==> final(state).value().closed
                            == Err::<(), ServeError>(e))
                        &&& final(state).value().max_group_id == old(state).value().max_group_id
                        &&& final(state).value().stream_count == old(state).value().stream_count
                        &&& final(state).value().filter == old(state).value().filter
                        &&& final(state).value().priority == old(state).value().priority
                        &&& final(state).epoch() == old(state).epoch().wrapping_add(1).wrapping_add(
                            1,
                        )
                    },
                },
            },
    {
        match served {
            Ok(()) => {
                self.drop(publisher, state);
                Ok(())
            },
            Err(failure) => match self.close(publisher, state, failure.clone().into_serve()) {
                Ok(()) => Err(failure),
                Err(e) => Err(SessionError::Serve(e)),
            },
        }
    }

    /// Whether the subscription has come to an end: with the error that it
    /// was closed with, or without one once the session let go of it. While
    /// neither is so, the answer is to wait.
    pub fn closed(&self, state: &State<SubscribedState>) -> (r: Wait<Result<(), ServeError>>)
        ensures
            match state.value().closed {
                Err(e) => r == Wait::Ready(Err::<(), ServeError>(e)),
                Ok(_) => if state.dropped() {
                    r matches Wait::Ready(Ok(_))
                } else {
                    r is Pending
                },
            },
    {
        match check_open(&state.lock().closed) {
            Err(e) => Wait::Ready(Err(e)),
            Ok(()) => match state.modified() {
                Some(_) => Wait::Pending,
                None => Wait::Ready(Ok(())),
            },
        }
    }
}

impl SubscribedRecv {
    /// The subscriber has unsubscribed: closes the subscription with
    /// `Cancel`, unless the publisher has let go of it. A subscription that
    /// is closed already fails with the error that it was closed with.
    pub fn recv_unsubscribe(&mut self, state: &mut State<SubscribedState>) -> (r: Result<
        (),
        ServeError,
    >)
        ensures
            *final(self) == *old(self),
            match old(state).value().closed {
                Err(e) => r == Err::<(), ServeError>(e) && *final(state) == *old(state),
                Ok(_) => if old(state).dropped() {
                    r is Ok && *final(state) == *old(state)
                } else {
                    &&& r is Ok
                    &&& final(state).value() == (SubscribedState {
                        closed: Err(ServeError::Cancel),
                        ..old(state).value()
                    })
                    &&& final(state).epoch() == old(state).epoch().wrapping_add(1)
                    &&& !final(state).dropped()
                },
            },
    {
        check_open(&state.lock().closed)?;
        match state.lock_mut() {
            Some(shared) => {
                shared.closed = Err(ServeError::Cancel);
            },
            None => {},
        }
        Ok(())
    }
}

/// How far one step of serving a stream got.
#[derive(Clone, Copy, Debug, PartialEq, Eq, Structural)]
pub enum Step {
    /// Nothing can be done before the track changes.
    Wait,
    /// An object that the filter holds back was passed over.
    Skip,
    /// The stream is to be opened: its header was written.
    Open,
    /// An object was written to the stream.
    Send,
    /// Nothing more comes: the stream, if one was opened, is complete.
    Finish,
}

/// The serving of one subgroup on a stream of its own.
#[derive(Clone, Copy, Debug, PartialEq, Eq, Structural)]
pub struct SubgroupTask {
    /// What the stream begins with.
    pub header: SubgroupHeader,
    /// How far the subgroup was read.
    pub reader: SubgroupReader,
    /// Whether the header was written.
    pub opened: bool,
}

/// The serving of a whole track on a single stream.
#[derive(Clone, Copy, Debug, PartialEq, Eq, Structural)]
pub struct TrackTask {
    /// What the stream begins with.
    pub header: TrackHeader,
    /// How far the track was read.
    pub reader: StreamReader,
    /// Whether the header was written.
    pub opened: bool,
}

/// The header that stands before an object of a subgroup on its stream.
pub open spec fn subgroup_object(object: &Object) -> SubgroupObject {
    SubgroupObject {
        object_id: object.object_id,
        size: object.payload@.len() as u64,
        status: object.status,
    }
}

/// An object of a subgroup as it goes onto the stream: its header, then its
/// payload.
pub open spec fn subgroup_frame(object: &Object) -> Seq<u8> {
    subgroup_object(object).wire() + object.payload@
}

/// The header that stands before an object of a track on its stream.
pub open spec fn track_object(object: &StreamObject) -> TrackObject {
    TrackObject {
        group_id: object.group_id,
        object_id: object.object_id,
        size: object.payload@.len() as u64,
        status: object.status,
    }
}

/// An object of a track as it goes onto the stream: its header, then its
/// payload.
pub open spec fn track_frame(object: &StreamObject) -> Seq<u8> {
    track_object(object).wire() + object.payload@
}

/// What the two sides share once a stream was opened.
pub open spec fn opened_one(shared: SubscribedState) -> SubscribedState {
    SubscribedState {
        stream_count: if shared.stream_count < u64::MAX {
            (shared.stream_count + 1) as u64
        } else {
            u64::MAX
        },
        ..shared
    }
}

/// What the two sides share once something of the given group was sent.
pub open spec fn sent_of(shared: SubscribedState, group_id: u64) -> SubscribedState {
    SubscribedState { max_group_id: larger_group(shared.max_group_id, group_id), ..shared }
}

impl SubgroupTask {
    /// What the next step of the task comes to.
    pub open spec fn outcome(&self, state: &State<SubscribedState>, track: &TrackState) -> Result<
        Step,
        SessionError,
    > {
        let filter = state.value().filter;
        let group_id = self.reader.info.group_id;
        if !self.opened && filter.excludes_group(group_id) {
            Ok(Step::Finish)
        } else {
            match self.reader.found(track) {
                Next::Pending => Ok(Step::Wait),
                Next::Closed(e) => Err(SessionError::Serve(e)),
                Next::Done => if self.opened {
                    Ok(Step::Finish)
                } else {
                    self.opening()
                },
                Next::Item(object) => if self.opened {
                    match subgroup_object(&object).encode_error() {
                        Some(e) => Err(SessionError::Encode(e)),
                        None => if state.dropped() {
                            Err(SessionError::Serve(ServeError::Done))
                        } else {
                            Ok(Step::Send)
                        },
                    }
                } else if !filter.admits(group_id, object.object_id) {
                    Ok(Step::Skip)
                } else {
                    self.opening()
                },
            }
        }
    }

    /// What asking for the stream comes to.
    pub open spec fn opening(&self) -> Result<Step, SessionError> {
        match Header::Subgroup(self.header).encode_error() {
            Some(e) => Err(SessionError::Encode(e)),
            None => Ok(Step::Open),
        }
    }
}

impl Subscribed {
    /// Takes one step in serving a subgroup on a stream of its own, and
    /// appends to `out` what the step puts onto the stream.
    ///
    /// Before the stream is opened, a subgroup that the filter holds back as
    /// a whole is finished without a stream, and the objects that the filter
    /// holds back at the beginning of the subgroup are passed over one by
    /// one. The stream is asked for, with its header, once an object is to
    /// be sent or the subgroup has ended; it is counted by `stream_opened`
    /// once it is there. Behind the header every object is sent, as its
    /// header and its payload, and its group is noted. A step that fails
    /// changes nothing.
    pub fn serve_subgroup(
        task: &mut SubgroupTask,
        state: &mut State<SubscribedState>,
        track: &TrackState,
        out: &mut Vec<u8>,
    ) -> (r: Result<Step, SessionError>)
        ensures
            r == old(task).outcome(old(state), track),
            final(task).header == old(task).header,
            final(task).reader.info == old(task).reader.info,
            final(task).reader.index == old(task).reader.index,
            match r {
                Ok(Step::Open) => {
                    &&& final(task).opened
                    &&& final(task).reader == old(task).reader
                    &&& final(out)@ == old(out)@ + Header::Subgroup(old(task).header).wire()
                    &&& *final(state) == *old(state)
                },
                Ok(Step::Send) => {
                    &&& final(task).opened
                    &&& final(task).reader.cursor.next == old(task).reader.cursor.next + 1
                    &&& final(out)@ == old(out)@ + subgroup_frame(
                        &old(task).reader.found(track)->Item_0,
                    )
                    &&& final(state).value() == sent_of(
                        old(state).value(),
                        old(task).reader.info.group_id,
                    )
                    &&& final(state).epoch() == old(state).epoch().wrapping_add(1)
                    &&& !final(state).dropped()
                },
                Ok(Step::Skip) => {
                    &&& !final(task).opened
                    &&& final(task).reader.cursor.next == old(task).reader.cursor.next + 1
                    &&& final(out)@ == old(out)@
                    &&& *final(state) == *old(state)
                },
                _ => {
                    &&& *final(task) == *old(task)
                    &&& final(out)@ == old(out)@
                    &&& *final(state) == *old(state)
                },
            },
    {
        let group_id = task.reader.info.group_id;
        let filter = state.lock().filter;
        if !task.opened && filter.exclude_group(group_id) {
            return Ok(Step::Finish);
        }
        let mark: usize = out.len();
        match task.reader.peek(track) {
            Next::Pending => Ok(Step::Wait),
            Next::Closed(e) => Err(SessionError::Serve(e)),
            Next::Item(object) => {
                if task.opened {
                    let header = SubgroupObject {
                        object_id: object.object_id,
                        size: object.payload.len() as u64,
                        status: object.status,
                    };
                    match header.write(out) {
                        Ok(()) => {},
                        Err(e) => {
                            return Err(SessionError::Encode(e));
                        },
                    }
                    match state.lock_mut() {
                        Some(shared) => {
                            let _ = shared.update_max_group_id(group_id);
                        },
                        None => {
                            out.truncate(mark);
                            return Err(SessionError::Serve(ServeError::Done));
                        },
                    }
                    out.extend_from_slice(object.payload.as_slice());
                    let _ = task.reader.next(track);
                    Ok(Step::Send)
                } else if !filter.passes(group_id, object.object_id) {
                    let _ = task.reader.next(track);
                    Ok(Step::Skip)
                } else {
                    Self::open_subgroup(task, out)
                }
            },
            Next::Done => {
                if task.opened {
                    Ok(Step::Finish)
                } else {
                    Self::open_subgroup(task, out)
                }
            },
        }
    }

    fn open_subgroup(task: &mut SubgroupTask, out: &mut Vec<u8>) -> (r: Result<
        Step,
        SessionError,
    >)
        requires
            !old(task).opened,
        ensures
            r == old(task).opening(),
            final(task).header == old(task).header,
            final(task).reader == old(task).reader,
            match r {
                Ok(_) => {
                    &&& final(task).opened
                    &&& final(out)@ == old(out)@ + Header::Subgroup(old(task).header).wire()
                },
                Err(_) => *final(task) == *old(task) && final(out)@ == old(out)@,
            },
    {
        match Header::Subgroup(task.header).write(out) {
            Ok(()) => {},
            Err(e) => {
                return Err(SessionError::Encode(e));
            },
        }
        task.opened = true;
        Ok(Step::Open)
    }

    /// What counting a stream comes to: a subscription that the session has
    /// let go of is done.
    pub open spec fn counting(state: &State<SubscribedState>) -> Result<(), SessionError> {
        if state.dropped() {
            Err(SessionError::Serve(ServeError::Done))
        } else {
            Ok(())
        }
    }

    /// Counts a stream that was opened for the subscription. It is called
    /// once the stream is there, so that a stream that could not be opened
    /// is not counted.
    pub fn stream_opened(state: &mut State<SubscribedState>) -> (r: Result<(), SessionError>)
        ensures
            r == Self::counting(old(state)),
            match r {
                Ok(_) => {
                    &&& final(state).value() == opened_one(old(state).value())
                    &&& final(state).epoch() == old(state).epoch().wrapping_add(1)
                    &&& !final(state).dropped()
                },
                Err(_) => *final(state) == *old(state),
            },
    {
        match state.lock_mut() {
            Some(shared) => {
                let _ = shared.increment_stream_count();
                Ok(())
            },
            None => Err(SessionError::Serve(ServeError::Done)),
        }
    }
}

impl TrackTask {
    /// What the next step of the task comes to.
    pub open spec fn outcome(&self, state: &State<SubscribedState>, track: &TrackState) -> Result<
        Step,
        SessionError,
    > {
        if !self.opened {
            match Header::Track(self.header).encode_error() {
                Some(e) => Err(SessionError::Encode(e)),
                None => Ok(Step::Open),
            }
        } else {
            match self.reader.found(track) {
                Next::Pending => Ok(Step::Wait),
                Next::Closed(e) => Err(SessionError::Serve(e)),
                Next::Done => Ok(Step::Finish),
                Next::Item(object) => match track_object(&object).encode_error() {
                    Some(e) => Err(SessionError::Encode(e)),
                    None => if state.dropped() {
                        Err(SessionError::Serve(ServeError::Done))
                    } else {
                        Ok(Step::Send)
                    },
                },
            }
        }
    }
}

/// The datagram that carries an object of a track to a subscriber.
pub open spec fn datagram_of(info: &SubscribeInfo, object: &TrackDatagram) -> Datagram {
    Datagram {
        subscribe_id: info.id,
        track_alias: info.alias,
        group_id: object.group_id,
        object_id: object.object_id,
        publisher_priority: object.priority,
        object_status: object.status,
        payload: object.payload,
    }
}

impl Subscribed {
    /// The task that serves a track on a single stream, from the beginning
    /// of the track.
    pub fn track_task(&self, reader: StreamReader) -> (r: TrackTask)
        ensures
            r.header == (TrackHeader {
                subscribe_id: self.info.id,
                track_alias: self.info.alias,
                publisher_priority: reader.priority,
            }),
            r.reader == reader,
            !r.opened,
    {
        TrackTask {
            header: TrackHeader {
                subscribe_id: self.info.id,
                track_alias: self.info.alias,
                publisher_priority: reader.priority,
            },
            reader,
            opened: false,
        }
    }

    /// Takes one step in serving a whole track on a single stream, and
    /// appends to `out` what the step puts onto the stream.
    ///
    /// The first step asks for the stream, with its header; the stream is
    /// counted by `stream_opened` once it is there. Behind the header every
    /// object is sent, as its header and its payload, and its group is
    /// noted. A step that fails changes nothing.
    pub fn serve_track(
        &mut self,
        task: &mut TrackTask,
        state: &mut State<SubscribedState>,
        track: &TrackState,
        out: &mut Vec<u8>,
    ) -> (r: Result<Step, SessionError>)
        ensures
            *final(self) == *old(self),
            r == old(task).outcome(old(state), track),
            final(task).header == old(task).header,
            final(task).reader.priority == old(task).reader.priority,
            match r {
                Ok(Step::Open) => {
                    &&& final(task).opened
                    &&& final(task).reader == old(task).reader
                    &&& final(out)@ == old(out)@ + Header::Track(old(task).header).wire()
                    &&& *final(state) == *old(state)
                },
                Ok(Step::Send) => {
                    &&& final(task).opened
                    &&& final(task).reader.cursor.next == old(task).reader.cursor.next + 1
                    &&& final(out)@ == old(out)@ + track_frame(
                        &old(task).reader.found(track)->Item_0,
                    )
                    &&& final(state).value() == sent_of(
                        old(state).value(),
                        (old(task).reader.found(track)->Item_0).group_id,
                    )
                    &&& final(state).epoch() == old(state).epoch().wrapping_add(1)
                    &&& !final(state).dropped()
                },
                _ => {
                    &&& *final(task) == *old(task)
                    &&& final(out)@ == old(out)@
                    &&& *final(state) == *old(state)
                },
            },
    {
        let mark: usize = out.len();
        if !task.opened {
            match Header::Track(task.header).write(out) {
                Ok(()) => {},
                Err(e) => {
                    return Err(SessionError::Encode(e));
                },
            }
            task.opened = true;
            return Ok(Step::Open);
        }
        let mut probe = task.reader;
        match probe.next(track) {
            Next::Pending => Ok(Step::Wait),
            Next::Closed(e) => Err(SessionError::Serve(e)),
            Next::Done => Ok(Step::Finish),
            Next::Item(object) => {
                let header = TrackObject {
                    group_id: object.group_id,
                    object_id: object.object_id,
                    size: object.payload.len() as u64,
                    status: object.status,
                };
                match header.write(out) {
                    Ok(()) => {},
                    Err(e) => {
                        return Err(SessionError::Encode(e));
                    },
                }
                match state.lock_mut() {
                    Some(shared) => {
                        let _ = shared.update_max_group_id(object.group_id);
                    },
                    None => {
                        out.truncate(mark);
                        return Err(SessionError::Serve(ServeError::Done));
                    },
                }
                out.extend_from_slice(object.payload.as_slice());
                task.reader = probe;
                Ok(Step::Send)
            },
        }
    }

    /// Takes one step in serving a track that is written as subgroups: looks
    /// for the next subgroup and hands out the task that serves it on a
    /// stream of its own. A subscription that was closed serves no further
    /// subgroup and fails with the error that it was closed with; one that
    /// the session has let go of is done.
    pub fn serve_subgroups(
        &mut self,
        state: &State<SubscribedState>,
        track: &TrackState,
        reader: &mut SubgroupsReader,
    ) -> (r: Result<Wait<Option<SubgroupTask>>, SessionError>)
        ensures
            *final(self) == *old(self),
            match state.value().closed {
                Err(e) => r == Err::<Wait<Option<SubgroupTask>>, SessionError>(
                    SessionError::Serve(e),
                ) && *final(reader) == *old(reader),
                Ok(_) => if state.dropped() {
                    r == Ok::<Wait<Option<SubgroupTask>>, SessionError>(Wait::Ready(None))
                        && *final(reader) == *old(reader)
                } else {
                    match old(reader).found(track) {
                        Next::Item(subgroup) => {
                            &&& r == Ok::<Wait<Option<SubgroupTask>>, SessionError>(
                                Wait::Ready(
                                    Some(
                                        SubgroupTask {
                                            header: SubgroupHeader {
                                                subscribe_id: old(self).info.id,
                                                track_alias: old(self).info.alias,
                                                group_id: subgroup.info.group_id,
                                                subgroup_id: subgroup.info.subgroup_id,
                                                publisher_priority: subgroup.info.priority,
                                            },
                                            reader: subgroup,
                                            opened: false,
                                        },
                                    ),
                                ),
                            )
                            &&& final(reader).cursor.next == old(reader).cursor.next + 1
                        },
                        Next::Done => r == Ok::<Wait<Option<SubgroupTask>>, SessionError>(
                            Wait::Ready(None),
                        ) && *final(reader) == *old(reader),
                        Next::Closed(e) => r == Err::<Wait<Option<SubgroupTask>>, SessionError>(
                            SessionError::Serve(e),
                        ) && *final(reader) == *old(reader),
                        Next::Pending => r == Ok::<Wait<Option<SubgroupTask>>, SessionError>(
                            Wait::Pending,
                        ) && *final(reader) == *old(reader),
                    }
                },
            },
    {
        match self.closed(state) {
            Wait::Ready(Err(e)) => {
                return Err(SessionError::Serve(e));
            },
            Wait::Ready(Ok(_)) => {
                return Ok(Wait::Ready(None));
            },
            Wait::Pending => {},
        }
        match reader.next(track) {
            Next::Item(subgroup) => Ok(
                Wait::Ready(
                    Some(
                        SubgroupTask {
                            header: SubgroupHeader {
                                subscribe_id: self.info.id,
                                track_alias: self.info.alias,
                                group_id: subgroup.info.group_id,
                                subgroup_id: subgroup.info.subgroup_id,
                                publisher_priority: subgroup.info.priority,
                            },
                            reader: subgroup,
                            opened: false,
                        },
                    ),
                ),
            ),
            Next::Done => Ok(Wait::Ready(None)),
            Next::Closed(e) => Err(SessionError::Serve(e)),
            Next::Pending => Ok(Wait::Pending),
        }
    }

    /// Takes one step in serving a track that is written as datagrams: looks
    /// for the next object and hands out the datagram that carries it, as it
    /// is to be sent, and notes its group. A step that fails changes
    /// nothing.
    pub fn serve_datagrams(
        &mut self,
        state: &mut State<SubscribedState>,
        track: &TrackState,
        reader: &mut DatagramsReader,
    ) -> (r: Result<Wait<Option<Vec<u8>>>, SessionError>)
        ensures
            *final(self) == *old(self),
            match old(reader).found(track) {
                Next::Pending => r matches Ok(Wait::Pending) && *final(reader) == *old(reader)
                    && *final(state) == *old(state),
                Next::Done => r matches Ok(Wait::Ready(None)) && *final(reader) == *old(reader)
                    && *final(state) == *old(state),
                Next::Closed(e) => r == Err::<Wait<Option<Vec<u8>>>, SessionError>(
                    SessionError::Serve(e),
                ) && *final(reader) == *old(reader) && *final(state) == *old(state),
                Next::Item(object) => match datagram_of(&old(self).info, &object).encode_error() {
                    Some(e) => r == Err::<Wait<Option<Vec<u8>>>, SessionError>(
                        SessionError::Encode(e),
                    ) && *final(reader) == *old(reader) && *final(state) == *old(state),
                    None => if old(state).dropped() {
                        r == Err::<Wait<Option<Vec<u8>>>, SessionError>(
                            SessionError::Serve(ServeError::Done),
                        ) && *final(reader) == *old(reader) && *final(state) == *old(state)
                    } else {
                        &&& r matches Ok(Wait::Ready(Some(bytes))) && bytes@ == datagram_frame(
                            &datagram_of(&old(self).info, &object),
                        )
                        &&& final(reader).cursor.next == old(reader).cursor.next + 1
                        &&& final(state).value() == sent_of(old(state).value(), object.group_id)
                        &&& final(state).epoch() == old(state).epoch().wrapping_add(1)
                        &&& !final(state).dropped()
                    },
                },
            },
    {
        let mut probe = *reader;
        match probe.read(track) {
            Next::Pending => Ok(Wait::Pending),
            Next::Done => Ok(Wait::Ready(None)),
            Next::Closed(e) => Err(SessionError::Serve(e)),
            Next::Item(object) => {
                let datagram = Datagram {
                    subscribe_id: self.info.id,
                    track_alias: self.info.alias,
                    group_id: object.group_id,
                    object_id: object.object_id,
                    publisher_priority: object.priority,
                    object_status: object.status,
                    payload: object.payload.clone(),
                };
                let mut bytes: Vec<u8> = Vec::new();
                match write_datagram(&datagram, &mut bytes) {
                    Ok(()) => {},
                    Err(e) => {
                        return Err(SessionError::Encode(e));
                    },
                }
                match state.lock_mut() {
                    Some(shared) => {
                        let _ = shared.update_max_group_id(object.group_id);
                    },
                    None => {
                        return Err(SessionError::Serve(ServeError::Done));
                    },
                }
                *reader = probe;
                Ok(Wait::Ready(Some(bytes)))
            },
        }
    }
}

} // verus!
