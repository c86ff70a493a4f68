//! The subscriber's side of a subscription: the request that goes out, and
//! what comes back for it.

use vstd::prelude::*;
use crate::coding::params::Params;
use crate::coding::tuple::Tuple;
use crate::data::datagram::Datagram;
use crate::data::subgroup::SubgroupHeader;
use crate::data::track::TrackHeader;
use crate::message::control::{Message, MessageView};
use crate::message::filter_type::FilterType;
use crate::message::group_order::GroupOrder;
use crate::message::subscribe::{Subscribe as SubscribeMessage, SubscribePair, SubscribeView};
use crate::message::subscribe_update::SubscribeUpdate;
use crate::message::unsubscribe::Unsubscribe;
use crate::serve::error::{check_open, ServeError};
use crate::serve::track::{
    write_error, Datagram as TrackDatagram, StreamWriter, Subgroup, SubgroupWriter, TrackState,
    TrackWriter, TrackWriterMode,
};
use crate::session::outbox::Subscriber;
use crate::watch::queue::Wait;
use crate::watch::state::State;

verus! {

/// The priority that a subscriber asks for where it has no preference: the
/// middle of the range.
pub const DEFAULT_PRIORITY: u8 = 127;

/// What a subscription is for.
#[derive(Debug, PartialEq, Eq)]
pub struct SubscribeInfo {
    /// The number of the subscription.
    pub id: u64,
    pub namespace: Tuple,
    pub name: String,
    /// The number that stands for the track on data streams.
    pub alias: u64,
}

/// What a subscription is for.
pub struct SubscribeInfoView {
    pub id: u64,
    pub namespace: Seq<Seq<u8>>,
    pub name: Seq<char>,
    pub alias: u64,
}

impl View for SubscribeInfo {
    type V = SubscribeInfoView;

    open spec fn view(&self) -> SubscribeInfoView {
        SubscribeInfoView {
            id: self.id,
            namespace: self.namespace@,
            name: self.name@,
            alias: self.alias,
        }
    }
}

impl Clone for SubscribeInfo {
    fn clone(&self) -> (r: Self)
        ensures
            r@ == self@,
    {
        SubscribeInfo {
            id: self.id,
            namespace: self.namespace.clone(),
            name: self.name.clone(),
            alias: self.alias,
        }
    }
}

/// What the two sides of an outgoing subscription share: whether it was
/// accepted, and the error that it was closed with.
pub struct SubscribeState {
    pub ok: bool,
    pub closed: Result<(), ServeError>,
}

impl Default for SubscribeState {
    fn default() -> (r: Self)
        ensures
            !r.ok,
            r.closed is Ok,
    {
        SubscribeState { ok: false, closed: Ok(()) }
    }
}

/// Which objects of a track a subscription asks for.
#[derive(Clone, Copy, Debug, PartialEq, Eq, Structural)]
pub enum SubscribeFilter {
    /// Everything from the given place on.
    AbsoluteStart(SubscribePair),
    /// Everything from the given place to the end of the given group.
    AbsoluteRange(SubscribePair, u64),
    /// Everything from where the track stands.
    LatestObject,
}

impl SubscribeFilter {
    /// Whether the filter lets the object at the given place through.
    pub open spec fn admits(&self, group_id: u64, object_id: u64) -> bool {
        match self {
            SubscribeFilter::LatestObject => true,
            SubscribeFilter::AbsoluteStart(start) => !(SubscribePair {
                group: group_id,
                object: object_id,
            }).before(start),
            SubscribeFilter::AbsoluteRange(start, end_group) => !(SubscribePair {
                group: group_id,
                object: object_id,
            }).before(start) && group_id <= *end_group,
        }
    }

    /// Whether the filter lets nothing of the given group through.
    pub open spec fn excludes_group(&self, group_id: u64) -> bool {
        match self {
            SubscribeFilter::LatestObject => false,
            SubscribeFilter::AbsoluteStart(start) => group_id < start.group,
            SubscribeFilter::AbsoluteRange(start, end_group) => group_id < start.group || group_id
                > *end_group,
        }
    }

    /// Whether the filter lets the object at the given place through.
    pub fn passes(&self, group_id: u64, object_id: u64) -> (r: bool)
        ensures
            r == self.admits(group_id, object_id),
    {
        let place = SubscribePair { group: group_id, object: object_id };
        match self {
            SubscribeFilter::LatestObject => true,
            SubscribeFilter::AbsoluteStart(start) => !place.lt(start),
            SubscribeFilter::AbsoluteRange(start, end_group) => !place.lt(start) && group_id
                <= *end_group,
        }
    }

    /// Whether the filter lets nothing of the given group through.
    pub fn exclude_group(&self, group_id: u64) -> (r: bool)
        ensures
            r == self.excludes_group(group_id),
    {
        match self {
            SubscribeFilter::LatestObject => false,
            SubscribeFilter::AbsoluteStart(start) => group_id < start.group,
            SubscribeFilter::AbsoluteRange(start, end_group) => group_id < start.group || group_id
                > *end_group,
        }
    }

    /// The filter as a subscribe message spells it: the filter type, and the
    /// start and the end group where the type calls for them.
    pub fn unwrap(self) -> (r: (FilterType, Option<SubscribePair>, Option<u64>))
        ensures
            r == match self {
                SubscribeFilter::AbsoluteStart(start) => (
                    FilterType::AbsoluteStart,
                    Some(start),
                    None::<u64>,
                ),
                SubscribeFilter::AbsoluteRange(start, end_group) => (
                    FilterType::AbsoluteRange,
                    Some(start),
                    Some(end_group),
                ),
                SubscribeFilter::LatestObject => (
                    FilterType::LatestObject,
                    None::<SubscribePair>,
                    None::<u64>,
                ),
            },
    {
        match self {
            SubscribeFilter::AbsoluteStart(start) => (FilterType::AbsoluteStart, Some(start), None),
            SubscribeFilter::AbsoluteRange(start, end_group) => (
                FilterType::AbsoluteRange,
                Some(start),
                Some(end_group),
            ),
            SubscribeFilter::LatestObject => (FilterType::LatestObject, None, None),
        }
    }

    /// Whether a subscribe message carries what its filter type calls for.
    pub open spec fn spelled_out(message: &SubscribeMessage) -> bool {
        match message.filter_type {
            FilterType::LatestObject => true,
            FilterType::AbsoluteStart => message.start is Some,
            FilterType::AbsoluteRange => message.start is Some && message.end_group is Some,
        }
    }

    /// The filter that a subscribe message asks for.
    pub fn from_subscribe(message: &SubscribeMessage) -> (r: Self)
        requires
            Self::spelled_out(message),
        ensures
            r == match message.filter_type {
                FilterType::LatestObject => SubscribeFilter::LatestObject,
                FilterType::AbsoluteStart => SubscribeFilter::AbsoluteStart(message.start->0),
                FilterType::AbsoluteRange => SubscribeFilter::AbsoluteRange(
                    message.start->0,
                    message.end_group->0,
                ),
            },
    {
        match message.filter_type {
            FilterType::LatestObject => SubscribeFilter::LatestObject,
            FilterType::AbsoluteStart => match message.start {
                Some(start) => SubscribeFilter::AbsoluteStart(start),
                None => SubscribeFilter::LatestObject,
            },
            FilterType::AbsoluteRange => match (message.start, message.end_group) {
                (Some(start), Some(end_group)) => SubscribeFilter::AbsoluteRange(start, end_group),
                _ => SubscribeFilter::LatestObject,
            },
        }
    }

    /// The filter that a subscribe message asks for, or nothing where the
    /// message lacks what its filter type calls for.
    pub fn try_from_subscribe(message: &SubscribeMessage) -> (r: Option<Self>)
        ensures
            r is Some <==> Self::spelled_out(message),
            r matches Some(filter) ==> filter == match message.filter_type {
                FilterType::LatestObject => SubscribeFilter::LatestObject,
                FilterType::AbsoluteStart => SubscribeFilter::AbsoluteStart(message.start->0),
                FilterType::AbsoluteRange => SubscribeFilter::AbsoluteRange(
                    message.start->0,
                    message.end_group->0,
                ),
            },
    {
        let spelled = match message.filter_type {
            FilterType::LatestObject => true,
            FilterType::AbsoluteStart => message.start.is_some(),
            FilterType::AbsoluteRange => message.start.is_some() && message.end_group.is_some(),
        };
        if spelled {
            Some(Self::from_subscribe(message))
        } else {
            None
        }
    }

    /// The filter that an update asks for. An end group of zero means no end,
    /// and any other means the group before it; a start at the very beginning
    /// with no end means the latest object.
    pub fn from_update(update: &SubscribeUpdate) -> (r: Self)
        ensures
            r == if update.end_group != 0 {
                SubscribeFilter::AbsoluteRange(update.start, (update.end_group - 1) as u64)
            } else if !(update.start.group == 0 && update.start.object == 0) {
                SubscribeFilter::AbsoluteStart(update.start)
            } else {
                SubscribeFilter::LatestObject
            },
    {
        if update.end_group != 0 {
            SubscribeFilter::AbsoluteRange(update.start, update.end_group - 1)
        } else if !(update.start.group == 0 && update.start.object == 0) {
            SubscribeFilter::AbsoluteStart(update.start)
        } else {
            SubscribeFilter::LatestObject
        }
    }
}

/// The subscriber's handle on a subscription that it asked for.
#[derive(Debug, PartialEq, Eq)]
pub struct Subscribe {
    pub id: u64,
    pub info: SubscribeInfo,
}

/// The session's handle on a subscription that the subscriber asked for: the
/// right to write what arrives into the subscriber's track.
#[derive(Debug, PartialEq, Eq)]
pub struct SubscribeRecv {
    pub writer: Option<TrackWriterMode>,
}

impl Subscribe {
    /// What the subscribe message for a track says.
    pub open spec fn request(
        id: u64,
        track: &TrackWriter,
        filter: SubscribeFilter,
    ) -> SubscribeView {
        SubscribeView {
            id,
            track_alias: id,
            track_namespace: track.info.namespace@,
            track_name: track.info.name@,
            subscriber_priority: DEFAULT_PRIORITY,
            group_order: GroupOrder::Publisher,
            filter_type: match filter {
                SubscribeFilter::AbsoluteStart(_) => FilterType::AbsoluteStart,
                SubscribeFilter::AbsoluteRange(_, _) => FilterType::AbsoluteRange,
                SubscribeFilter::LatestObject => FilterType::LatestObject,
            },
            start: match filter {
                SubscribeFilter::AbsoluteStart(start) => Some(start),
                SubscribeFilter::AbsoluteRange(start, _) => Some(start),
                SubscribeFilter::LatestObject => None,
            },
            end_group: match filter {
                SubscribeFilter::AbsoluteRange(_, end_group) => Some(end_group),
                _ => None,
            },
            params: Map::empty(),
        }
    }

    /// Asks for a track: queues the subscribe message, and hands out the two
    /// handles of the subscription and what they share. The alias of the
    /// track is the number of the subscription, and the order of the groups
    /// is left to the publisher.
    pub fn new(
        subscriber: &mut Subscriber,
        id: u64,
        track: TrackWriter,
        filter: SubscribeFilter,
    ) -> (r: (Subscribe, SubscribeRecv, State<SubscribeState>))
        ensures
            final(subscriber).closed() == old(subscriber).closed(),
            final(subscriber).next_id() == old(subscriber).next_id(),
            final(subscriber).sent() == if old(subscriber).closed() {
                old(subscriber).sent()
            } else {
                old(subscriber).sent().push(
                    MessageView::Subscribe(Self::request(id, &track, filter)),
                )
            },
            r.0.id == id,
            r.0.info@ == (SubscribeInfoView {
                id,
                namespace: track.info.namespace@,
                name: track.info.name@,
                alias: id,
            }),
            r.1.writer == Some(TrackWriterMode::Track(track)),
            !r.2.value().ok,
            r.2.value().closed is Ok,
            r.2.epoch() == 0,
            !r.2.dropped(),
    {
        let (filter_type, start, end_group) = filter.unwrap();
        subscriber.send_message(
            Message::Subscribe(
                SubscribeMessage {
                    id,
                    track_alias: id,
                    track_namespace: track.info.namespace.clone(),
                    track_name: track.info.name.clone(),
                    subscriber_priority: DEFAULT_PRIORITY,
                    group_order: GroupOrder::Publisher,
                    filter_type,
                    start,
                    end_group,
                    params: Params::new(),
                },
            ),
        );
        let info = SubscribeInfo {
            id,
            namespace: track.info.namespace.clone(),
            name: track.info.name.clone(),
            alias: id,
        };
        let send = Subscribe { id, info };
        let recv = SubscribeRecv { writer: Some(TrackWriterMode::Track(track)) };
        (send, recv, State::new(SubscribeState::default()))
    }

    /// Whether the subscription has come to an end: with the error that it
    /// was closed with, or without one once the session let go of it. While
    /// neither is so, the answer is to wait.
    pub fn closed(&self, state: &State<SubscribeState>) -> (r: Wait<Result<(), ServeError>>)
        ensures
            match state.value().closed {
                Err(e) => r == Wait::Ready(Err::<(), ServeError>(e)),
                Ok(_) => if state.dropped() {
                    r matches Wait::Ready(Ok(_))
                } else {
                    r is Pending
                },
            },
    {
        match check_open(&state.lock().closed) {
            Err(e) => Wait::Ready(Err(e)),
            Ok(()) => match state.modified() {
                Some(_) => Wait::Pending,
                None => Wait::Ready(Ok(())),
            },
        }
    }

    /// Lets go of the subscription: queues the unsubscribe message, and
    /// leaves what the two sides share as it is from now on.
    pub fn drop(self, subscriber: &mut Subscriber, state: &mut State<SubscribeState>)
        ensures
            final(subscriber).closed() == old(subscriber).closed(),
            final(subscriber).next_id() == old(subscriber).next_id(),
            final(subscriber).sent() == if old(subscriber).closed() {
                old(subscriber).sent()
            } else {
                old(subscriber).sent().push(MessageView::Unsubscribe(Unsubscribe { id: self.id }))
            },
            final(state).dropped(),
            final(state).value() == old(state).value(),
            final(state).epoch() == old(state).epoch().wrapping_add(1),
    {
        subscriber.send_message(Message::Unsubscribe(Unsubscribe { id: self.id }));
        state.release();
    }
}

impl SubscribeRecv {
    /// The subscription was accepted. It is accepted once: a second
    /// acceptance is refused as a duplicate.
    pub fn ok(&mut self, state: &mut State<SubscribeState>) -> (r: Result<(), ServeError>)
        ensures
            *final(self) == *old(self),
            if old(state).value().ok {
                r == Err::<(), ServeError>(ServeError::Duplicate) && *final(state) == *old(state)
            } else if old(state).dropped() {
                r is Ok && *final(state) == *old(state)
            } else {
                &&& r is Ok
                &&& final(state).value().ok
                &&& final(state).value().closed == old(state).value().closed
                &&& final(state).epoch() == old(state).epoch().wrapping_add(1)
                &&& !final(state).dropped()
            },
    {
        if state.lock().ok {
            return Err(ServeError::Duplicate);
        }
        match state.lock_mut() {
            Some(shared) => {
                shared.ok = true;
            },
            None => {},
        }
        Ok(())
    }

    /// Why the subscription cannot be closed with an error, if so: the track
    /// refuses to be closed, the subscription is closed already, or the
    /// subscriber has let go of it.
    pub open spec fn error_error(
        &self,
        state: &State<SubscribeState>,
        track: &TrackState,
    ) -> Option<ServeError> {
        if self.writer is Some && track.refusal() is Some {
            track.refusal()
        } else {
            match state.value().closed {
                Err(e) => Some(e),
                Ok(_) => if state.dropped() {
                    Some(ServeError::Cancel)
                } else {
                    None
                },
            }
        }
    }

    /// The subscription was refused or ended by the publisher: closes the
    /// track and the subscription with `err`.
    pub fn error(
        self,
        state: &mut State<SubscribeState>,
        track: &mut TrackState,
        err: ServeError,
    ) -> (r: Result<(), ServeError>)
        ensures
            old(track).wf() ==> final(track).wf(),
            match r {
                Ok(()) => self.error_error(old(state), old(track)) is None,
                Err(e) => self.error_error(old(state), old(track)) == Some(e),
            },
            if self.writer is Some && old(track).refusal() is None {
                final(track).closing(old(track), err, Ok(()))
            } else {
                *final(track) == *old(track)
            },
            match r {
                Ok(()) => {
                    &&& final(state).value().ok == old(state).value().ok
                    &&& final(state).value().closed == Err::<(), ServeError>(err)
                    &&& final(state).epoch() == old(state).epoch().wrapping_add(1)
                    &&& !final(state).dropped()
                },
                Err(_) => *final(state) == *old(state),
            },
    {
        let mut this = self;
        match this.writer.take() {
            Some(writer) => {
                writer.close(track, err.clone())?;
            },
            None => {},
        }
        check_open(&state.lock().closed)?;
        match state.lock_mut() {
            Some(shared) => {
                shared.closed = Err(err);
                Ok(())
            },
            None => Err(ServeError::Cancel),
        }
    }

    /// Why a stream that carries the whole track cannot be taken up, if so:
    /// the handle has lost its track, the track is in a mode already, or the
    /// track refuses.
    pub open spec fn track_error(&self, track: &TrackState) -> Option<ServeError> {
        match self.writer {
            None => Some(ServeError::Done),
            Some(TrackWriterMode::Track(_)) => track.entry_error(),
            Some(_) => Some(ServeError::Mode),
        }
    }

    /// Why a stream that carries a subgroup cannot be taken up, if so: the
    /// handle has lost its track, the track is in another mode, or the track
    /// refuses.
    pub open spec fn subgroup_error(&self, track: &TrackState) -> Option<ServeError> {
        match self.writer {
            None => Some(ServeError::Done),
            Some(TrackWriterMode::Track(_)) => track.entry_error(),
            Some(TrackWriterMode::Subgroups(_)) => write_error(track, track.mode() is Subgroups),
            Some(_) => Some(ServeError::Mode),
        }
    }

    /// Why a datagram cannot be taken up, if so: the handle has lost its
    /// track, the track is in another mode, or the track refuses.
    pub open spec fn datagram_error(&self, track: &TrackState) -> Option<ServeError> {
        match self.writer {
            None => Some(ServeError::Done),
            Some(TrackWriterMode::Track(_)) => track.entry_error(),
            Some(TrackWriterMode::Datagrams(_)) => write_error(track, track.mode() is Datagrams),
            Some(_) => Some(ServeError::Mode),
        }
    }

    /// A stream that carries the whole track has arrived: puts the track into
    /// stream mode and hands out the right to write it. A handle that fails
    /// loses its track.
    pub fn track(&mut self, track: &mut TrackState, header: TrackHeader) -> (r: Result<
        StreamWriter,
        ServeError,
    >)
        ensures
            old(track).wf() ==> final(track).wf(),
            final(track).latest_of() == old(track).latest_of(),
            match r {
                Ok(writer) => {
                    &&& old(self).track_error(old(track)) is None
                    &&& old(self).writer matches Some(TrackWriterMode::Track(init))
                        && writer.info@ == init.info@
                    &&& writer.priority == header.publisher_priority
                    &&& final(self).writer matches Some(TrackWriterMode::Stream(kept))
                        && kept.info@ == writer.info@ && kept.priority == writer.priority
                    &&& final(track).mode() is Stream
                    &&& final(track).priority() == header.publisher_priority
                    &&& final(track).stream().len() == 0
                    &&& final(track).refusal() is None
                    &&& final(track).ended() == old(track).ended()
                },
                Err(e) => {
                    &&& old(self).track_error(old(track)) == Some(e)
                    &&& final(self).writer is None
                    &&& *final(track) == *old(track)
                },
            },
    {
        let writer = match self.writer.take() {
            Some(writer) => writer,
            None => {
                return Err(ServeError::Done);
            },
        };
        let stream = match writer {
            TrackWriterMode::Track(init) => init.stream(track, header.publisher_priority)?,
            _ => {
                return Err(ServeError::Mode);
            },
        };
        self.writer = Some(TrackWriterMode::Stream(stream.clone()));
        Ok(stream)
    }

    /// A stream that carries a subgroup has arrived: puts the track into
    /// subgroup mode if it is in none, opens the subgroup and hands out the
    /// right to write it. A handle that fails loses its track.
    pub fn subgroup(&mut self, track: &mut TrackState, header: SubgroupHeader) -> (r: Result<
        SubgroupWriter,
        ServeError,
    >)
        ensures
            old(track).wf() ==> final(track).wf(),
            final(track).latest_of() == old(track).latest_of(),
            match r {
                Ok(writer) => {
                    let count = old(track).subgroups().len() as int;
                    let opened = Subgroup {
                        group_id: header.group_id,
                        subgroup_id: header.subgroup_id,
                        priority: header.publisher_priority,
                    };
                    &&& old(self).subgroup_error(old(track)) is None
                    &&& final(self).writer is Some
                    &&& final(self).writer->0 is Subgroups
                    &&& writer.info == opened
                    &&& writer.index == count
                    &&& final(track).mode() is Subgroups
                    &&& final(track).subgroups().len() == count + 1
                    &&& final(track).subgroups().take(count) == old(track).subgroups()
                    &&& final(track).subgroups()[count].info == opened
                    &&& final(track).subgroups()[count].objects@.len() == 0
                    &&& final(track).subgroups()[count].objects.refusal() is None
                    &&& !final(track).subgroups()[count].objects.done()
                    &&& final(track).refusal() is None
                    &&& final(track).ended() == old(track).ended()
                },
                Err(e) => {
                    &&& old(self).subgroup_error(old(track)) == Some(e)
                    &&& final(self).writer is None
                    &&& *final(track) == *old(track)
                },
            },
    {
        let writer = match self.writer.take() {
            Some(writer) => writer,
            None => {
                return Err(ServeError::Done);
            },
        };
        let mut subgroups = match writer {
            TrackWriterMode::Track(init) => init.groups(track)?,
            TrackWriterMode::Subgroups(subgroups) => subgroups,
            _ => {
                return Err(ServeError::Mode);
            },
        };
        let writer = match subgroups.create(
            track,
            Subgroup {
                group_id: header.group_id,
                subgroup_id: header.subgroup_id,
                priority: header.publisher_priority,
            },
        ) {
            Ok(writer) => writer,
            Err(e) => {
                return Err(e);
            },
        };
        self.writer = Some(TrackWriterMode::Subgroups(subgroups));
        Ok(writer)
    }

    /// A datagram has arrived: puts the track into datagram mode if it is in
    /// none, and writes the object of the datagram to it. A handle that fails
    /// loses its track; one that succeeds keeps it for the next datagram.
    pub fn datagram(&mut self, track: &mut TrackState, datagram: Datagram) -> (r: Result<
        (),
        ServeError,
    >)
        ensures
            old(track).wf() ==> final(track).wf(),
            match r {
                Ok(()) => {
                    &&& old(self).datagram_error(old(track)) is None
                    &&& final(self).writer is Some
                    &&& final(self).writer->0 is Datagrams
                    &&& final(track).mode() is Datagrams
                    &&& final(track).datagrams().len() == old(track).datagrams().len() + 1
                    &&& final(track).datagrams().take(old(track).datagrams().len() as int)
                        == old(track).datagrams()
                    &&& final(track).datagrams().last().group_id == datagram.group_id
                    &&& final(track).datagrams().last().object_id == datagram.object_id
                    &&& final(track).datagrams().last().priority == datagram.publisher_priority
                    &&& final(track).datagrams().last().status == datagram.object_status
                    &&& final(track).datagrams().last().payload == datagram.payload
                    &&& final(track).refusal() is None
                    &&& final(track).ended() == old(track).ended()
                    &&& final(track).latest_of() == crate::serve::track::later_of(
                        old(track).latest_of(),
                        (datagram.group_id, datagram.object_id),
                    )
                },
                Err(e) => {
                    &&& old(self).datagram_error(old(track)) == Some(e)
                    &&& final(self).writer is None
                    &&& *final(track) == *old(track)
                },
            },
    {
        let writer = match self.writer.take() {
            Some(writer) => writer,
            None => {
                return Err(ServeError::Done);
            },
        };
        let mut datagrams = match writer {
            TrackWriterMode::Track(init) => init.datagrams(track)?,
            TrackWriterMode::Datagrams(datagrams) => datagrams,
            _ => {
                return Err(ServeError::Mode);
            },
        };
        match datagrams.write(
            track,
            TrackDatagram {
                group_id: datagram.group_id,
                object_id: datagram.object_id,
                priority: datagram.publisher_priority,
                status: datagram.object_status,
                payload: datagram.payload,
            },
        ) {
            Ok(()) => {},
            Err(e) => {
                return Err(e);
            },
        }
        self.writer = Some(TrackWriterMode::Datagrams(datagrams));
        Ok(())
    }
}

/// A handle that has taken up a stream in one mode refuses what arrives in
/// another: once a subgroup was taken up, a stream for the whole track and a
/// datagram fail with `Mode`, and so for the other modes. A second stream for
/// the whole track fails in the same way.
pub proof fn lemma_mode_is_kept(handle: SubscribeRecv, track: &TrackState)
    requires
        handle.writer is Some,
    ensures
        handle.writer->0 is Stream ==> handle.track_error(track) == Some(ServeError::Mode)
            && handle.subgroup_error(track) == Some(ServeError::Mode) && handle.datagram_error(
            track,
        ) == Some(ServeError::Mode),
        handle.writer->0 is Subgroups ==> handle.track_error(track) == Some(ServeError::Mode)
            && handle.datagram_error(track) == Some(ServeError::Mode),
        handle.writer->0 is Datagrams ==> handle.track_error(track) == Some(ServeError::Mode)
            && handle.subgroup_error(track) == Some(ServeError::Mode),
{
}

/// A filter with a start lets through exactly what lies at the start or
/// behind it: in the group of the start, the objects from the start on; of
/// the groups behind it, everything; of the groups before it, nothing.
pub proof fn lemma_absolute_start_is_suffix(start: SubscribePair, group_id: u64, object_id: u64)
    ensures
        SubscribeFilter::AbsoluteStart(start).admits(group_id, object_id) <==> group_id
            > start.group || (group_id == start.group && object_id >= start.object),
        SubscribeFilter::AbsoluteStart(start).excludes_group(group_id) <==> forall|object: u64|
            !SubscribeFilter::AbsoluteStart(start).admits(group_id, object),
{
    if group_id >= start.group {
        assert(SubscribeFilter::AbsoluteStart(start).admits(group_id, u64::MAX));
    }
}

/// A filter with a start and an end group lets through exactly what lies at
/// the start or behind it, in the groups up to the end group.
pub proof fn lemma_absolute_range_is_clipped(
    start: SubscribePair,
    end_group: u64,
    group_id: u64,
    object_id: u64,
)
    ensures
        SubscribeFilter::AbsoluteRange(start, end_group).admits(group_id, object_id) <==> (
        SubscribeFilter::AbsoluteStart(start).admits(group_id, object_id) && group_id
            <= end_group),
        SubscribeFilter::AbsoluteRange(start, end_group).excludes_group(group_id)
            <==> forall|object: u64|
            !SubscribeFilter::AbsoluteRange(start, end_group).admits(group_id, object),
{
    if group_id >= start.group && group_id <= end_group {
        assert(SubscribeFilter::AbsoluteRange(start, end_group).admits(group_id, u64::MAX));
    }
}

} // verus!
