//! The publisher's side of a fetch: the answer that goes out, and the one
//! stream that carries the objects of the range.

use vstd::prelude::*;
use crate::coding::traits::Encode;
use crate::data::fetch::{FetchHeader, FetchObject};
use crate::data::header::Header;
use crate::message::control::{Message, MessageView};
use crate::message::fetch::Fetch as FetchMessage;
use crate::message::fetch_ok::{FetchOk, FetchOkView};
use crate::message::group_order::GroupOrder;
use crate::serve::channel::{Cursor, Next};
use crate::serve::error::{check_open, ServeError};
use crate::serve::track::{
    location_before, Object, Subgroup, SubgroupsReader, TrackReader, TrackReaderMode,
    TrackState,
};
use crate::session::error::SessionError;
use crate::session::fetch::{FetchInfo, FetchInfoView};
use crate::session::outbox::Publisher;
use crate::session::subscribed::Step;
use crate::watch::state::State;

verus! {

/// What the two sides of an incoming fetch share: the error that the fetch
/// was closed with.
#[derive(Debug, PartialEq, Eq)]
pub struct FetchedState {
    pub closed: Result<(), ServeError>,
}

impl Default for FetchedState {
    fn default() -> (r: Self)
        ensures
            r.closed is Ok,
    {
        FetchedState { closed: Ok(()) }
    }
}

/// The publisher's handle on a fetch that a subscriber asked for.
#[derive(Debug, PartialEq, Eq)]
pub struct Fetched {
    /// The message that asked for the fetch.
    pub msg: FetchMessage,
    /// Whether the fetch was accepted.
    pub ok: bool,
    pub info: FetchInfo,
}

/// The session's handle on a fetch that a subscriber asked for.
#[derive(Debug, PartialEq, Eq)]
pub struct FetchedRecv {
    /// The number of the fetch.
    pub id: u64,
}

/// Where an object stands in a track that is written as subgroups, with the
/// numbers that it is ordered by.
#[derive(Clone, Copy, Debug, PartialEq, Eq, Structural)]
pub struct FetchPlace {
    /// The group of the object.
    pub group_id: u64,
    /// The number of the object in its group.
    pub object_id: u64,
    /// The place of the subgroup among the subgroups of the track.
    pub subgroup: usize,
    /// The place of the object in its subgroup.
    pub index: usize,
}

/// The serving of a fetch on its one stream.
#[derive(Clone, Copy, Debug, PartialEq, Eq)]
pub struct FetchTask {
    /// What the stream begins with.
    pub header: FetchHeader,
    /// The first place of the range.
    pub start: (u64, u64),
    /// The last place of the range.
    pub end: (u64, u64),
    /// The latest place that the track held when the fetch was accepted.
    pub latest: (u64, u64),
    /// The order in which the groups go onto the stream.
    pub order: GroupOrder,
    /// The object that was sent last.
    pub last: Option<FetchPlace>,
    /// Whether the header was written.
    pub opened: bool,
}

/// Whether the object at `a` goes onto the stream of a fetch before the one
/// at `b`. Groups go by their numbers, the highest first where the order is
/// descending and the lowest first otherwise; within a group the objects go
/// by their numbers, the lowest first; objects of one group with one number
/// go as their subgroups were opened.
pub open spec fn comes_before(a: FetchPlace, b: FetchPlace, order: GroupOrder) -> bool {
    if a.group_id != b.group_id {
        if order is Descending {
            a.group_id > b.group_id
        } else {
            a.group_id < b.group_id
        }
    } else if a.object_id != b.object_id {
        a.object_id < b.object_id
    } else if a.subgroup != b.subgroup {
        a.subgroup < b.subgroup
    } else {
        a.index < b.index
    }
}

/// Whether the track holds an object at the place, under the numbers that
/// the place gives.
pub open spec fn stands_at(track: &TrackState, place: FetchPlace) -> bool {
    &&& place.subgroup < track.subgroups().len()
    &&& place.index < track.subgroups()[place.subgroup as int].objects@.len()
    &&& place.group_id == track.subgroups()[place.subgroup as int].info.group_id
    &&& place.object_id == track.subgroups()[place.subgroup as int].objects@[place.index
        as int].object_id
}

/// The header that stands before an object on the stream of a fetch.
pub open spec fn fetch_object(info: &Subgroup, object: &Object) -> FetchObject {
    FetchObject {
        group_id: info.group_id,
        subgroup_id: info.subgroup_id,
        object_id: object.object_id,
        publisher_priority: info.priority,
        size: object.payload@.len() as u64,
        status: object.status,
    }
}

/// An object as it goes onto the stream of a fetch: its header, then its
/// payload.
pub open spec fn fetch_frame(info: &Subgroup, object: &Object) -> Seq<u8> {
    fetch_object(info, object).wire() + object.payload@
}

/// The header that stands before the object at a place of the track.
pub open spec fn placed_object(track: &TrackState, place: FetchPlace) -> FetchObject {
    fetch_object(
        &track.subgroups()[place.subgroup as int].info,
        &track.subgroups()[place.subgroup as int].objects@[place.index as int],
    )
}

/// The object at a place of the track as it goes onto the stream of a fetch.
pub open spec fn placed_frame(track: &TrackState, place: FetchPlace) -> Seq<u8> {
    fetch_frame(
        &track.subgroups()[place.subgroup as int].info,
        &track.subgroups()[place.subgroup as int].objects@[place.index as int],
    )
}

/// Whether the object at `a` goes onto the stream of a fetch before the one
/// at `b`.
pub fn goes_before(a: &FetchPlace, b: &FetchPlace, order: GroupOrder) -> (r: bool)
    ensures
        r == comes_before(*a, *b, order),
{
    if a.group_id != b.group_id {
        match order {
            GroupOrder::Descending => a.group_id > b.group_id,
            _ => a.group_id < b.group_id,
        }
    } else if a.object_id != b.object_id {
        a.object_id < b.object_id
    } else if a.subgroup != b.subgroup {
        a.subgroup < b.subgroup
    } else {
        a.index < b.index
    }
}

impl FetchTask {
    /// Whether the place lies in the range of the fetch, no later than the
    /// latest place that the track held when the fetch was accepted.
    pub open spec fn covers(&self, place: (u64, u64)) -> bool {
        !location_before(place, self.start) && !location_before(self.end, place)
            && !location_before(self.latest, place)
    }

    /// Whether the place lies in the range of the fetch, no later than the
    /// latest place that the track held when the fetch was accepted.
    pub fn cover(&self, group_id: u64, object_id: u64) -> (r: bool)
        ensures
            r == self.covers((group_id, object_id)),
    {
        let before_start = group_id < self.start.0 || (group_id == self.start.0 && object_id
            < self.start.1);
        let behind_end = self.end.0 < group_id || (self.end.0 == group_id && self.end.1
            < object_id);
        let behind_latest = self.latest.0 < group_id || (self.latest.0 == group_id
            && self.latest.1 < object_id);
        !before_start && !behind_end && !behind_latest
    }

    /// Whether the object at the place is still to be sent: the track holds
    /// it, it lies in the range, and it comes behind what was sent last.
    pub open spec fn due(&self, track: &TrackState, place: FetchPlace) -> bool {
        &&& stands_at(track, place)
        &&& self.covers((place.group_id, place.object_id))
        &&& match self.last {
            Some(last) => comes_before(last, place, self.order),
            None => true,
        }
    }

    /// Whether the object at the place is the next to be sent: it is due,
    /// and nothing that is due comes before it.
    pub open spec fn is_next(&self, track: &TrackState, place: FetchPlace) -> bool {
        &&& self.due(track, place)
        &&& forall|other: FetchPlace| #[trigger]
            self.due(track, other) ==> !comes_before(other, place, self.order)
    }

    /// The place of the object that is sent next, if any is due.
    pub open spec fn next_place(&self, track: &TrackState) -> Option<FetchPlace> {
        if exists|place: FetchPlace| self.is_next(track, place) {
            Some(choose|place: FetchPlace| self.is_next(track, place))
        } else {
            None
        }
    }

    /// What a step comes to once nothing is due: the fetch waits while the
    /// track is written, is complete once the writer has let go, and fails
    /// with the error of a track that was closed with one.
    pub open spec fn rest(track: &TrackState) -> Result<Step, SessionError> {
        if !(track.mode() is Subgroups) {
            Err(SessionError::Serve(ServeError::Mode))
        } else {
            match track.shut() {
                Err(e) => Err(SessionError::Serve(e)),
                Ok(_) => if track.ended() {
                    Ok(Step::Finish)
                } else {
                    Ok(Step::Wait)
                },
            }
        }
    }

    /// What the next step of the task comes to.
    pub open spec fn outcome(&self, state: &State<FetchedState>, track: &TrackState) -> Result<
        Step,
        SessionError,
    > {
        match state.value().closed {
            Err(e) => Err(SessionError::Serve(e)),
            Ok(_) => if !self.opened {
                match Header::Fetch(self.header).encode_error() {
                    Some(e) => Err(SessionError::Encode(e)),
                    None => Ok(Step::Open),
                }
            } else {
                match self.next_place(track) {
                    Some(place) => match placed_object(track, place).encode_error() {
                        Some(e) => Err(SessionError::Encode(e)),
                        None => Ok(Step::Send),
                    },
                    None => Self::rest(track),
                }
            },
        }
    }

    /// Of two objects, one comes before the other, or they are the same.
    pub proof fn lemma_order_is_total(a: FetchPlace, b: FetchPlace, order: GroupOrder)
        ensures
            a == b || comes_before(a, b, order) || comes_before(b, a, order),
            !(comes_before(a, b, order) && comes_before(b, a, order)),
    {
    }

    /// No more than one object is the next to be sent.
    pub proof fn lemma_next_is_one(&self, track: &TrackState, a: FetchPlace, b: FetchPlace)
        requires
            self.is_next(track, a),
            self.is_next(track, b),
        ensures
            a == b,
    {
        assert(self.due(track, a));
        assert(self.due(track, b));
        Self::lemma_order_is_total(a, b, self.order);
    }

    /// A fetch goes in order. The object that is sent next stands in the
    /// track and lies in the range, it comes behind the object that was sent
    /// last, and every other object that is due comes behind it.
    pub proof fn lemma_fetch_goes_in_order(&self, track: &TrackState)
        requires
            self.next_place(track) is Some,
        ensures
            ({
                let place = self.next_place(track)->0;
                &&& stands_at(track, place)
                &&& self.covers((place.group_id, place.object_id))
                &&& self.last is Some ==> comes_before(self.last->0, place, self.order)
                &&& forall|other: FetchPlace| #[trigger]
                    self.due(track, other) ==> other == place || comes_before(
                        place,
                        other,
                        self.order,
                    )
            }),
    {
        let place = self.next_place(track)->0;
        assert(self.is_next(track, place));
        assert forall|other: FetchPlace| #[trigger] self.due(track, other) implies other == place
            || comes_before(place, other, self.order) by {
            Self::lemma_order_is_total(place, other, self.order);
        }
    }

    /// Sending takes one object and leaves the rest. Once the next object
    /// was sent it is due no longer, and exactly the other objects that were
    /// due are still due: none is sent twice and none is passed over.
    pub proof fn lemma_send_takes_one(&self, track: &TrackState, other: FetchPlace)
        requires
            self.next_place(track) is Some,
        ensures
            ({
                let place = self.next_place(track)->0;
                let then = FetchTask { last: Some(place), ..*self };
                then.due(track, other) == (self.due(track, other) && other != place)
            }),
    {
        let place = self.next_place(track)->0;
        assert(self.is_next(track, place));
        Self::lemma_order_is_total(place, other, self.order);
        if self.due(track, other) {
            assert(!comes_before(other, place, self.order));
        }
    }

    /// Looks through the track for the object that is sent next.
    pub fn next_due(&self, track: &TrackState) -> (r: Option<FetchPlace>)
        ensures
            r == self.next_place(track),
    {
        let count = track.subgroup_count();
        let mut best: Option<FetchPlace> = None;
        let mut k: usize = 0;
        while k < count
            invariant
                count == track.subgroups().len(),
                k <= count,
                match best {
                    Some(found) => self.due(track, found),
                    None => true,
                },
                forall|other: FetchPlace| #[trigger]
                    self.due(track, other) && other.subgroup < k ==> best is Some
                        && !comes_before(other, best->0, self.order),
            decreases count - k,
        {
            match track.subgroup_at(k) {
                Some(subgroup) => {
                    let n = subgroup.objects.len();
                    let mut j: usize = 0;
                    while j < n
                        invariant
                            count == track.subgroups().len(),
                            k < count,
                            *subgroup == track.subgroups()[k as int],
                            n == subgroup.objects@.len(),
                            j <= n,
                            match best {
                                Some(found) => self.due(track, found),
                                None => true,
                            },
                            forall|other: FetchPlace| #[trigger]
                                self.due(track, other) && (other.subgroup < k || (other.subgroup
                                    == k && other.index < j)) ==> best is Some && !comes_before(
                                    other,
                                    best->0,
                                    self.order,
                                ),
                        decreases n - j,
                    {
                        let object = subgroup.objects.get(j);
                        let place = FetchPlace {
                            group_id: subgroup.info.group_id,
                            object_id: object.object_id,
                            subgroup: k,
                            index: j,
                        };
                        let behind = match &self.last {
                            Some(last) => goes_before(last, &place, self.order),
                            None => true,
                        };
                        if behind && self.cover(place.group_id, place.object_id) {
                            let better = match &best {
                                Some(found) => goes_before(&place, found, self.order),
                                None => true,
                            };
                            if better {
                                best = Some(place);
                            }
                        }
                        proof {
                            assert forall|other: FetchPlace| #[trigger]
                                self.due(track, other) && other.subgroup == k && other.index
                                    == j implies other == place by {}
                        }
                        j += 1;
                    }
                },
                None => {},
            }
            k += 1;
        }
        proof {
            match best {
                Some(found) => {
                    assert(self.is_next(track, found));
                    let chosen = choose|place: FetchPlace| self.is_next(track, place);
                    self.lemma_next_is_one(track, found, chosen);
                },
                None => {
                    assert forall|place: FetchPlace| !self.is_next(track, place) by {
                        if self.due(track, place) {
                            assert(place.subgroup < k);
                        }
                    }
                },
            }
        }
        best
    }
}

impl Fetched {
    /// Takes up a fetch that a subscriber asked for: hands out the two
    /// handles of the fetch and what they share.
    pub fn new(message: FetchMessage) -> (r: (Self, FetchedRecv, State<FetchedState>))
        ensures
            r.0.msg@ == message@,
            !r.0.ok,
            r.0.info@ == (FetchInfoView {
                namespace: message.track_namespace@,
                name: message.track_name@,
            }),
            r.1.id == message.id,
            r.2.value().closed is Ok,
            r.2.epoch() == 0,
            !r.2.dropped(),
    {
        let info = FetchInfo {
            namespace: message.track_namespace.clone(),
            name: message.track_name.clone(),
        };
        let id = message.id;
        (
            Fetched { msg: message, ok: false, info },
            FetchedRecv { id },
            State::new(FetchedState::default()),
        )
    }

    /// What the message that accepts the fetch says: the order and the
    /// parameters that were asked for, and the latest place of the track.
    pub open spec fn acceptance(&self, latest: (u64, u64)) -> FetchOkView {
        FetchOkView {
            id: self.msg.id,
            group_order: self.msg.group_order,
            end_of_track: 0,
            largest_group_id: latest.0,
            largest_object_id: latest.1,
            params: self.msg.params@,
        }
    }

    /// Accepts the fetch for a track: queues the message that accepts it,
    /// with the latest place that the track holds at this moment, and hands
    /// out that place. A track that holds nothing has the fetch fail with
    /// `Cancel`.
    pub fn serve_inner(
        &mut self,
        publisher: &mut Publisher,
        reader: &TrackReader,
        track: &TrackState,
    ) -> (r: Result<(u64, u64), SessionError>)
        ensures
            final(self).msg == old(self).msg,
            final(self).info == old(self).info,
            final(publisher).closed() == old(publisher).closed(),
            match track.latest_of() {
                None => {
                    &&& r == Err::<(u64, u64), SessionError>(
                        SessionError::Serve(ServeError::Cancel),
                    )
                    &&& final(self).ok == old(self).ok
                    &&& final(publisher).sent() == old(publisher).sent()
                },
                Some(latest) => {
                    &&& r == Ok::<(u64, u64), SessionError>(latest)
                    &&& final(self).ok
                    &&& final(publisher).sent() == if old(publisher).closed() {
                        old(publisher).sent()
                    } else {
                        old(publisher).sent().push(
                            MessageView::FetchOk(old(self).acceptance(latest)),
                        )
                    }
                },
            },
    {
        let latest = match reader.latest(track) {
            Some(latest) => latest,
            None => {
                return Err(SessionError::Serve(ServeError::Cancel));
            },
        };
        publisher.send_message(
            Message::FetchOk(
                FetchOk {
                    id: self.msg.id,
                    group_order: self.msg.group_order,
                    end_of_track: 0,
                    largest_group_id: latest.0,
                    largest_object_id: latest.1,
                    params: self.msg.params.clone(),
                },
            ),
        );
        self.ok = true;
        Ok(latest)
    }

    /// The task that serves the fetch on its one stream, for a track that is
    /// written as subgroups: it goes through the range in the order that
    /// the fetch named, and has sent nothing yet. A track in another mode
    /// cannot be fetched.
    pub fn task(&self, mode: TrackReaderMode, latest: (u64, u64)) -> (r: Result<
        FetchTask,
        SessionError,
    >)
        ensures
            match mode {
                TrackReaderMode::Subgroups(_) => r == Ok::<FetchTask, SessionError>(
                    FetchTask {
                        header: FetchHeader {
                            subscribe_id: self.msg.id,
                            track_alias: 0,
                            publisher_priority: 0,
                        },
                        start: (self.msg.start_group, self.msg.start_object),
                        end: (self.msg.end_group, self.msg.end_object),
                        latest,
                        order: self.msg.group_order,
                        last: None,
                        opened: false,
                    },
                ),
                _ => r == Err::<FetchTask, SessionError>(SessionError::Serve(ServeError::Mode)),
            },
    {
        match mode {
            TrackReaderMode::Subgroups(_) => Ok(
                FetchTask {
                    header: FetchHeader {
                        subscribe_id: self.msg.id,
                        track_alias: 0,
                        publisher_priority: 0,
                    },
                    start: (self.msg.start_group, self.msg.start_object),
                    end: (self.msg.end_group, self.msg.end_object),
                    latest,
                    order: self.msg.group_order,
                    last: None,
                    opened: false,
                },
            ),
            _ => Err(SessionError::Serve(ServeError::Mode)),
        }
    }

    /// Takes one step in serving the fetch on its one stream, and appends to
    /// `out` what the step puts onto the stream.
    ///
    /// The first step opens the stream with its header. Each step behind it
    /// sends one object, as its header and its payload: of the objects that
    /// the track holds in the range and that come behind the one sent last,
    /// the first in the order of the fetch. Once none is left the fetch
    /// waits for the writer of the track, and is complete when the writer
    /// has let go. A fetch that was closed sends nothing more. A step that
    /// fails changes nothing.
    pub fn serve_subgroups(
        &mut self,
        task: &mut FetchTask,
        state: &State<FetchedState>,
        track: &TrackState,
        out: &mut Vec<u8>,
    ) -> (r: Result<Step, SessionError>)
        ensures
            *final(self) == *old(self),
            r == old(task).outcome(state, track),
            final(task).header == old(task).header,
            final(task).start == old(task).start,
            final(task).end == old(task).end,
            final(task).latest == old(task).latest,
            final(task).order == old(task).order,
            match r {
                Ok(Step::Open) => {
                    &&& final(task).opened
                    &&& final(task).last == old(task).last
                    &&& final(out)@ == old(out)@ + Header::Fetch(old(task).header).wire()
                },
                Ok(Step::Send) => {
                    &&& final(task).opened
                    &&& final(task).last == old(task).next_place(track)
                    &&& final(out)@ == old(out)@ + placed_frame(
                        track,
                        old(task).next_place(track)->0,
                    )
                },
                _ => *final(task) == *old(task) && final(out)@ == old(out)@,
            },
    {
        match check_open(&state.lock().closed) {
            Ok(()) => {},
            Err(e) => {
                return Err(SessionError::Serve(e));
            },
        }
        if !task.opened {
            match Header::Fetch(task.header).write(out) {
                Ok(()) => {},
                Err(e) => {
                    return Err(SessionError::Encode(e));
                },
            }
            task.opened = true;
            return Ok(Step::Open);
        }
        match task.next_due(track) {
            Some(place) => {
                proof {
                    assert(task.is_next(track, place));
                }
                match track.subgroup_at(place.subgroup) {
                    Some(subgroup) => {
                        let object = subgroup.objects.get(place.index);
                        let header = FetchObject {
                            group_id: subgroup.info.group_id,
                            subgroup_id: subgroup.info.subgroup_id,
                            object_id: object.object_id,
                            publisher_priority: subgroup.info.priority,
                            size: object.payload.len() as u64,
                            status: object.status,
                        };
                        match header.write(out) {
                            Ok(()) => {},
                            Err(e) => {
                                return Err(SessionError::Encode(e));
                            },
                        }
                        out.extend_from_slice(object.payload.as_slice());
                        task.last = Some(place);
                        Ok(Step::Send)
                    },
                    None => Ok(Step::Wait),
                }
            },
            None => {
                let mut probe = SubgroupsReader {
                    cursor: Cursor { next: track.subgroup_count() },
                };
                match probe.next(track) {
                    Next::Done => Ok(Step::Finish),
                    Next::Closed(e) => Err(SessionError::Serve(e)),
                    _ => Ok(Step::Wait),
                }
            },
        }
    }

    /// Why the fetch cannot be closed, if so: it is closed already, or the
    /// session has let go of it.
    pub open spec fn close_error(state: &State<FetchedState>) -> Option<ServeError> {
        match state.value().closed {
            Err(e) => Some(e),
            Ok(_) => if state.dropped() {
                Some(ServeError::Done)
            } else {
                None
            },
        }
    }

    /// Closes the fetch with `err`. A fetch is closed once.
    pub fn close(self, state: &mut State<FetchedState>, err: ServeError) -> (r: Result<
        (),
        ServeError,
    >)
        ensures
            match r {
                Ok(()) => {
                    &&& Self::close_error(old(state)) is None
                    &&& final(state).value().closed == Err::<(), ServeError>(err)
                    &&& final(state).epoch() == old(state).epoch().wrapping_add(1)
                    &&& !final(state).dropped()
                },
                Err(e) => Self::close_error(old(state)) == Some(e) && *final(state) == *old(state),
            },
    {
        check_open(&state.lock().closed)?;
        match state.lock_mut() {
            Some(shared) => {
                shared.closed = Err(err);
                Ok(())
            },
            None => Err(ServeError::Done),
        }
    }

    /// Ends the serving of a track with what came of it. A failure closes
    /// the fetch with its error; where the fetch does not let itself be
    /// closed, that comes back in place of the failure.
    pub fn serve(
        self,
        state: &mut State<FetchedState>,
        served: Result<(), SessionError>,
    ) -> (r: Result<(), SessionError>)
        ensures
            match served {
                Ok(_) => r is Ok && *final(state) == *old(state),
                Err(failure) => match Self::close_error(old(state)) {
                    Some(e) => r == Err::<
                        (),
                        SessionError,
                    >(SessionError::Serve(e)) && *final(state) == *old(state),
                    None => {
                        &&& r == Err::<(), SessionError>(failure)
                        &&& final(state).value().closed is Err
                        &&& final(state).value().closed->Err_0.code_of() == failure.code_of()
                        &&& final(state).value().closed->Err_0.reason_of() == failure.reason_of()
                        &&& (failure matches SessionError::Serve(e) ==> final(state).value().closed
                            == Err::<(), ServeError>(e))
                        &&& final(state).epoch() == old(state).epoch().wrapping_add(1)
                        &&& !final(state).dropped()
                    },
                },
            },
    {
        match served {
            Ok(()) => Ok(()),
            Err(failure) => match self.close(state, failure.clone().into_serve()) {
                Ok(()) => Err(failure),
                Err(e) => Err(SessionError::Serve(e)),
            },
        }
    }
}

impl FetchedRecv {
    /// The subscriber has given up the fetch: closes the fetch with
    /// `Cancel`, unless the publisher has let go of it. A fetch that is
    /// closed already fails with the error that it was closed with.
    pub fn recv_fetch_cancel(&mut self, state: &mut State<FetchedState>) -> (r: Result<
        (),
        ServeError,
    >)
        ensures
            *final(self) == *old(self),
            match old(state).value().closed {
                Err(e) => r == Err::<(), ServeError>(e) && *final(state) == *old(state),
                Ok(_) => if old(state).dropped() {
                    r is Ok && *final(state) == *old(state)
                } else {
                    &&& r is Ok
                    &&& final(state).value().closed == Err::<(), ServeError>(ServeError::Cancel)
                    &&& final(state).epoch() == old(state).epoch().wrapping_add(1)
                    &&& !final(state).dropped()
                },
            },
    {
        check_open(&state.lock().closed)?;
        match state.lock_mut() {
            Some(shared) => {
                shared.closed = Err(ServeError::Cancel);
            },
            None => {},
        }
        Ok(())
    }
}

} // verus!
