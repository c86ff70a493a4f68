//! A track: a named stream of objects in a namespace, written by one side in
//! one of three modes and read by any number of others.
//!
//! What was written lives in a [`TrackState`], which the handles are given
//! when they act. A handle alone is a right to write or a place in reading.

use vstd::prelude::*;
use crate::coding::tuple::Tuple;
use crate::data::object::ObjectStatus;
use crate::serve::channel::{next_of, Channel, Cursor, Next};
use crate::serve::error::{check_open, ServeError};
use crate::watch::queue::Wait;

verus! {

/// What names a track: its namespace and its name in it.
#[derive(Debug, PartialEq, Eq)]
pub struct Track {
    pub namespace: Tuple,
    pub name: String,
}

/// What a track is named.
pub struct TrackView {
    pub namespace: Seq<Seq<u8>>,
    pub name: Seq<char>,
}

impl View for Track {
    type V = TrackView;

    open spec fn view(&self) -> TrackView {
        TrackView { namespace: self.namespace@, name: self.name@ }
    }
}

impl Clone for Track {
    fn clone(&self) -> (r: Self)
        ensures
            r@ == self@,
    {
        Track { namespace: self.namespace.clone(), name: self.name.clone() }
    }
}

/// What names a subgroup and orders its stream among the others.
#[derive(Clone, Copy, Debug, PartialEq, Eq, Structural)]
pub struct Subgroup {
    pub group_id: u64,
    pub subgroup_id: u64,
    pub priority: u8,
}

/// One object of a subgroup. Its number is its place in the subgroup.
#[derive(Debug, PartialEq, Eq)]
pub struct Object {
    pub object_id: u64,
    pub status: ObjectStatus,
    pub payload: Vec<u8>,
}

impl Object {
    /// Whether the object is an ordinary object if it has a payload.
    pub open spec fn wf(&self) -> bool {
        self.payload@.len() > 0 ==> self.status == ObjectStatus::Object
    }
}

/// One object of a track that is written as a single stream.
#[derive(Debug, PartialEq, Eq)]
pub struct StreamObject {
    pub group_id: u64,
    pub object_id: u64,
    pub status: ObjectStatus,
    pub payload: Vec<u8>,
}

/// One object of a track that is written as datagrams.
#[derive(Debug, PartialEq, Eq)]
pub struct Datagram {
    pub group_id: u64,
    pub object_id: u64,
    pub priority: u8,
    pub status: ObjectStatus,
    pub payload: Vec<u8>,
}

/// A subgroup and the objects written to it so far.
pub struct SubgroupState {
    pub info: Subgroup,
    pub objects: Channel<Object>,
}

/// What a track holds, by the mode that its writer chose with its first
/// call.
pub enum TrackMode {
    /// Nothing was written yet.
    Unset,
    /// One stream for the whole track.
    Stream { priority: u8, objects: Channel<StreamObject> },
    /// One stream for each subgroup.
    Subgroups { subgroups: Channel<SubgroupState> },
    /// One datagram for each object.
    Datagrams { datagrams: Channel<Datagram> },
}

/// Whether `a` lies before `b`, by group first and by object in the group.
pub open spec fn location_before(a: (u64, u64), b: (u64, u64)) -> bool {
    a.0 < b.0 || (a.0 == b.0 && a.1 < b.1)
}

/// The later of the latest location so far and a new one.
pub open spec fn later_of(latest: Option<(u64, u64)>, place: (u64, u64)) -> Option<(u64, u64)> {
    match latest {
        None => Some(place),
        Some(known) => if location_before(known, place) {
            Some(place)
        } else {
            Some(known)
        },
    }
}

/// Everything written to one track, and how far its two sides have let go.
pub struct TrackState {
    mode: TrackMode,
    latest: Option<(u64, u64)>,
    closed: Result<(), ServeError>,
    done: bool,
    deserted: bool,
}

impl TrackState {
    /// What the track holds.
    pub closed spec fn mode(&self) -> TrackMode {
        self.mode
    }

    /// The largest group written to, and the largest object written in it.
    pub closed spec fn latest_of(&self) -> Option<(u64, u64)> {
        self.latest
    }

    /// The error that the track was closed with before a mode was chosen.
    pub closed spec fn closed(&self) -> Result<(), ServeError> {
        self.closed
    }

    /// Whether the writer let go before a mode was chosen.
    pub closed spec fn done(&self) -> bool {
        self.done
    }

    /// Whether every reader let go before a mode was chosen.
    pub closed spec fn deserted(&self) -> bool {
        self.deserted
    }

    /// Whether every subgroup numbers its objects by their place, and every
    /// object in it with a payload is an ordinary object. Every track that
    /// this module hands out, and every one that it has changed, is so.
    pub open spec fn wf(&self) -> bool {
        forall|i: int, j: int|
            0 <= i < self.subgroups().len() && 0 <= j < self.subgroups()[i].objects@.len() ==> ({
                let object = #[trigger] self.subgroups()[i].objects@[j];
                object.object_id == j && object.wf()
            })
    }

    /// Why nothing can be written to the track as it is, if so: the error
    /// that it was closed with, or `Cancel` once no reader is left.
    pub open spec fn refusal(&self) -> Option<ServeError> {
        match self.mode() {
            TrackMode::Unset => match self.closed() {
                Err(e) => Some(e),
                Ok(_) => if self.deserted() {
                    Some(ServeError::Cancel)
                } else {
                    None
                },
            },
            TrackMode::Stream { objects, .. } => objects.refusal(),
            TrackMode::Subgroups { subgroups } => subgroups.refusal(),
            TrackMode::Datagrams { datagrams } => datagrams.refusal(),
        }
    }

    /// The objects of a track that is a single stream, in the order of
    /// writing.
    pub open spec fn stream(&self) -> Seq<StreamObject> {
        match self.mode() {
            TrackMode::Stream { objects, .. } => objects@,
            _ => Seq::empty(),
        }
    }

    /// The priority of a track that is a single stream.
    pub open spec fn priority(&self) -> u8 {
        match self.mode() {
            TrackMode::Stream { priority, .. } => priority,
            _ => 0,
        }
    }

    /// The subgroups of a track that is written as subgroups, in the order
    /// of their opening.
    pub open spec fn subgroups(&self) -> Seq<SubgroupState> {
        match self.mode() {
            TrackMode::Subgroups { subgroups } => subgroups@,
            _ => Seq::empty(),
        }
    }

    /// The datagrams of a track that is written as datagrams, in the order
    /// of writing.
    pub open spec fn datagrams(&self) -> Seq<Datagram> {
        match self.mode() {
            TrackMode::Datagrams { datagrams } => datagrams@,
            _ => Seq::empty(),
        }
    }

    /// The error that the track was closed with, if it was.
    pub open spec fn shut(&self) -> Result<(), ServeError> {
        match self.mode() {
            TrackMode::Unset => self.closed(),
            TrackMode::Stream { objects, .. } => objects.closed(),
            TrackMode::Subgroups { subgroups } => subgroups.closed(),
            TrackMode::Datagrams { datagrams } => datagrams.closed(),
        }
    }

    /// Whether the writer of the track let go.
    pub open spec fn ended(&self) -> bool {
        match self.mode() {
            TrackMode::Unset => self.done(),
            TrackMode::Stream { objects, .. } => objects.done(),
            TrackMode::Subgroups { subgroups } => subgroups.done(),
            TrackMode::Datagrams { datagrams } => datagrams.done(),
        }
    }

    /// Whether this track holds what `before` holds: the same mode, and in
    /// it the same objects in the same order.
    pub open spec fn same_content(&self, before: &TrackState) -> bool {
        &&& self.mode() is Unset <==> before.mode() is Unset
        &&& self.mode() is Stream <==> before.mode() is Stream
        &&& self.mode() is Subgroups <==> before.mode() is Subgroups
        &&& self.mode() is Datagrams <==> before.mode() is Datagrams
        &&& self.stream() == before.stream()
        &&& self.priority() == before.priority()
        &&& self.subgroups() == before.subgroups()
        &&& self.datagrams() == before.datagrams()
        &&& self.latest_of() == before.latest_of()
    }

    /// What closing with `err` makes of the track `before`: on success a
    /// track with the same content that is closed with `err`; on failure,
    /// which comes with the reason why `before` refuses, the same track.
    pub open spec fn closing(
        &self,
        before: &TrackState,
        err: ServeError,
        r: Result<(), ServeError>,
    ) -> bool {
        match r {
            Ok(_) => {
                &&& before.refusal() is None
                &&& self.shut() == Err::<(), ServeError>(err)
                &&& self.refusal() == Some(err)
                &&& self.ended() == before.ended()
                &&& self.same_content(before)
            },
            Err(e) => before.refusal() == Some(e) && *self == *before,
        }
    }

    /// A track that nothing was written to.
    pub fn new() -> (r: Self)
        ensures
            r.mode() is Unset,
            r.latest_of() is None,
            r.closed() is Ok,
            !r.done(),
            !r.deserted(),
            r.refusal() is None,
            !r.ended(),
            r.wf(),
    {
        TrackState {
            mode: TrackMode::Unset,
            latest: None,
            closed: Ok(()),
            done: false,
            deserted: false,
        }
    }

    /// The largest group written to, and the largest object written in it.
    pub fn latest(&self) -> (r: Option<(u64, u64)>)
        ensures
            r == self.latest_of(),
    {
        self.latest
    }

    /// Whether anything can still be written.
    pub fn check(&self) -> (r: Result<(), ServeError>)
        ensures
            match r {
                Ok(()) => self.refusal() is None,
                Err(e) => self.refusal() == Some(e),
            },
    {
        match &self.mode {
            TrackMode::Unset => {
                check_open(&self.closed)?;
                if self.deserted {
                    Err(ServeError::Cancel)
                } else {
                    Ok(())
                }
            },
            TrackMode::Stream { objects, .. } => objects.check(),
            TrackMode::Subgroups { subgroups } => subgroups.check(),
            TrackMode::Datagrams { datagrams } => datagrams.check(),
        }
    }
}

impl TrackState {
    /// How many subgroups the track holds.
    pub fn subgroup_count(&self) -> (r: usize)
        ensures
            r == self.subgroups().len(),
    {
        match &self.mode {
            TrackMode::Subgroups { subgroups } => subgroups.len(),
            _ => 0,
        }
    }

    /// The subgroup at place `i` in the order of opening, with the objects
    /// written to it so far.
    pub fn subgroup_at(&self, i: usize) -> (r: Option<&SubgroupState>)
        ensures
            match r {
                Some(found) => i < self.subgroups().len() && *found == self.subgroups()[i as int],
                None => i >= self.subgroups().len(),
            },
    {
        match &self.mode {
            TrackMode::Subgroups { subgroups } => if i < subgroups.len() {
                Some(subgroups.get(i))
            } else {
                None
            },
            _ => None,
        }
    }

    /// Why a writer that has not chosen a mode cannot choose one, if so: the
    /// track refuses to be written, or it is in a mode already.
    pub open spec fn entry_error(&self) -> Option<ServeError> {
        if self.refusal() is Some {
            self.refusal()
        } else if self.mode() is Unset {
            None
        } else {
            Some(ServeError::Mode)
        }
    }

    /// Closes the track with `err`, for every reader to find behind what was
    /// written. A track is closed once.
    pub fn close(&mut self, err: ServeError) -> (r: Result<(), ServeError>)
        ensures
            old(self).wf() ==> final(self).wf(),
            final(self).closing(old(self), err, r),
    {
        self.check()?;
        match &mut self.mode {
            TrackMode::Unset => {
                self.closed = Err(err);
                Ok(())
            },
            TrackMode::Stream { objects, .. } => objects.close(err),
            TrackMode::Subgroups { subgroups } => subgroups.close(err),
            TrackMode::Datagrams { datagrams } => datagrams.close(err),
        }
    }

    /// The writer lets go: what was written stays, and nothing more comes.
    pub fn finish(&mut self)
        ensures
            old(self).wf() ==> final(self).wf(),
            final(self).ended(),
            final(self).shut() == old(self).shut(),
            final(self).refusal() == old(self).refusal(),
            final(self).same_content(old(self)),
    {
        match &mut self.mode {
            TrackMode::Unset => {
                self.done = true;
            },
            TrackMode::Stream { objects, .. } => objects.finish(),
            TrackMode::Subgroups { subgroups } => subgroups.finish(),
            TrackMode::Datagrams { datagrams } => datagrams.finish(),
        }
    }

    /// The last reader lets go: nothing more can be written.
    pub fn desert(&mut self)
        ensures
            old(self).wf() ==> final(self).wf(),
            final(self).refusal() == if old(self).refusal() is Some {
                old(self).refusal()
            } else {
                Some(ServeError::Cancel)
            },
            final(self).shut() == old(self).shut(),
            final(self).ended() == old(self).ended(),
            final(self).same_content(old(self)),
    {
        match &mut self.mode {
            TrackMode::Unset => {
                self.deserted = true;
            },
            TrackMode::Stream { objects, .. } => objects.desert(),
            TrackMode::Subgroups { subgroups } => subgroups.desert(),
            TrackMode::Datagrams { datagrams } => datagrams.desert(),
        }
    }

    fn note(&mut self, group_id: u64, object_id: u64)
        ensures
            final(self).mode() == old(self).mode(),
            final(self).closed() == old(self).closed(),
            final(self).done() == old(self).done(),
            final(self).deserted() == old(self).deserted(),
            final(self).latest_of() == later_of(old(self).latest_of(), (group_id, object_id)),
    {
        let newer = match self.latest {
            None => true,
            Some((group, object)) => group < group_id || (group == group_id && object < object_id),
        };
        if newer {
            self.latest = Some((group_id, object_id));
        }
    }
}

/// The right to write a track whose mode is not chosen yet.
#[derive(Debug, PartialEq, Eq)]
pub struct TrackWriter {
    pub info: Track,
}

/// The right to write a track as a single stream.
#[derive(Debug, PartialEq, Eq)]
pub struct StreamWriter {
    pub info: Track,
    pub priority: u8,
}

impl Clone for StreamWriter {
    fn clone(&self) -> (r: Self)
        ensures
            r.info@ == self.info@,
            r.priority == self.priority,
    {
        StreamWriter { info: self.info.clone(), priority: self.priority }
    }
}

/// The right to open subgroups in a track.
#[derive(Debug, PartialEq, Eq)]
pub struct SubgroupsWriter {
    pub info: Track,
}

/// The right to write the objects of one subgroup.
#[derive(Debug, PartialEq, Eq)]
pub struct SubgroupWriter {
    pub info: Subgroup,
    /// The place of the subgroup among the subgroups of its track.
    pub index: usize,
}

/// The right to write a track as datagrams.
#[derive(Debug, PartialEq, Eq)]
pub struct DatagramsWriter {
    pub info: Track,
}

/// The right to write a track, in the mode that it is in.
#[derive(Debug, PartialEq, Eq)]
pub enum TrackWriterMode {
    Track(TrackWriter),
    Stream(StreamWriter),
    Subgroups(SubgroupsWriter),
    Datagrams(DatagramsWriter),
}

/// A reader of a track, before it knows the mode of the track.
#[derive(Debug, PartialEq, Eq)]
pub struct TrackReader {
    pub info: Track,
}

impl Clone for TrackReader {
    fn clone(&self) -> (r: Self)
        ensures
            r.info@ == self.info@,
    {
        TrackReader { info: self.info.clone() }
    }
}

impl Track {
    /// Names a track.
    pub fn new(namespace: Tuple, name: String) -> (r: Self)
        ensures
            r.namespace == namespace,
            r.name == name,
    {
        Track { namespace, name }
    }

    /// Hands out the right to write the track and a reader of it. What they
    /// act on is a [`TrackState`] made for the track.
    pub fn produce(self) -> (r: (TrackWriter, TrackReader))
        ensures
            r.0.info@ == self@,
            r.1.info@ == self@,
    {
        let info = self.clone();
        (TrackWriter { info }, TrackReader { info: self })
    }
}

impl TrackWriter {
    /// Chooses to write the track as a single stream.
    pub fn stream(self, track: &mut TrackState, priority: u8) -> (r: Result<
        StreamWriter,
        ServeError,
    >)
        ensures
            final(track).latest_of() == old(track).latest_of(),
            old(track).wf() ==> final(track).wf(),
            match r {
                Ok(writer) => {
                    &&& old(track).entry_error() is None
                    &&& writer.info == self.info
                    &&& writer.priority == priority
                    &&& final(track).mode() is Stream
                    &&& final(track).priority() == priority
                    &&& final(track).stream().len() == 0
                    &&& final(track).refusal() is None
                    &&& final(track).ended() == old(track).ended()
                },
                Err(e) => old(track).entry_error() == Some(e) && *final(track) == *old(track),
            },
    {
        track.check()?;
        match &track.mode {
            TrackMode::Unset => {},
            _ => {
                return Err(ServeError::Mode);
            },
        }
        let mut list = Channel::new();
        if track.done {
            list.finish();
        }
        track.mode = TrackMode::Stream { priority, objects: list };
        Ok(StreamWriter { info: self.info, priority })
    }

    /// Chooses to write the track as subgroups.
    pub fn groups(self, track: &mut TrackState) -> (r: Result<SubgroupsWriter, ServeError>)
        ensures
            final(track).latest_of() == old(track).latest_of(),
            old(track).wf() ==> final(track).wf(),
            match r {
                Ok(writer) => {
                    &&& old(track).entry_error() is None
                    &&& writer.info == self.info
                    &&& final(track).mode() is Subgroups
                    &&& final(track).subgroups().len() == 0
                    &&& final(track).refusal() is None
                    &&& final(track).ended() == old(track).ended()
                },
                Err(e) => old(track).entry_error() == Some(e) && *final(track) == *old(track),
            },
    {
        track.check()?;
        match &track.mode {
            TrackMode::Unset => {},
            _ => {
                return Err(ServeError::Mode);
            },
        }
        let mut list = Channel::new();
        if track.done {
            list.finish();
        }
        track.mode = TrackMode::Subgroups { subgroups: list };
        Ok(SubgroupsWriter { info: self.info })
    }

    /// Chooses to write the track as datagrams.
    pub fn datagrams(self, track: &mut TrackState) -> (r: Result<DatagramsWriter, ServeError>)
        ensures
            final(track).latest_of() == old(track).latest_of(),
            old(track).wf() ==> final(track).wf(),
            match r {
                Ok(writer) => {
                    &&& old(track).entry_error() is None
                    &&& writer.info == self.info
                    &&& final(track).mode() is Datagrams
                    &&& final(track).datagrams().len() == 0
                    &&& final(track).refusal() is None
                    &&& final(track).ended() == old(track).ended()
                },
                Err(e) => old(track).entry_error() == Some(e) && *final(track) == *old(track),
            },
    {
        track.check()?;
        match &track.mode {
            TrackMode::Unset => {},
            _ => {
                return Err(ServeError::Mode);
            },
        }
        let mut list = Channel::new();
        if track.done {
            list.finish();
        }
        track.mode = TrackMode::Datagrams { datagrams: list };
        Ok(DatagramsWriter { info: self.info })
    }

    /// Closes the track with `err` before anything was written.
    pub fn close(self, track: &mut TrackState, err: ServeError) -> (r: Result<(), ServeError>)
        ensures
            old(track).wf() ==> final(track).wf(),
            final(track).closing(old(track), err, r),
    {
        track.close(err)
    }
}

impl TrackWriterMode {
    /// Closes the track with `err`, in whatever mode it is.
    pub fn close(self, track: &mut TrackState, err: ServeError) -> (r: Result<(), ServeError>)
        ensures
            old(track).wf() ==> final(track).wf(),
            final(track).closing(old(track), err, r),
    {
        track.close(err)
    }
}

/// Why a writer cannot write to a track, if so: the track is in another mode
/// than the writer, or it refuses.
pub open spec fn write_error(track: &TrackState, fits: bool) -> Option<ServeError> {
    if !fits {
        Some(ServeError::Mode)
    } else {
        track.refusal()
    }
}

impl StreamWriter {
    /// Appends one object to the stream.
    pub fn write(&mut self, track: &mut TrackState, object: StreamObject) -> (r: Result<
        (),
        ServeError,
    >)
        ensures
            *final(self) == *old(self),
            match r {
                Ok(()) => {
                    &&& write_error(old(track), old(track).mode() is Stream) is None
                    &&& final(track).mode() is Stream
                    &&& final(track).priority() == old(track).priority()
                    &&& final(track).stream() == old(track).stream().push(object)
                    &&& final(track).refusal() is None
                    &&& final(track).ended() == old(track).ended()
                    &&& final(track).latest_of() == later_of(
                        old(track).latest_of(),
                        (object.group_id, object.object_id),
                    )
                },
                Err(e) => write_error(old(track), old(track).mode() is Stream) == Some(e)
                    && *final(track) == *old(track),
            },
    {
        let group_id = object.group_id;
        let object_id = object.object_id;
        match &track.mode {
            TrackMode::Stream { .. } => {},
            _ => {
                return Err(ServeError::Mode);
            },
        }
        track.check()?;
        match &mut track.mode {
            TrackMode::Stream { objects, .. } => {
                let _ = objects.push(object);
            },
            _ => {},
        }
        track.note(group_id, object_id);
        Ok(())
    }
}

impl DatagramsWriter {
    /// Appends one datagram to the track.
    pub fn write(&mut self, track: &mut TrackState, datagram: Datagram) -> (r: Result<
        (),
        ServeError,
    >)
        ensures
            *final(self) == *old(self),
            match r {
                Ok(()) => {
                    &&& write_error(old(track), old(track).mode() is Datagrams) is None
                    &&& final(track).mode() is Datagrams
                    &&& final(track).datagrams() == old(track).datagrams().push(datagram)
                    &&& final(track).refusal() is None
                    &&& final(track).ended() == old(track).ended()
                    &&& final(track).latest_of() == later_of(
                        old(track).latest_of(),
                        (datagram.group_id, datagram.object_id),
                    )
                },
                Err(e) => write_error(old(track), old(track).mode() is Datagrams) == Some(e)
                    && *final(track) == *old(track),
            },
    {
        let group_id = datagram.group_id;
        let object_id = datagram.object_id;
        match &track.mode {
            TrackMode::Datagrams { .. } => {},
            _ => {
                return Err(ServeError::Mode);
            },
        }
        track.check()?;
        match &mut track.mode {
            TrackMode::Datagrams { datagrams } => {
                let _ = datagrams.push(datagram);
            },
            _ => {},
        }
        track.note(group_id, object_id);
        Ok(())
    }
}

impl SubgroupsWriter {
    /// Opens a subgroup behind those already there.
    pub fn create(&mut self, track: &mut TrackState, subgroup: Subgroup) -> (r: Result<
        SubgroupWriter,
        ServeError,
    >)
        ensures
            *final(self) == *old(self),
            final(track).latest_of() == old(track).latest_of(),
            old(track).wf() ==> final(track).wf(),
            match r {
                Ok(writer) => {
                    let count = old(track).subgroups().len() as int;
                    &&& write_error(old(track), old(track).mode() is Subgroups) is None
                    &&& writer.info == subgroup
                    &&& writer.index == count
                    &&& final(track).mode() is Subgroups
                    &&& final(track).subgroups().len() == count + 1
                    &&& final(track).subgroups().take(count) == old(track).subgroups()
                    &&& final(track).subgroups()[count].info == subgroup
                    &&& final(track).subgroups()[count].objects@.len() == 0
                    &&& final(track).subgroups()[count].objects.refusal() is None
                    &&& !final(track).subgroups()[count].objects.done()
                    &&& final(track).refusal() is None
                    &&& final(track).ended() == old(track).ended()
                },
                Err(e) => write_error(old(track), old(track).mode() is Subgroups) == Some(e)
                    && *final(track) == *old(track),
            },
    {
        match &track.mode {
            TrackMode::Subgroups { .. } => {},
            _ => {
                return Err(ServeError::Mode);
            },
        }
        track.check()?;
        let mut index: usize = 0;
        match &mut track.mode {
            TrackMode::Subgroups { subgroups } => {
                index = subgroups.len();
                let _ = subgroups.push(
                    SubgroupState { info: subgroup, objects: Channel::new() },
                );
            },
            _ => {},
        }
        Ok(SubgroupWriter { info: subgroup, index })
    }
}

impl SubgroupWriter {
    /// Whether the track holds the subgroup that this writer was made for.
    pub open spec fn fits(&self, track: &TrackState) -> bool {
        track.mode() is Subgroups && self.index < track.subgroups().len()
    }

    /// Why this writer cannot write to the track, if so: the track does not
    /// hold its subgroup, the subgroup refuses, or it is full.
    pub open spec fn write_error(&self, track: &TrackState) -> Option<ServeError> {
        if !self.fits(track) {
            Some(ServeError::Mode)
        } else {
            let objects = track.subgroups()[self.index as int].objects;
            if objects.refusal() is Some {
                objects.refusal()
            } else if objects@.len() >= usize::MAX {
                Some(ServeError::Mode)
            } else {
                None
            }
        }
    }

    /// Appends an ordinary object with the given payload to the subgroup and
    /// gives its number, which is its place in the subgroup.
    pub fn write(
        &mut self,
        track: &mut TrackState,
        payload: Vec<u8>,
    ) -> (r: Result<u64, ServeError>)
        ensures
            *final(self) == *old(self),
            old(track).wf() ==> final(track).wf(),
            old(self).written(old(track), final(track), ObjectStatus::Object, payload@, r),
    {
        self.put(track, ObjectStatus::Object, payload)
    }

    /// Appends a marker without a payload to the subgroup and gives its
    /// number, which is its place in the subgroup.
    pub fn mark(&mut self, track: &mut TrackState, status: ObjectStatus) -> (r: Result<
        u64,
        ServeError,
    >)
        ensures
            *final(self) == *old(self),
            old(track).wf() ==> final(track).wf(),
            old(self).written(old(track), final(track), status, Seq::<u8>::empty(), r),
    {
        self.put(track, status, Vec::new())
    }

    /// What appending an object does to the track: on success the object
    /// stands last in the subgroup, under the number of its place, and the
    /// rest of the track is as it was; on failure the track is as it was.
    pub open spec fn written(
        &self,
        before: &TrackState,
        after: &TrackState,
        status: ObjectStatus,
        payload: Seq<u8>,
        r: Result<u64, ServeError>,
    ) -> bool {
        match r {
            Ok(object_id) => {
                let at = self.index as int;
                &&& self.write_error(before) is None
                &&& after.mode() is Subgroups
                &&& after.subgroups().len() == before.subgroups().len()
                &&& forall|i: int|
                    0 <= i < before.subgroups().len() && i != at ==> after.subgroups()[i]
                        == before.subgroups()[i]
                &&& after.subgroups()[at].info == before.subgroups()[at].info
                &&& object_id == before.subgroups()[at].objects@.len()
                &&& after.subgroups()[at].objects@.len() == object_id + 1
                &&& after.subgroups()[at].objects@.take(object_id as int)
                    == before.subgroups()[at].objects@
                &&& after.subgroups()[at].objects@[object_id as int].object_id == object_id
                &&& after.subgroups()[at].objects@[object_id as int].status == status
                &&& after.subgroups()[at].objects@[object_id as int].payload@ == payload
                &&& after.subgroups()[at].objects.refusal() is None
                &&& after.subgroups()[at].objects.done() == before.subgroups()[at].objects.done()
                &&& after.refusal() == before.refusal()
                &&& after.ended() == before.ended()
                &&& after.latest_of() == later_of(
                    before.latest_of(),
                    (self.info.group_id, object_id),
                )
            },
            Err(e) => self.write_error(before) == Some(e) && *after == *before,
        }
    }

    fn put(
        &mut self,
        track: &mut TrackState,
        status: ObjectStatus,
        payload: Vec<u8>,
    ) -> (r: Result<u64, ServeError>)
        requires
            payload@.len() > 0 ==> status == ObjectStatus::Object,
        ensures
            *final(self) == *old(self),
            old(track).wf() ==> final(track).wf(),
            old(self).written(old(track), final(track), status, payload@, r),
    {
        let group_id = self.info.group_id;
        let mut object_id: u64 = 0;
        match &track.mode {
            TrackMode::Subgroups { subgroups } => {
                if self.index >= subgroups.len() {
                    return Err(ServeError::Mode);
                }
                let state = subgroups.get(self.index);
                state.objects.check()?;
                let count = state.objects.len();
                if count >= usize::MAX {
                    return Err(ServeError::Mode);
                }
                object_id = count as u64;
            },
            _ => {
                return Err(ServeError::Mode);
            },
        }
        match &mut track.mode {
            TrackMode::Subgroups { subgroups } => {
                let state = subgroups.get_mut(self.index);
                let _ = state.objects.push(Object { object_id, status, payload });
            },
            _ => {},
        }
        track.note(group_id, object_id);
        proof {
            let at = self.index as int;
            let before = old(track).subgroups()[at].objects@;
            assert(track.subgroups()[at].objects@.take(object_id as int) =~= before);
        }
        Ok(object_id)
    }

    /// Ends the subgroup: what was written stays, and nothing more comes.
    pub fn finish(self, track: &mut TrackState)
        ensures
            old(track).wf() ==> final(track).wf(),
            final(track).latest_of() == old(track).latest_of(),
            final(track).refusal() == old(track).refusal(),
            final(track).ended() == old(track).ended(),
            !self.fits(old(track)) ==> *final(track) == *old(track),
            self.fits(old(track)) ==> ({
                let at = self.index as int;
                let before = old(track).subgroups();
                let after = final(track).subgroups();
                &&& final(track).mode() is Subgroups
                &&& after.len() == before.len()
                &&& forall|i: int| 0 <= i < before.len() && i != at ==> after[i] == before[i]
                &&& after[at].info == before[at].info
                &&& after[at].objects@ == before[at].objects@
                &&& after[at].objects.refusal() == before[at].objects.refusal()
                &&& after[at].objects.done()
            }),
    {
        match &mut track.mode {
            TrackMode::Subgroups { subgroups } => {
                if self.index < subgroups.len() {
                    let state = subgroups.get_mut(self.index);
                    state.objects.finish();
                }
            },
            _ => {},
        }
    }
}

/// A place in reading a track that is a single stream.
#[derive(Clone, Copy, Debug, PartialEq, Eq, Structural)]
pub struct StreamReader {
    pub priority: u8,
    pub cursor: Cursor,
}

/// A place in reading the subgroups of a track.
#[derive(Clone, Copy, Debug, PartialEq, Eq, Structural)]
pub struct SubgroupsReader {
    pub cursor: Cursor,
}

/// A place in reading the objects of one subgroup.
#[derive(Clone, Copy, Debug, PartialEq, Eq, Structural)]
pub struct SubgroupReader {
    pub info: Subgroup,
    /// The place of the subgroup among the subgroups of its track.
    pub index: usize,
    pub cursor: Cursor,
}

/// A place in reading the datagrams of a track.
#[derive(Clone, Copy, Debug, PartialEq, Eq, Structural)]
pub struct DatagramsReader {
    pub cursor: Cursor,
}

/// A reader of a track, by the mode that the track is in.
#[derive(Clone, Copy, Debug, PartialEq, Eq, Structural)]
pub enum TrackReaderMode {
    Stream(StreamReader),
    Subgroups(SubgroupsReader),
    Datagrams(DatagramsReader),
}

impl TrackReader {
    /// What a reader learns when it asks for the mode of a track: a reader
    /// for the mode once it is chosen; before that, the error that the track
    /// was closed with, `Done` if its writer let go, or nothing yet.
    pub open spec fn mode_of(track: &TrackState) -> Wait<Result<TrackReaderMode, ServeError>> {
        match track.mode() {
            TrackMode::Unset => match track.closed() {
                Err(e) => Wait::Ready(Err(e)),
                Ok(_) => if track.done() {
                    Wait::Ready(Err(ServeError::Done))
                } else {
                    Wait::Pending
                },
            },
            TrackMode::Stream { priority, .. } => Wait::Ready(
                Ok(TrackReaderMode::Stream(StreamReader { priority, cursor: Cursor { next: 0 } })),
            ),
            TrackMode::Subgroups { .. } => Wait::Ready(
                Ok(TrackReaderMode::Subgroups(SubgroupsReader { cursor: Cursor { next: 0 } })),
            ),
            TrackMode::Datagrams { .. } => Wait::Ready(
                Ok(TrackReaderMode::Datagrams(DatagramsReader { cursor: Cursor { next: 0 } })),
            ),
        }
    }

    /// Asks for the mode of the track, to read it from its beginning.
    pub fn mode(&self, track: &TrackState) -> (r: Wait<Result<TrackReaderMode, ServeError>>)
        ensures
            r == Self::mode_of(track),
    {
        match &track.mode {
            TrackMode::Unset => match &track.closed {
                Err(e) => Wait::Ready(Err(e.clone())),
                Ok(_) => if track.done {
                    Wait::Ready(Err(ServeError::Done))
                } else {
                    Wait::Pending
                },
            },
            TrackMode::Stream { priority, .. } => Wait::Ready(
                Ok(
                    TrackReaderMode::Stream(
                        StreamReader { priority: *priority, cursor: Cursor::new() },
                    ),
                ),
            ),
            TrackMode::Subgroups { .. } => Wait::Ready(
                Ok(TrackReaderMode::Subgroups(SubgroupsReader { cursor: Cursor::new() })),
            ),
            TrackMode::Datagrams { .. } => Wait::Ready(
                Ok(TrackReaderMode::Datagrams(DatagramsReader { cursor: Cursor::new() })),
            ),
        }
    }

    /// The largest group written to, and the largest object written in it.
    pub fn latest(&self, track: &TrackState) -> (r: Option<(u64, u64)>)
        ensures
            r == track.latest_of(),
    {
        track.latest()
    }
}

impl StreamReader {
    /// What this reader finds next in the track. A track in another mode is
    /// closed to it.
    pub open spec fn found(&self, track: &TrackState) -> Next<StreamObject> {
        if track.mode() is Stream {
            next_of(track.stream(), track.shut(), track.ended(), self.cursor.next as nat)
        } else {
            Next::Closed(ServeError::Mode)
        }
    }

    /// Reads the next object of the stream.
    pub fn next<'a>(&mut self, track: &'a TrackState) -> (r: Next<&'a StreamObject>)
        ensures
            final(self).priority == old(self).priority,
            match old(self).found(track) {
                Next::Item(item) => r matches Next::Item(got) && *got == item
                    && final(self).cursor.next == old(self).cursor.next + 1,
                Next::Done => r is Done && *final(self) == *old(self),
                Next::Closed(e) => r matches Next::Closed(got) && got == e
                    && *final(self) == *old(self),
                Next::Pending => r is Pending && *final(self) == *old(self),
            },
    {
        match &track.mode {
            TrackMode::Stream { objects, .. } => self.cursor.next(objects),
            _ => Next::Closed(ServeError::Mode),
        }
    }
}

impl DatagramsReader {
    /// What this reader finds next in the track. A track in another mode is
    /// closed to it.
    pub open spec fn found(&self, track: &TrackState) -> Next<Datagram> {
        if track.mode() is Datagrams {
            next_of(track.datagrams(), track.shut(), track.ended(), self.cursor.next as nat)
        } else {
            Next::Closed(ServeError::Mode)
        }
    }

    /// Reads the next datagram of the track.
    pub fn read<'a>(&mut self, track: &'a TrackState) -> (r: Next<&'a Datagram>)
        ensures
            match old(self).found(track) {
                Next::Item(item) => r matches Next::Item(got) && *got == item
                    && final(self).cursor.next == old(self).cursor.next + 1,
                Next::Done => r is Done && *final(self) == *old(self),
                Next::Closed(e) => r matches Next::Closed(got) && got == e
                    && *final(self) == *old(self),
                Next::Pending => r is Pending && *final(self) == *old(self),
            },
    {
        match &track.mode {
            TrackMode::Datagrams { datagrams } => self.cursor.next(datagrams),
            _ => Next::Closed(ServeError::Mode),
        }
    }
}

impl SubgroupsReader {
    /// What this reader finds next in the track: a reader of the next
    /// subgroup, at its beginning. A track in another mode is closed to it.
    pub open spec fn found(&self, track: &TrackState) -> Next<SubgroupReader> {
        if track.mode() is Subgroups {
            match next_of(
                track.subgroups(),
                track.shut(),
                track.ended(),
                self.cursor.next as nat,
            ) {
                Next::Item(state) => Next::Item(
                    SubgroupReader {
                        info: state.info,
                        index: self.cursor.next,
                        cursor: Cursor { next: 0 },
                    },
                ),
                Next::Done => Next::Done,
                Next::Closed(e) => Next::Closed(e),
                Next::Pending => Next::Pending,
            }
        } else {
            Next::Closed(ServeError::Mode)
        }
    }

    /// Reads the next subgroup of the track.
    pub fn next(&mut self, track: &TrackState) -> (r: Next<SubgroupReader>)
        ensures
            r == old(self).found(track),
            final(self).cursor.next == if r is Item {
                old(self).cursor.next + 1
            } else {
                old(self).cursor.next as int
            },
    {
        let index = self.cursor.next;
        match &track.mode {
            TrackMode::Subgroups { subgroups } => match self.cursor.next(subgroups) {
                Next::Item(state) => Next::Item(
                    SubgroupReader { info: state.info, index, cursor: Cursor::new() },
                ),
                Next::Done => Next::Done,
                Next::Closed(e) => Next::Closed(e),
                Next::Pending => Next::Pending,
            },
            _ => Next::Closed(ServeError::Mode),
        }
    }
}

impl SubgroupReader {
    /// Whether the track holds the subgroup that this reader was made for.
    pub open spec fn fits(&self, track: &TrackState) -> bool {
        track.mode() is Subgroups && self.index < track.subgroups().len()
    }

    /// What this reader finds next in its subgroup. A track that does not
    /// hold the subgroup is closed to it.
    pub open spec fn found(&self, track: &TrackState) -> Next<Object> {
        if self.fits(track) {
            let objects = track.subgroups()[self.index as int].objects;
            next_of(objects@, objects.closed(), objects.done(), self.cursor.next as nat)
        } else {
            Next::Closed(ServeError::Mode)
        }
    }

    /// Looks at the next object of the subgroup without moving on.
    pub fn peek<'a>(&self, track: &'a TrackState) -> (r: Next<&'a Object>)
        ensures
            match self.found(track) {
                Next::Item(item) => r matches Next::Item(got) && *got == item,
                Next::Done => r is Done,
                Next::Closed(e) => r matches Next::Closed(got) && got == e,
                Next::Pending => r is Pending,
            },
    {
        match &track.mode {
            TrackMode::Subgroups { subgroups } => {
                if self.index < subgroups.len() {
                    self.cursor.peek(&subgroups.get(self.index).objects)
                } else {
                    Next::Closed(ServeError::Mode)
                }
            },
            _ => Next::Closed(ServeError::Mode),
        }
    }

    /// Reads the next object of the subgroup.
    pub fn next<'a>(&mut self, track: &'a TrackState) -> (r: Next<&'a Object>)
        ensures
            final(self).info == old(self).info,
            final(self).index == old(self).index,
            match old(self).found(track) {
                Next::Item(item) => r matches Next::Item(got) && *got == item
                    && final(self).cursor.next == old(self).cursor.next + 1,
                Next::Done => r is Done && *final(self) == *old(self),
                Next::Closed(e) => r matches Next::Closed(got) && got == e
                    && *final(self) == *old(self),
                Next::Pending => r is Pending && *final(self) == *old(self),
            },
    {
        match &track.mode {
            TrackMode::Subgroups { subgroups } => {
                if self.index < subgroups.len() {
                    self.cursor.next(&subgroups.get(self.index).objects)
                } else {
                    Next::Closed(ServeError::Mode)
                }
            },
            _ => Next::Closed(ServeError::Mode),
        }
    }
}

} // verus!
