//! A broadcast: the tracks of one namespace, by name. Its writer makes
//! tracks; its readers ask for tracks by name, and a name that the writer has
//! not made is queued as a request for whoever can make it.
//!
//! The registry of tracks and the queue of requests are shared by the
//! handles, which are given them when they act.

use vstd::prelude::*;
use vstd::utf8::encode_utf8;
use crate::coding::tuple::{Tuple, TupleField};
use crate::serve::error::ServeError;
use crate::serve::track::{Track, TrackReader, TrackState, TrackView, TrackWriter};
use crate::watch::queue::{left, taken, Queue, Wait};
use crate::watch::state::State;

verus! {

/// What names a broadcast: its namespace.
#[derive(Debug, PartialEq, Eq)]
pub struct Tracks {
    pub namespace: Tuple,
}

impl Clone for Tracks {
    fn clone(&self) -> (r: Self)
        ensures
            r.namespace@ == self.namespace@,
    {
        Tracks { namespace: self.namespace.clone() }
    }
}

/// A track of a broadcast, under its name.
pub struct TracksEntry {
    pub name: TupleField,
    pub reader: TrackReader,
}

/// The tracks of a broadcast: a reader for each, under the name of the
/// track. No name is there twice.
pub struct TracksState {
    tracks: Vec<TracksEntry>,
}

impl TracksState {
    /// The tracks in the order in which they are kept.
    pub closed spec fn entries(&self) -> Seq<TracksEntry> {
        self.tracks@
    }

    /// Where the track of the given name is kept, if it is there.
    pub open spec fn place_of(&self, name: Seq<u8>) -> Option<int> {
        if exists|i: int| 0 <= i < self.entries().len()
            && #[trigger] self.entries()[i].name@ == name {
            Some(
                choose|i: int|
                    0 <= i < self.entries().len() && #[trigger] self.entries()[i].name@ == name,
            )
        } else {
            None
        }
    }

    /// Whether no name is there twice.
    pub open spec fn wf(&self) -> bool {
        forall|i: int, j: int|
            0 <= i < self.entries().len() && 0 <= j < self.entries().len() && i != j ==> (
            #[trigger] self.entries()[i]).name@ != (#[trigger] self.entries()[j]).name@
    }

    /// No track.
    pub fn new() -> (r: Self)
        ensures
            r.entries() == Seq::<TracksEntry>::empty(),
            r@ == Map::<Seq<u8>, TrackView>::empty(),
            r.wf(),
    {
        let r = TracksState { tracks: Vec::new() };
        r
    }

    fn find(&self, name: &TupleField) -> (r: Option<usize>)
        ensures
            match r {
                Some(i) => i < self.entries().len() && self.entries()[i as int].name@ == name@,
                None => forall|i: int|
                    0 <= i < self.entries().len() ==> (#[trigger] self.entries()[i]).name@
                        != name@,
            },
    {
        let mut i: usize = 0;
        while i < self.tracks.len()
            invariant
                i <= self.tracks.len(),
                forall|j: int| 0 <= j < i ==> (#[trigger] self.tracks@[j]).name@ != name@,
            decreases self.tracks.len() - i,
        {
            if self.tracks[i].name.same(name) {
                return Some(i);
            }
            i += 1;
        }
        None
    }

    /// A reader of the track of the given name, if the track is there.
    pub fn get(&self, name: &TupleField) -> (r: Option<TrackReader>)
        requires
            self.wf(),
        ensures
            match r {
                Some(reader) => self@.contains_key(name@) && reader.info@ == self@[name@],
                None => !self@.contains_key(name@),
            },
    {
        match self.find(name) {
            Some(i) => {
                Some(self.tracks[i].reader.clone())
            },
            None => None,
        }
    }

    /// Puts the track under its name, in place of a track that was there
    /// under the same name.
    pub fn insert(&mut self, name: TupleField, reader: TrackReader)
        requires
            old(self).wf(),
        ensures
            final(self).wf(),
            final(self)@ == old(self)@.insert(name@, reader.info@),
    {
        let ghost key = name@;
        let ghost info = reader.info@;
        match self.find(&name) {
            Some(i) => {
                self.tracks[i] = TracksEntry { name, reader };
                proof {
                    assert forall|k: Seq<u8>|
                        (#[trigger] self@.dom().contains(k)) == old(self)@.insert(
                            key,
                            info,
                        ).dom().contains(k) && (self@.dom().contains(k)
                            ==> self@[k] == old(self)@.insert(key, info)[k]) by {
                        old(self).lemma_view_of(k);
                        if k == key {
                            self.lemma_view_at(i as int);
                        } else if old(self)@.dom().contains(k) {
                            let j = old(self).place_of(k)->0;
                            self.lemma_view_at(j);
                            old(self).lemma_view_at(j);
                        }
                    }
                }
            },
            None => {
                let ghost before = self.tracks@;
                self.tracks.push(TracksEntry { name, reader });
                proof {
                    let last = before.len() as int;
                    assert forall|k: Seq<u8>|
                        (#[trigger] self@.dom().contains(k)) == old(self)@.insert(
                            key,
                            info,
                        ).dom().contains(k) && (self@.dom().contains(k)
                            ==> self@[k] == old(self)@.insert(key, info)[k]) by {
                        old(self).lemma_view_of(k);
                        if k == key {
                            self.lemma_view_at(last);
                        } else if old(self)@.dom().contains(k) {
                            let j = old(self).place_of(k)->0;
                            self.lemma_view_at(j);
                            old(self).lemma_view_at(j);
                        }
                    }
                }
            },
        }
    }

    /// Takes out the track of the given name and hands over its reader, if
    /// the track is there.
    pub fn remove(&mut self, name: &TupleField) -> (r: Option<TrackReader>)
        requires
            old(self).wf(),
        ensures
            final(self).wf(),
            final(self)@ == old(self)@.remove(name@),
            match r {
                Some(reader) => old(self)@.contains_key(name@) && reader.info@ == old(self)@[name@],
                None => !old(self)@.contains_key(name@),
            },
    {
        let ghost key = name@;
        match self.find(name) {
            Some(i) => {
                let ghost before = self.tracks@;
                proof {
                    old(self).lemma_view_at(i as int);
                }
                let entry = self.tracks.remove(i);
                proof {
                    assert forall|k: Seq<u8>|
                        (#[trigger] self@.dom().contains(k)) == old(self)@.remove(
                            key,
                        ).dom().contains(k) && (self@.dom().contains(k)
                            ==> self@[k] == old(self)@.remove(key)[k]) by {
                        old(self).lemma_view_of(k);
                        if self@.dom().contains(k) {
                            let j = self.place_of(k)->0;
                            let x = if j < i { j } else { j + 1 };
                            old(self).lemma_view_at(x);
                        }
                        if k != key && old(self)@.dom().contains(k) {
                            let x = old(self).place_of(k)->0;
                            let j = if x < i { x } else { x - 1 };
                            assert(self.entries()[j] == before[x]);
                        }
                    }
                }
                Some(entry.reader)
            },
            None => {
                proof {
                    old(self).lemma_view_of(key);
                }
                None
            },
        }
    }

    /// A name is a key of the map exactly if a track is kept under it.
    pub proof fn lemma_view_of(&self, name: Seq<u8>)
        ensures
            self@.dom().contains(name) <==> self.place_of(name) is Some,
            self.place_of(name) matches Some(i) ==> 0 <= i < self.entries().len()
                && self.entries()[i].name@ == name && (self@.dom().contains(name) ==> self@[name]
                == self.entries()[i].reader.info@),
    {
    }

    /// Where no name is there twice, the map holds each track under its
    /// name.
    pub proof fn lemma_view_at(&self, i: int)
        requires
            self.wf(),
            0 <= i < self.entries().len(),
        ensures
            self@.contains_key(self.entries()[i].name@),
            self@[self.entries()[i].name@] == self.entries()[i].reader.info@,
            self.place_of(self.entries()[i].name@) == Some(i),
    {
    }
}

impl View for TracksState {
    type V = Map<Seq<u8>, TrackView>;

    /// The tracks by name.
    open spec fn view(&self) -> Map<Seq<u8>, TrackView> {
        Map::new(
            |name: Seq<u8>| self.place_of(name) is Some,
            |name: Seq<u8>| self.entries()[self.place_of(name)->0].reader.info@,
        )
    }
}

/// Makes the tracks of a broadcast.
#[derive(Debug, PartialEq, Eq)]
pub struct TracksWriter {
    pub info: Tracks,
}

/// Receives the requests for tracks that the broadcast does not hold.
#[derive(Debug, PartialEq, Eq)]
pub struct TracksRequest {
    pub info: Tracks,
}

/// Asks a broadcast for tracks by name.
#[derive(Debug, PartialEq, Eq)]
pub struct TracksReader {
    pub info: Tracks,
}

impl Clone for TracksReader {
    fn clone(&self) -> (r: Self)
        ensures
            r.info.namespace@ == self.info.namespace@,
    {
        TracksReader { info: self.info.clone() }
    }
}

impl Tracks {
    /// Names a broadcast.
    pub fn new(namespace: Tuple) -> (r: Self)
        ensures
            r.namespace == namespace,
    {
        Tracks { namespace }
    }

    /// Hands out the three handles of the broadcast. What they act on is a
    /// registry of tracks and a queue of requests made for the broadcast.
    pub fn produce(self) -> (r: (TracksWriter, TracksRequest, TracksReader))
        ensures
            r.0.info.namespace@ == self.namespace@,
            r.1.info.namespace@ == self.namespace@,
            r.2.info.namespace@ == self.namespace@,
    {
        let writer = TracksWriter::new(self.clone());
        let request = TracksRequest::new(self.clone());
        let reader = TracksReader::new(self);
        (writer, request, reader)
    }

    /// What a track of the given name in this broadcast is named.
    pub open spec fn track(&self, name: Seq<char>) -> TrackView {
        TrackView { namespace: self.namespace@, name }
    }
}

impl TracksWriter {
    /// The writer of the broadcast.
    pub fn new(info: Tracks) -> (r: Self)
        ensures
            r.info == info,
    {
        TracksWriter { info }
    }

    /// Makes a track of the given name and puts it into the broadcast, in
    /// place of a track of the same name. Nothing is made once a side of the
    /// registry has let go.
    pub fn create(&mut self, state: &mut State<TracksState>, track: &str) -> (r: Option<
        TrackWriter,
    >)
        requires
            old(state).value().wf(),
        ensures
            final(self).info == old(self).info,
            final(state).value().wf(),
            match r {
                Some(writer) => {
                    &&& !old(state).dropped()
                    &&& writer.info@ == old(self).info.track(track@)
                    &&& final(state).value()@ == old(state).value()@.insert(
                        encode_utf8(track@),
                        old(self).info.track(track@),
                    )
                    &&& final(state).epoch() == old(state).epoch().wrapping_add(1)
                    &&& !final(state).dropped()
                },
                None => old(state).dropped() && *final(state) == *old(state),
            },
    {
        let (writer, reader) = Track {
            namespace: self.info.namespace.clone(),
            name: track.to_owned(),
        }.produce();
        match state.lock_mut() {
            Some(tracks) => {
                tracks.insert(TupleField::from_utf8(track), reader);
                Some(writer)
            },
            None => None,
        }
    }

    /// Takes the track of the given name out of the broadcast and hands over
    /// its reader. Nothing is taken once a side of the registry has let go.
    pub fn remove(&mut self, state: &mut State<TracksState>, track: &str) -> (r: Option<
        TrackReader,
    >)
        requires
            old(state).value().wf(),
        ensures
            final(self).info == old(self).info,
            final(state).value().wf(),
            old(state).dropped() ==> r is None && *final(state) == *old(state),
            !old(state).dropped() ==> {
                &&& final(state).value()@ == old(state).value()@.remove(encode_utf8(track@))
                &&& final(state).epoch() == old(state).epoch().wrapping_add(1)
                &&& !final(state).dropped()
                &&& match r {
                    Some(reader) => old(state).value()@.contains_key(encode_utf8(track@))
                        && reader.info@ == old(state).value()@[encode_utf8(track@)],
                    None => !old(state).value()@.contains_key(encode_utf8(track@)),
                }
            },
    {
        let name = TupleField::from_utf8(track);
        match state.lock_mut() {
            Some(tracks) => tracks.remove(&name),
            None => None,
        }
    }
}

impl TracksRequest {
    /// The receiver of the requests of the broadcast.
    pub fn new(info: Tracks) -> (r: Self)
        ensures
            r.info == info,
    {
        TracksRequest { info }
    }

    /// Takes the oldest request: the right to write a track that a reader
    /// asked for. An empty queue gives nothing once it is closed, and asks
    /// to wait while it is open.
    pub fn next(&mut self, incoming: &mut Queue<TrackWriter>) -> (r: Wait<Option<TrackWriter>>)
        ensures
            final(self).info == old(self).info,
            final(incoming).closed() == old(incoming).closed(),
            old(incoming).wf() ==> final(incoming).wf(),
            r == taken(old(incoming)@, old(incoming).closed()),
            final(incoming)@ == left(old(incoming)@),
            match r {
                Wait::Ready(Some(writer)) => old(incoming)@.len() > 0
                    && writer == old(incoming)@[0] && final(incoming)@ == old(incoming)@.skip(1),
                Wait::Ready(None) => old(incoming)@.len() == 0 && old(incoming).closed()
                    && final(incoming)@ == old(incoming)@,
                Wait::Pending => old(incoming)@.len() == 0 && !old(incoming).closed()
                    && final(incoming)@ == old(incoming)@,
            },
    {
        incoming.pop()
    }

    /// Lets go of the requests: closes the queue and hands over the tracks
    /// that were asked for and never made, each to be refused.
    pub fn drop(self, incoming: &mut Queue<TrackWriter>) -> (r: Vec<TrackWriter>)
        ensures
            final(incoming).closed(),
            final(incoming).wf(),
            final(incoming)@ == Seq::<TrackWriter>::empty(),
            r@ == old(incoming)@,
    {
        incoming.close()
    }

    /// Refuses a track that was asked for and never made: closes it with
    /// `NotFound`.
    pub fn refuse(writer: TrackWriter, track: &mut TrackState) -> (r: Result<(), ServeError>)
        ensures
            old(track).wf() ==> final(track).wf(),
            final(track).closing(old(track), ServeError::NotFound, r),
    {
        writer.close(track, ServeError::NotFound)
    }
}

impl TracksReader {
    /// A reader of the broadcast.
    pub fn new(info: Tracks) -> (r: Self)
        ensures
            r.info == info,
    {
        TracksReader { info }
    }

    /// The last reader of the broadcast lets go: no track is asked for any
    /// more, and the tracks that were asked for stay to be taken, the oldest
    /// first.
    pub fn finish(self, queue: &mut Queue<TrackWriter>)
        ensures
            final(queue).closed(),
            final(queue)@ == old(queue)@,
    {
        queue.finish();
    }

    /// Gives a reader of the track of the given name. A track that the
    /// broadcast does not hold is asked for: the right to write it is queued,
    /// and the track is put into the broadcast so that it is asked for once.
    /// Nothing is given where the track is not held and cannot be asked for,
    /// because a side of the registry has let go or the queue is closed.
    pub fn subscribe(
        &mut self,
        state: &mut State<TracksState>,
        queue: &mut Queue<TrackWriter>,
        name: &str,
    ) -> (r: Option<TrackReader>)
        requires
            old(state).value().wf(),
        ensures
            final(self).info == old(self).info,
            final(state).value().wf(),
            final(queue).closed() == old(queue).closed(),
            old(queue).wf() ==> final(queue).wf(),
            ({
                let key = encode_utf8(name@);
                let held = old(state).value()@;
                let track = old(self).info.track(name@);
                if held.contains_key(key) {
                    &&& r matches Some(reader) && reader.info@ == held[key]
                    &&& *final(state) == *old(state)
                    &&& final(queue)@ == old(queue)@
                } else if old(state).dropped() {
                    &&& r is None
                    &&& *final(state) == *old(state)
                    &&& final(queue)@ == old(queue)@
                } else if old(queue).closed() {
                    &&& r is None
                    &&& final(state).value()@ == held
                    &&& final(state).epoch() == old(state).epoch().wrapping_add(1)
                    &&& !final(state).dropped()
                    &&& final(queue)@ == old(queue)@
                } else {
                    &&& r matches Some(reader) && reader.info@ == track
                    &&& final(state).value()@ == held.insert(key, track)
                    &&& final(state).epoch() == old(state).epoch().wrapping_add(1)
                    &&& !final(state).dropped()
                    &&& final(queue)@.len() == old(queue)@.len() + 1
                    &&& final(queue)@.take(old(queue)@.len() as int) == old(queue)@
                    &&& final(queue)@.last().info@ == track
                }
            }),
    {
        let key = TupleField::from_utf8(name);
        match state.lock().get(&key) {
            Some(reader) => {
                return Some(reader);
            },
            None => {},
        }
        let tracks = match state.lock_mut() {
            Some(tracks) => tracks,
            None => {
                return None;
            },
        };
        let (writer, reader) = Track {
            namespace: self.info.namespace.clone(),
            name: name.to_owned(),
        }.produce();
        if queue.push(writer).is_err() {
            return None;
        }
        let handed = reader.clone();
        tracks.insert(key, reader);
        Some(handed)
    }
}

} // verus!
