//! Where a relay finds the track that a subscription or a fetch asks for, and
//! how it keeps count of what it serves.

use vstd::prelude::*;
use crate::coding::tuple::Tuple;
use crate::serve::error::ServeError;
use crate::serve::track::TrackReader;
use crate::serve::tracks::{TracksReader, TracksState};
use crate::session::outbox::Publisher;
use crate::watch::queue::Queue;
use crate::watch::state::State;

verus! {

/// A broadcast of this process: a reader of it, and what its handles share.
pub struct Local {
    pub reader: TracksReader,
    pub state: State<TracksState>,
    pub queue: Queue<crate::serve::track::TrackWriter>,
}

/// The broadcasts of this process, by namespace. No namespace is there
/// twice.
pub struct Locals {
    broadcasts: Vec<Local>,
}

impl Locals {
    /// The broadcasts in the order in which they were registered.
    pub closed spec fn entries(&self) -> Seq<Local> {
        self.broadcasts@
    }

    /// Whether no namespace is there twice and every registry is in order.
    pub open spec fn wf(&self) -> bool {
        &&& forall|i: int, j: int|
            0 <= i < self.entries().len() && 0 <= j < self.entries().len() && i != j ==> (
            #[trigger] self.entries()[i]).reader.info.namespace@ != (
            #[trigger] self.entries()[j]).reader.info.namespace@
        &&& forall|i: int|
            0 <= i < self.entries().len() ==> (#[trigger] self.entries()[i]).state.value().wf()
    }

    /// Where the broadcast of the given namespace is kept, if it is there.
    pub open spec fn place_of(&self, namespace: Seq<Seq<u8>>) -> Option<int> {
        if exists|i: int|
            0 <= i < self.entries().len() && (#[trigger] self.entries()[i]).reader.info.namespace@
                == namespace {
            Some(
                choose|i: int|
                    0 <= i < self.entries().len() && (
                    #[trigger] self.entries()[i]).reader.info.namespace@ == namespace,
            )
        } else {
            None
        }
    }

    /// No broadcast.
    pub fn new() -> (r: Self)
        ensures
            r.entries().len() == 0,
            r.wf(),
    {
        Locals { broadcasts: Vec::new() }
    }

    /// Finds the broadcast of the given namespace.
    pub fn route(&self, namespace: &Tuple) -> (r: Option<usize>)
        ensures
            match r {
                Some(i) => i < self.entries().len()
                    && self.entries()[i as int].reader.info.namespace@
                    == namespace@,
                None => self.place_of(namespace@) is None,
            },
    {
        let mut i: usize = 0;
        while i < self.broadcasts.len()
            invariant
                i <= self.broadcasts.len(),
                forall|j: int|
                    0 <= j < i ==> (#[trigger] self.broadcasts@[j]).reader.info.namespace@
                        != namespace@,
            decreases self.broadcasts.len() - i,
        {
            if self.broadcasts[i].reader.info.namespace.same(namespace) {
                return Some(i);
            }
            i += 1;
        }
        None
    }

    /// Registers a broadcast, unless one of the same namespace is there.
    pub fn register(&mut self, local: Local) -> (r: Result<(), ServeError>)
        requires
            old(self).wf(),
            local.state.value().wf(),
        ensures
            final(self).wf(),
            match r {
                Ok(()) => old(self).place_of(local.reader.info.namespace@) is None
                    && final(self).entries() == old(self).entries().push(local),
                Err(e) => e == ServeError::Duplicate && old(self).place_of(
                    local.reader.info.namespace@,
                ) is Some && final(self).entries() == old(self).entries(),
            },
    {
        match self.route(&local.reader.info.namespace) {
            Some(_) => Err(ServeError::Duplicate),
            None => {
                let ghost before = self.broadcasts@;
                let ghost namespace = local.reader.info.namespace@;
                self.broadcasts.push(local);
                proof {
                    let last = before.len() as int;
                    assert forall|i: int, j: int|
                        0 <= i < self.entries().len() && 0 <= j < self.entries().len() && i
                            != j implies (#[trigger] self.entries()[i]).reader.info.namespace@ != (
                    #[trigger] self.entries()[j]).reader.info.namespace@ by {
                        if j < last {
                            assert(old(self).entries()[j].reader.info.namespace@ != namespace);
                        }
                    }
                }
                Ok(())
            },
        }
    }

    /// Asks the broadcast at the given place for a track by name.
    pub fn subscribe(&mut self, place: usize, name: &str) -> (r: Option<TrackReader>)
        requires
            old(self).wf(),
            place < old(self).entries().len(),
        ensures
            final(self).wf(),
            final(self).entries().len() == old(self).entries().len(),
            forall|i: int|
                0 <= i < old(self).entries().len() && i != place ==> final(self).entries()[i]
                    == old(self).entries()[i],
            final(self).entries()[place as int].reader.info
                == old(self).entries()[place as int].reader.info,
            crate::relay::producer::asked(
                old(self).entries()[place as int],
                final(self).entries()[place as int],
                name@,
                r,
            ),
    {
        let local = &mut self.broadcasts[place];
        let found = local.reader.subscribe(&mut local.state, &mut local.queue, name);
        found
    }
}

/// What asking a broadcast for a track does to it and gives: the track that
/// the broadcast holds under the name; or else, where it can still be asked
/// for, a track that is newly put into the broadcast and queued as a request;
/// or else nothing.
pub open spec fn asked(
    before: Local,
    after: Local,
    name: Seq<char>,
    r: Option<TrackReader>,
) -> bool {
    let key = vstd::utf8::encode_utf8(name);
    let held = before.state.value()@;
    let track = before.reader.info.track(name);
    if held.contains_key(key) {
        &&& r matches Some(reader) && reader.info@ == held[key]
        &&& after.state == before.state
        &&& after.queue@ == before.queue@
    } else if before.state.dropped() {
        &&& r is None
        &&& after.state == before.state
        &&& after.queue@ == before.queue@
    } else if before.queue.closed() {
        &&& r is None
        &&& after.state.value()@ == held
        &&& after.queue@ == before.queue@
    } else {
        &&& r matches Some(reader) && reader.info@ == track
        &&& after.state.value()@ == held.insert(key, track)
        &&& after.queue@.len() == before.queue@.len() + 1
        &&& after.queue@.take(before.queue@.len() as int) == before.queue@
        &&& after.queue@.last().info@ == track
    }
}

/// Where the answer to a subscription or a fetch comes from.
#[derive(Debug, PartialEq, Eq)]
pub enum Route {
    /// From a broadcast of this process: a reader of the track.
    Local(TrackReader),
    /// From an origin upstream, which is still to be asked.
    Remote,
}

/// What happens to a relay while it runs.
#[derive(Clone, Copy, Debug, PartialEq, Eq, Structural)]
pub enum Event {
    /// A subscription has arrived.
    Subscribed,
    /// A fetch has arrived.
    Fetched,
    /// No subscription will arrive any more.
    SubscribesEnded,
    /// No fetch will arrive any more.
    FetchesEnded,
    /// The serving of a subscription has come to its end.
    SubscribeServed,
    /// The serving of a fetch has come to its end.
    FetchServed,
}

/// What a relay does about what happens to it.
#[derive(Clone, Copy, Debug, PartialEq, Eq, Structural)]
pub enum Action {
    /// Serve the subscription, beside whatever is being served.
    ServeSubscribe,
    /// Serve the fetch, beside whatever is being served.
    ServeFetch,
    /// Go on.
    Continue,
    /// Nothing is being served and nothing will arrive: stop.
    Stop,
}

/// How far a relay has run: what may still arrive, and how much is being
/// served.
#[derive(Clone, Copy, Debug, PartialEq, Eq, Structural)]
pub struct Running {
    /// Whether subscriptions may still arrive.
    pub subscribes: bool,
    /// Whether fetches may still arrive.
    pub fetches: bool,
    /// How many subscriptions are being served.
    pub subscribe_tasks: usize,
    /// How many fetches are being served.
    pub fetch_tasks: usize,
}

impl Running {
    /// A relay that has just begun.
    pub fn new() -> (r: Self)
        ensures
            r == (Running { subscribes: true, fetches: true, subscribe_tasks: 0, fetch_tasks: 0 }),
    {
        Running { subscribes: true, fetches: true, subscribe_tasks: 0, fetch_tasks: 0 }
    }

    /// Whether nothing is being served and nothing will arrive.
    pub open spec fn idle(&self) -> bool {
        !self.subscribes && !self.fetches && self.subscribe_tasks == 0 && self.fetch_tasks == 0
    }

    /// The relay as it runs on after an event.
    pub open spec fn after(&self, event: Event) -> Running {
        match event {
            Event::Subscribed => Running {
                subscribe_tasks: if self.subscribes && self.subscribe_tasks < usize::MAX {
                    (self.subscribe_tasks + 1) as usize
                } else {
                    self.subscribe_tasks
                },
                ..*self
            },
            Event::Fetched => Running {
                fetch_tasks: if self.fetches && self.fetch_tasks < usize::MAX {
                    (self.fetch_tasks + 1) as usize
                } else {
                    self.fetch_tasks
                },
                ..*self
            },
            Event::SubscribesEnded => Running { subscribes: false, ..*self },
            Event::FetchesEnded => Running { fetches: false, ..*self },
            Event::SubscribeServed => Running {
                subscribe_tasks: if self.subscribe_tasks > 0 {
                    (self.subscribe_tasks - 1) as usize
                } else {
                    0
                },
                ..*self
            },
            Event::FetchServed => Running {
                fetch_tasks: if self.fetch_tasks > 0 {
                    (self.fetch_tasks - 1) as usize
                } else {
                    0
                },
                ..*self
            },
        }
    }
}

/// The relay's answer to what arrives on one session.
pub struct Producer {
    /// The publishing side of the session that is answered.
    pub remote: Publisher,
    /// The broadcasts of this process.
    pub locals: Locals,
    /// Whether origins upstream can be asked.
    pub remotes: bool,
}

impl Producer {
    /// A relay for one session.
    pub fn new(remote: Publisher, locals: Locals, remotes: bool) -> (r: Self)
        ensures
            r.remote == remote,
            r.locals == locals,
            r.remotes == remotes,
    {
        Producer { remote, locals, remotes }
    }

    /// Takes one step in running the relay: notes what happened, and says
    /// what is to be done about it. What arrives is served beside whatever
    /// is being served, unless as much is being served as can be counted;
    /// the relay stops once nothing is being served and nothing will arrive.
    pub fn run(&mut self, running: &mut Running, event: Event) -> (r: Action)
        ensures
            *final(self) == *old(self),
            *final(running) == old(running).after(event),
            r == if final(running).idle() {
                Action::Stop
            } else if event == Event::Subscribed && final(running).subscribe_tasks != old(
                running,
            ).subscribe_tasks {
                Action::ServeSubscribe
            } else if event == Event::Fetched && final(running).fetch_tasks != old(
                running,
            ).fetch_tasks {
                Action::ServeFetch
            } else {
                Action::Continue
            },
    {
        let mut action = Action::Continue;
        match event {
            Event::Subscribed => {
                if running.subscribes && running.subscribe_tasks < usize::MAX {
                    running.subscribe_tasks = running.subscribe_tasks + 1;
                    action = Action::ServeSubscribe;
                }
            },
            Event::Fetched => {
                if running.fetches && running.fetch_tasks < usize::MAX {
                    running.fetch_tasks = running.fetch_tasks + 1;
                    action = Action::ServeFetch;
                }
            },
            Event::SubscribesEnded => {
                running.subscribes = false;
            },
            Event::FetchesEnded => {
                running.fetches = false;
            },
            Event::SubscribeServed => {
                if running.subscribe_tasks > 0 {
                    running.subscribe_tasks = running.subscribe_tasks - 1;
                }
            },
            Event::FetchServed => {
                if running.fetch_tasks > 0 {
                    running.fetch_tasks = running.fetch_tasks - 1;
                }
            },
        }
        if !running.subscribes && !running.fetches && running.subscribe_tasks == 0
            && running.fetch_tasks == 0 {
            Action::Stop
        } else {
            action
        }
    }

    /// What finding a track does to the broadcasts and gives: where no
    /// broadcast has the namespace, nothing changes and the track comes from
    /// an origin upstream if such can be asked, and else from nowhere; where
    /// a broadcast has the namespace, it is asked for the track, and only if
    /// it gives none does the same hold.
    pub open spec fn routed(
        before: &Locals,
        after: &Locals,
        remotes: bool,
        namespace: Seq<Seq<u8>>,
        name: Seq<char>,
        r: Result<Route, ServeError>,
    ) -> bool {
        match before.place_of(namespace) {
            None => after == before && match r {
                Ok(route) => route is Remote && remotes,
                Err(e) => e == ServeError::NotFound && !remotes,
            },
            Some(place) => {
                &&& after.entries().len() == before.entries().len()
                &&& forall|i: int|
                    0 <= i < before.entries().len() && i != place ==> after.entries()[i]
                        == before.entries()[i]
                &&& match r {
                    Ok(Route::Local(reader)) => asked(
                        before.entries()[place],
                        after.entries()[place],
                        name,
                        Some(reader),
                    ),
                    Ok(Route::Remote) => remotes && asked(
                        before.entries()[place],
                        after.entries()[place],
                        name,
                        None,
                    ),
                    Err(e) => e == ServeError::NotFound && !remotes && asked(
                        before.entries()[place],
                        after.entries()[place],
                        name,
                        None,
                    ),
                }
            },
        }
    }

    /// Finds out where a track is served from: from the broadcast of its
    /// namespace in this process, where that broadcast gives the track; or
    /// else from an origin upstream, where such can be asked; or else from
    /// nowhere, which is `NotFound`.
    pub fn serve(&mut self, namespace: &Tuple, name: &str) -> (r: Result<Route, ServeError>)
        requires
            old(self).locals.wf(),
        ensures
            final(self).locals.wf(),
            final(self).remotes == old(self).remotes,
            final(self).remote == old(self).remote,
            Self::routed(
                &old(self).locals,
                &final(self).locals,
                old(self).remotes,
                namespace@,
                name@,
                r,
            ),
    {
        match self.locals.route(namespace) {
            Some(place) => {
                match self.locals.subscribe(place, name) {
                    Some(reader) => {
                        return Ok(Route::Local(reader));
                    },
                    None => {},
                }
            },
            None => {},
        }
        if self.remotes {
            Ok(Route::Remote)
        } else {
            Err(ServeError::NotFound)
        }
    }

    /// Finds out where a track is fetched from, as for a subscription.
    pub fn serve_fetch(&mut self, namespace: &Tuple, name: &str) -> (r: Result<Route, ServeError>)
        requires
            old(self).locals.wf(),
        ensures
            final(self).locals.wf(),
            final(self).remotes == old(self).remotes,
            final(self).remote == old(self).remote,
            Self::routed(
                &old(self).locals,
                &final(self).locals,
                old(self).remotes,
                namespace@,
                name@,
                r,
            ),
    {
        self.serve(namespace, name)
    }

    /// Settles a track that was to come from an origin upstream: the reader
    /// that the origin gave, or `NotFound` where it gave none.
    pub fn serve_remote(found: Option<TrackReader>) -> (r: Result<TrackReader, ServeError>)
        ensures
            match found {
                Some(reader) => r == Ok::<TrackReader, ServeError>(reader),
                None => r == Err::<TrackReader, ServeError>(ServeError::NotFound),
            },
    {
        match found {
            Some(reader) => Ok(reader),
            None => Err(ServeError::NotFound),
        }
    }
}

} // verus!
