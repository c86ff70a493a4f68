use moq_transport::coding::{Tuple, TupleField};
use moq_transport::relay::producer::Local;
use moq_transport::relay::{Action, Event, Locals, Producer, Route, Running};
use moq_transport::serve::{ServeError, Track, Tracks, TracksState};
use moq_transport::session::Publisher;
use moq_transport::watch::queue::Wait;
use moq_transport::watch::{Queue, State};

fn namespace(name: &str) -> Tuple {
    let mut tuple = Tuple::new();
    tuple.add(TupleField::from_utf8(name));
    tuple
}

fn local(name: &str) -> Local {
    let (_, _, reader) = Tracks::new(namespace(name)).produce();
    Local {
        reader,
        state: State::new(TracksState::new()),
        queue: Queue::new(),
    }
}

#[test]
fn namespace_is_registered_once() {
    let mut locals = Locals::new();
    assert_eq!(locals.route(&namespace("bbb")), None);
    assert_eq!(locals.register(local("bbb")), Ok(()));
    assert_eq!(locals.register(local("ccc")), Ok(()));
    assert_eq!(locals.register(local("bbb")), Err(ServeError::Duplicate));
    assert_eq!(locals.route(&namespace("bbb")), Some(0));
    assert_eq!(locals.route(&namespace("ccc")), Some(1));
    assert_eq!(locals.route(&namespace("ddd")), None);
}

#[test]
fn track_is_served_from_the_local_broadcast() {
    let mut locals = Locals::new();
    locals.register(local("bbb")).unwrap();
    let mut producer = Producer::new(Publisher::new(), locals, true);
    match producer.serve(&namespace("bbb"), "catalog") {
        Ok(Route::Local(reader)) => {
            assert_eq!(reader.info.name, "catalog");
            assert_eq!(reader.info.namespace, namespace("bbb"));
        }
        other => panic!("{:?}", other),
    }
    match producer.serve_fetch(&namespace("bbb"), "catalog") {
        Ok(Route::Local(reader)) => assert_eq!(reader.info.name, "catalog"),
        other => panic!("{:?}", other),
    }
}

#[test]
fn unknown_namespace_goes_upstream_or_nowhere() {
    let mut locals = Locals::new();
    locals.register(local("bbb")).unwrap();
    let mut producer = Producer::new(Publisher::new(), locals, true);
    assert_eq!(producer.serve(&namespace("zzz"), "catalog"), Ok(Route::Remote));
    assert_eq!(
        producer.serve_fetch(&namespace("zzz"), "catalog"),
        Ok(Route::Remote)
    );
    let mut locals = Locals::new();
    locals.register(local("bbb")).unwrap();
    let mut producer = Producer::new(Publisher::new(), locals, false);
    assert_eq!(
        producer.serve(&namespace("zzz"), "catalog"),
        Err(ServeError::NotFound)
    );
    assert_eq!(
        producer.serve_fetch(&namespace("zzz"), "catalog"),
        Err(ServeError::NotFound)
    );
}

#[test]
fn local_broadcast_that_cannot_give_the_track_falls_through() {
    let mut closed = local("bbb");
    closed.queue.close();
    let mut locals = Locals::new();
    locals.register(closed).unwrap();
    let mut producer = Producer::new(Publisher::new(), locals, false);
    assert_eq!(
        producer.serve(&namespace("bbb"), "catalog"),
        Err(ServeError::NotFound)
    );
    let mut closed = local("bbb");
    closed.queue.close();
    let mut locals = Locals::new();
    locals.register(closed).unwrap();
    let mut producer = Producer::new(Publisher::new(), locals, true);
    assert_eq!(producer.serve(&namespace("bbb"), "catalog"), Ok(Route::Remote));
}

#[test]
fn upstream_answer_is_settled() {
    let (_, reader) = Track::new(namespace("bbb"), String::from("catalog")).produce();
    assert_eq!(Producer::serve_remote(Some(reader.clone())), Ok(reader));
    assert_eq!(Producer::serve_remote(None), Err(ServeError::NotFound));
}

#[test]
fn request_reaches_the_queue_of_the_broadcast() {
    let mut locals = Locals::new();
    locals.register(local("bbb")).unwrap();
    assert!(locals.subscribe(0, "video").is_some());
    assert!(locals.subscribe(0, "video").is_some());
    let mut producer = Producer::new(Publisher::new(), locals, false);
    assert!(matches!(
        producer.serve(&namespace("bbb"), "audio"),
        Ok(Route::Local(_))
    ));
    assert!(matches!(producer.remote.next_message(), Wait::Pending));
}

#[test]
fn relay_stops_once_nothing_is_left() {
    let mut producer = Producer::new(Publisher::new(), Locals::new(), false);
    let mut running = Running::new();
    assert_eq!(producer.run(&mut running, Event::Subscribed), Action::ServeSubscribe);
    assert_eq!(producer.run(&mut running, Event::Fetched), Action::ServeFetch);
    assert_eq!(producer.run(&mut running, Event::Subscribed), Action::ServeSubscribe);
    assert_eq!(running.subscribe_tasks, 2);
    assert_eq!(running.fetch_tasks, 1);
    assert_eq!(producer.run(&mut running, Event::SubscribesEnded), Action::Continue);
    // nothing is taken up once the session gives no more
    assert_eq!(producer.run(&mut running, Event::Subscribed), Action::Continue);
    assert_eq!(producer.run(&mut running, Event::FetchesEnded), Action::Continue);
    assert_eq!(producer.run(&mut running, Event::SubscribeServed), Action::Continue);
    assert_eq!(producer.run(&mut running, Event::FetchServed), Action::Continue);
    assert_eq!(producer.run(&mut running, Event::SubscribeServed), Action::Stop);
    assert_eq!(
        running,
        Running {
            subscribes: false,
            fetches: false,
            subscribe_tasks: 0,
            fetch_tasks: 0
        }
    );
}

#[test]
fn relay_with_nothing_to_do_stops_when_both_sides_end() {
    let mut producer = Producer::new(Publisher::new(), Locals::new(), true);
    let mut running = Running::new();
    assert_eq!(producer.run(&mut running, Event::FetchServed), Action::Continue);
    assert_eq!(producer.run(&mut running, Event::FetchesEnded), Action::Continue);
    assert_eq!(producer.run(&mut running, Event::SubscribesEnded), Action::Stop);
}
