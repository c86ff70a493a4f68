use moq_transport::coding::{Decode, Params, Tuple, TupleField};
use moq_transport::data::datagram::read_datagram;
use moq_transport::data::{
    Datagram, FetchHeader, FetchObject, Header, ObjectStatus, SubgroupHeader, SubgroupObject,
    TrackHeader, TrackObject,
};
use moq_transport::message::{
    Fetch as FetchMessage, FetchCancel, FetchOk, FilterType, GroupOrder, Message,
    Subscribe as SubscribeMessage, SubscribeDone, SubscribeError, SubscribeOk, SubscribePair,
    SubscribeUpdate, Unsubscribe,
};
use moq_transport::serve::{
    Cursor, Next, ServeError, StreamObject, Subgroup, SubgroupReader, SubgroupsWriter, Track,
    TrackReaderMode, TrackState, TrackWriter, TrackWriterMode,
};
use moq_transport::session::fetched::{goes_before, FetchPlace, FetchedState};
use moq_transport::session::subscribed::{Step, SubgroupTask};
use moq_transport::session::{
    dispatch, subject, Dispatch, Fetch, FetchRecv, FetchState, Fetched, Publisher, SessionError,
    Subscribe, SubscribeFilter, SubscribeRecv, SubscribeState, Subscribed, SubscribedState,
    Subscriber, Table,
};
use moq_transport::watch::queue::Wait;
use moq_transport::watch::State;

fn namespace(name: &str) -> Tuple {
    let mut tuple = Tuple::new();
    tuple.add(TupleField::from_utf8(name));
    tuple
}

fn track_writer(name: &str) -> TrackWriter {
    Track::new(namespace("bbb"), String::from(name)).produce().0
}

fn sent_by_subscriber(subscriber: &mut Subscriber) -> Vec<Message> {
    let mut all = Vec::new();
    while let Wait::Ready(Some(message)) = subscriber.next_message() {
        all.push(message);
    }
    all
}

fn sent_by_publisher(publisher: &mut Publisher) -> Vec<Message> {
    let mut all = Vec::new();
    while let Wait::Ready(Some(message)) = publisher.next_message() {
        all.push(message);
    }
    all
}

fn subscribe_message(filter: SubscribeFilter) -> SubscribeMessage {
    let (filter_type, start, end_group) = filter.unwrap();
    SubscribeMessage {
        id: 7,
        track_alias: 7,
        track_namespace: namespace("bbb"),
        track_name: String::from("catalog"),
        subscriber_priority: 127,
        group_order: GroupOrder::Publisher,
        filter_type,
        start,
        end_group,
        params: Params::new(),
    }
}

#[test]
fn subscribe_then_unsubscribe() {
    let mut subscriber = Subscriber::new();
    let (handle, mut recv, mut state) = Subscribe::new(
        &mut subscriber,
        7,
        track_writer("catalog"),
        SubscribeFilter::LatestObject,
    );
    assert_eq!(handle.id, 7);
    assert_eq!(handle.info.name, "catalog");
    assert_eq!(handle.info.namespace, namespace("bbb"));
    assert_eq!(
        sent_by_subscriber(&mut subscriber),
        vec![Message::Subscribe(subscribe_message(
            SubscribeFilter::LatestObject
        ))]
    );
    // the publisher answers: subscribe-ok with the largest location (3, 0)
    let answer = SubscribeOk {
        id: 7,
        track_alias: 7,
        expires: None,
        group_order: GroupOrder::Ascending,
        content_exists: 1,
        largest_location: Some((3, 0)),
        params: Params::new(),
    };
    assert_eq!(answer.largest_location, Some((3, 0)));
    assert_eq!(handle.closed(&state), Wait::Pending);
    assert_eq!(recv.ok(&mut state), Ok(()));
    assert!(state.lock().ok);
    // the subscriber lets go of its handle
    handle.drop(&mut subscriber, &mut state);
    assert_eq!(
        sent_by_subscriber(&mut subscriber),
        vec![Message::Unsubscribe(Unsubscribe { id: 7 })]
    );
    assert!(state.lock_mut().is_none());
}

#[test]
fn subscribe_spells_out_its_filter() {
    let mut subscriber = Subscriber::new();
    let start = SubscribePair { group: 2, object: 5 };
    let _ = Subscribe::new(
        &mut subscriber,
        1,
        track_writer("video"),
        SubscribeFilter::AbsoluteRange(start, 9),
    );
    let sent = sent_by_subscriber(&mut subscriber);
    match &sent[0] {
        Message::Subscribe(message) => {
            assert_eq!(message.id, 1);
            assert_eq!(message.track_alias, 1);
            assert_eq!(message.subscriber_priority, 127);
            assert_eq!(message.group_order, GroupOrder::Publisher);
            assert_eq!(message.filter_type, FilterType::AbsoluteRange);
            assert_eq!(message.start, Some(start));
            assert_eq!(message.end_group, Some(9));
            assert!(message.params.0.is_empty());
        }
        other => panic!("{:?}", other),
    }
}

#[test]
fn filter_spelled_and_read_back() {
    let start = SubscribePair { group: 2, object: 5 };
    assert_eq!(
        SubscribeFilter::AbsoluteStart(start).unwrap(),
        (FilterType::AbsoluteStart, Some(start), None)
    );
    assert_eq!(
        SubscribeFilter::AbsoluteRange(start, 4).unwrap(),
        (FilterType::AbsoluteRange, Some(start), Some(4))
    );
    assert_eq!(
        SubscribeFilter::LatestObject.unwrap(),
        (FilterType::LatestObject, None, None)
    );
    for filter in [
        SubscribeFilter::LatestObject,
        SubscribeFilter::AbsoluteStart(start),
        SubscribeFilter::AbsoluteRange(start, 4),
    ] {
        let message = subscribe_message(filter);
        assert_eq!(SubscribeFilter::from_subscribe(&message), filter);
        assert_eq!(SubscribeFilter::try_from_subscribe(&message), Some(filter));
    }
    let mut broken = subscribe_message(SubscribeFilter::AbsoluteStart(start));
    broken.start = None;
    assert_eq!(SubscribeFilter::try_from_subscribe(&broken), None);
}

#[test]
fn update_carries_its_filter() {
    let mut subscriber = Subscriber::new();
    let start = SubscribePair { group: 2, object: 5 };
    let update = SubscribeUpdate::new(
        &mut subscriber,
        7,
        SubscribeFilter::AbsoluteRange(start, 9),
        3,
    );
    assert_eq!(update.id, 7);
    assert_eq!(update.start, start);
    // one more than the last group, so that zero can stand for no end
    assert_eq!(update.end_group, 10);
    assert_eq!(update.subscriber_priority, 3);
    assert_eq!(
        SubscribeFilter::from_update(&update),
        SubscribeFilter::AbsoluteRange(start, 9)
    );
    assert_eq!(
        sent_by_subscriber(&mut subscriber),
        vec![Message::SubscribeUpdate(update)]
    );

    let open = SubscribeUpdate::new(&mut subscriber, 7, SubscribeFilter::AbsoluteStart(start), 3);
    assert_eq!(open.end_group, 0);
    assert_eq!(
        SubscribeFilter::from_update(&open),
        SubscribeFilter::AbsoluteStart(start)
    );
    let latest = SubscribeUpdate::new(&mut subscriber, 7, SubscribeFilter::LatestObject, 3);
    assert_eq!(latest.start, SubscribePair { group: 0, object: 0 });
    assert_eq!(latest.end_group, 0);
    assert_eq!(
        SubscribeFilter::from_update(&latest),
        SubscribeFilter::LatestObject
    );
}

#[test]
fn subscription_is_accepted_once() {
    let mut state = State::new(SubscribeState::default());
    let mut recv = SubscribeRecv { writer: None };
    assert_eq!(recv.ok(&mut state), Ok(()));
    assert_eq!(recv.ok(&mut state), Err(ServeError::Duplicate));
    let mut state = State::new(FetchState::default());
    let mut recv = FetchRecv { writer: None };
    assert_eq!(recv.ok(&mut state), Ok(()));
    assert_eq!(recv.ok(&mut state), Err(ServeError::Duplicate));
    // once the other side has let go, the acceptance is not noted
    let mut state = State::new(SubscribeState::default());
    state.release();
    let mut recv = SubscribeRecv { writer: None };
    assert_eq!(recv.ok(&mut state), Ok(()));
    assert!(!state.lock().ok);
}

#[test]
fn subscription_refused_by_the_publisher() {
    let mut subscriber = Subscriber::new();
    let (handle, recv, mut state) = Subscribe::new(
        &mut subscriber,
        7,
        track_writer("catalog"),
        SubscribeFilter::LatestObject,
    );
    let mut track = TrackState::new();
    let refusal = ServeError::Closed {
        code: 404,
        reason: String::from("no such track"),
    };
    assert_eq!(recv.error(&mut state, &mut track, refusal.clone()), Ok(()));
    assert_eq!(handle.closed(&state), Wait::Ready(Err(refusal.clone())));
    assert_eq!(track.check(), Err(refusal.clone()));
    // a second close fails with the error of the first
    let recv = SubscribeRecv { writer: None };
    assert_eq!(
        recv.error(&mut state, &mut track, ServeError::Cancel),
        Err(refusal)
    );
}

#[test]
fn mode_is_fixed_by_the_first_stream() {
    let subgroup = SubgroupHeader {
        subscribe_id: 7,
        track_alias: 7,
        group_id: 2,
        subgroup_id: 0,
        publisher_priority: 1,
    };
    let header = TrackHeader {
        subscribe_id: 7,
        track_alias: 7,
        publisher_priority: 1,
    };
    let datagram = || Datagram {
        subscribe_id: 7,
        track_alias: 7,
        group_id: 2,
        object_id: 0,
        publisher_priority: 1,
        object_status: ObjectStatus::Object,
        payload: vec![1],
    };

    // subgroups, then a stream for the whole track
    let mut track = TrackState::new();
    let mut recv = SubscribeRecv {
        writer: Some(TrackWriterMode::Track(track_writer("video"))),
    };
    let first = recv.subgroup(&mut track, subgroup).unwrap();
    assert_eq!(first.index, 0);
    let second = recv.subgroup(&mut track, subgroup).unwrap();
    assert_eq!(second.index, 1);
    assert_eq!(recv.track(&mut track, header).unwrap_err(), ServeError::Mode);
    // the handle has lost its track
    assert_eq!(recv.subgroup(&mut track, subgroup).unwrap_err(), ServeError::Done);

    // subgroups, then a datagram
    let mut track = TrackState::new();
    let mut recv = SubscribeRecv {
        writer: Some(TrackWriterMode::Track(track_writer("video"))),
    };
    recv.subgroup(&mut track, subgroup).unwrap();
    assert_eq!(recv.datagram(&mut track, datagram()).unwrap_err(), ServeError::Mode);

    // a stream for the whole track, then anything else
    let mut track = TrackState::new();
    let mut recv = SubscribeRecv {
        writer: Some(TrackWriterMode::Track(track_writer("video"))),
    };
    let stream = recv.track(&mut track, header).unwrap();
    assert_eq!(stream.priority, 1);
    assert_eq!(recv.subgroup(&mut track, subgroup).unwrap_err(), ServeError::Mode);
    let mut recv = SubscribeRecv {
        writer: Some(TrackWriterMode::Stream(stream.clone())),
    };
    assert_eq!(recv.datagram(&mut track, datagram()).unwrap_err(), ServeError::Mode);
    let mut recv = SubscribeRecv {
        writer: Some(TrackWriterMode::Stream(stream)),
    };
    assert_eq!(recv.track(&mut track, header).unwrap_err(), ServeError::Mode);

    // datagrams, then a stream
    let mut track = TrackState::new();
    let mut recv = SubscribeRecv {
        writer: Some(TrackWriterMode::Track(track_writer("video"))),
    };
    recv.datagram(&mut track, datagram()).unwrap();
    recv.datagram(&mut track, datagram()).unwrap();
    assert_eq!(recv.track(&mut track, header).unwrap_err(), ServeError::Mode);
    let mut recv = SubscribeRecv {
        writer: Some(TrackWriterMode::Track(track_writer("video"))),
    };
    // the track itself is in datagram mode
    assert_eq!(recv.subgroup(&mut track, subgroup).unwrap_err(), ServeError::Mode);
}

#[test]
fn datagram_is_written_into_the_track() {
    let mut track = TrackState::new();
    let mut recv = SubscribeRecv {
        writer: Some(TrackWriterMode::Track(track_writer("video"))),
    };
    recv.datagram(
        &mut track,
        Datagram {
            subscribe_id: 7,
            track_alias: 7,
            group_id: 2,
            object_id: 5,
            publisher_priority: 9,
            object_status: ObjectStatus::Object,
            payload: vec![0xAA],
        },
    )
    .unwrap();
    assert_eq!(track.latest(), Some((2, 5)));
    let (_, reader) = Track::new(namespace("bbb"), String::from("video")).produce();
    let mut read = match reader.mode(&track) {
        Wait::Ready(Ok(TrackReaderMode::Datagrams(read))) => read,
        other => panic!("{:?}", other),
    };
    match read.read(&track) {
        Next::Item(datagram) => {
            assert_eq!(datagram.group_id, 2);
            assert_eq!(datagram.object_id, 5);
            assert_eq!(datagram.priority, 9);
            assert_eq!(datagram.status, ObjectStatus::Object);
            assert_eq!(datagram.payload, vec![0xAA]);
        }
        other => panic!("{:?}", other),
    }
}

fn publish_more(subgroups: &mut SubgroupsWriter, track: &mut TrackState, groups: &[(u64, u64)]) {
    for (group_id, count) in groups {
        let mut subgroup = subgroups
            .create(
                track,
                Subgroup {
                    group_id: *group_id,
                    subgroup_id: 0,
                    priority: 1,
                },
            )
            .unwrap();
        for i in 0..*count {
            subgroup.write(track, vec![*group_id as u8, i as u8]).unwrap();
        }
        subgroup.finish(track);
    }
}

fn publish(track: &mut TrackState, groups: &[(u64, u64)]) {
    let mut subgroups = track_writer("catalog").groups(track).unwrap();
    publish_more(&mut subgroups, track, groups);
}

fn run_subgroup(
    task: &mut SubgroupTask,
    state: &mut State<SubscribedState>,
    track: &TrackState,
) -> (Vec<Step>, Vec<u8>) {
    let mut steps = Vec::new();
    let mut out = Vec::new();
    loop {
        let step = Subscribed::serve_subgroup(task, state, track, &mut out).unwrap();
        steps.push(step);
        if step == Step::Open {
            Subscribed::stream_opened(state).unwrap();
        }
        if step == Step::Finish || step == Step::Wait {
            return (steps, out);
        }
    }
}

fn read_subgroup_stream(bytes: &[u8]) -> (Header, Vec<(u64, Vec<u8>)>) {
    let (header, mut at) = Header::read(bytes, 0).unwrap();
    let mut objects = Vec::new();
    while at < bytes.len() {
        let (object, next) = SubgroupObject::read(bytes, at).unwrap();
        let end = next + object.size as usize;
        objects.push((object.object_id, bytes[next..end].to_vec()));
        at = end;
    }
    (header, objects)
}

#[test]
fn filter_skips_what_lies_before_the_start() {
    let filter = SubscribeFilter::AbsoluteStart(SubscribePair { group: 2, object: 5 });
    let mut publisher = Publisher::new();
    let (mut subscribed, _recv, mut state) = Subscribed::new(subscribe_message(filter));
    let mut track = TrackState::new();
    publish(&mut track, &[(1, 3), (2, 11)]);
    let (_, reader) = Track::new(namespace("bbb"), String::from("catalog")).produce();
    subscribed
        .serve_inner(&mut publisher, &mut state, &reader, &track)
        .unwrap();
    let mut subgroups = match reader.mode(&track) {
        Wait::Ready(Ok(TrackReaderMode::Subgroups(subgroups))) => subgroups,
        other => panic!("{:?}", other),
    };

    // the subgroup of group 1 is passed over as a whole, without a stream
    let mut first = match subscribed.serve_subgroups(&state, &track, &mut subgroups) {
        Ok(Wait::Ready(Some(task))) => task,
        other => panic!("{:?}", other),
    };
    assert_eq!(first.header.group_id, 1);
    let (steps, out) = run_subgroup(&mut first, &mut state, &track);
    assert_eq!(steps, vec![Step::Finish]);
    assert!(out.is_empty());
    assert!(!first.opened);
    assert_eq!(state.lock().stream_count, 0);

    // of group 2 only the objects from 5 on are written
    let mut second = match subscribed.serve_subgroups(&state, &track, &mut subgroups) {
        Ok(Wait::Ready(Some(task))) => task,
        other => panic!("{:?}", other),
    };
    let (steps, out) = run_subgroup(&mut second, &mut state, &track);
    assert_eq!(
        steps,
        vec![
            Step::Skip,
            Step::Skip,
            Step::Skip,
            Step::Skip,
            Step::Skip,
            Step::Open,
            Step::Send,
            Step::Send,
            Step::Send,
            Step::Send,
            Step::Send,
            Step::Send,
            Step::Finish
        ]
    );
    let (header, objects) = read_subgroup_stream(&out);
    assert_eq!(
        header,
        Header::Subgroup(SubgroupHeader {
            subscribe_id: 7,
            track_alias: 7,
            group_id: 2,
            subgroup_id: 0,
            publisher_priority: 1
        })
    );
    assert_eq!(
        objects,
        (5u64..=10).map(|i| (i, vec![2u8, i as u8])).collect::<Vec<_>>()
    );
    assert_eq!(state.lock().stream_count, 1);
    assert_eq!(state.lock().max_group_id, Some(2));
    assert!(matches!(
        subscribed.serve_subgroups(&state, &track, &mut subgroups),
        Ok(Wait::Pending)
    ));
}

#[test]
fn range_stops_behind_its_end_group() {
    let filter = SubscribeFilter::AbsoluteRange(SubscribePair { group: 1, object: 1 }, 2);
    assert!(!filter.passes(1, 0));
    assert!(filter.passes(1, 1));
    assert!(filter.passes(2, 0));
    assert!(!filter.passes(3, 0));
    assert!(filter.exclude_group(0));
    assert!(!filter.exclude_group(1));
    assert!(!filter.exclude_group(2));
    assert!(filter.exclude_group(3));
    let start = SubscribeFilter::AbsoluteStart(SubscribePair { group: 1, object: 1 });
    assert!(start.passes(900, 0));
    assert!(!start.exclude_group(900));
    assert!(SubscribeFilter::LatestObject.passes(0, 0));
    assert!(!SubscribeFilter::LatestObject.exclude_group(0));
}

#[test]
fn drop_while_writing() {
    let mut publisher = Publisher::new();
    let (mut subscribed, _recv, mut state) =
        Subscribed::new(subscribe_message(SubscribeFilter::LatestObject));
    let mut track = TrackState::new();
    // the publisher writes three subgroups, then lets go of the track
    publish(&mut track, &[(0, 2), (1, 2), (2, 2)]);
    track.finish();

    let (_, reader) = Track::new(namespace("bbb"), String::from("catalog")).produce();
    subscribed
        .serve_inner(&mut publisher, &mut state, &reader, &track)
        .unwrap();
    assert!(subscribed.ok);
    let mut served = 0;
    let mut subgroups = match reader.mode(&track) {
        Wait::Ready(Ok(TrackReaderMode::Subgroups(subgroups))) => subgroups,
        other => panic!("{:?}", other),
    };
    // another reader of the same track sees the same subgroups
    let mut other = subgroups;
    loop {
        match subscribed.serve_subgroups(&state, &track, &mut subgroups) {
            Ok(Wait::Ready(Some(mut task))) => {
                let (steps, out) = run_subgroup(&mut task, &mut state, &track);
                assert_eq!(steps.last(), Some(&Step::Finish));
                let (_, objects) = read_subgroup_stream(&out);
                assert_eq!(objects.len(), 2);
                served += 1;
            }
            Ok(Wait::Ready(None)) => break,
            other => panic!("{:?}", other),
        }
    }
    assert_eq!(served, 3);
    let mut groups = Vec::new();
    loop {
        match other.next(&track) {
            Next::Item(subgroup) => groups.push(subgroup.info.group_id),
            Next::Done => break,
            found => panic!("{:?}", found),
        }
    }
    assert_eq!(groups, vec![0, 1, 2]);

    assert_eq!(subscribed.serve(&mut publisher, &mut state, Ok(())), Ok(()));
    let sent = sent_by_publisher(&mut publisher);
    assert_eq!(
        sent,
        vec![
            Message::SubscribeOk(SubscribeOk {
                id: 7,
                track_alias: 7,
                expires: None,
                group_order: GroupOrder::Ascending,
                content_exists: 1,
                largest_location: Some((2, 1)),
                params: Params::new(),
            }),
            Message::SubscribeDone(SubscribeDone {
                id: 7,
                code: 0,
                count: 3,
                reason: String::from("done"),
            }),
        ]
    );
}

#[test]
fn subscription_that_was_never_accepted_ends_with_an_error() {
    let mut publisher = Publisher::new();
    let (subscribed, _recv, mut state) =
        Subscribed::new(subscribe_message(SubscribeFilter::LatestObject));
    assert_eq!(
        subscribed.close(&mut publisher, &mut state, ServeError::NotFound),
        Ok(())
    );
    assert_eq!(
        sent_by_publisher(&mut publisher),
        vec![Message::SubscribeError(SubscribeError {
            id: 7,
            code: 404,
            reason: String::from("not found"),
            alias: 0,
        })]
    );
    assert_eq!(state.lock().closed, Err(ServeError::NotFound));
}

#[test]
fn failed_serving_closes_the_subscription() {
    let mut publisher = Publisher::new();
    let (mut subscribed, mut recv, mut state) =
        Subscribed::new(subscribe_message(SubscribeFilter::LatestObject));
    let track = TrackState::new();
    let (_, reader) = Track::new(namespace("bbb"), String::from("catalog")).produce();
    subscribed
        .serve_inner(&mut publisher, &mut state, &reader, &track)
        .unwrap();
    assert_eq!(subscribed.closed(&state), Wait::Pending);
    // the subscriber unsubscribes
    assert_eq!(recv.recv_unsubscribe(&mut state), Ok(()));
    assert_eq!(
        subscribed.closed(&state),
        Wait::Ready(Err(ServeError::Cancel))
    );
    assert_eq!(recv.recv_unsubscribe(&mut state), Err(ServeError::Cancel));
    let failure = SessionError::Transport(String::from("reset"));
    // already closed: the first error stands
    assert_eq!(
        subscribed.serve(&mut publisher, &mut state, Err(failure)),
        Err(SessionError::Serve(ServeError::Cancel))
    );
    let sent = sent_by_publisher(&mut publisher);
    assert_eq!(
        sent[0],
        Message::SubscribeOk(SubscribeOk {
            id: 7,
            track_alias: 7,
            expires: None,
            group_order: GroupOrder::Ascending,
            content_exists: 0,
            largest_location: None,
            params: Params::new(),
        })
    );
    assert_eq!(
        sent[1],
        Message::SubscribeDone(SubscribeDone {
            id: 7,
            code: 1,
            count: 0,
            reason: String::from("cancelled"),
        })
    );
}

#[test]
fn transport_failure_ends_the_subscription_with_its_words() {
    let mut publisher = Publisher::new();
    let (subscribed, _recv, mut state) =
        Subscribed::new(subscribe_message(SubscribeFilter::LatestObject));
    let failure = SessionError::Transport(String::from("reset"));
    assert_eq!(
        subscribed.serve(&mut publisher, &mut state, Err(failure.clone())),
        Err(failure)
    );
    assert_eq!(
        sent_by_publisher(&mut publisher),
        vec![Message::SubscribeError(SubscribeError {
            id: 7,
            code: 1,
            reason: String::from("reset"),
            alias: 0,
        })]
    );
}

#[test]
fn stream_counts_and_groups_are_noted() {
    let mut shared = SubscribedState::default();
    assert_eq!(shared.max_group_id, None);
    assert_eq!(shared.stream_count, 0);
    assert_eq!(shared.priority, 127);
    shared.update_max_group_id(4).unwrap();
    assert_eq!(shared.max_group_id, Some(4));
    shared.update_max_group_id(2).unwrap();
    assert_eq!(shared.max_group_id, Some(4));
    shared.update_max_group_id(9).unwrap();
    assert_eq!(shared.max_group_id, Some(9));
    shared.increment_stream_count().unwrap();
    shared.increment_stream_count().unwrap();
    assert_eq!(shared.stream_count, 2);
    shared.stream_count = u64::MAX;
    shared.increment_stream_count().unwrap();
    assert_eq!(shared.stream_count, u64::MAX);
}

#[test]
fn whole_track_is_served_on_one_stream() {
    let mut publisher = Publisher::new();
    let (mut subscribed, _recv, mut state) =
        Subscribed::new(subscribe_message(SubscribeFilter::LatestObject));
    let mut track = TrackState::new();
    let mut stream = track_writer("catalog").stream(&mut track, 5).unwrap();
    for i in 0..2u64 {
        stream
            .write(
                &mut track,
                StreamObject {
                    group_id: 3,
                    object_id: i,
                    status: ObjectStatus::Object,
                    payload: vec![i as u8; 2],
                },
            )
            .unwrap();
    }
    stream
        .write(
            &mut track,
            StreamObject {
                group_id: 3,
                object_id: 2,
                status: ObjectStatus::EndOfGroup,
                payload: vec![],
            },
        )
        .unwrap();
    track.finish();
    let (_, reader) = Track::new(namespace("bbb"), String::from("catalog")).produce();
    subscribed
        .serve_inner(&mut publisher, &mut state, &reader, &track)
        .unwrap();
    let objects = match reader.mode(&track) {
        Wait::Ready(Ok(TrackReaderMode::Stream(objects))) => objects,
        other => panic!("{:?}", other),
    };
    let mut task = subscribed.track_task(objects);
    let mut out = Vec::new();
    let mut steps = Vec::new();
    loop {
        let step = subscribed
            .serve_track(&mut task, &mut state, &track, &mut out)
            .unwrap();
        steps.push(step);
        if step == Step::Open {
            assert_eq!(state.lock().stream_count, 0);
            Subscribed::stream_opened(&mut state).unwrap();
        }
        if step == Step::Finish {
            break;
        }
    }
    assert_eq!(
        steps,
        vec![Step::Open, Step::Send, Step::Send, Step::Send, Step::Finish]
    );
    assert_eq!(
        out,
        vec![0, 7, 7, 5, 3, 0, 2, 0, 0, 3, 1, 2, 1, 1, 3, 2, 0, 3]
    );
    let (header, at) = Header::read(&out, 0).unwrap();
    assert_eq!(
        header,
        Header::Track(TrackHeader {
            subscribe_id: 7,
            track_alias: 7,
            publisher_priority: 5
        })
    );
    let (first, _) = TrackObject::read(&out, at).unwrap();
    assert_eq!(first.size, 2);
    assert_eq!(state.lock().stream_count, 1);
    assert_eq!(state.lock().max_group_id, Some(3));
}

#[test]
fn datagrams_are_served_one_by_one() {
    let mut publisher = Publisher::new();
    let (mut subscribed, _recv, mut state) =
        Subscribed::new(subscribe_message(SubscribeFilter::LatestObject));
    let mut track = TrackState::new();
    let mut recv = SubscribeRecv {
        writer: Some(TrackWriterMode::Track(track_writer("catalog"))),
    };
    let original = Datagram {
        subscribe_id: 1,
        track_alias: 1,
        group_id: 4,
        object_id: 2,
        publisher_priority: 9,
        object_status: ObjectStatus::Object,
        payload: vec![0xAB, 0xCD],
    };
    recv.datagram(&mut track, original.clone()).unwrap();
    let (_, reader) = Track::new(namespace("bbb"), String::from("catalog")).produce();
    subscribed
        .serve_inner(&mut publisher, &mut state, &reader, &track)
        .unwrap();
    let mut read = match reader.mode(&track) {
        Wait::Ready(Ok(TrackReaderMode::Datagrams(read))) => read,
        other => panic!("{:?}", other),
    };
    let bytes = match subscribed.serve_datagrams(&mut state, &track, &mut read) {
        Ok(Wait::Ready(Some(bytes))) => bytes,
        other => panic!("{:?}", other),
    };
    assert_eq!(bytes, vec![2, 7, 7, 4, 2, 9, 0, 2, 0xAB, 0xCD]);
    let (back, _) = read_datagram(&bytes, 0).unwrap();
    assert_eq!(
        back,
        Datagram {
            subscribe_id: 7,
            track_alias: 7,
            ..original
        }
    );
    assert_eq!(state.lock().max_group_id, Some(4));
    assert!(matches!(
        subscribed.serve_datagrams(&mut state, &track, &mut read),
        Ok(Wait::Pending)
    ));
    track.finish();
    assert!(matches!(
        subscribed.serve_datagrams(&mut state, &track, &mut read),
        Ok(Wait::Ready(None))
    ));
}

#[test]
fn serving_waits_for_objects_that_have_not_come() {
    let (_, _, mut state) = Subscribed::new(subscribe_message(SubscribeFilter::LatestObject));
    let mut track = TrackState::new();
    let mut subgroups = track_writer("catalog").groups(&mut track).unwrap();
    let info = Subgroup {
        group_id: 0,
        subgroup_id: 0,
        priority: 0,
    };
    let mut writer = subgroups.create(&mut track, info).unwrap();
    let mut task = SubgroupTask {
        header: SubgroupHeader {
            subscribe_id: 7,
            track_alias: 7,
            group_id: 0,
            subgroup_id: 0,
            publisher_priority: 0,
        },
        reader: SubgroupReader {
            info,
            index: 0,
            cursor: Cursor::new(),
        },
        opened: false,
    };
    let mut out = Vec::new();
    assert_eq!(
        Subscribed::serve_subgroup(&mut task, &mut state, &track, &mut out),
        Ok(Step::Wait)
    );
    assert!(out.is_empty());
    writer.write(&mut track, vec![1]).unwrap();
    assert_eq!(
        Subscribed::serve_subgroup(&mut task, &mut state, &track, &mut out),
        Ok(Step::Open)
    );
    assert_eq!(out, vec![4, 7, 7, 0, 0, 0]);
    assert_eq!(
        Subscribed::serve_subgroup(&mut task, &mut state, &track, &mut out),
        Ok(Step::Send)
    );
    assert_eq!(out, vec![4, 7, 7, 0, 0, 0, 0, 1, 1]);
    assert_eq!(
        Subscribed::serve_subgroup(&mut task, &mut state, &track, &mut out),
        Ok(Step::Wait)
    );
    // once the session has let go, nothing more is sent
    writer.write(&mut track, vec![2]).unwrap();
    state.release();
    assert_eq!(
        Subscribed::serve_subgroup(&mut task, &mut state, &track, &mut out),
        Err(SessionError::Serve(ServeError::Done))
    );
    assert_eq!(out.len(), 9);
}

fn fetch_message(start: (u64, u64), end: (u64, u64)) -> FetchMessage {
    FetchMessage {
        id: 1,
        track_namespace: namespace("bbb"),
        track_name: String::from(".catalog"),
        subscriber_priority: 1,
        group_order: GroupOrder::Ascending,
        start_group: start.0,
        start_object: start.1,
        end_group: end.0,
        end_object: end.1,
        params: Params::new(),
    }
}

#[test]
fn fetch_asks_for_its_range() {
    let mut subscriber = Subscriber::new();
    let (handle, mut recv, mut state) = Fetch::new(
        &mut subscriber,
        1,
        track_writer(".catalog"),
        SubscribePair { group: 0, object: 0 },
        SubscribePair { group: 3, object: 0 },
        GroupOrder::Ascending,
        1,
    );
    assert_eq!(handle.id, 1);
    assert_eq!(handle.info.name, ".catalog");
    assert_eq!(handle.info.namespace, namespace("bbb"));
    assert_eq!(
        sent_by_subscriber(&mut subscriber),
        vec![Message::Fetch(fetch_message((0, 0), (3, 0)))]
    );
    assert_eq!(handle.closed(&state), Wait::Pending);
    assert_eq!(recv.ok(&mut state), Ok(()));
    // the stream of the answer arrives
    let mut track = TrackState::new();
    let header = FetchHeader {
        subscribe_id: 1,
        track_alias: 0,
        publisher_priority: 0,
    };
    let stream = recv.stream(&mut track, header).unwrap();
    assert_eq!(stream.priority, 0);
    assert_eq!(stream.info.name, ".catalog");
    // and may arrive again
    let again = recv.stream(&mut track, header).unwrap();
    assert_eq!(again, stream);
    handle.drop(&mut subscriber, &mut state);
    assert_eq!(
        sent_by_subscriber(&mut subscriber),
        vec![Message::FetchCancel(FetchCancel { id: 1 })]
    );
    let mut lost = FetchRecv { writer: None };
    assert_eq!(lost.stream(&mut track, header).unwrap_err(), ServeError::Done);
}

#[test]
fn fetch_range_is_served_on_one_stream() {
    let mut publisher = Publisher::new();
    let (mut fetched, _recv, state) = Fetched::new(fetch_message((0, 0), (3, 0)));
    assert_eq!(fetched.info.name, ".catalog");
    let mut track = TrackState::new();
    publish(&mut track, &[(0, 2), (1, 1), (3, 2), (4, 1)]);
    track.finish();
    let (_, reader) = Track::new(namespace("bbb"), String::from(".catalog")).produce();
    let latest = fetched.serve_inner(&mut publisher, &reader, &track).unwrap();
    assert_eq!(latest, (4, 0));
    assert_eq!(
        sent_by_publisher(&mut publisher),
        vec![Message::FetchOk(FetchOk {
            id: 1,
            group_order: GroupOrder::Ascending,
            end_of_track: 0,
            largest_group_id: 4,
            largest_object_id: 0,
            params: Params::new(),
        })]
    );
    let mode = match reader.mode(&track) {
        Wait::Ready(Ok(mode)) => mode,
        other => panic!("{:?}", other),
    };
    let mut task = fetched.task(mode, latest).unwrap();
    let mut out = Vec::new();
    loop {
        match fetched.serve_subgroups(&mut task, &state, &track, &mut out) {
            Ok(Step::Finish) => break,
            Ok(Step::Wait) => panic!("nothing to wait for"),
            Ok(_) => {}
            Err(e) => panic!("{:?}", e),
        }
    }
    let (header, mut at) = Header::read(&out, 0).unwrap();
    assert_eq!(
        header,
        Header::Fetch(FetchHeader {
            subscribe_id: 1,
            track_alias: 0,
            publisher_priority: 0
        })
    );
    let mut places = Vec::new();
    let mut payload = Vec::new();
    while at < out.len() {
        let (object, next) = FetchObject::read(&out, at).unwrap();
        assert_eq!(object.subgroup_id, 0);
        assert_eq!(object.publisher_priority, 1);
        assert_eq!(object.status, ObjectStatus::Object);
        let end = next + object.size as usize;
        payload.extend_from_slice(&out[next..end]);
        places.push((object.group_id, object.object_id));
        at = end;
    }
    // everything from (0, 0) to (3, 0), in ascending order
    assert_eq!(places, vec![(0, 0), (0, 1), (1, 0), (3, 0)]);
    assert_eq!(payload, vec![0, 0, 0, 1, 1, 0, 3, 0]);
}

#[test]
fn fetch_stops_at_what_the_track_held_when_it_was_accepted() {
    let mut publisher = Publisher::new();
    let (mut fetched, _recv, state) = Fetched::new(fetch_message((0, 0), (9, 0)));
    let mut track = TrackState::new();
    let mut subgroups = track_writer(".catalog").groups(&mut track).unwrap();
    let info = Subgroup {
        group_id: 0,
        subgroup_id: 0,
        priority: 1,
    };
    let mut writer = subgroups.create(&mut track, info).unwrap();
    writer.write(&mut track, vec![1]).unwrap();
    writer.write(&mut track, vec![2]).unwrap();
    let (_, reader) = Track::new(namespace("bbb"), String::from(".catalog")).produce();
    let latest = fetched.serve_inner(&mut publisher, &reader, &track).unwrap();
    assert_eq!(latest, (0, 1));
    // more is written after the fetch was accepted
    writer.write(&mut track, vec![3]).unwrap();
    writer.finish(&mut track);
    track.finish();
    let mode = match reader.mode(&track) {
        Wait::Ready(Ok(mode)) => mode,
        other => panic!("{:?}", other),
    };
    let mut task = fetched.task(mode, latest).unwrap();
    let mut out = Vec::new();
    let mut steps = Vec::new();
    loop {
        let step = fetched
            .serve_subgroups(&mut task, &state, &track, &mut out)
            .unwrap();
        steps.push(step);
        if step == Step::Finish {
            break;
        }
    }
    assert_eq!(
        steps,
        vec![Step::Open, Step::Send, Step::Send, Step::Finish]
    );
    assert_eq!(out, vec![5, 1, 0, 0, 0, 1, 1, 1, 0, 0, 1, 1, 1, 2]);
}

fn fetched_places(fetched: &mut Fetched, track: &TrackState, latest: (u64, u64)) -> Vec<(u64, u64)> {
    let state = State::new(FetchedState::default());
    let (_, reader) = Track::new(namespace("bbb"), String::from(".catalog")).produce();
    let mode = match reader.mode(track) {
        Wait::Ready(Ok(mode)) => mode,
        other => panic!("{:?}", other),
    };
    let mut task = fetched.task(mode, latest).unwrap();
    let mut out = Vec::new();
    loop {
        match fetched.serve_subgroups(&mut task, &state, track, &mut out) {
            Ok(Step::Finish) => break,
            Ok(Step::Open) | Ok(Step::Send) => {}
            other => panic!("{:?}", other),
        }
    }
    let (_, mut at) = Header::read(&out, 0).unwrap();
    let mut places = Vec::new();
    while at < out.len() {
        let (object, next) = FetchObject::read(&out, at).unwrap();
        assert_eq!(&out[next..next + 2], &[object.group_id as u8, object.object_id as u8]);
        places.push((object.group_id, object.object_id));
        at = next + object.size as usize;
    }
    places
}

#[test]
fn fetch_goes_by_group_whatever_was_made_first() {
    let (mut fetched, _recv, _state) = Fetched::new(fetch_message((0, 1), (3, 0)));
    let mut track = TrackState::new();
    // group 3 is made before group 1, and group 0 last
    publish(&mut track, &[(3, 2), (1, 2), (5, 1), (0, 3)]);
    track.finish();
    assert_eq!(track.latest(), Some((5, 0)));
    assert_eq!(
        fetched_places(&mut fetched, &track, (5, 0)),
        vec![(0, 1), (0, 2), (1, 0), (1, 1), (3, 0)]
    );
}

#[test]
fn fetch_in_descending_order_takes_the_highest_group_first() {
    let message = FetchMessage {
        group_order: GroupOrder::Descending,
        ..fetch_message((0, 0), (3, 0))
    };
    let (mut fetched, _recv, _state) = Fetched::new(message);
    let mut track = TrackState::new();
    publish(&mut track, &[(0, 2), (1, 1), (3, 2)]);
    track.finish();
    assert_eq!(
        fetched_places(&mut fetched, &track, (3, 1)),
        vec![(3, 0), (1, 0), (0, 0), (0, 1)]
    );
}

#[test]
fn fetch_waits_while_the_track_is_written() {
    let (mut fetched, _recv, state) = Fetched::new(fetch_message((0, 0), (3, 0)));
    let mut track = TrackState::new();
    let mut subgroups = track_writer(".catalog").groups(&mut track).unwrap();
    publish_more(&mut subgroups, &mut track, &[(1, 1)]);
    let (_, reader) = Track::new(namespace("bbb"), String::from(".catalog")).produce();
    let mode = match reader.mode(&track) {
        Wait::Ready(Ok(mode)) => mode,
        other => panic!("{:?}", other),
    };
    let mut task = fetched.task(mode, (3, 0)).unwrap();
    let mut out = Vec::new();
    assert_eq!(fetched.serve_subgroups(&mut task, &state, &track, &mut out), Ok(Step::Open));
    assert_eq!(fetched.serve_subgroups(&mut task, &state, &track, &mut out), Ok(Step::Send));
    assert_eq!(fetched.serve_subgroups(&mut task, &state, &track, &mut out), Ok(Step::Wait));
    let sent = out.len();
    // what comes behind the last object is still sent, what comes before it is not
    publish_more(&mut subgroups, &mut track, &[(2, 1), (0, 1)]);
    assert_eq!(fetched.serve_subgroups(&mut task, &state, &track, &mut out), Ok(Step::Send));
    assert_eq!(&out[sent..], &[2, 0, 0, 1, 2, 2, 0]);
    assert_eq!(fetched.serve_subgroups(&mut task, &state, &track, &mut out), Ok(Step::Wait));
    track.close(ServeError::NotFound).unwrap();
    assert_eq!(
        fetched.serve_subgroups(&mut task, &state, &track, &mut out),
        Err(SessionError::Serve(ServeError::NotFound))
    );
}

#[test]
fn stream_that_was_not_opened_is_not_counted() {
    let mut publisher = Publisher::new();
    let (mut subscribed, _recv, mut state) =
        Subscribed::new(subscribe_message(SubscribeFilter::LatestObject));
    let mut track = TrackState::new();
    publish(&mut track, &[(0, 1)]);
    track.finish();
    let (_, reader) = Track::new(namespace("bbb"), String::from("catalog")).produce();
    subscribed
        .serve_inner(&mut publisher, &mut state, &reader, &track)
        .unwrap();
    let mut subgroups = match reader.mode(&track) {
        Wait::Ready(Ok(TrackReaderMode::Subgroups(subgroups))) => subgroups,
        other => panic!("{:?}", other),
    };
    let mut task = match subscribed.serve_subgroups(&state, &track, &mut subgroups) {
        Ok(Wait::Ready(Some(task))) => task,
        other => panic!("{:?}", other),
    };
    let mut out = Vec::new();
    assert_eq!(
        Subscribed::serve_subgroup(&mut task, &mut state, &track, &mut out),
        Ok(Step::Open)
    );
    // the stream could not be opened: the subscription ends with no stream counted
    assert_eq!(state.lock().stream_count, 0);
    sent_by_publisher(&mut publisher);
    subscribed.drop(&mut publisher, &mut state);
    assert_eq!(
        sent_by_publisher(&mut publisher),
        vec![Message::SubscribeDone(SubscribeDone {
            id: 7,
            code: 0,
            count: 0,
            reason: String::from("done"),
        })]
    );
    // a stream that is there is counted, unless the session has let go
    assert_eq!(
        Subscribed::stream_opened(&mut state),
        Err(SessionError::Serve(ServeError::Done))
    );
    let mut fresh = State::new(SubscribedState::default());
    assert_eq!(Subscribed::stream_opened(&mut fresh), Ok(()));
    assert_eq!(fresh.lock().stream_count, 1);
}

#[test]
fn fetch_of_an_empty_or_unfit_track_fails() {
    let mut publisher = Publisher::new();
    let (mut fetched, _recv, mut state) = Fetched::new(fetch_message((0, 0), (3, 0)));
    let track = TrackState::new();
    let (_, reader) = Track::new(namespace("bbb"), String::from(".catalog")).produce();
    assert_eq!(
        fetched.serve_inner(&mut publisher, &reader, &track),
        Err(SessionError::Serve(ServeError::Cancel))
    );
    assert!(sent_by_publisher(&mut publisher).is_empty());
    let mut track = TrackState::new();
    track_writer(".catalog").stream(&mut track, 0).unwrap();
    let mode = match reader.mode(&track) {
        Wait::Ready(Ok(mode)) => mode,
        other => panic!("{:?}", other),
    };
    assert_eq!(
        fetched.task(mode, (0, 0)),
        Err(SessionError::Serve(ServeError::Mode))
    );
    assert_eq!(
        fetched.serve(&mut state, Err(SessionError::Serve(ServeError::Mode))),
        Err(SessionError::Serve(ServeError::Mode))
    );
    assert_eq!(state.lock().closed, Err(ServeError::Mode));
}

#[test]
fn cancelled_fetch_sends_nothing_more() {
    let mut publisher = Publisher::new();
    let (mut fetched, mut recv, mut state) = Fetched::new(fetch_message((0, 0), (3, 0)));
    assert_eq!(recv.id, 1);
    let mut track = TrackState::new();
    publish(&mut track, &[(0, 2)]);
    let (_, reader) = Track::new(namespace("bbb"), String::from(".catalog")).produce();
    let latest = fetched.serve_inner(&mut publisher, &reader, &track).unwrap();
    let mode = match reader.mode(&track) {
        Wait::Ready(Ok(mode)) => mode,
        other => panic!("{:?}", other),
    };
    let mut task = fetched.task(mode, latest).unwrap();
    let mut out = Vec::new();
    assert_eq!(
        fetched.serve_subgroups(&mut task, &state, &track, &mut out),
        Ok(Step::Open)
    );
    assert_eq!(recv.recv_fetch_cancel(&mut state), Ok(()));
    assert_eq!(
        fetched.serve_subgroups(&mut task, &state, &track, &mut out),
        Err(SessionError::Serve(ServeError::Cancel))
    );
    assert_eq!(out, vec![5, 1]);
    assert_eq!(recv.recv_fetch_cancel(&mut state), Err(ServeError::Cancel));
    assert_eq!(
        fetched.close(&mut state, ServeError::Done),
        Err(ServeError::Cancel)
    );
    let mut fresh = State::new(FetchedState::default());
    let (fetched, _, _) = Fetched::new(fetch_message((0, 0), (3, 0)));
    assert_eq!(fetched.close(&mut fresh, ServeError::NotFound), Ok(()));
    assert_eq!(fresh.lock().closed, Err(ServeError::NotFound));
}

#[test]
fn session_errors_close_with_a_code() {
    assert_eq!(
        SessionError::Serve(ServeError::NotFound).into_serve(),
        ServeError::NotFound
    );
    let closed = SessionError::Transport(String::from("reset")).into_serve();
    assert_eq!(closed.code(), 1);
    assert_eq!(closed.reason(), "reset");
    let closed =
        SessionError::Decode(moq_transport::coding::DecodeError::InvalidValue).into_serve();
    assert_eq!(closed.code(), 3);
    assert_eq!(closed.reason(), "decode error");
    let closed =
        SessionError::Encode(moq_transport::coding::EncodeError::BoundsExceeded).into_serve();
    assert_eq!(closed.code(), 3);
    assert_eq!(closed.reason(), "encode error");
}

#[test]
fn messages_are_dropped_once_the_session_has_ended() {
    let mut publisher = Publisher::new();
    publisher.send_message(Message::Unsubscribe(Unsubscribe { id: 1 }));
    let left = publisher.close();
    assert_eq!(left, vec![Message::Unsubscribe(Unsubscribe { id: 1 })]);
    publisher.send_message(Message::Unsubscribe(Unsubscribe { id: 2 }));
    assert_eq!(publisher.next_message(), Wait::Ready(None));
    let mut subscriber = Subscriber::new();
    assert_eq!(subscriber.next_message(), Wait::Pending);
    subscriber.close();
    let _ = Subscribe::new(
        &mut subscriber,
        7,
        track_writer("catalog"),
        SubscribeFilter::LatestObject,
    );
    assert_eq!(subscriber.next_message(), Wait::Ready(None));
}

#[test]
fn subscription_numbers_rise_one_by_one() {
    let mut subscriber = Subscriber::new();
    assert_eq!(subscriber.allocate(), Some(0));
    assert_eq!(subscriber.allocate(), Some(1));
    let _ = Subscribe::new(
        &mut subscriber,
        1,
        track_writer("catalog"),
        SubscribeFilter::LatestObject,
    );
    assert_eq!(subscriber.allocate(), Some(2));
    assert_eq!(sent_by_subscriber(&mut subscriber).len(), 1);
    assert_eq!(subscriber.allocate(), Some(3));
}

fn done_message(id: u64) -> Message {
    Message::SubscribeDone(SubscribeDone {
        id,
        code: 0,
        count: 3,
        reason: String::from("done"),
    })
}

fn update_message() -> Message {
    Message::SubscribeUpdate(SubscribeUpdate {
        id: 7,
        start: SubscribePair { group: 0, object: 0 },
        end_group: 0,
        subscriber_priority: 1,
        params: Params::new(),
    })
}

fn refused_message() -> Message {
    Message::SubscribeError(SubscribeError {
        id: 9,
        code: 404,
        reason: String::from("not found"),
        alias: 0,
    })
}

#[test]
fn messages_go_to_the_table_that_holds_their_number() {
    let subscribe = subscribe_message(SubscribeFilter::LatestObject);
    let fetch = fetch_message((0, 0), (3, 0));
    assert_eq!(
        subject(&Message::Subscribe(subscribe)),
        Some((Table::Subscribed, 7))
    );
    assert_eq!(
        subject(&Message::Unsubscribe(Unsubscribe { id: 8 })),
        Some((Table::Subscribed, 8))
    );
    assert_eq!(subject(&Message::Fetch(fetch)), Some((Table::Fetched, 1)));
    assert_eq!(
        subject(&Message::FetchCancel(FetchCancel { id: 2 })),
        Some((Table::Fetched, 2))
    );
    assert_eq!(subject(&done_message(9)), Some((Table::Subscribes, 9)));
    assert_eq!(
        subject(&Message::FetchOk(FetchOk {
            id: 4,
            group_order: GroupOrder::Ascending,
            end_of_track: 0,
            largest_group_id: 0,
            largest_object_id: 0,
            params: Params::new(),
        })),
        Some((Table::Fetches, 4))
    );
    assert_eq!(subject(&refused_message()), Some((Table::Subscribes, 9)));
    assert_eq!(subject(&update_message()), None);
}

#[test]
fn requests_with_a_taken_number_are_duplicates() {
    let subscribe = || subscribe_message(SubscribeFilter::LatestObject);
    assert_eq!(
        dispatch(Message::Subscribe(subscribe()), true),
        Err(ServeError::Duplicate)
    );
    assert_eq!(
        dispatch(Message::Subscribe(subscribe()), false),
        Ok(Dispatch::Subscribe(subscribe()))
    );
    let fetch = || fetch_message((0, 0), (3, 0));
    assert_eq!(
        dispatch(Message::Fetch(fetch()), true),
        Err(ServeError::Duplicate)
    );
    assert_eq!(
        dispatch(Message::Fetch(fetch()), false),
        Ok(Dispatch::Fetch(fetch()))
    );
}

#[test]
fn answers_for_an_unknown_number_find_nothing() {
    assert_eq!(dispatch(done_message(9), false), Err(ServeError::NotFound));
    assert_eq!(
        dispatch(done_message(9), true),
        Ok(Dispatch::SubscribeClosed {
            id: 9,
            error: ServeError::Closed {
                code: 0,
                reason: String::from("done"),
            },
        })
    );
    assert_eq!(dispatch(refused_message(), false), Err(ServeError::NotFound));
    assert_eq!(
        dispatch(refused_message(), true),
        Ok(Dispatch::SubscribeClosed {
            id: 9,
            error: ServeError::Closed {
                code: 404,
                reason: String::from("not found"),
            },
        })
    );
    assert_eq!(
        dispatch(Message::Unsubscribe(Unsubscribe { id: 7 }), false),
        Err(ServeError::NotFound)
    );
    assert_eq!(
        dispatch(Message::Unsubscribe(Unsubscribe { id: 7 }), true),
        Ok(Dispatch::Unsubscribe { id: 7 })
    );
    assert_eq!(
        dispatch(Message::FetchCancel(FetchCancel { id: 1 }), false),
        Err(ServeError::NotFound)
    );
    assert_eq!(
        dispatch(Message::FetchCancel(FetchCancel { id: 1 }), true),
        Ok(Dispatch::FetchCancel { id: 1 })
    );
    assert_eq!(dispatch(update_message(), false), Ok(Dispatch::Ignore));
    assert_eq!(dispatch(update_message(), true), Ok(Dispatch::Ignore));
}

#[test]
fn next_object_of_a_fetch_is_the_first_in_its_order() {
    let (fetched, _recv, _state) = Fetched::new(fetch_message((1, 1), (3, 0)));
    let mut track = TrackState::new();
    publish(&mut track, &[(3, 1), (1, 3), (0, 1)]);
    let (_, reader) = Track::new(namespace("bbb"), String::from(".catalog")).produce();
    let mode = match reader.mode(&track) {
        Wait::Ready(Ok(mode)) => mode,
        other => panic!("{:?}", other),
    };
    let mut task = fetched.task(mode, (3, 0)).unwrap();
    assert_eq!(task.start, (1, 1));
    assert_eq!(task.end, (3, 0));
    assert_eq!(task.order, GroupOrder::Ascending);
    assert_eq!(task.last, None);
    assert!(task.cover(1, 1));
    assert!(task.cover(3, 0));
    assert!(!task.cover(1, 0));
    assert!(!task.cover(3, 1));
    let first = FetchPlace {
        group_id: 1,
        object_id: 1,
        subgroup: 1,
        index: 1,
    };
    let second = FetchPlace {
        group_id: 1,
        object_id: 2,
        subgroup: 1,
        index: 2,
    };
    let third = FetchPlace {
        group_id: 3,
        object_id: 0,
        subgroup: 0,
        index: 0,
    };
    assert_eq!(task.next_due(&track), Some(first));
    task.last = Some(first);
    assert_eq!(task.next_due(&track), Some(second));
    task.last = Some(second);
    assert_eq!(task.next_due(&track), Some(third));
    task.last = Some(third);
    assert_eq!(task.next_due(&track), None);
    assert!(goes_before(&first, &third, GroupOrder::Ascending));
    assert!(goes_before(&first, &third, GroupOrder::Publisher));
    assert!(goes_before(&third, &first, GroupOrder::Descending));
    assert!(goes_before(&first, &second, GroupOrder::Descending));
    assert!(!goes_before(&first, &first, GroupOrder::Ascending));
}
