use moq_transport::coding::{Tuple, TupleField};
use moq_transport::data::ObjectStatus;
use moq_transport::serve::{
    Channel, Cursor, Datagram, DatagramsReader, Next, Object, ServeError, StreamObject,
    StreamReader, Subgroup, SubgroupReader, SubgroupsReader, Track, TrackReaderMode, TrackState,
    TrackWriter, Tracks, TracksRequest, TracksState,
};
use moq_transport::watch::queue::Wait;
use moq_transport::watch::{Queue, State};

fn namespace(name: &str) -> Tuple {
    let mut tuple = Tuple::new();
    tuple.add(TupleField::from_utf8(name));
    tuple
}

fn track(name: &str) -> Track {
    Track::new(namespace("bbb"), String::from(name))
}

#[test]
fn state_counts_its_changes() {
    let mut state = State::new(5u32);
    assert_eq!(*state.lock(), 5);
    assert_eq!(state.modified(), Some(0));
    assert!(!state.changed(0));
    *state.lock_mut().unwrap() = 6;
    assert_eq!(*state.lock(), 6);
    assert_eq!(state.modified(), Some(1));
    assert!(state.changed(0));
    assert!(!state.changed(1));
}

#[test]
fn state_cannot_change_once_a_side_let_go() {
    let mut state = State::new(5u32);
    state.release();
    assert!(state.lock_mut().is_none());
    assert_eq!(*state.lock(), 5);
    assert_eq!(state.modified(), None);
    // letting go wakes those who wait
    assert!(state.changed(0));
}

#[test]
fn queue_is_first_in_first_out() {
    let mut queue = Queue::new();
    assert_eq!(queue.pop(), Wait::Pending);
    assert_eq!(queue.push(1), Ok(()));
    assert_eq!(queue.push(2), Ok(()));
    assert_eq!(queue.push(3), Ok(()));
    assert_eq!(queue.pop(), Wait::Ready(Some(1)));
    assert_eq!(queue.pop(), Wait::Ready(Some(2)));
    assert_eq!(queue.push(4), Ok(()));
    assert_eq!(queue.pop(), Wait::Ready(Some(3)));
    assert_eq!(queue.pop(), Wait::Ready(Some(4)));
    assert_eq!(queue.pop(), Wait::Pending);
}

#[test]
fn closing_a_queue_hands_over_what_waited() {
    let mut queue = Queue::new();
    queue.push(1).unwrap();
    queue.push(2).unwrap();
    assert_eq!(queue.close(), vec![1, 2]);
    assert_eq!(queue.pop(), Wait::Ready(None));
    assert_eq!(queue.push(3), Err(3));
    assert_eq!(queue.pop(), Wait::Ready(None));
    assert_eq!(queue.close(), Vec::<i32>::new());
}

#[test]
fn reader_drains_in_order_then_finds_done() {
    let mut channel = Channel::new();
    channel.push(10).unwrap();
    channel.push(20).unwrap();
    channel.push(30).unwrap();
    let mut cursor = Cursor::new();
    assert_eq!(cursor.next(&channel), Next::Item(&10));
    channel.finish();
    assert_eq!(cursor.peek(&channel), Next::Item(&20));
    assert_eq!(cursor.next(&channel), Next::Item(&20));
    assert_eq!(cursor.next(&channel), Next::Item(&30));
    assert_eq!(cursor.next(&channel), Next::Done);
    assert_eq!(cursor.next(&channel), Next::Done);
    assert_eq!(cursor.next, 3);
}

#[test]
fn reader_waits_while_the_writer_holds_on() {
    let mut channel = Channel::new();
    let mut cursor = Cursor::new();
    assert_eq!(cursor.next(&channel), Next::Pending);
    channel.push(1).unwrap();
    assert_eq!(cursor.next(&channel), Next::Item(&1));
    assert_eq!(cursor.next(&channel), Next::Pending);
}

#[test]
fn reader_finds_the_error_behind_the_items() {
    let mut channel = Channel::new();
    channel.push(1).unwrap();
    channel.close(ServeError::NotFound).unwrap();
    let mut cursor = Cursor::new();
    assert_eq!(cursor.next(&channel), Next::Item(&1));
    assert_eq!(cursor.next(&channel), Next::Closed(ServeError::NotFound));
    assert_eq!(channel.push(2), Err(ServeError::NotFound));
    assert_eq!(channel.close(ServeError::Mode), Err(ServeError::NotFound));
    assert_eq!(channel.check(), Err(ServeError::NotFound));
    assert_eq!(channel.len(), 1);
}

#[test]
fn every_reader_sees_the_same_items() {
    let mut channel = Channel::new();
    let mut readers = [Cursor::new(), Cursor::new(), Cursor::new()];
    let mut seen: [Vec<u32>; 3] = [vec![], vec![], vec![]];
    for item in 0..6u32 {
        channel.push(item).unwrap();
        // each reader goes at its own pace
        for (i, reader) in readers.iter_mut().enumerate() {
            if item as usize % (i + 1) == 0 {
                while let Next::Item(found) = reader.next(&channel) {
                    seen[i].push(*found);
                }
            }
        }
    }
    channel.finish();
    for (i, reader) in readers.iter_mut().enumerate() {
        loop {
            match reader.next(&channel) {
                Next::Item(found) => seen[i].push(*found),
                Next::Done => break,
                other => panic!("{:?}", other),
            }
        }
    }
    for list in seen.iter() {
        assert_eq!(list, &vec![0, 1, 2, 3, 4, 5]);
    }
}

#[test]
fn writer_fails_once_no_reader_is_left() {
    let mut channel = Channel::new();
    channel.push(1).unwrap();
    channel.desert();
    assert_eq!(channel.push(2), Err(ServeError::Cancel));
    assert_eq!(channel.close(ServeError::Done), Err(ServeError::Cancel));
    assert_eq!(*channel.get(0), 1);
    *channel.get_mut(0) = 5;
    assert_eq!(*channel.get(0), 5);
}

#[test]
fn serve_error_codes_and_words() {
    assert_eq!(ServeError::Done.code(), 0);
    assert_eq!(ServeError::Cancel.code(), 1);
    assert_eq!(ServeError::NotFound.code(), 404);
    assert_eq!(ServeError::Duplicate.code(), 409);
    assert_eq!(ServeError::Mode.code(), 400);
    let closed = ServeError::Closed {
        code: 77,
        reason: String::from("gone"),
    };
    assert_eq!(closed.code(), 77);
    assert_eq!(closed.reason(), "gone");
    assert_eq!(ServeError::Done.reason(), "done");
    assert_eq!(ServeError::Cancel.reason(), "cancelled");
    assert_eq!(ServeError::NotFound.reason(), "not found");
    assert_eq!(ServeError::Duplicate.reason(), "duplicate");
    assert_eq!(ServeError::Mode.reason(), "multiple stream modes");
    assert_eq!(closed.clone(), closed);
}

#[test]
fn track_mode_is_chosen_by_the_first_call() {
    let (writer, reader) = track("video").produce();
    let mut state = TrackState::new();
    assert_eq!(reader.mode(&state), Wait::Pending);
    assert_eq!(reader.latest(&state), None);
    let mut subgroups = writer.groups(&mut state).unwrap();
    assert_eq!(
        reader.mode(&state),
        Wait::Ready(Ok(TrackReaderMode::Subgroups(SubgroupsReader {
            cursor: Cursor { next: 0 }
        })))
    );
    let info = Subgroup {
        group_id: 2,
        subgroup_id: 0,
        priority: 9,
    };
    let mut subgroup = subgroups.create(&mut state, info).unwrap();
    assert_eq!(subgroup.info, info);
    assert_eq!(subgroup.index, 0);
    assert_eq!(subgroup.write(&mut state, vec![1, 2]), Ok(0));
    assert_eq!(subgroup.write(&mut state, vec![3]), Ok(1));
    assert_eq!(subgroup.mark(&mut state, ObjectStatus::EndOfGroup), Ok(2));
    assert_eq!(state.latest(), Some((2, 2)));

    // a writer of another mode is refused
    let (other, _) = track("video").produce();
    assert_eq!(other.stream(&mut state, 1).unwrap_err(), ServeError::Mode);
    let (other, _) = track("video").produce();
    assert_eq!(other.datagrams(&mut state).unwrap_err(), ServeError::Mode);
    let (other, _) = track("video").produce();
    assert_eq!(other.groups(&mut state).unwrap_err(), ServeError::Mode);
}

#[test]
fn subgroup_objects_are_numbered_by_their_place() {
    let (writer, reader) = track("video").produce();
    let mut state = TrackState::new();
    let mut subgroups = writer.groups(&mut state).unwrap();
    let mut first = subgroups
        .create(
            &mut state,
            Subgroup {
                group_id: 0,
                subgroup_id: 0,
                priority: 0,
            },
        )
        .unwrap();
    let mut second = subgroups
        .create(
            &mut state,
            Subgroup {
                group_id: 1,
                subgroup_id: 0,
                priority: 0,
            },
        )
        .unwrap();
    for i in 0..4u64 {
        assert_eq!(first.write(&mut state, vec![i as u8]), Ok(i));
    }
    assert_eq!(second.write(&mut state, vec![9]), Ok(0));
    first.finish(&mut state);

    let mut readers = match reader.mode(&state) {
        Wait::Ready(Ok(TrackReaderMode::Subgroups(readers))) => readers,
        other => panic!("{:?}", other),
    };
    let mut one = match readers.next(&state) {
        Next::Item(one) => one,
        other => panic!("{:?}", other),
    };
    assert_eq!(one.info.group_id, 0);
    let mut ids = Vec::new();
    loop {
        match one.next(&state) {
            Next::Item(object) => ids.push(object.object_id),
            Next::Done => break,
            other => panic!("{:?}", other),
        }
    }
    assert_eq!(ids, vec![0, 1, 2, 3]);
    let mut two = match readers.next(&state) {
        Next::Item(two) => two,
        other => panic!("{:?}", other),
    };
    assert_eq!(two.index, 1);
    assert_eq!(
        two.peek(&state),
        Next::Item(&Object {
            object_id: 0,
            status: ObjectStatus::Object,
            payload: vec![9]
        })
    );
    assert!(matches!(two.next(&state), Next::Item(_)));
    assert_eq!(two.next(&state), Next::Pending);
    assert_eq!(readers.next(&state), Next::Pending);
    state.finish();
    assert_eq!(readers.next(&state), Next::Done);
}

#[test]
fn stream_mode_keeps_its_objects_in_order() {
    let (writer, reader) = track("audio").produce();
    let mut state = TrackState::new();
    let mut stream = writer.stream(&mut state, 3).unwrap();
    assert_eq!(stream.priority, 3);
    for i in 0..3u64 {
        stream
            .write(
                &mut state,
                StreamObject {
                    group_id: 1,
                    object_id: i,
                    status: ObjectStatus::Object,
                    payload: vec![i as u8],
                },
            )
            .unwrap();
    }
    assert_eq!(state.latest(), Some((1, 2)));
    let mut objects = match reader.mode(&state) {
        Wait::Ready(Ok(TrackReaderMode::Stream(objects))) => objects,
        other => panic!("{:?}", other),
    };
    assert_eq!(
        objects,
        StreamReader {
            priority: 3,
            cursor: Cursor { next: 0 }
        }
    );
    let mut ids = Vec::new();
    while let Next::Item(object) = objects.next(&state) {
        ids.push(object.object_id);
    }
    assert_eq!(ids, vec![0, 1, 2]);
    assert_eq!(objects.next(&state), Next::Pending);
    state.close(ServeError::Cancel).unwrap();
    assert_eq!(objects.next(&state), Next::Closed(ServeError::Cancel));
    assert_eq!(state.check(), Err(ServeError::Cancel));
    // a reader of another mode is refused
    let mut wrong = DatagramsReader {
        cursor: Cursor::new(),
    };
    assert_eq!(wrong.read(&state), Next::Closed(ServeError::Mode));
    let mut wrong = SubgroupsReader {
        cursor: Cursor::new(),
    };
    assert_eq!(wrong.next(&state), Next::Closed(ServeError::Mode));
    let mut wrong = SubgroupReader {
        info: Subgroup {
            group_id: 0,
            subgroup_id: 0,
            priority: 0,
        },
        index: 0,
        cursor: Cursor::new(),
    };
    assert_eq!(wrong.next(&state), Next::Closed(ServeError::Mode));
}

#[test]
fn datagram_mode_keeps_its_datagrams_in_order() {
    let (writer, reader) = track("meta").produce();
    let mut state = TrackState::new();
    let mut datagrams = writer.datagrams(&mut state).unwrap();
    for i in 0..2u64 {
        datagrams
            .write(
                &mut state,
                Datagram {
                    group_id: 5,
                    object_id: i,
                    priority: 1,
                    status: ObjectStatus::Object,
                    payload: vec![i as u8],
                },
            )
            .unwrap();
    }
    let mut read = match reader.mode(&state) {
        Wait::Ready(Ok(TrackReaderMode::Datagrams(read))) => read,
        other => panic!("{:?}", other),
    };
    assert!(matches!(read.read(&state), Next::Item(d) if d.object_id == 0));
    assert!(matches!(read.read(&state), Next::Item(d) if d.object_id == 1));
    assert_eq!(read.read(&state), Next::Pending);
    state.desert();
    assert_eq!(
        datagrams.write(
            &mut state,
            Datagram {
                group_id: 5,
                object_id: 2,
                priority: 1,
                status: ObjectStatus::Object,
                payload: vec![]
            }
        ),
        Err(ServeError::Cancel)
    );
}

#[test]
fn track_closed_before_its_mode_is_chosen() {
    let (writer, reader) = track("gone").produce();
    let mut state = TrackState::new();
    TracksRequest::refuse(writer, &mut state).unwrap();
    assert_eq!(
        reader.mode(&state),
        Wait::Ready(Err(ServeError::NotFound))
    );
    let (writer, reader) = track("left").produce();
    let mut state = TrackState::new();
    state.finish();
    assert_eq!(reader.mode(&state), Wait::Ready(Err(ServeError::Done)));
    assert_eq!(writer.close(&mut state, ServeError::Cancel), Ok(()));
    assert_eq!(reader.mode(&state), Wait::Ready(Err(ServeError::Cancel)));
}

fn names(writers: &[TrackWriter]) -> Vec<String> {
    writers.iter().map(|w| w.info.name.clone()).collect()
}

#[test]
fn broadcast_creates_and_removes_tracks() {
    let (mut writer, _request, mut reader) = Tracks::new(namespace("bbb")).produce();
    let mut state = State::new(TracksState::new());
    let mut queue = Queue::new();
    let made = writer.create(&mut state, "video").unwrap();
    assert_eq!(made.info.name, "video");
    assert_eq!(made.info.namespace, namespace("bbb"));
    // a track that is there is given without a request
    let found = reader.subscribe(&mut state, &mut queue, "video").unwrap();
    assert_eq!(found.info.name, "video");
    assert_eq!(queue.pop(), Wait::Pending);
    // creating again replaces the track
    assert!(writer.create(&mut state, "video").is_some());
    let removed = writer.remove(&mut state, "video").unwrap();
    assert_eq!(removed.info.name, "video");
    assert!(writer.remove(&mut state, "video").is_none());
    assert!(state.lock().get(&TupleField::from_utf8("video")).is_none());
}

#[test]
fn unknown_track_is_requested_once() {
    let (_writer, mut request, mut reader) = Tracks::new(namespace("bbb")).produce();
    let mut state = State::new(TracksState::new());
    let mut queue = Queue::new();
    assert!(matches!(request.next(&mut queue), Wait::Pending));
    let first = reader.subscribe(&mut state, &mut queue, "audio").unwrap();
    let second = reader.subscribe(&mut state, &mut queue, "audio").unwrap();
    assert_eq!(first.info.name, "audio");
    assert_eq!(second.info.name, "audio");
    let mut clone = reader.clone();
    assert!(clone.subscribe(&mut state, &mut queue, "audio").is_some());
    match request.next(&mut queue) {
        Wait::Ready(Some(asked)) => {
            assert_eq!(asked.info.name, "audio");
            assert_eq!(asked.info.namespace, namespace("bbb"));
        }
        other => panic!("{:?}", other),
    }
    assert!(matches!(request.next(&mut queue), Wait::Pending));
}

#[test]
fn requests_that_were_never_taken_are_handed_over() {
    let (_writer, request, mut reader) = Tracks::new(namespace("bbb")).produce();
    let mut state = State::new(TracksState::new());
    let mut queue = Queue::new();
    reader.subscribe(&mut state, &mut queue, "a").unwrap();
    reader.subscribe(&mut state, &mut queue, "b").unwrap();
    let left = request.drop(&mut queue);
    assert_eq!(names(&left), vec!["a", "b"]);
    // nothing can be asked for any more
    assert!(reader.subscribe(&mut state, &mut queue, "c").is_none());
    // what was asked for before is still given
    assert!(reader.subscribe(&mut state, &mut queue, "a").is_some());
    for writer in left {
        let mut track = TrackState::new();
        TracksRequest::refuse(writer, &mut track).unwrap();
        assert_eq!(track.check(), Err(ServeError::NotFound));
    }
}

#[test]
fn broadcast_whose_side_let_go_gives_nothing_new() {
    let (mut writer, _request, mut reader) = Tracks::new(namespace("bbb")).produce();
    let mut state = State::new(TracksState::new());
    let mut queue = Queue::new();
    writer.create(&mut state, "video").unwrap();
    state.release();
    assert!(writer.create(&mut state, "audio").is_none());
    assert!(writer.remove(&mut state, "video").is_none());
    assert!(reader.subscribe(&mut state, &mut queue, "video").is_some());
    assert!(reader.subscribe(&mut state, &mut queue, "audio").is_none());
    assert!(matches!(queue.pop(), Wait::Pending));
}

#[test]
fn requests_are_still_taken_once_the_readers_have_let_go() {
    let (_writer, mut request, mut reader) = Tracks::new(namespace("bbb")).produce();
    let mut state = State::new(TracksState::new());
    let mut queue = Queue::new();
    assert!(matches!(request.next(&mut queue), Wait::Pending));
    reader.subscribe(&mut state, &mut queue, "a").unwrap();
    reader.subscribe(&mut state, &mut queue, "b").unwrap();
    reader.subscribe(&mut state, &mut queue, "c").unwrap();
    reader.finish(&mut queue);
    let mut taken = Vec::new();
    for _ in 0..3 {
        match request.next(&mut queue) {
            Wait::Ready(Some(writer)) => taken.push(writer),
            other => panic!("{:?}", other),
        }
    }
    assert_eq!(names(&taken), vec!["a", "b", "c"]);
    // the end, and no waiting, from then on
    assert!(matches!(request.next(&mut queue), Wait::Ready(None)));
    assert!(matches!(request.next(&mut queue), Wait::Ready(None)));
}

#[test]
fn ended_queue_takes_nothing_more() {
    let mut queue = Queue::new();
    queue.push(1u8).unwrap();
    queue.push(2u8).unwrap();
    queue.finish();
    assert_eq!(queue.push(3u8), Err(3u8));
    assert_eq!(queue.pop(), Wait::Ready(Some(1u8)));
    assert_eq!(queue.pop(), Wait::Ready(Some(2u8)));
    assert_eq!(queue.pop(), Wait::Ready(None));
}

#[test]
fn subgroups_are_found_by_their_place() {
    let mut state = TrackState::new();
    assert_eq!(state.subgroup_count(), 0);
    assert!(state.subgroup_at(0).is_none());
    let (writer, _) = track("video").produce();
    let mut subgroups = writer.groups(&mut state).unwrap();
    let first = Subgroup {
        group_id: 4,
        subgroup_id: 0,
        priority: 2,
    };
    let second = Subgroup {
        group_id: 2,
        subgroup_id: 1,
        priority: 3,
    };
    let mut one = subgroups.create(&mut state, first).unwrap();
    subgroups.create(&mut state, second).unwrap();
    one.write(&mut state, vec![7, 8]).unwrap();
    assert_eq!(state.subgroup_count(), 2);
    let held = state.subgroup_at(0).unwrap();
    assert_eq!(held.info, first);
    assert_eq!(held.objects.len(), 1);
    assert_eq!(held.objects.get(0).payload, vec![7, 8]);
    let held = state.subgroup_at(1).unwrap();
    assert_eq!(held.info, second);
    assert_eq!(held.objects.len(), 0);
    assert!(state.subgroup_at(2).is_none());
}
