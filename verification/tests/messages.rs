use bytes::BytesMut;
use moq_transport::coding::{Decode, DecodeError, Encode, EncodeError, Params, Tuple, TupleField};
use moq_transport::message::{
    Fetch, FetchCancel, FetchOk, FilterType, GroupOrder, Message, Role, Subscribe, SubscribeDone,
    SubscribeError, SubscribeNamespaceOk, SubscribeOk, SubscribePair, SubscribeUpdate, Unsubscribe,
};

fn namespace(name: &str) -> Tuple {
    let mut tuple = Tuple::new();
    tuple.add(TupleField::from_utf8(name));
    tuple
}

fn subscribe(filter_type: FilterType, start: Option<SubscribePair>, end_group: Option<u64>) -> Subscribe {
    Subscribe {
        id: 7,
        track_alias: 7,
        track_namespace: namespace("bbb"),
        track_name: String::from("catalog"),
        subscriber_priority: 127,
        group_order: GroupOrder::Publisher,
        filter_type,
        start,
        end_group,
        params: Params::new(),
    }
}

fn wire<T: Encode>(value: &T) -> Vec<u8> {
    let mut out = Vec::new();
    value.write(&mut out).unwrap();
    out
}

fn same_subscribe(a: &Subscribe, b: &Subscribe) {
    assert_eq!(a.id, b.id);
    assert_eq!(a.track_alias, b.track_alias);
    assert_eq!(a.track_namespace, b.track_namespace);
    assert_eq!(a.track_name, b.track_name);
    assert_eq!(a.subscriber_priority, b.subscriber_priority);
    assert_eq!(a.group_order, b.group_order);
    assert_eq!(a.filter_type, b.filter_type);
    assert_eq!(a.start, b.start);
    assert_eq!(a.end_group, b.end_group);
    assert_eq!(a.params.0, b.params.0);
}

#[test]
fn subscribe_latest_object_wire_form() {
    let message = subscribe(FilterType::LatestObject, None, None);
    let bytes = wire(&message);
    assert_eq!(
        bytes,
        vec![
            7, 7, 1, 3, b'b', b'b', b'b', 7, b'c', b'a', b't', b'a', b'l', b'o', b'g', 127, 0, 2,
            0
        ]
    );
    let (back, next) = Subscribe::read(&bytes, 0).unwrap();
    assert_eq!(next, bytes.len());
    same_subscribe(&back, &message);
}

#[test]
fn subscribe_absolute_start_round_trip() {
    let message = subscribe(
        FilterType::AbsoluteStart,
        Some(SubscribePair { group: 2, object: 5 }),
        None,
    );
    let bytes = wire(&message);
    assert_eq!(&bytes[17..], &[3, 2, 5, 0]);
    let (back, _) = Subscribe::read(&bytes, 0).unwrap();
    same_subscribe(&back, &message);
}

#[test]
fn subscribe_absolute_range_round_trip() {
    let mut message = subscribe(
        FilterType::AbsoluteRange,
        Some(SubscribePair { group: 2, object: 5 }),
        Some(9),
    );
    message.params.set(2, 300u64).unwrap();
    message.params.set(3, vec![1u8, 2]).unwrap();
    let bytes = wire(&message);
    let mut buf = BytesMut::from(&bytes[..]);
    let back = Subscribe::decode(&mut buf).unwrap();
    assert_eq!(buf.len(), 0);
    same_subscribe(&back, &message);
    same_subscribe(&message.clone(), &message);
}

#[test]
fn subscribe_without_the_fields_of_its_filter_has_no_wire_form() {
    let mut out = vec![1u8, 2];
    let message = subscribe(FilterType::AbsoluteStart, None, None);
    assert_eq!(message.write(&mut out), Err(EncodeError::MissingField));
    assert_eq!(out, vec![1, 2]);
    let message = subscribe(FilterType::AbsoluteRange, None, Some(1));
    assert_eq!(message.write(&mut out), Err(EncodeError::MissingField));
    let message = subscribe(
        FilterType::AbsoluteRange,
        Some(SubscribePair { group: 0, object: 0 }),
        None,
    );
    assert_eq!(message.write(&mut out), Err(EncodeError::MissingField));
    assert_eq!(out, vec![1, 2]);
    let mut message = subscribe(FilterType::LatestObject, None, None);
    message.id = u64::MAX;
    assert_eq!(message.write(&mut out), Err(EncodeError::BoundsExceeded));
    assert_eq!(out, vec![1, 2]);
}

#[test]
fn subscribe_that_breaks_off_at_its_filter_misses_a_field() {
    let mut bytes = wire(&subscribe(FilterType::LatestObject, None, None));
    bytes.truncate(17);
    // absolute start, and one byte where a start and the parameters belong
    let mut start = bytes.clone();
    start.extend_from_slice(&[3, 2]);
    assert_eq!(
        Subscribe::read(&start, 0).unwrap_err(),
        DecodeError::MissingField
    );
    // absolute range, and three bytes where four are the least
    let mut range = bytes.clone();
    range.extend_from_slice(&[4, 2, 5, 9]);
    assert_eq!(
        Subscribe::read(&range, 0).unwrap_err(),
        DecodeError::MissingField
    );
    let mut unknown = bytes.clone();
    unknown.extend_from_slice(&[1, 0]);
    assert_eq!(
        Subscribe::read(&unknown, 0).unwrap_err(),
        DecodeError::InvalidValue
    );
    assert_eq!(
        Subscribe::read(&bytes, 0).unwrap_err(),
        DecodeError::UnexpectedEnd
    );
}

#[test]
fn subscribe_with_an_unknown_group_order_is_invalid() {
    let mut bytes = wire(&subscribe(FilterType::LatestObject, None, None));
    bytes[16] = 3;
    assert_eq!(
        Subscribe::read(&bytes, 0).unwrap_err(),
        DecodeError::InvalidValue
    );
}

#[test]
fn subscribe_pair_is_ordered_by_group_then_object() {
    let a = SubscribePair { group: 1, object: 9 };
    let b = SubscribePair { group: 2, object: 0 };
    let c = SubscribePair { group: 2, object: 1 };
    assert!(a.lt(&b));
    assert!(b.lt(&c));
    assert!(!c.lt(&b));
    assert!(!a.lt(&a));
    let bytes = wire(&c);
    assert_eq!(bytes, vec![2, 1]);
    assert_eq!(SubscribePair::read(&bytes, 0), Ok((c, 2)));
}

#[test]
fn subscribe_ok_with_content_round_trip() {
    let message = SubscribeOk {
        id: 7,
        track_alias: 7,
        expires: None,
        group_order: GroupOrder::Ascending,
        content_exists: 1,
        largest_location: Some((3, 0)),
        params: Params::new(),
    };
    let bytes = wire(&message);
    assert_eq!(bytes, vec![7, 7, 0, 1, 1, 3, 0, 0]);
    let (back, next) = SubscribeOk::read(&bytes, 0).unwrap();
    assert_eq!(next, 8);
    assert_eq!(back.id, 7);
    assert_eq!(back.track_alias, 7);
    assert_eq!(back.expires, None);
    assert_eq!(back.group_order, GroupOrder::Ascending);
    assert_eq!(back.content_exists, 1);
    assert_eq!(back.largest_location, Some((3, 0)));
}

#[test]
fn subscribe_ok_without_content_round_trip() {
    let message = SubscribeOk {
        id: 1,
        track_alias: 2,
        expires: Some(5000),
        group_order: GroupOrder::Descending,
        content_exists: 0,
        largest_location: None,
        params: Params::new(),
    };
    let bytes = wire(&message);
    assert_eq!(bytes, vec![1, 2, 0x53, 0x88, 2, 0, 0]);
    let (back, _) = SubscribeOk::read(&bytes, 0).unwrap();
    assert_eq!(back.expires, Some(5000));
    assert_eq!(back.content_exists, 0);
    assert_eq!(back.largest_location, None);
    assert_eq!(back.clone().expires, Some(5000));
}

#[test]
fn subscribe_ok_location_goes_with_content() {
    let mut message = SubscribeOk {
        id: 1,
        track_alias: 2,
        expires: None,
        group_order: GroupOrder::Descending,
        content_exists: 1,
        largest_location: None,
        params: Params::new(),
    };
    let mut out = Vec::new();
    assert_eq!(message.write(&mut out), Err(EncodeError::MissingField));
    message.content_exists = 0;
    message.largest_location = Some((1, 1));
    assert_eq!(message.write(&mut out), Err(EncodeError::InvalidValue));
    message.content_exists = 2;
    assert_eq!(message.write(&mut out), Err(EncodeError::InvalidValue));
    assert!(out.is_empty());
    assert_eq!(
        SubscribeOk::read(&[1, 2, 0, 2, 2, 0], 0).unwrap_err(),
        DecodeError::InvalidValue
    );
    assert_eq!(
        SubscribeOk::read(&[1, 2, 0, 2, 1, 3], 0).unwrap_err(),
        DecodeError::UnexpectedEnd
    );
}

#[test]
fn subscribe_done_round_trip() {
    let message = SubscribeDone {
        id: 7,
        code: 0,
        count: 3,
        reason: String::from("done"),
    };
    let bytes = wire(&message);
    assert_eq!(bytes, vec![7, 0, 3, 4, b'd', b'o', b'n', b'e']);
    let (back, next) = SubscribeDone::read(&bytes, 0).unwrap();
    assert_eq!(next, 8);
    assert_eq!(back.id, 7);
    assert_eq!(back.code, 0);
    assert_eq!(back.count, 3);
    assert_eq!(back.reason, "done");
    assert_eq!(message.clone().reason, "done");
    assert_eq!(
        SubscribeDone::read(&bytes[..5], 0).unwrap_err(),
        DecodeError::UnexpectedEnd
    );
}

#[test]
fn subscribe_error_round_trip() {
    let message = SubscribeError {
        id: 7,
        code: 404,
        reason: String::from("not found"),
        alias: 0,
    };
    let bytes = wire(&message);
    let (back, next) = SubscribeError::read(&bytes, 0).unwrap();
    assert_eq!(next, bytes.len());
    assert_eq!(back.id, 7);
    assert_eq!(back.code, 404);
    assert_eq!(back.reason, "not found");
    assert_eq!(back.alias, 0);
}

#[test]
fn subscribe_namespace_ok_round_trip() {
    let message = SubscribeNamespaceOk {
        namespace_prefix: String::from("live/"),
    };
    let bytes = wire(&message);
    assert_eq!(bytes, vec![5, b'l', b'i', b'v', b'e', b'/']);
    let (back, _) = SubscribeNamespaceOk::read(&bytes, 0).unwrap();
    assert_eq!(back.namespace_prefix, "live/");
}

#[test]
fn subscribe_update_round_trip() {
    let mut params = Params::new();
    params.set(2, 1u64).unwrap();
    let message = SubscribeUpdate {
        id: 7,
        start: SubscribePair { group: 3, object: 4 },
        end_group: 10,
        subscriber_priority: 1,
        params,
    };
    let bytes = wire(&message);
    assert_eq!(bytes, vec![7, 3, 4, 10, 1, 1, 2, 1]);
    let (back, _) = SubscribeUpdate::read(&bytes, 0).unwrap();
    assert_eq!(back.id, 7);
    assert_eq!(back.start, SubscribePair { group: 3, object: 4 });
    assert_eq!(back.end_group, 10);
    assert_eq!(back.subscriber_priority, 1);
    assert_eq!(back.params.0, message.params.0);
}

#[test]
fn unsubscribe_and_fetch_cancel_round_trip() {
    let bytes = wire(&Unsubscribe { id: 7 });
    assert_eq!(bytes, vec![7]);
    assert_eq!(Unsubscribe::read(&bytes, 0), Ok((Unsubscribe { id: 7 }, 1)));
    let bytes = wire(&FetchCancel { id: 64 });
    assert_eq!(bytes, vec![0x40, 64]);
    assert_eq!(FetchCancel::read(&bytes, 0), Ok((FetchCancel { id: 64 }, 2)));
}

#[test]
fn fetch_round_trip() {
    let message = Fetch {
        id: 1,
        track_namespace: namespace("bbb"),
        track_name: String::from(".catalog"),
        subscriber_priority: 1,
        group_order: GroupOrder::Ascending,
        start_group: 0,
        start_object: 0,
        end_group: 3,
        end_object: 0,
        params: Params::new(),
    };
    let bytes = wire(&message);
    assert_eq!(
        bytes,
        vec![
            1, 1, 3, b'b', b'b', b'b', 8, b'.', b'c', b'a', b't', b'a', b'l', b'o', b'g', 1, 1, 0,
            0, 3, 0, 0
        ]
    );
    let (back, next) = Fetch::read(&bytes, 0).unwrap();
    assert_eq!(next, bytes.len());
    assert_eq!(back.id, 1);
    assert_eq!(back.track_namespace, message.track_namespace);
    assert_eq!(back.track_name, ".catalog");
    assert_eq!(back.subscriber_priority, 1);
    assert_eq!(back.group_order, GroupOrder::Ascending);
    assert_eq!((back.start_group, back.start_object), (0, 0));
    assert_eq!((back.end_group, back.end_object), (3, 0));
}

#[test]
fn fetch_ok_round_trip() {
    let message = FetchOk {
        id: 1,
        group_order: GroupOrder::Ascending,
        end_of_track: 0,
        largest_group_id: 3,
        largest_object_id: 9,
        params: Params::new(),
    };
    let bytes = wire(&message);
    assert_eq!(bytes, vec![1, 1, 0, 3, 9, 0]);
    let (back, _) = FetchOk::read(&bytes, 0).unwrap();
    assert_eq!(back.id, 1);
    assert_eq!(back.group_order, GroupOrder::Ascending);
    assert_eq!(back.end_of_track, 0);
    assert_eq!(back.largest_group_id, 3);
    assert_eq!(back.largest_object_id, 9);
}

#[test]
fn group_order_and_filter_type_codes() {
    assert_eq!(wire(&GroupOrder::Publisher), vec![0]);
    assert_eq!(wire(&GroupOrder::Ascending), vec![1]);
    assert_eq!(wire(&GroupOrder::Descending), vec![2]);
    assert_eq!(GroupOrder::read(&[2], 0), Ok((GroupOrder::Descending, 1)));
    assert_eq!(GroupOrder::read(&[3], 0), Err(DecodeError::InvalidValue));
    assert_eq!(wire(&FilterType::LatestObject), vec![2]);
    assert_eq!(wire(&FilterType::AbsoluteStart), vec![3]);
    assert_eq!(wire(&FilterType::AbsoluteRange), vec![4]);
    assert_eq!(FilterType::read(&[4], 0), Ok((FilterType::AbsoluteRange, 1)));
    assert_eq!(FilterType::read(&[0x40, 3], 0), Ok((FilterType::AbsoluteStart, 2)));
    assert_eq!(FilterType::read(&[5], 0), Err(DecodeError::InvalidValue));
    assert_eq!(FilterType::read(&[1], 0), Err(DecodeError::InvalidValue));
}

#[test]
fn control_messages_are_framed_by_type_and_length() {
    let message = Message::Unsubscribe(Unsubscribe { id: 7 });
    let bytes = wire(&message);
    assert_eq!(bytes, vec![0x0A, 1, 7]);
    assert_eq!(Message::read(&bytes, 0), Ok((message, 3)));

    let message = Message::Subscribe(subscribe(FilterType::LatestObject, None, None));
    let bytes = wire(&message);
    assert_eq!(bytes[0], 0x03);
    assert_eq!(bytes[1] as usize, bytes.len() - 2);
    let (back, next) = Message::read(&bytes, 0).unwrap();
    assert_eq!(next, bytes.len());
    assert_eq!(back, message);
    assert_eq!(back.receiver(), Role::Publisher);
    assert_eq!(back.id(), 3);

    let done = Message::SubscribeDone(SubscribeDone {
        id: 7,
        code: 0,
        count: 3,
        reason: String::from("done"),
    });
    let bytes = wire(&done);
    assert_eq!(bytes, vec![0x0B, 8, 7, 0, 3, 4, b'd', b'o', b'n', b'e']);
    assert_eq!(done.receiver(), Role::Subscriber);
    let mut buf = BytesMut::from(&bytes[..]);
    assert_eq!(Message::decode(&mut buf), Ok(done));
    assert_eq!(buf.len(), 0);

    for (message, kind) in [
        (
            Message::SubscribeUpdate(SubscribeUpdate {
                id: 1,
                start: SubscribePair { group: 0, object: 0 },
                end_group: 0,
                subscriber_priority: 0,
                params: Params::new(),
            }),
            0x02u8,
        ),
        (
            Message::SubscribeError(SubscribeError {
                id: 1,
                code: 2,
                reason: String::new(),
                alias: 0,
            }),
            0x05,
        ),
        (
            Message::SubscribeNamespaceOk(SubscribeNamespaceOk {
                namespace_prefix: String::from("a"),
            }),
            0x12,
        ),
        (Message::FetchCancel(FetchCancel { id: 1 }), 0x17),
        (
            Message::FetchOk(FetchOk {
                id: 1,
                group_order: GroupOrder::Ascending,
                end_of_track: 0,
                largest_group_id: 0,
                largest_object_id: 0,
                params: Params::new(),
            }),
            0x18,
        ),
    ] {
        let bytes = wire(&message);
        assert_eq!(bytes[0], kind);
        assert_eq!(Message::read(&bytes, 0), Ok((message, bytes.len())));
    }
}

#[test]
fn control_message_that_has_not_arrived_in_full_waits() {
    let message = Message::Subscribe(subscribe(
        FilterType::AbsoluteStart,
        Some(SubscribePair { group: 2, object: 5 }),
        None,
    ));
    let bytes = wire(&message);
    for cut in 0..bytes.len() {
        assert_eq!(
            Message::read(&bytes[..cut], 0).unwrap_err(),
            DecodeError::UnexpectedEnd
        );
    }
    assert_eq!(
        Message::read(&[0x3f, 0], 0).unwrap_err(),
        DecodeError::InvalidMessage(0x3f)
    );
}
