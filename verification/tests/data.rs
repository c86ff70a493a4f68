use moq_transport::coding::{Decode, DecodeError, Encode, EncodeError};
use moq_transport::data::datagram::{read_datagram, write_datagram};
use moq_transport::data::{
    Datagram, FetchHeader, FetchObject, Header, ObjectStatus, SubgroupHeader, SubgroupObject,
    TrackHeader, TrackObject,
};

fn bytes_of<T: Encode>(value: &T) -> Vec<u8> {
    let mut out = Vec::new();
    value.write(&mut out).unwrap();
    out
}

#[test]
fn fetch_header_writes_only_its_number() {
    let header = FetchHeader {
        subscribe_id: 1,
        track_alias: 99,
        publisher_priority: 5,
    };
    let bytes = bytes_of(&header);
    assert_eq!(bytes, vec![1]);
    let (back, next) = FetchHeader::read(&bytes, 0).unwrap();
    assert_eq!(next, 1);
    assert_eq!(
        back,
        FetchHeader {
            subscribe_id: 1,
            track_alias: 0,
            publisher_priority: 0
        }
    );
}

#[test]
fn fetch_object_with_payload_leaves_the_status_out() {
    let object = FetchObject {
        group_id: 2,
        subgroup_id: 0,
        object_id: 5,
        publisher_priority: 127,
        size: 4,
        status: ObjectStatus::Object,
    };
    let bytes = bytes_of(&object);
    assert_eq!(bytes, vec![2, 0, 5, 127, 4]);
    assert_eq!(FetchObject::read(&bytes, 0), Ok((object, 5)));
}

#[test]
fn fetch_object_without_payload_carries_its_status() {
    let object = FetchObject {
        group_id: 2,
        subgroup_id: 1,
        object_id: 6,
        publisher_priority: 0,
        size: 0,
        status: ObjectStatus::EndOfGroup,
    };
    let bytes = bytes_of(&object);
    assert_eq!(bytes, vec![2, 1, 6, 0, 0, 3]);
    assert_eq!(FetchObject::read(&bytes, 0), Ok((object, 6)));
    assert_eq!(
        FetchObject::read(&bytes[..5], 0),
        Err(DecodeError::UnexpectedEnd)
    );
    assert_eq!(
        FetchObject::read(&[2, 1, 6, 0, 0, 9], 0),
        Err(DecodeError::InvalidValue)
    );
}

#[test]
fn fetch_object_with_a_number_too_large_has_no_wire_form() {
    let object = FetchObject {
        group_id: 2,
        subgroup_id: 1,
        object_id: u64::MAX,
        publisher_priority: 0,
        size: 0,
        status: ObjectStatus::Object,
    };
    let mut out = vec![9u8];
    assert_eq!(object.write(&mut out), Err(EncodeError::BoundsExceeded));
    assert_eq!(out, vec![9]);
}

#[test]
fn object_status_codes() {
    for (status, code) in [
        (ObjectStatus::Object, 0u8),
        (ObjectStatus::ObjectNotExists, 1),
        (ObjectStatus::GroupNotExists, 2),
        (ObjectStatus::EndOfGroup, 3),
        (ObjectStatus::EndOfTrack, 4),
    ] {
        assert_eq!(bytes_of(&status), vec![code]);
        assert_eq!(ObjectStatus::read(&[code], 0), Ok((status, 1)));
    }
    assert_eq!(ObjectStatus::read(&[5], 0), Err(DecodeError::InvalidValue));
}

#[test]
fn track_and_subgroup_headers_round_trip() {
    let track = TrackHeader {
        subscribe_id: 7,
        track_alias: 8,
        publisher_priority: 9,
    };
    assert_eq!(bytes_of(&track), vec![7, 8, 9]);
    assert_eq!(TrackHeader::read(&[7, 8, 9], 0), Ok((track, 3)));
    let subgroup = SubgroupHeader {
        subscribe_id: 7,
        track_alias: 8,
        group_id: 2,
        subgroup_id: 1,
        publisher_priority: 9,
    };
    assert_eq!(bytes_of(&subgroup), vec![7, 8, 2, 1, 9]);
    assert_eq!(SubgroupHeader::read(&[7, 8, 2, 1, 9], 0), Ok((subgroup, 5)));
}

#[test]
fn object_headers_round_trip() {
    let object = SubgroupObject {
        object_id: 5,
        size: 3,
        status: ObjectStatus::Object,
    };
    assert_eq!(bytes_of(&object), vec![5, 3]);
    assert_eq!(SubgroupObject::read(&[5, 3], 0), Ok((object, 2)));
    let marker = SubgroupObject {
        object_id: 6,
        size: 0,
        status: ObjectStatus::EndOfGroup,
    };
    assert_eq!(bytes_of(&marker), vec![6, 0, 3]);
    assert_eq!(SubgroupObject::read(&[6, 0, 3], 0), Ok((marker, 3)));
    let object = TrackObject {
        group_id: 1,
        object_id: 5,
        size: 0,
        status: ObjectStatus::EndOfTrack,
    };
    assert_eq!(bytes_of(&object), vec![1, 5, 0, 4]);
    assert_eq!(TrackObject::read(&[1, 5, 0, 4], 0), Ok((object, 4)));
}

#[test]
fn stream_headers_begin_with_their_type() {
    let track = Header::Track(TrackHeader {
        subscribe_id: 7,
        track_alias: 8,
        publisher_priority: 9,
    });
    assert_eq!(bytes_of(&track), vec![0, 7, 8, 9]);
    assert_eq!(Header::read(&[0, 7, 8, 9], 0), Ok((track, 4)));
    assert_eq!(track.subscribe_id(), 7);
    let subgroup = Header::Subgroup(SubgroupHeader {
        subscribe_id: 7,
        track_alias: 8,
        group_id: 2,
        subgroup_id: 1,
        publisher_priority: 9,
    });
    assert_eq!(bytes_of(&subgroup), vec![4, 7, 8, 2, 1, 9]);
    assert_eq!(Header::read(&[4, 7, 8, 2, 1, 9], 0), Ok((subgroup, 6)));
    let fetch = Header::Fetch(FetchHeader {
        subscribe_id: 1,
        track_alias: 0,
        publisher_priority: 0,
    });
    assert_eq!(bytes_of(&fetch), vec![5, 1]);
    assert_eq!(Header::read(&[5, 1], 0), Ok((fetch, 2)));
    assert_eq!(fetch.subscribe_id(), 1);
}

#[test]
fn stream_of_an_unknown_type_is_refused() {
    assert_eq!(Header::read(&[2, 1], 0), Err(DecodeError::InvalidMessage(2)));
    assert_eq!(Header::read(&[1, 1], 0), Err(DecodeError::InvalidMessage(1)));
    assert_eq!(Header::read(&[], 0), Err(DecodeError::UnexpectedEnd));
    assert_eq!(Header::read(&[4, 7, 8], 0), Err(DecodeError::UnexpectedEnd));
}

#[test]
fn datagram_round_trip() {
    let datagram = Datagram {
        subscribe_id: 7,
        track_alias: 8,
        group_id: 2,
        object_id: 5,
        publisher_priority: 9,
        object_status: ObjectStatus::Object,
        payload: vec![0xAA, 0xBB],
    };
    let mut out = Vec::new();
    write_datagram(&datagram, &mut out).unwrap();
    assert_eq!(out, vec![2, 7, 8, 2, 5, 9, 0, 2, 0xAA, 0xBB]);
    let (back, next) = read_datagram(&out, 0).unwrap();
    assert_eq!(next, out.len());
    assert_eq!(back.subscribe_id, 7);
    assert_eq!(back.track_alias, 8);
    assert_eq!(back.group_id, 2);
    assert_eq!(back.object_id, 5);
    assert_eq!(back.publisher_priority, 9);
    assert_eq!(back.object_status, ObjectStatus::Object);
    assert_eq!(back.payload, vec![0xAA, 0xBB]);
    assert_eq!(
        read_datagram(&[4, 7, 8], 0).unwrap_err(),
        DecodeError::InvalidMessage(4)
    );
    assert_eq!(
        read_datagram(&out[..9], 0).unwrap_err(),
        DecodeError::UnexpectedEnd
    );
}
