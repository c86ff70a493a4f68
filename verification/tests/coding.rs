use bytes::BytesMut;
use moq_transport::coding::bytestring::{read_bytes, write_bytes};
use moq_transport::coding::params::{read_param, write_param, MAX_PARAM_SIZE};
use moq_transport::coding::varint::{read_varint, write_varint, VARINT_MAX};
use moq_transport::coding::{
    Decode, DecodeError, Encode, EncodeError, Params, Tuple, TupleField, VarInt,
};
use std::collections::HashMap;

fn varint(n: u64) -> Vec<u8> {
    let mut out = Vec::new();
    write_varint(n, &mut out);
    out
}

#[test]
fn varint_lengths_cover_the_four_intervals() {
    assert_eq!(varint(0).len(), 1);
    assert_eq!(varint(63).len(), 1);
    assert_eq!(varint(64).len(), 2);
    assert_eq!(varint(16383).len(), 2);
    assert_eq!(varint(16384).len(), 4);
    assert_eq!(varint((1 << 30) - 1).len(), 4);
    assert_eq!(varint(1 << 30).len(), 8);
    assert_eq!(varint(VARINT_MAX).len(), 8);
}

#[test]
fn varint_wire_forms() {
    assert_eq!(varint(0), vec![0x00]);
    assert_eq!(varint(37), vec![0x25]);
    assert_eq!(varint(15293), vec![0x7b, 0xbd]);
    assert_eq!(varint(494878333), vec![0x9d, 0x7f, 0x3e, 0x7d]);
    assert_eq!(
        varint(151288809941952652),
        vec![0xc2, 0x19, 0x7c, 0x5e, 0xff, 0x14, 0xe8, 0x8c]
    );
    assert_eq!(
        varint(0xff00000c),
        vec![0xC0, 0x00, 0x00, 0x00, 0xFF, 0x00, 0x00, 0x0C]
    );
}

#[test]
fn varint_round_trip_on_the_edges() {
    for n in [
        0u64,
        1,
        63,
        64,
        255,
        256,
        16383,
        16384,
        65535,
        (1 << 30) - 1,
        1 << 30,
        u32::MAX as u64,
        1 << 40,
        VARINT_MAX - 1,
        VARINT_MAX,
    ] {
        let bytes = varint(n);
        assert_eq!(read_varint(&bytes, 0), Ok((n, bytes.len())));
        let mut padded = vec![0xAA, 0xBB];
        padded.extend_from_slice(&bytes);
        padded.push(0xCC);
        assert_eq!(read_varint(&padded, 2), Ok((n, 2 + bytes.len())));
    }
}

#[test]
fn varint_longer_than_needed_is_read() {
    assert_eq!(read_varint(&[0x40, 0x01], 0), Ok((1, 2)));
    assert_eq!(read_varint(&[0x80, 0x00, 0x00, 0x05], 0), Ok((5, 4)));
}

#[test]
fn varint_cut_short_is_unexpected_end() {
    assert_eq!(read_varint(&[], 0), Err(DecodeError::UnexpectedEnd));
    assert_eq!(read_varint(&[0x40], 0), Err(DecodeError::UnexpectedEnd));
    assert_eq!(
        read_varint(&[0x80, 0x00, 0x00], 0),
        Err(DecodeError::UnexpectedEnd)
    );
    assert_eq!(
        read_varint(&[0xC0, 0, 0, 0, 0, 0, 0], 0),
        Err(DecodeError::UnexpectedEnd)
    );
    assert_eq!(read_varint(&[0x01], 1), Err(DecodeError::UnexpectedEnd));
}

#[test]
fn integer_too_large_has_no_wire_form() {
    let mut out = vec![7u8];
    assert_eq!(
        (VARINT_MAX + 1).write(&mut out),
        Err(EncodeError::BoundsExceeded)
    );
    assert_eq!(out, vec![7]);
    assert_eq!(u64::MAX.write(&mut out), Err(EncodeError::BoundsExceeded));
    assert_eq!(
        VarInt::from_u64(VARINT_MAX + 1).unwrap_err(),
        EncodeError::BoundsExceeded
    );
    assert_eq!(VarInt::from_u64(5).unwrap().into_inner(), 5);
}

#[test]
fn varint_type_round_trip() {
    let v = VarInt::from_u64(300).unwrap();
    let mut out = Vec::new();
    v.write(&mut out).unwrap();
    assert_eq!(out, vec![0x41, 0x2c]);
    let (back, next) = VarInt::read(&out, 0).unwrap();
    assert_eq!(back, v);
    assert_eq!(next, 2);
}

#[test]
fn byte_and_usize_round_trip() {
    let mut out = Vec::new();
    200u8.write(&mut out).unwrap();
    70usize.write(&mut out).unwrap();
    assert_eq!(out, vec![200, 0x40, 70]);
    assert_eq!(u8::read(&out, 0), Ok((200, 1)));
    assert_eq!(usize::read(&out, 1), Ok((70, 3)));
    assert_eq!(u8::read(&out, 3), Err(DecodeError::UnexpectedEnd));
}

#[test]
fn buffer_is_consumed_on_success_and_kept_on_failure() {
    let mut buf = BytesMut::new();
    300u64.encode(&mut buf).unwrap();
    5u64.encode(&mut buf).unwrap();
    assert_eq!(buf.to_vec(), vec![0x41, 0x2c, 0x05]);
    assert_eq!(u64::decode(&mut buf), Ok(300));
    assert_eq!(buf.to_vec(), vec![0x05]);
    assert_eq!(u64::decode(&mut buf), Ok(5));
    assert_eq!(buf.len(), 0);
    assert_eq!(u64::decode(&mut buf), Err(DecodeError::UnexpectedEnd));

    let mut cut = BytesMut::from(&[0x41u8][..]);
    assert_eq!(u64::decode(&mut cut), Err(DecodeError::UnexpectedEnd));
    assert_eq!(cut.to_vec(), vec![0x41]);

    let mut full = BytesMut::from(&[9u8][..]);
    assert_eq!(u64::MAX.encode(&mut full), Err(EncodeError::BoundsExceeded));
    assert_eq!(full.to_vec(), vec![9]);
}

#[test]
fn bytes_round_trip() {
    let mut out = Vec::new();
    write_bytes(b"hello", &mut out).unwrap();
    assert_eq!(out, vec![5, b'h', b'e', b'l', b'l', b'o']);
    assert_eq!(read_bytes(&out, 0), Ok((b"hello".to_vec(), 6)));
    assert_eq!(read_bytes(&out[..4], 0), Err(DecodeError::UnexpectedEnd));
    let mut empty = Vec::new();
    write_bytes(b"", &mut empty).unwrap();
    assert_eq!(empty, vec![0]);
    assert_eq!(read_bytes(&empty, 0), Ok((vec![], 1)));
}

#[test]
fn byte_vector_round_trip() {
    let payload = vec![1u8, 2, 3];
    let mut out = Vec::new();
    payload.write(&mut out).unwrap();
    assert_eq!(out, vec![3, 1, 2, 3]);
    assert_eq!(Vec::<u8>::read(&out, 0), Ok((payload, 4)));
}

#[test]
fn string_round_trip() {
    let s = String::from("catalog");
    let mut out = Vec::new();
    s.write(&mut out).unwrap();
    assert_eq!(out, vec![7, b'c', b'a', b't', b'a', b'l', b'o', b'g']);
    assert_eq!(String::read(&out, 0), Ok((s, 8)));

    let accented = String::from("é€");
    let mut out = Vec::new();
    accented.write(&mut out).unwrap();
    assert_eq!(out, vec![5, 0xC3, 0xA9, 0xE2, 0x82, 0xAC]);
    assert_eq!(String::read(&out, 0), Ok((accented, 6)));
}

#[test]
fn string_that_is_not_utf8_is_invalid() {
    assert_eq!(
        String::read(&[2, 0xff, 0xfe], 0),
        Err(DecodeError::InvalidValue)
    );
    assert_eq!(String::read(&[1, 0xC3], 0), Err(DecodeError::InvalidValue));
    assert_eq!(String::read(&[3, b'a'], 0), Err(DecodeError::UnexpectedEnd));
}

#[test]
fn tuple_round_trip() {
    let mut tuple = Tuple::new();
    tuple.add(TupleField::from_utf8("bbb"));
    tuple.add(TupleField { value: vec![0, 255] });
    tuple.add(TupleField::new());
    let mut out = Vec::new();
    tuple.write(&mut out).unwrap();
    assert_eq!(out, vec![3, 3, b'b', b'b', b'b', 2, 0, 255, 0]);
    let (back, next) = Tuple::read(&out, 0).unwrap();
    assert_eq!(back, tuple);
    assert_eq!(next, out.len());
    assert!(back.same(&tuple));
    assert!(!back.same(&Tuple::new()));
    assert_eq!(tuple.clone(), tuple);
}

#[test]
fn tuple_cut_short_is_unexpected_end() {
    assert_eq!(Tuple::read(&[2, 1, b'a'], 0), Err(DecodeError::UnexpectedEnd));
    assert_eq!(Tuple::read(&[1, 5, b'a'], 0), Err(DecodeError::UnexpectedEnd));
    assert_eq!(Tuple::read(&[], 0), Err(DecodeError::UnexpectedEnd));
    assert_eq!(Tuple::read(&[0], 0), Ok((Tuple::new(), 1)));
}

#[test]
fn tuple_fields_compare_by_bytes() {
    let a = TupleField::from_utf8("video");
    let b = TupleField { value: b"video".to_vec() };
    let c = TupleField::from_utf8("audio");
    assert!(a.same(&b));
    assert!(!a.same(&c));
    assert!(!a.same(&TupleField::from_utf8("vide")));
    assert_eq!(a.clone(), b);
}

fn decode_params(bytes: &[u8]) -> Result<Params, DecodeError> {
    Params::read(bytes, 0).map(|(params, _)| params)
}

#[test]
fn params_duplicate_kind_is_refused() {
    // two entries of kind 4, each a one-byte integer
    assert_eq!(
        decode_params(&[2, 4, 1, 4, 2]).unwrap_err(),
        DecodeError::DuplicateParameter
    );
    // two entries of odd kind 5
    assert_eq!(
        decode_params(&[2, 5, 1, 0xAA, 5, 1, 0xBB]).unwrap_err(),
        DecodeError::DuplicateParameter
    );
}

#[test]
fn params_duplicate_authorization_token_is_accepted() {
    let params = decode_params(&[2, 3, 1, 0xAA, 3, 2, 0xBB, 0xCC]).unwrap();
    assert_eq!(params.0.len(), 1);
    // the later entry replaces the earlier one
    assert_eq!(params.0.get(&3), Some(&vec![0xBB, 0xCC]));
}

#[test]
fn params_value_longer_than_the_limit_is_refused() {
    // kind 5 with a length of 8193
    let mut bytes = vec![1, 5];
    write_varint(8193, &mut bytes);
    bytes.extend(std::iter::repeat(0u8).take(8193));
    assert_eq!(
        decode_params(&bytes).unwrap_err(),
        DecodeError::InvalidParameter
    );
    // refused for its length whether or not the bytes have arrived
    let mut short = vec![1, 5];
    write_varint(8193, &mut short);
    assert_eq!(
        decode_params(&short).unwrap_err(),
        DecodeError::InvalidParameter
    );
    // the limit itself is accepted
    let mut bytes = vec![1, 5];
    write_varint(MAX_PARAM_SIZE as u64, &mut bytes);
    bytes.extend(std::iter::repeat(7u8).take(MAX_PARAM_SIZE));
    let params = decode_params(&bytes).unwrap();
    assert_eq!(params.0.get(&5).unwrap().len(), 8192);
}

#[test]
fn params_even_kind_is_stored_in_shortest_form() {
    // kind 2 with the integer 5 written in two bytes
    let params = decode_params(&[1, 2, 0x40, 0x05]).unwrap();
    assert_eq!(params.0.get(&2), Some(&vec![0x05]));
}

#[test]
fn params_even_kind_must_hold_an_integer() {
    let mut params = Params::new();
    params.0.insert(2, vec![]);
    let mut out = vec![1u8];
    assert_eq!(params.write(&mut out), Err(EncodeError::InvalidValue));
    assert_eq!(out, vec![1]);
    let mut params = Params::new();
    params.0.insert(4, vec![0x40]);
    assert_eq!(params.write(&mut out), Err(EncodeError::InvalidValue));
    assert_eq!(out, vec![1]);
    let mut buf = BytesMut::new();
    assert_eq!(params.encode(&mut buf), Err(EncodeError::InvalidValue));
    assert_eq!(buf.len(), 0);
}

#[test]
fn params_cut_short_is_unexpected_end() {
    assert_eq!(decode_params(&[]).unwrap_err(), DecodeError::UnexpectedEnd);
    assert_eq!(decode_params(&[1]).unwrap_err(), DecodeError::UnexpectedEnd);
    assert_eq!(decode_params(&[1, 2]).unwrap_err(), DecodeError::UnexpectedEnd);
    assert_eq!(
        decode_params(&[1, 5, 3, 1]).unwrap_err(),
        DecodeError::UnexpectedEnd
    );
}

#[test]
fn params_round_trip_in_any_order() {
    let mut params = Params::new();
    params.set(2, 7u64).unwrap();
    params.set(5, vec![1u8, 2, 3]).unwrap();
    params.set(1, String::from("path")).unwrap();
    params.set(0x10, VarInt::from_u64(70000).unwrap()).unwrap();
    let mut out = Vec::new();
    params.write(&mut out).unwrap();
    assert_eq!(out[0], 4);
    let (back, next) = Params::read(&out, 0).unwrap();
    assert_eq!(next, out.len());
    assert_eq!(back.0, params.0);

    let empty = Params::new();
    let mut out = Vec::new();
    empty.write(&mut out).unwrap();
    assert_eq!(out, vec![0]);
    assert_eq!(decode_params(&out).unwrap().0, HashMap::new());
}

#[test]
fn params_set_has_get() {
    let mut params = Params::new();
    assert!(!params.has(2));
    params.set(2, 300u64).unwrap();
    assert!(params.has(2));
    assert_eq!(params.0.get(&2), Some(&vec![0x41, 0x2c]));
    // a value without a wire form leaves the map as it was
    assert_eq!(params.set(4, u64::MAX), Err(EncodeError::BoundsExceeded));
    assert!(!params.has(4));
    // a later value replaces the earlier one
    params.set(2, 1u64).unwrap();
    assert_eq!(params.0.get(&2), Some(&vec![0x01]));

    assert_eq!(params.get::<u64>(2), Ok(Some(1)));
    assert!(!params.has(2));
    assert_eq!(params.get::<u64>(2), Ok(None));

    params.set(7, String::from("abc")).unwrap();
    assert_eq!(params.get::<String>(7), Ok(Some(String::from("abc"))));

    // the entry leaves the map even if its bytes cannot be read
    params.0.insert(9, vec![0x41]);
    assert_eq!(params.get::<u64>(9), Err(DecodeError::UnexpectedEnd));
    assert!(!params.has(9));
}

#[test]
fn params_clone_holds_the_same_entries() {
    let mut params = Params::new();
    params.set(2, 1u64).unwrap();
    params.set(3, vec![1u8]).unwrap();
    assert_eq!(params.clone(), params);
    assert_eq!(params.clone().0.len(), 2);
}

#[test]
fn single_entries_read_and_write() {
    let mut out = Vec::new();
    write_param(6, &[0x05], &mut out).unwrap();
    write_param(7, &[0xAA, 0xBB], &mut out).unwrap();
    assert_eq!(out, vec![6, 5, 7, 2, 0xAA, 0xBB]);
    assert_eq!(
        write_param(VARINT_MAX + 1, &[0], &mut out),
        Err(EncodeError::BoundsExceeded)
    );
    let mut seen = HashMap::new();
    assert_eq!(read_param(&out, 0, &seen), Ok((6, vec![5], 2)));
    seen.insert(6u64, vec![5u8]);
    assert_eq!(read_param(&out, 2, &seen), Ok((7, vec![0xAA, 0xBB], 6)));
    assert_eq!(
        read_param(&out, 0, &seen),
        Err(DecodeError::DuplicateParameter)
    );
}

#[test]
fn path_is_parted_at_its_slashes() {
    let fields = |path: &str| -> Vec<Vec<u8>> {
        Tuple::from_utf8_path(path)
            .fields
            .into_iter()
            .map(|f| f.value)
            .collect()
    };
    assert_eq!(fields("bbb"), vec![b"bbb".to_vec()]);
    assert_eq!(fields("a/bc/d"), vec![b"a".to_vec(), b"bc".to_vec(), b"d".to_vec()]);
    assert_eq!(fields(""), vec![Vec::<u8>::new()]);
    assert_eq!(fields("/a/"), vec![vec![], b"a".to_vec(), vec![]]);
}
