use bytes::BytesMut;
use moq_transport::coding::{Decode, DecodeError, Encode, Params};
use moq_transport::setup::{Client, Server, Version, Versions};

#[test]
fn client_encode_decode() {
    let mut buf = BytesMut::new();
    let client = Client {
        versions: [Version::draft_12()].into(),
        params: Params::default(),
    };

    client.encode(&mut buf).unwrap();
    assert_eq!(
        buf.to_vec(),
        vec![
            0x20, 0x0A, 0x01, 0xC0, 0x00, 0x00, 0x00, 0xFF, 0x00, 0x00, 0x0C, 0x00
        ]
    );

    let decoded = Client::decode(&mut buf).unwrap();
    assert_eq!(decoded.versions, client.versions);
}

#[test]
fn server_encode_decode() {
    let mut buf = BytesMut::new();
    let client = Server {
        version: Version::draft_12(),
        params: Params::default(),
    };

    client.encode(&mut buf).unwrap();
    assert_eq!(
        buf.to_vec(),
        vec![
            0x21, 0x09, 0xC0, 0x00, 0x00, 0x00, 0xFF, 0x00, 0x00, 0x0C, 0x00
        ]
    );

    let decoded = Server::decode(&mut buf).unwrap();
    assert_eq!(decoded.version, client.version);
}

#[test]
fn setup_handshake_decodes_on_both_sides() {
    let mut offer = BytesMut::from(
        &[
            0x20u8, 0x0A, 0x01, 0xC0, 0x00, 0x00, 0x00, 0xFF, 0x00, 0x00, 0x0C, 0x00,
        ][..],
    );
    let client = Client::decode(&mut offer).unwrap();
    assert_eq!(client.versions, Versions(vec![Version(0xff00000c)]));
    assert!(!client.params.has(1));
    assert_eq!(offer.len(), 0);

    let mut answer = BytesMut::from(
        &[
            0x21u8, 0x09, 0xC0, 0x00, 0x00, 0x00, 0xFF, 0x00, 0x00, 0x0C, 0x00,
        ][..],
    );
    let server = Server::decode(&mut answer).unwrap();
    assert_eq!(server.version, Version::draft_12());
    assert_eq!(answer.len(), 0);
}

#[test]
fn client_setup_of_another_type_is_refused() {
    let mut buf = BytesMut::from(&[0x21u8, 0x02, 0x00, 0x00][..]);
    assert_eq!(
        Client::decode(&mut buf).unwrap_err(),
        DecodeError::InvalidMessage(0x21)
    );
    // a refused frame stays in the buffer
    assert_eq!(buf.to_vec(), vec![0x21, 0x02, 0x00, 0x00]);
}

#[test]
fn server_setup_of_another_type_is_refused() {
    let mut buf = BytesMut::from(&[0x20u8, 0x02, 0x00, 0x00][..]);
    assert_eq!(
        Server::decode(&mut buf).unwrap_err(),
        DecodeError::InvalidMessage(0x20)
    );
}

#[test]
fn setup_with_path_parameter_is_refused() {
    // type, length, one version, one parameter of kind 1 with one byte
    let mut buf = BytesMut::from(&[0x20u8, 0x06, 0x01, 0x01, 0x01, 0x01, 0x01, 0x2f][..]);
    assert_eq!(
        Client::decode(&mut buf).unwrap_err(),
        DecodeError::InvalidParameter
    );
    let mut buf = BytesMut::from(&[0x21u8, 0x05, 0x01, 0x01, 0x01, 0x01, 0x2f][..]);
    assert_eq!(
        Server::decode(&mut buf).unwrap_err(),
        DecodeError::InvalidParameter
    );
}

#[test]
fn truncated_setup_waits_for_more() {
    let mut buf = BytesMut::from(&[0x20u8, 0x0A, 0x01, 0xC0, 0x00][..]);
    assert_eq!(
        Client::decode(&mut buf).unwrap_err(),
        DecodeError::UnexpectedEnd
    );
    assert_eq!(buf.len(), 5);
    buf.extend_from_slice(&[0x00, 0x00, 0xFF, 0x00, 0x00, 0x0C, 0x00]);
    let client = Client::decode(&mut buf).unwrap();
    assert_eq!(client.versions, Versions(vec![Version::draft_12()]));
}

#[test]
fn versions_from_an_array_keep_their_order() {
    let versions: Versions = [Version(1), Version(2), Version(3)].into();
    assert_eq!(versions, Versions(vec![Version(1), Version(2), Version(3)]));
    let mut out = Vec::new();
    versions.write(&mut out).unwrap();
    assert_eq!(out, vec![3, 1, 2, 3]);
    let (back, next) = Versions::read(&out, 0).unwrap();
    assert_eq!(back, versions);
    assert_eq!(next, 4);
}
