use phantun::admission::{
    after_legacy_response, after_response, decide_admission, Admission,
};
use phantun::dial::{handshake_to_send, new_stream_id};
use phantun::protocol::{
    build_multistream_handshake, parse_multistream_handshake, unknown_version,
    MULTISTREAM_HEADER_LEN, MULTISTREAM_MAGIC, MULTISTREAM_VERSION,
};
use phantun::stream_id::StreamId;

const ID_BYTES: [u8; 16] = [
    0xa1, 0xa2, 0xa3, 0xa4, 0xb1, 0xb2, 0xc1, 0xc2, 0xd1, 0xd2, 0xd3, 0xd4, 0xd5, 0xd6, 0xd7, 0xd8,
];

const ID_VALUE: u128 = 0xa1a2a3a4b1b2c1c2d1d2d3d4d5d6d7d8;

fn header(index: u8, total: u8) -> Vec<u8> {
    let mut packet = vec![b'P', b'M', b'T', b'S', 1];
    packet.extend_from_slice(&ID_BYTES);
    packet.push(index);
    packet.push(total);
    packet
}

#[test]
fn constants_are_those_of_the_protocol() {
    assert_eq!(&MULTISTREAM_MAGIC, b"PMTS");
    assert_eq!(MULTISTREAM_VERSION, 1);
    assert_eq!(MULTISTREAM_HEADER_LEN, 23);
}

#[test]
fn stream_id_reads_its_bytes_most_significant_first() {
    assert_eq!(StreamId::from_bytes(ID_BYTES), StreamId { value: ID_VALUE });
    assert_eq!(StreamId::from_bytes([0; 16]).value, 0);
    let mut one = [0u8; 16];
    one[15] = 1;
    assert_eq!(StreamId::from_bytes(one).value, 1);
}

#[test]
fn stream_id_gives_its_bytes_most_significant_first() {
    assert_eq!(StreamId { value: ID_VALUE }.as_bytes(), ID_BYTES);
    assert_eq!(StreamId { value: u128::MAX }.as_bytes(), [0xff; 16]);
    assert_eq!(StreamId { value: 256 }.as_bytes()[14..], [1, 0]);
}

#[test]
fn stream_id_agrees_with_the_uuid_crate() {
    let uuid = uuid::Uuid::from_bytes(ID_BYTES);
    assert_eq!(StreamId::from_bytes(ID_BYTES).value, uuid.as_u128());
    assert_eq!(
        uuid::Uuid::from_u128(ID_VALUE).to_string(),
        "a1a2a3a4-b1b2-c1c2-d1d2-d3d4d5d6d7d8"
    );
}

#[test]
fn new_stream_ids_are_random_uuids() {
    let first = StreamId::new_v4();
    let second = StreamId::new_v4();
    assert_ne!(first, second);
    for id in [first, second] {
        let bytes = id.as_bytes();
        assert_eq!(bytes[6] >> 4, 4);
        assert_eq!(bytes[8] >> 6, 2);
        assert_eq!(uuid::Uuid::from_u128(id.value).get_version_num(), 4);
    }
}

#[test]
fn only_several_streams_need_an_id() {
    assert!(new_stream_id(0).is_none());
    assert!(new_stream_id(1).is_none());
    assert!(new_stream_id(2).is_some());
    assert!(new_stream_id(1000).is_some());
}

#[test]
fn build_without_user_packet() {
    let packet = build_multistream_handshake(&StreamId { value: ID_VALUE }, 2, 4, None);
    assert_eq!(packet, header(2, 4));
    assert_eq!(packet.len(), MULTISTREAM_HEADER_LEN);
}

#[test]
fn build_with_user_packet() {
    let packet =
        build_multistream_handshake(&StreamId { value: ID_VALUE }, 0, 255, Some(&b"hello"[..]));
    let mut expected = header(0, 255);
    expected.extend_from_slice(b"hello");
    assert_eq!(packet, expected);
}

#[test]
fn parse_without_user_packet() {
    let info = parse_multistream_handshake(&header(3, 8)).unwrap();
    assert_eq!(info.stream_id, StreamId { value: ID_VALUE });
    assert_eq!(info.stream_index, 3);
    assert_eq!(info.total_streams, 8);
    assert_eq!(info.user_payload, None);
}

#[test]
fn parse_with_user_packet() {
    let mut packet = header(0, 0);
    packet.extend_from_slice(&[0, 255]);
    let info = parse_multistream_handshake(&packet).unwrap();
    assert_eq!(info.user_payload, Some(vec![0, 255]));
    assert_eq!(info.total_streams, 0);
}

#[test]
fn parse_refuses_what_is_no_handshake() {
    assert!(parse_multistream_handshake(&[]).is_none());
    assert!(parse_multistream_handshake(&header(0, 1)[..22]).is_none());
    for place in 0..4 {
        let mut packet = header(0, 1);
        packet[place] ^= 1;
        assert!(parse_multistream_handshake(&packet).is_none());
    }
    for version in [0u8, 2, 255] {
        let mut packet = header(0, 1);
        packet[4] = version;
        assert!(parse_multistream_handshake(&packet).is_none());
    }
}

#[test]
fn parse_gives_back_what_was_built() {
    let id = StreamId { value: 0x0123456789abcdef0011223344556677 };
    for user in [None, Some(&b""[..]), Some(&b"x"[..]), Some(&b"PMTS"[..])] {
        let info = parse_multistream_handshake(&build_multistream_handshake(&id, 7, 9, user)).unwrap();
        assert_eq!(info.stream_id, id);
        assert_eq!((info.stream_index, info.total_streams), (7, 9));
        assert_eq!(info.user_payload.as_deref(), user.filter(|u| !u.is_empty()));
    }
}

#[test]
fn build_gives_back_what_was_parsed() {
    let mut packet = header(11, 12);
    packet.extend_from_slice(b"rest");
    let info = parse_multistream_handshake(&packet).unwrap();
    let again = build_multistream_handshake(
        &info.stream_id,
        info.stream_index,
        info.total_streams,
        info.user_payload.as_deref(),
    );
    assert_eq!(again, packet);
}

#[test]
fn single_stream_sends_the_user_packet_alone() {
    assert_eq!(handshake_to_send(&None, 0, 1, Some(&b"hi"[..])), b"hi");
    assert!(handshake_to_send(&None, 0, 1, None).is_empty());
    assert!(handshake_to_send(&None, 0, 1, Some(&b""[..])).is_empty());
}

#[test]
fn several_streams_announce_themselves() {
    let id = Some(StreamId { value: ID_VALUE });
    assert_eq!(handshake_to_send(&id, 1, 3, None), header(1, 3));
    let mut expected = header(1, 3);
    expected.extend_from_slice(b"hi");
    assert_eq!(handshake_to_send(&id, 1, 3, Some(&b"hi"[..])), expected);
}

#[test]
fn announcement_keeps_the_low_eight_bits() {
    let id = Some(StreamId { value: ID_VALUE });
    assert_eq!(handshake_to_send(&id, 255, 256, None), header(255, 0));
    assert_eq!(handshake_to_send(&id, 257, 300, None), header(1, 44));
}

#[test]
fn connection_without_first_packet_is_closed() {
    assert!(matches!(decide_admission(None, None), Admission::Close));
    assert!(matches!(decide_admission(None, Some(&b"hi"[..])), Admission::Close));
    assert!(matches!(decide_admission(Some(vec![]), None), Admission::Close));
}

#[test]
fn announced_stream_joins_at_once_without_response() {
    match decide_admission(Some(header(1, 2)), None) {
        Admission::Join { info } => {
            assert_eq!(info.stream_id.value, ID_VALUE);
            assert_eq!((info.stream_index, info.total_streams), (1, 2));
        }
        other => panic!("{other:?}"),
    }
}

#[test]
fn announced_stream_is_answered_first() {
    for user in [&b""[..], &b"payload"[..]] {
        let mut packet = header(1, 2);
        packet.extend_from_slice(user);
        let info = match decide_admission(Some(packet), Some(&b"welcome"[..])) {
            Admission::Respond { packet, info } => {
                assert_eq!(packet, b"welcome");
                info
            }
            other => panic!("{other:?}"),
        };
        assert!(matches!(after_response(info.clone(), false), Admission::Close));
        match after_response(info, true) {
            Admission::Join { info } => assert_eq!(info.stream_index, 1),
            other => panic!("{other:?}"),
        }
    }
}

#[test]
fn other_first_packet_makes_a_single_stream_connection() {
    let mut old_version = header(1, 2);
    old_version[4] = 0;
    for packet in [b"anything".to_vec(), b"PMTS".to_vec(), old_version] {
        match decide_admission(Some(packet.clone()), None) {
            Admission::Legacy { first_packet } => assert_eq!(first_packet, packet),
            other => panic!("{other:?}"),
        }
    }
}

#[test]
fn single_stream_connection_is_answered_first() {
    match decide_admission(Some(b"anything".to_vec()), Some(&b"welcome"[..])) {
        Admission::RespondLegacy { packet, first_packet } => {
            assert_eq!(packet, b"welcome");
            assert_eq!(first_packet, b"anything");
            assert!(matches!(
                after_legacy_response(first_packet.clone(), false),
                Admission::Close
            ));
            match after_legacy_response(first_packet, true) {
                Admission::Legacy { first_packet } => assert_eq!(first_packet, b"anything"),
                other => panic!("{other:?}"),
            }
        }
        other => panic!("{other:?}"),
    }
}

#[test]
fn packet_of_another_version_is_told_apart() {
    let mut packet = header(1, 2);
    assert_eq!(unknown_version(&packet), None);
    packet[4] = 2;
    assert_eq!(unknown_version(&packet), Some(2));
    packet.extend_from_slice(b"user");
    assert_eq!(unknown_version(&packet), Some(2));
    packet[4] = 0;
    assert_eq!(unknown_version(&packet), Some(0));
    assert_eq!(unknown_version(&packet[..22]), None);
    packet[3] = 0;
    assert_eq!(unknown_version(&packet), None);
    assert_eq!(unknown_version(b""), None);
}
