use yulong_bdn::identity::Peer;
use yulong_bdn::message::{BODY_FIXED_LEN, MSG_PAYLOAD_MAXLEN, OverlayMessage};
use yulong_bdn::msg_header::{MsgHeader, MsgTypeKind, RelayMethodKind};

#[test]
fn message_serde() {
    let payload = [42_u8; 258];

    let peer1 = Peer::from_bytes(&[1]);
    let peer2 = Peer::from_bytes(&[1]);
    let peer3 = Peer::from_bytes(&[1]);

    let msg = OverlayMessage::new(1, &peer1, &peer2, &peer3, &payload);

    let raw = msg.into_bytes().unwrap();

    let rec_msg = OverlayMessage::from_bytes(&raw).unwrap();
    assert_eq!(msg.payload(), rec_msg.payload());
}

#[test]
fn msg_header1() {
    let payload = [42_u8; 10];
    let peer = Peer::from_bytes(&[1]);

    let mut msg = OverlayMessage::new(
        0b00100000000000000000000000000000,
        &peer,
        &peer,
        &peer,
        &payload,
    );

    msg.set_timestamp_now();

    msg.set_relay(false);
    msg.set_relay_method(RelayMethodKind::LOOKUP_TABLE_1);

    assert!(matches!(msg.get_type().unwrap(), MsgTypeKind::NET_MEASURE_MSG));
    assert!(matches!(msg.get_relay_method().unwrap(), RelayMethodKind::LOOKUP_TABLE_1));

    msg.set_type(MsgTypeKind::PAYLOAD_MSG);

    assert!(matches!(msg.get_type().unwrap(), MsgTypeKind::PAYLOAD_MSG));
    assert_eq!(msg.is_relay(), false);
    msg.set_relay_method(RelayMethodKind::KAD);
    msg.set_relay(true);

    assert_eq!(msg.is_relay(), true);
    assert!(matches!(msg.get_type().unwrap(), MsgTypeKind::PAYLOAD_MSG));
    assert!(matches!(msg.get_relay_method().unwrap(), RelayMethodKind::KAD));
}

#[test]
fn msg_header2() {
    let payload = [1_u8; 2];
    let peer = Peer::from_bytes(&[1]);

    let mut msg = OverlayMessage::new(
        0b00100000000000000000000000000000,
        &peer,
        &peer,
        &peer,
        &payload,
    );

    msg.set_timestamp_now();

    msg.set_fanout(10).unwrap();
    msg.set_ttl(15).unwrap();

    assert_eq!(msg.get_fanout(), 10);
    assert_eq!(msg.get_ttl(), 15);

    msg.set_relay(true);
    msg.set_ttl(10).unwrap();

    assert_eq!(msg.get_fanout(), 10);
    assert_eq!(msg.get_ttl(), 10);
}

#[test]
fn frame_round_trip_full_fields() {
    let header = MsgHeader::build(MsgTypeKind::PAYLOAD_MSG, true, RelayMethodKind::LOOKUP_TABLE_1, 1, 15)
        .unwrap();
    let src = Peer::from_bytes(&[1]);
    let from = Peer::from_bytes(&[2]);
    let dst = Peer::from_bytes(&[3]);
    let payload = [42_u8; 258];
    let msg = OverlayMessage::new(header, &src, &from, &dst, &payload);

    let raw = msg.into_bytes().unwrap();

    // The frame opens with the body length, big-endian: the fixed fields
    // plus the payload.
    let body_len = (BODY_FIXED_LEN + 258) as u16;
    assert_eq!(raw[0], (body_len >> 8) as u8);
    assert_eq!(raw[1], body_len as u8);
    assert_eq!(raw.len(), 2 + BODY_FIXED_LEN + 258);

    let rec = OverlayMessage::from_bytes(&raw).unwrap();
    assert_eq!(rec.header(), msg.header());
    assert_eq!(rec.timestamp(), msg.timestamp());
    assert_eq!(rec.src().get_id(), src.get_id());
    assert_eq!(rec.from().get_id(), from.get_id());
    assert_eq!(rec.dst().get_id(), dst.get_id());
    assert_eq!(rec.payload(), msg.payload());
}

#[test]
fn encode_rejects_overlong_payload() {
    let peer = Peer::from_bytes(&[7]);
    let payload = vec![0_u8; MSG_PAYLOAD_MAXLEN + 1];
    let msg = OverlayMessage::new(0, &peer, &peer, &peer, &payload);
    assert!(msg.into_bytes().is_err());

    let edge = vec![0_u8; MSG_PAYLOAD_MAXLEN];
    let msg = OverlayMessage::new(0, &peer, &peer, &peer, &edge);
    assert!(msg.into_bytes().is_ok());
}

#[test]
fn decode_rejects_bad_frames() {
    // Shorter than its own length prefix.
    assert!(OverlayMessage::from_bytes(&[0x01]).is_err());
    // Announces more body than the buffer holds.
    assert!(OverlayMessage::from_bytes(&[0x01, 0x00, 0xAA]).is_err());
    // A body shorter than the fixed fields.
    let mut tiny = vec![0x00_u8, 0x04];
    tiny.extend_from_slice(&[1, 2, 3, 4]);
    assert!(OverlayMessage::from_bytes(&tiny).is_err());
}

#[test]
fn ttl_overflow_keeps_earlier_fields() {
    let peer = Peer::from_bytes(&[1]);
    let mut msg = OverlayMessage::new(0, &peer, &peer, &peer, &[1]);
    assert!(msg.set_fanout(10).is_ok());
    assert!(msg.set_ttl(16).is_err());
    assert_eq!(msg.get_fanout(), 10);
    assert_eq!(msg.get_ttl(), 0);
}

#[test]
fn bad_type_field_is_reported() {
    let peer = Peer::from_bytes(&[1]);
    // Header with a zero message-type field, outside the enum range.
    let msg = OverlayMessage::new(0, &peer, &peer, &peer, &[1]);
    assert!(msg.get_type().is_err());
    assert!(msg.get_relay_method().is_err());
}
