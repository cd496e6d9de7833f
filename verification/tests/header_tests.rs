use yulong_bdn::msg_header::{FanOut, MsgHeader, MsgType, MsgTypeKind, RelayFlag, RelayMethod, RelayMethodKind, TTL};

#[test]
fn header_bit_fidelity() {
    let h = MsgHeader::build(MsgTypeKind::PAYLOAD_MSG, true, RelayMethodKind::LOOKUP_TABLE_2, 200, 13)
        .unwrap();
    assert!(matches!(MsgType::get_msg_type(h).unwrap(), MsgTypeKind::PAYLOAD_MSG));
    assert_eq!(RelayFlag::get_relay_flag(h), true);
    assert!(matches!(RelayMethod::get_relay_method(h).unwrap(), RelayMethodKind::LOOKUP_TABLE_2));
    assert_eq!(FanOut::get_fan_out(h), 200);
    assert_eq!(TTL::get_ttl(h), 13);
}

#[test]
fn header_build_rejects_overflow() {
    assert!(MsgHeader::build(MsgTypeKind::ROUTE_MSG, false, RelayMethodKind::RANDOM, 256, 0).is_none());
    assert!(MsgHeader::build(MsgTypeKind::ROUTE_MSG, false, RelayMethodKind::RANDOM, 0, 16).is_none());
    assert!(MsgHeader::build(MsgTypeKind::ROUTE_MSG, false, RelayMethodKind::RANDOM, 255, 15).is_some());
}

#[test]
fn setters_touch_only_their_field() {
    let mut h = MsgHeader::build(MsgTypeKind::NET_MEASURE_MSG, false, RelayMethodKind::ALL, 9, 3)
        .unwrap();
    FanOut::set_fan_out(&mut h, 77).unwrap();
    assert!(matches!(MsgType::get_msg_type(h).unwrap(), MsgTypeKind::NET_MEASURE_MSG));
    assert_eq!(RelayFlag::get_relay_flag(h), false);
    assert!(matches!(RelayMethod::get_relay_method(h).unwrap(), RelayMethodKind::ALL));
    assert_eq!(FanOut::get_fan_out(h), 77);
    assert_eq!(TTL::get_ttl(h), 3);

    RelayFlag::set_relay_flag(&mut h, true);
    assert_eq!(RelayFlag::get_relay_flag(h), true);
    assert_eq!(FanOut::get_fan_out(h), 77);
}

#[test]
fn out_of_range_set_changes_nothing() {
    let mut h = MsgHeader::build(MsgTypeKind::PAYLOAD_MSG, false, RelayMethodKind::KAD, 10, 2)
        .unwrap();
    let before = h;
    assert!(FanOut::set_fan_out(&mut h, 300).is_none());
    assert_eq!(h, before);
    assert!(TTL::set_ttl(&mut h, 16).is_none());
    assert_eq!(h, before);
    assert_eq!(FanOut::get_fan_out(h), 10);
}

#[test]
fn set_header_field_masks_in_place() {
    let mut h: u32 = 0xFFFF_FFFF;
    MsgHeader::set_header_field(&mut h, 0, 0xF000_0000, 28);
    assert_eq!(h, 0x0FFF_FFFF);
    MsgHeader::set_header_field(&mut h, 0x5, 0xF000_0000, 28);
    assert_eq!(h, 0x5FFF_FFFF);
}
