use yulong_bdn::identity::{PEER_ID_SIZE, Peer};

#[test]
fn id_is_the_sm3_digest() {
    // The published SM3 test vector.
    let peer = Peer::from_bytes(b"abc");
    let expected: [u8; 32] = [
        0x66, 0xc7, 0xf0, 0xf4, 0x62, 0xee, 0xed, 0xd9, 0xd1, 0xf2, 0xd4, 0x6b, 0xdc, 0x10, 0xe4,
        0xe2, 0x41, 0x67, 0xc4, 0x87, 0x5c, 0xf2, 0xf7, 0xa2, 0x29, 0x7d, 0xa0, 0x2b, 0x8f, 0x4b,
        0xa8, 0xe0,
    ];
    assert_eq!(peer.get_id(), expected.to_vec());

    // The digest is not the input handed back.
    let one = Peer::from_bytes(&[1]);
    assert_eq!(one.get_id().len(), PEER_ID_SIZE);
    assert_ne!(one.get_id()[..1], [1]);
}

#[test]
fn public_key_binding() {
    let pk = [7_u8; 64];
    let peer = Peer::from_public_key(&pk);
    assert_eq!(peer.get_id(), Peer::from_bytes(&pk).get_id());
    assert_eq!(peer.get_pubkey().unwrap(), pk.to_vec());
    assert!(Peer::from_bytes(&pk).get_pubkey().is_none());
}

#[test]
fn try_from_id_takes_exactly_32_bytes() {
    let raw = [5_u8; 32];
    let peer = Peer::try_from_id(&raw).unwrap();
    assert_eq!(peer.get_id(), raw.to_vec());

    assert!(Peer::try_from_id(&[5_u8; 31]).is_err());
    assert!(Peer::try_from_id(&[5_u8; 33]).is_err());
    assert!(Peer::try_from_id(&[]).is_err());
}

#[test]
fn broadcast_id_is_not_common() {
    let b = Peer::broadcast_id();
    assert_eq!(b.get_id(), vec![0_u8; 32]);
    assert!(!b.common());

    let normal = Peer::try_from_id(&[1_u8; 32]).unwrap();
    assert!(normal.common());

    let almost = {
        let mut raw = [0_u8; 32];
        raw[31] = 1;
        Peer::try_from_id(&raw).unwrap()
    };
    assert!(almost.common());
}

#[test]
fn ids_order_lexicographically() {
    let low = Peer::try_from_id(&[1_u8; 32]).unwrap();
    let high = Peer::try_from_id(&[2_u8; 32]).unwrap();
    assert!(high.gt(&low));
    assert!(!low.gt(&high));
    assert!(!low.gt(&low));

    let mut raw = [1_u8; 32];
    raw[31] = 2;
    let barely = Peer::try_from_id(&raw).unwrap();
    assert!(barely.gt(&low));
    assert!(!low.gt(&barely));
}

#[test]
fn random_ids_are_whole_and_unbound() {
    let p = Peer::from_random();
    assert_eq!(p.get_id().len(), PEER_ID_SIZE);
    assert!(p.get_pubkey().is_none());
}

#[test]
fn equality_is_by_id_bytes() {
    let a = Peer::try_from_id(&[9_u8; 32]).unwrap();
    let b = Peer::try_from_id(&[9_u8; 32]).unwrap();
    let c = Peer::try_from_id(&[8_u8; 32]).unwrap();
    assert!(a == b);
    assert!(a != c);
}
