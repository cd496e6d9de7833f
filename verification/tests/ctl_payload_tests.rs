use yulong_bdn::identity::Peer;
use yulong_bdn::mlbt_message::{
    RelayCtlMessage, RelayMsgAccept, RelayMsgGrant, RelayMsgGrantInfo, RelayMsgJoin, RelayMsgKind,
    RelayMsgMerge, RelayMsgMergeCheck, RelayMsgReject, RelayMsgRetract, RelayMsgRetractInfo,
    RelayMsgRetractReply,
};

#[test]
fn accept_and_reject_carry_the_answered_id() {
    let original = RelayCtlMessage::new(RelayMsgKind::JOIN, 4242, vec![0; 32]);

    let accept = original.accept(900);
    assert!(matches!(accept.msg_type(), RelayMsgKind::ACCEPT));
    assert_eq!(accept.msg_id(), 900);
    let ack = RelayMsgAccept::from_bytes(&accept.payload()).unwrap();
    assert_eq!(ack.ack(), 4242);

    let reject = original.reject(901);
    assert!(matches!(reject.msg_type(), RelayMsgKind::REJECT));
    let nack = RelayMsgReject::from_bytes(&reject.payload()).unwrap();
    assert_eq!(nack.ack(), 4242);

    assert!(RelayMsgAccept::from_bytes(&[1, 2, 3]).is_err());
    assert!(RelayMsgReject::from_bytes(&[1; 9]).is_err());
}

#[test]
fn join_and_leave_carry_one_source_id() {
    let src = Peer::try_from_id(&[3_u8; 32]).unwrap();
    let bytes = RelayMsgJoin::new(src.clone()).into_bytes().unwrap();
    assert_eq!(bytes, src.get_id());
    let back = RelayMsgJoin::from_bytes(&bytes).unwrap();
    assert_eq!(back.src().get_id(), src.get_id());
    assert!(RelayMsgJoin::from_bytes(&bytes[..31]).is_err());
}

#[test]
fn merge_round_trip() {
    let src = Peer::try_from_id(&[7_u8; 32]).unwrap();
    let m = RelayMsgMerge::new(12345, 500, src.clone());
    let bytes = m.into_bytes().unwrap();
    assert_eq!(bytes.len(), 48);

    let back = RelayMsgMerge::from_bytes(&bytes).unwrap();
    assert_eq!(back.weight(), 12345);
    assert_eq!(back.merge_thrd(), 500);
    assert_eq!(back.src().get_id(), src.get_id());

    assert!(RelayMsgMerge::from_bytes(&bytes[..47]).is_err());

    let ck = RelayMsgMergeCheck::new(777);
    let ck_bytes = ck.into_bytes().unwrap();
    assert_eq!(RelayMsgMergeCheck::from_bytes(&ck_bytes).unwrap().weight(), 777);
}

#[test]
fn grant_round_trip() {
    let src = Peer::try_from_id(&[7_u8; 32]).unwrap();
    let target = Peer::try_from_id(&[8_u8; 32]).unwrap();
    let g = RelayMsgGrant::new(target.clone(), 99, src.clone());
    let bytes = g.into_bytes().unwrap();
    assert_eq!(bytes.len(), 72);

    let back = RelayMsgGrant::from_bytes(&bytes).unwrap();
    assert_eq!(back.target_id().get_id(), target.get_id());
    assert_eq!(back.src_inv(), 99);
    assert_eq!(back.src_id().get_id(), src.get_id());

    let info = RelayMsgGrantInfo::new(src.clone());
    let info_bytes = info.into_bytes().unwrap();
    assert_eq!(
        RelayMsgGrantInfo::from_bytes(&info_bytes).unwrap().src_id().get_id(),
        src.get_id()
    );
}

#[test]
fn retract_round_trips() {
    let src = Peer::try_from_id(&[7_u8; 32]).unwrap();
    let target = Peer::try_from_id(&[8_u8; 32]).unwrap();

    let r = RelayMsgRetract::new(src.clone(), 55);
    let bytes = r.into_bytes().unwrap();
    let back = RelayMsgRetract::from_bytes(&bytes).unwrap();
    assert_eq!(back.src_id().get_id(), src.get_id());
    assert_eq!(back.src_inv(), 55);

    let reply = RelayMsgRetractReply::new(src.clone(), target.clone(), 66);
    let bytes = reply.into_bytes().unwrap();
    let back = RelayMsgRetractReply::from_bytes(&bytes).unwrap();
    assert_eq!(back.src_id().get_id(), src.get_id());
    assert_eq!(back.target_id().get_id(), target.get_id());
    assert_eq!(back.src_inv(), 66);

    let info = RelayMsgRetractInfo::new(src.clone(), 77);
    let bytes = info.into_bytes().unwrap();
    let back = RelayMsgRetractInfo::from_bytes(&bytes).unwrap();
    assert_eq!(back.src_id().get_id(), src.get_id());
    assert_eq!(back.src_inv(), 77);

    assert!(RelayMsgRetract::from_bytes(&[0; 39]).is_err());
}
