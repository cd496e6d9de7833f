use yulong_bdn::identity::Peer;
use yulong_bdn::mlbt::{BalanceSubTerm, JoinSubTerm, MlbtRelayCtlContext, MlbtTerm};
use yulong_bdn::mlbt_message::{
    RelayCtlMessage, RelayMsgGrant, RelayMsgGrantInfo, RelayMsgKind, RelayMsgRetract,
};
use yulong_bdn::route::RouteTable;

#[test]
fn grant_probe_proposes_a_hand_over() {
    let src = Peer::try_from_id(&[9_u8; 32]).unwrap();
    let me = Peer::try_from_id(&[5_u8; 32]).unwrap();
    let c1 = Peer::try_from_id(&[1_u8; 32]).unwrap();
    let c2 = Peer::try_from_id(&[2_u8; 32]).unwrap();

    let mut route = RouteTable::new(&me);
    route.insert_relay(&src, &c1);
    route.insert_relay(&src, &c2);

    let mut ctx = MlbtRelayCtlContext::new(&route);
    ctx.set_term(&src, MlbtTerm::Estb(JoinSubTerm::Idle, BalanceSubTerm::Idle));
    ctx.stat_mut().insert_default(&src);
    ctx.stat_mut().set_src_inv(&src, 100).unwrap();
    // Reaching c2 through us takes long, and c1 is cheap to reach directly:
    // handing c1 over to c2 is worthwhile when 100 + 80 > 50.
    ctx.stat_mut().set_src_inv_desc(&src, &c2, 80).unwrap();
    ctx.stat_mut().set_delay_ts(&c1, 50).unwrap();

    // The first balance round is a grant probe.
    let (to, m) = ctx.try_balance(&src, &route).unwrap();
    assert!(matches!(m.msg_type(), RelayMsgKind::GRANT));
    assert_eq!(to.get_id(), c2.get_id());
    let grant = RelayMsgGrant::from_bytes(&m.payload()).unwrap();
    assert_eq!(grant.target_id().get_id(), c1.get_id());
    assert_eq!(grant.src_inv(), 100);
    assert_eq!(grant.src_id().get_id(), src.get_id());
    assert_eq!(
        ctx.term(&src).unwrap(),
        MlbtTerm::Estb(JoinSubTerm::Idle, BalanceSubTerm::Grant)
    );
}

#[test]
fn grant_probe_stays_put_without_cause() {
    let src = Peer::try_from_id(&[9_u8; 32]).unwrap();
    let me = Peer::try_from_id(&[5_u8; 32]).unwrap();
    let c1 = Peer::try_from_id(&[1_u8; 32]).unwrap();
    let c2 = Peer::try_from_id(&[2_u8; 32]).unwrap();

    let mut route = RouteTable::new(&me);
    route.insert_relay(&src, &c1);
    route.insert_relay(&src, &c2);

    let mut ctx = MlbtRelayCtlContext::new(&route);
    ctx.set_term(&src, MlbtTerm::Estb(JoinSubTerm::Idle, BalanceSubTerm::Idle));
    ctx.stat_mut().insert_default(&src);
    ctx.stat_mut().set_src_inv(&src, 10).unwrap();
    ctx.stat_mut().set_src_inv_desc(&src, &c2, 20).unwrap();
    // Both children are cheap to reach: 10 + 20 is not over 100.
    ctx.stat_mut().set_delay_ts(&c1, 100).unwrap();
    ctx.stat_mut().set_delay_ts(&c2, 100).unwrap();

    assert!(ctx.try_grant(&src, &route).is_none());
    assert_eq!(
        ctx.term(&src).unwrap(),
        MlbtTerm::Estb(JoinSubTerm::Idle, BalanceSubTerm::Idle)
    );
}

#[test]
fn grant_offer_is_taken_when_profitable() {
    let src = Peer::try_from_id(&[9_u8; 32]).unwrap();
    let me = Peer::try_from_id(&[5_u8; 32]).unwrap();
    let sender = Peer::try_from_id(&[6_u8; 32]).unwrap();
    let target = Peer::try_from_id(&[1_u8; 32]).unwrap();

    let mut route = RouteTable::new(&me);
    let mut ctx = MlbtRelayCtlContext::new(&route);
    ctx.set_term(&src, MlbtTerm::Estb(JoinSubTerm::Idle, BalanceSubTerm::Idle));
    ctx.stat_mut().insert_default(&src);
    // Our interval exceeds the offered one by more than the delay to the
    // child: 100 - 10 > 50.
    ctx.stat_mut().set_src_inv(&src, 100).unwrap();
    ctx.stat_mut().set_delay_ts(&target, 50).unwrap();

    let offer_payload = RelayMsgGrant::new(target.clone(), 10, src.clone())
        .into_bytes()
        .unwrap();
    let offer = RelayCtlMessage::new(RelayMsgKind::GRANT, 300, offer_payload);

    let replies = ctx.grant_cb(&mut route, &sender, &offer);
    assert_eq!(replies.len(), 2);
    assert!(matches!(replies[0].1.msg_type(), RelayMsgKind::ACCEPT));
    assert_eq!(replies[0].0.get_id(), sender.get_id());
    assert!(matches!(replies[1].1.msg_type(), RelayMsgKind::GRANT_INFO));
    assert_eq!(replies[1].0.get_id(), target.get_id());
    assert_eq!(
        ctx.term(&src).unwrap(),
        MlbtTerm::Estb(JoinSubTerm::Request, BalanceSubTerm::GrantCheck)
    );

    // The handed-over child agrees to re-join toward us.
    let child_route = RouteTable::new(&target);
    let mut child_ctx = MlbtRelayCtlContext::new(&child_route);
    child_ctx.set_term(&src, MlbtTerm::Estb(JoinSubTerm::Idle, BalanceSubTerm::Idle));
    let info_payload = RelayMsgGrantInfo::new(src.clone()).into_bytes().unwrap();
    let info = RelayCtlMessage::new(RelayMsgKind::GRANT_INFO, 301, info_payload);
    let (_, answer) = child_ctx.grant_info_cb(&sender, &info).unwrap();
    assert!(matches!(answer.msg_type(), RelayMsgKind::ACCEPT));
    assert_eq!(
        child_ctx.term(&src).unwrap(),
        MlbtTerm::Estb(JoinSubTerm::Request, BalanceSubTerm::GrantPre)
    );
}

#[test]
fn busy_tree_refuses_balancing_offers() {
    let src = Peer::try_from_id(&[9_u8; 32]).unwrap();
    let me = Peer::try_from_id(&[5_u8; 32]).unwrap();
    let sender = Peer::try_from_id(&[6_u8; 32]).unwrap();
    let target = Peer::try_from_id(&[1_u8; 32]).unwrap();

    let mut route = RouteTable::new(&me);
    let mut ctx = MlbtRelayCtlContext::new(&route);
    ctx.set_term(&src, MlbtTerm::Estb(JoinSubTerm::Idle, BalanceSubTerm::Retract));

    let offer_payload = RelayMsgGrant::new(target, 10, src.clone()).into_bytes().unwrap();
    let offer = RelayCtlMessage::new(RelayMsgKind::GRANT, 300, offer_payload);
    let replies = ctx.grant_cb(&mut route, &sender, &offer);
    assert_eq!(replies.len(), 1);
    assert!(matches!(replies[0].1.msg_type(), RelayMsgKind::REJECT));
}

#[test]
fn retract_probe_asks_the_overloaded_child() {
    let src = Peer::try_from_id(&[9_u8; 32]).unwrap();
    let me = Peer::try_from_id(&[5_u8; 32]).unwrap();
    let c1 = Peer::try_from_id(&[1_u8; 32]).unwrap();
    let c2 = Peer::try_from_id(&[2_u8; 32]).unwrap();

    let mut route = RouteTable::new(&me);
    route.insert_relay(&src, &c1);
    route.insert_relay(&src, &c2);

    let mut ctx = MlbtRelayCtlContext::new(&route);
    ctx.set_term(&src, MlbtTerm::Estb(JoinSubTerm::Idle, BalanceSubTerm::Idle));
    ctx.stat_mut().insert_default(&src);
    ctx.stat_mut().set_src_inv(&src, 10).unwrap();
    // c2's observed interval is 200 - 10 = 190 over ours, more than the
    // lightest delay of 20: ask c2 to give up a child.
    ctx.stat_mut().set_src_inv_desc(&src, &c2, 200).unwrap();
    ctx.stat_mut().set_delay_ts(&c1, 20).unwrap();
    ctx.stat_mut().set_delay_ts(&c2, 90).unwrap();

    let (to, m) = ctx.try_retract(&src, &route).unwrap();
    assert!(matches!(m.msg_type(), RelayMsgKind::RETRACT));
    assert_eq!(to.get_id(), c2.get_id());
    let retract = RelayMsgRetract::from_bytes(&m.payload()).unwrap();
    assert_eq!(retract.src_id().get_id(), src.get_id());
    assert_eq!(retract.src_inv(), 10);
    assert_eq!(
        ctx.term(&src).unwrap(),
        MlbtTerm::Estb(JoinSubTerm::Idle, BalanceSubTerm::Retract)
    );
}
