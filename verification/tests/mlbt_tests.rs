use yulong_bdn::identity::Peer;
use yulong_bdn::mlbt::{BalanceSubTerm, JoinSubTerm, MergeSubTerm, MlbtRelayCtlContext, MlbtTerm};
use yulong_bdn::mlbt_message::{RelayCtlMessage, RelayMsgJoin, RelayMsgKind, RelayMsgLeave};
use yulong_bdn::route::{AppLayerRouteInner, AppLayerRouteUser, MAX_LINK, RouteTable};

#[test]
fn ctl_msg_serde() {
    let peer = Peer::from_random();

    let payload = RelayMsgJoin::new(peer).into_bytes().unwrap();

    let msg = RelayCtlMessage::new(RelayMsgKind::JOIN, 15514, payload.clone());

    let buf = msg.into_bytes().unwrap();

    let de_msg = RelayCtlMessage::from_bytes(&buf).unwrap();

    assert!(matches!(de_msg.msg_type(), RelayMsgKind::JOIN));
    assert_eq!(de_msg.msg_id(), 15514);
    assert_eq!(de_msg.payload(), payload);
}

#[test]
fn ctl_msg_rejects_bad_kind() {
    let msg = RelayCtlMessage::new(RelayMsgKind::LEAVE, 3, vec![1, 2, 3]);
    let mut buf = msg.into_bytes().unwrap();
    // Overwrite the kind field with a value outside the enum range.
    buf[3] = 99;
    assert!(RelayCtlMessage::from_bytes(&buf).is_err());
    // Truncated below the fixed fields.
    assert!(RelayCtlMessage::from_bytes(&buf[..11]).is_err());
}

#[test]
fn join_accepted_links_child_after_confirmation() {
    let src = Peer::try_from_id(&[9_u8; 32]).unwrap();
    let me = Peer::try_from_id(&[5_u8; 32]).unwrap();
    let joiner = Peer::try_from_id(&[1_u8; 32]).unwrap();

    let mut route = RouteTable::new(&me);
    let mut ctx = MlbtRelayCtlContext::new(&route);
    ctx.set_term(&src, MlbtTerm::Estb(JoinSubTerm::Idle, BalanceSubTerm::Idle));

    let join_payload = RelayMsgJoin::new(src.clone()).into_bytes().unwrap();
    let join = RelayCtlMessage::new(RelayMsgKind::JOIN, 100, join_payload);

    let (to, reply) = ctx.join_cb(&mut route, &joiner, &join).unwrap();
    assert_eq!(to.get_id(), joiner.get_id());
    assert!(matches!(reply.msg_type(), RelayMsgKind::ACCEPT));

    // The child is linked only once the confirmation lands.
    assert!(route.get_relay(&src).is_empty());
    ctx.join_pre_cb(&mut route, &src, &joiner, true);
    assert_eq!(route.get_relay(&src), vec![joiner]);
}

#[test]
fn join_rejected_at_link_budget() {
    let src = Peer::try_from_id(&[9_u8; 32]).unwrap();
    let me = Peer::try_from_id(&[5_u8; 32]).unwrap();
    let joiner = Peer::try_from_id(&[1_u8; 32]).unwrap();

    let mut route = RouteTable::new(&me);
    for i in 0..MAX_LINK {
        let child = Peer::from_bytes(&[3, (i / 256) as u8, (i % 256) as u8]);
        route.insert_relay(&src, &child);
    }
    assert_eq!(route.get_relay_count(), MAX_LINK);

    let mut ctx = MlbtRelayCtlContext::new(&route);
    ctx.set_term(&src, MlbtTerm::Estb(JoinSubTerm::Idle, BalanceSubTerm::Idle));

    let join_payload = RelayMsgJoin::new(src.clone()).into_bytes().unwrap();
    let join = RelayCtlMessage::new(RelayMsgKind::JOIN, 100, join_payload);

    let (_, reply) = ctx.join_cb(&mut route, &joiner, &join).unwrap();
    assert!(matches!(reply.msg_type(), RelayMsgKind::REJECT));
    assert_eq!(route.get_relay_count(), MAX_LINK);
}

#[test]
fn simultaneous_joins_break_the_tie_by_id() {
    let src = Peer::try_from_id(&[9_u8; 32]).unwrap();
    let p = Peer::try_from_id(&[2_u8; 32]).unwrap();
    let q = Peer::try_from_id(&[1_u8; 32]).unwrap();

    let mut route_p = RouteTable::new(&p);
    let mut route_q = RouteTable::new(&q);
    let mut ctx_p = MlbtRelayCtlContext::new(&route_p);
    let mut ctx_q = MlbtRelayCtlContext::new(&route_q);
    ctx_p.set_term(&src, MlbtTerm::Estb(JoinSubTerm::Idle, BalanceSubTerm::Idle));
    ctx_q.set_term(&src, MlbtTerm::Estb(JoinSubTerm::Idle, BalanceSubTerm::Idle));

    // Both nodes ask to join each other for the same source at once.
    let (_, join_from_p) = ctx_p.join(&q, &src).unwrap();
    let (_, join_from_q) = ctx_q.join(&p, &src).unwrap();

    // p, the larger id, accepts q's request; q refuses p's.
    let (_, reply_p) = ctx_p.join_cb(&mut route_p, &q, &join_from_q).unwrap();
    let (_, reply_q) = ctx_q.join_cb(&mut route_q, &p, &join_from_p).unwrap();
    assert!(matches!(reply_p.msg_type(), RelayMsgKind::ACCEPT));
    assert!(matches!(reply_q.msg_type(), RelayMsgKind::REJECT));

    // Exactly one of the two completes as the new parent.
    ctx_p.join_pre_cb(&mut route_p, &src, &q, true);
    assert_eq!(route_p.get_relay(&src), vec![q.clone()]);
    assert!(route_q.get_relay(&src).is_empty());
}

#[test]
fn merge_tie_break_converges() {
    let src = Peer::try_from_id(&[9_u8; 32]).unwrap();
    let p = Peer::try_from_id(&[2_u8; 32]).unwrap();
    let q = Peer::try_from_id(&[1_u8; 32]).unwrap();

    let mut route_p = RouteTable::new(&p);
    let mut route_q = RouteTable::new(&q);
    let mut ctx_p = MlbtRelayCtlContext::new(&route_p);
    let mut ctx_q = MlbtRelayCtlContext::new(&route_q);

    // Both roots confirm the merge; the larger id stays root, the smaller
    // becomes its child.
    ctx_p.set_term(&src, MlbtTerm::Init(MergeSubTerm::PreMerge));
    ctx_q.set_term(&src, MlbtTerm::Init(MergeSubTerm::PreMerge));
    ctx_p.merge_pre_cb(&mut route_p, &src, &q, true);
    ctx_q.merge_pre_cb(&mut route_q, &src, &p, true);

    assert_eq!(
        ctx_p.term(&src).unwrap(),
        MlbtTerm::Estb(JoinSubTerm::Idle, BalanceSubTerm::Idle)
    );
    assert_eq!(route_p.get_relay(&src), vec![q.clone()]);

    assert_eq!(ctx_q.term(&src).unwrap(), MlbtTerm::Wait);
    assert_eq!(route_q.get_delegate(&src).unwrap(), p);
    assert!(route_q.get_relay(&src).is_empty());
}

#[test]
fn merge_needs_close_weights() {
    let src = Peer::try_from_id(&[9_u8; 32]).unwrap();
    let me = Peer::try_from_id(&[5_u8; 32]).unwrap();
    let other = Peer::try_from_id(&[1_u8; 32]).unwrap();

    let mut route = RouteTable::new(&me);
    let mut ctx = MlbtRelayCtlContext::new(&route);
    ctx.set_term(&src, MlbtTerm::Init(MergeSubTerm::Idle));
    ctx.stat_mut().insert_default(&src);
    ctx.stat_mut().set_relay_inv(&src, 1000).unwrap();
    // The local threshold stays at its default of 500.

    // Our own proposal carries our weight and threshold, and moves the term
    // to the requesting sub-state.
    let (to, ours) = ctx.merge(&src, &other).unwrap();
    assert_eq!(to.get_id(), other.get_id());
    assert!(matches!(ours.msg_type(), RelayMsgKind::MERGE));
    let sent = yulong_bdn::mlbt_message::RelayMsgMerge::from_bytes(&ours.payload()).unwrap();
    assert_eq!(sent.weight(), 1000);
    assert_eq!(sent.merge_thrd(), 500);
    assert_eq!(ctx.term(&src).unwrap(), MlbtTerm::Init(MergeSubTerm::Request));

    // A proposal 600 away is refused.
    let proposal = yulong_bdn::mlbt_message::RelayMsgMerge::new(1600, 500, src.clone())
        .into_bytes()
        .unwrap();
    let far = RelayCtlMessage::new(RelayMsgKind::MERGE, 77, proposal);
    ctx.set_term(&src, MlbtTerm::Init(MergeSubTerm::Idle));
    let (_, reply) = ctx.merge_cb(&mut route, &other, &far).unwrap();
    assert!(matches!(reply.msg_type(), RelayMsgKind::REJECT));

    // A proposal 100 away is taken, and the term moves to pre-merge.
    let near = yulong_bdn::mlbt_message::RelayMsgMerge::new(1100, 500, src.clone())
        .into_bytes()
        .unwrap();
    let near = RelayCtlMessage::new(RelayMsgKind::MERGE, 78, near);
    let (_, reply) = ctx.merge_cb(&mut route, &other, &near).unwrap();
    assert!(matches!(reply.msg_type(), RelayMsgKind::ACCEPT));
    assert_eq!(ctx.term(&src).unwrap(), MlbtTerm::Init(MergeSubTerm::PreMerge));
}

#[test]
fn leave_unlinks_the_sender() {
    let src = Peer::try_from_id(&[9_u8; 32]).unwrap();
    let me = Peer::try_from_id(&[5_u8; 32]).unwrap();
    let child = Peer::try_from_id(&[1_u8; 32]).unwrap();

    let mut route = RouteTable::new(&me);
    route.insert_relay(&src, &child);
    assert_eq!(route.get_relay_count(), 1);

    let mut ctx = MlbtRelayCtlContext::new(&route);
    let leave_payload = RelayMsgLeave::new(&src).into_bytes().unwrap();
    let leave = RelayCtlMessage::new(RelayMsgKind::LEAVE, 5, leave_payload);
    ctx.leave_cb(&mut route, &child, &leave);
    assert_eq!(route.get_relay_count(), 0);
    assert!(route.get_relay(&src).is_empty());
}

#[test]
fn join_timeout_frees_the_source_for_another_try() {
    let src = Peer::try_from_id(&[9_u8; 32]).unwrap();
    let me = Peer::try_from_id(&[5_u8; 32]).unwrap();
    let target = Peer::try_from_id(&[1_u8; 32]).unwrap();

    let route = RouteTable::new(&me);
    let mut ctx = MlbtRelayCtlContext::new(&route);
    ctx.set_term(&src, MlbtTerm::Idle);

    let (_, join) = ctx.join(&target, &src).unwrap();
    assert!(matches!(join.msg_type(), RelayMsgKind::JOIN));

    // Nothing arrives. Before the deadline the wait stays armed, so the
    // source is not eligible for a fresh attempt.
    ctx.check_timers(0);

    // Far past the deadline the slot is cleared and the source is free.
    ctx.check_timers(u64::MAX / 2);
    let (_, again) = ctx.join(&target, &src).unwrap();
    assert!(matches!(again.msg_type(), RelayMsgKind::JOIN));
    assert!(again.msg_id() > join.msg_id());
}

#[test]
fn heartbeat_asks_to_join_idle_sources() {
    let src = Peer::try_from_id(&[9_u8; 32]).unwrap();
    let me = Peer::try_from_id(&[5_u8; 32]).unwrap();
    let delegate = Peer::try_from_id(&[7_u8; 32]).unwrap();

    let mut route = RouteTable::new(&me);
    route.reg_delegate(&src, &delegate);
    let mut ctx = MlbtRelayCtlContext::new(&route);
    assert_eq!(ctx.term(&src).unwrap(), MlbtTerm::Idle);

    let batch = ctx.heartbeat(&mut route);
    assert_eq!(batch.len(), 1);
    assert_eq!(batch[0].0.get_id(), src.get_id());
    let m = RelayCtlMessage::from_bytes(&batch[0].1).unwrap();
    assert!(matches!(m.msg_type(), RelayMsgKind::JOIN));
    assert_eq!(m.payload(), src.get_id());
}

#[test]
fn heartbeat_proposes_a_merge_when_idle_for_merging() {
    let src = Peer::try_from_id(&[9_u8; 32]).unwrap();
    let me = Peer::try_from_id(&[5_u8; 32]).unwrap();
    let delegate = Peer::try_from_id(&[7_u8; 32]).unwrap();

    let mut route = RouteTable::new(&me);
    route.reg_delegate(&src, &delegate);
    let mut ctx = MlbtRelayCtlContext::new(&route);
    ctx.set_term(&src, MlbtTerm::Init(MergeSubTerm::Idle));

    // Without statistics the round is skipped.
    let batch = ctx.heartbeat(&mut route);
    assert!(batch.is_empty());
    assert_eq!(ctx.term(&src).unwrap(), MlbtTerm::Init(MergeSubTerm::Idle));

    // With statistics the proposal goes out and the term requests.
    ctx.stat_mut().insert_default(&src);
    ctx.stat_mut().set_relay_inv(&src, 123).unwrap();
    ctx.set_term(&src, MlbtTerm::Init(MergeSubTerm::Idle));
    let batch = ctx.heartbeat(&mut route);
    assert_eq!(batch.len(), 1);
    let m = RelayCtlMessage::from_bytes(&batch[0].1).unwrap();
    assert!(matches!(m.msg_type(), RelayMsgKind::MERGE));
    let proposal = yulong_bdn::mlbt_message::RelayMsgMerge::from_bytes(&m.payload()).unwrap();
    assert_eq!(proposal.weight(), 123);
    assert_eq!(proposal.merge_thrd(), 500);
    assert_eq!(ctx.term(&src).unwrap(), MlbtTerm::Init(MergeSubTerm::Request));
}

#[test]
fn callback_drops_undecodable_bytes() {
    let me = Peer::try_from_id(&[5_u8; 32]).unwrap();
    let other = Peer::try_from_id(&[1_u8; 32]).unwrap();
    let mut route = RouteTable::new(&me);
    let mut ctx = MlbtRelayCtlContext::new(&route);

    let replies = ctx.relay_ctl_callback(&mut route, &other, &[1, 2, 3]);
    assert!(replies.is_empty());
}
