use yulong_bdn::bidirct_hashmap::BidirctHashmap;
use yulong_bdn::engine::{MsgWithPriority, SendBuffer, from_id_handler, relay_plan};
use yulong_bdn::identity::Peer;
use yulong_bdn::message::OverlayMessage;
use yulong_bdn::msg_header::{MsgHeader, MsgTypeKind, RelayMethodKind};
use yulong_bdn::route::RouteTable;
use yulong_bdn::sock::SocketAddrBi;

fn payload_msg(src: &Peer, from: &Peer, dst: &Peer, relay: bool, payload: &[u8]) -> OverlayMessage {
    let header = MsgHeader::build(
        MsgTypeKind::PAYLOAD_MSG,
        relay,
        RelayMethodKind::LOOKUP_TABLE_1,
        0,
        0,
    )
    .unwrap();
    OverlayMessage::new(header, src, from, dst, payload)
}

#[test]
fn send_buffer_drains_by_priority_then_arrival() {
    let p = Peer::from_bytes(&[1]);
    let m = payload_msg(&p, &p, &p, false, &[1]);

    let mut buf = SendBuffer::new();
    assert!(buf.pop_max().is_none());

    buf.push(MsgWithPriority::new(&p, 1, m.clone()));
    buf.push(MsgWithPriority::new(&p, 5, m.clone()));
    buf.push(MsgWithPriority::new(&p, 3, m.clone()));
    buf.push(MsgWithPriority::new(&p, 5, m.clone()));
    assert_eq!(buf.len(), 4);

    let order: Vec<u32> = std::iter::from_fn(|| buf.pop_max().map(|t| t.priority())).collect();
    assert_eq!(order, vec![5, 5, 3, 1]);
    assert!(buf.pop_max().is_none());
}

#[test]
fn carried_id_is_authoritative() {
    let sender = Peer::try_from_id(&[1_u8; 32]).unwrap();
    let old_addr = SocketAddrBi::new(&[10, 0, 0, 1], 10450, None);
    let new_addr = SocketAddrBi::new(&[10, 0, 0, 2], 10450, Some(54321));
    let msg = payload_msg(&sender, &sender, &sender, false, &[1]);

    let mut book = BidirctHashmap::new();

    // Unknown peer: the arrival locator is recorded.
    let out = from_id_handler(&mut book, &old_addr, &msg).unwrap();
    assert_eq!(out.from().get_id(), sender.get_id());
    assert_eq!(book.get_by_key(&sender).unwrap().ip(), old_addr.ip());

    // The peer moved: the book follows.
    from_id_handler(&mut book, &new_addr, &msg).unwrap();
    assert_eq!(book.get_by_key(&sender).unwrap().ip(), new_addr.ip());
    assert_eq!(book.len(), 1);
}

#[test]
fn placeholder_id_resolves_by_locator() {
    let known = Peer::try_from_id(&[1_u8; 32]).unwrap();
    let addr = SocketAddrBi::new(&[10, 0, 0, 1], 10450, Some(50001));
    let broadcast = Peer::broadcast_id();
    let msg = payload_msg(&known, &broadcast, &known, false, &[1]);

    let mut book = BidirctHashmap::new();

    // Unknown locator: the message is dropped.
    assert!(from_id_handler(&mut book, &addr, &msg).is_none());

    book.insert(&known, &addr);
    let out = from_id_handler(&mut book, &addr, &msg).unwrap();
    assert_eq!(out.from().get_id(), known.get_id());
    // The rest of the message is untouched.
    assert_eq!(out.payload(), msg.payload());
    assert_eq!(out.dst().get_id(), msg.dst().get_id());
}

#[test]
fn relay_fan_out_follows_the_child_list() {
    let me = Peer::try_from_id(&[5_u8; 32]).unwrap();
    let root = Peer::try_from_id(&[9_u8; 32]).unwrap();
    let mut rt = RouteTable::new(&me);

    let mut children = Vec::new();
    for i in 0..8_u8 {
        let child = Peer::from_bytes(&[i]);
        rt.insert_relay(&root, &child);
        children.push(child);
    }

    let msg = payload_msg(&root, &root, &Peer::broadcast_id(), true, &[42]);
    let plan = relay_plan(&rt, &me, &msg);
    assert_eq!(plan.len(), 8);
    for (i, (dst, fwd)) in plan.iter().enumerate() {
        assert_eq!(dst.get_id(), children[i].get_id());
        // The forwarded copy names this node as the upstream.
        assert_eq!(fwd.from().get_id(), me.get_id());
        assert_eq!(fwd.src().get_id(), root.get_id());
        assert_eq!(fwd.payload(), msg.payload());
    }
}

#[test]
fn a_leaf_forwards_nothing() {
    let me = Peer::try_from_id(&[5_u8; 32]).unwrap();
    let root = Peer::try_from_id(&[9_u8; 32]).unwrap();
    let rt = RouteTable::new(&me);

    // Relay flag set, but no children for the source: no sends.
    let msg = payload_msg(&root, &root, &Peer::broadcast_id(), true, &[42]);
    assert!(relay_plan(&rt, &me, &msg).is_empty());

    // Relay flag clear: no sends either, whatever the table holds.
    let plain = payload_msg(&root, &root, &me, false, &[42]);
    assert!(relay_plan(&rt, &me, &plain).is_empty());
}
