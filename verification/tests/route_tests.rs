use yulong_bdn::identity::Peer;
use yulong_bdn::mlbt::MlbtRelayCtlContext;
use yulong_bdn::route::{AppLayerRouteInner, AppLayerRouteUser, MAX_LINK, Route, RouteTable};

#[test]
fn insert_remove_relay() {
    let p1 = Peer::from_bytes(&[1]);
    let p3 = Peer::from_bytes(&[3]);
    let p4 = Peer::from_bytes(&[4]);

    let mut route = Route::<MlbtRelayCtlContext>::new(&p1);

    route.insert_relay(&p1, &p3);
    route.insert_relay(&p1, &p4);

    let rl1 = route.get_relay(&p1);
    assert_eq!(rl1, vec![p3.clone(), p4.clone()]);

    route.remove_relay(&p1, &p3);
    route.remove_relay(&p1, &p3);
    let rl1 = route.get_relay(&p1);
    assert_eq!(rl1, vec![p4.clone()]);
}

#[test]
fn insert_remove_route() {
    let p1 = Peer::from_bytes(&[1]);
    let p2 = Peer::from_bytes(&[2]);
    let p3 = Peer::from_bytes(&[3]);
    let p4 = Peer::from_bytes(&[4]);

    let mut route = Route::<MlbtRelayCtlContext>::new(&p1);

    route.insert_path(&p4, &p3);
    route.insert_path(&p3, &p3);
    route.insert_path(&p2, &p3);
    route.insert_path(&p1, &p3);

    let next = route.get_next_hop(&p1);
    assert_eq!(next.unwrap(), p3);

    route.remove_path(&p3);
    let next = route.get_next_hop(&p3);
    assert!(next.is_none());
}

#[test]
fn relay_counter_tracks_every_mutation() {
    let me = Peer::from_bytes(&[0]);
    let s1 = Peer::from_bytes(&[1]);
    let s2 = Peer::from_bytes(&[2]);
    let c1 = Peer::from_bytes(&[3]);
    let c2 = Peer::from_bytes(&[4]);

    let mut rt = RouteTable::new(&me);
    assert_eq!(rt.get_relay_count(), 0);

    rt.insert_relay(&s1, &c1);
    rt.insert_relay(&s1, &c2);
    rt.insert_relay(&s2, &c1);
    assert_eq!(rt.get_relay_count(), 3);
    assert_eq!(rt.get_relay_count_by_tree(&s1), 2);
    assert_eq!(rt.get_relay_count_by_tree(&s2), 1);

    // A duplicate child is a no-op.
    rt.insert_relay(&s1, &c1);
    assert_eq!(rt.get_relay_count(), 3);

    rt.remove_relay(&s1, &c1);
    assert_eq!(rt.get_relay_count(), 2);
    assert_eq!(rt.get_relay_count_by_tree(&s1), 1);

    // Removing an absent child is a no-op.
    rt.remove_relay(&s2, &c2);
    assert_eq!(rt.get_relay_count(), 2);
}

#[test]
fn max_link_admission() {
    let me = Peer::from_bytes(&[0]);
    let src = Peer::from_bytes(&[1]);
    let mut rt = RouteTable::new(&me);

    for i in 0..MAX_LINK {
        let child = Peer::from_bytes(&[2, (i / 256) as u8, (i % 256) as u8]);
        rt.insert_relay(&src, &child);
    }
    assert_eq!(rt.get_relay_count(), MAX_LINK);

    // At the budget, nothing more goes in.
    let extra = Peer::from_bytes(&[9, 9, 9]);
    rt.insert_relay(&src, &extra);
    assert_eq!(rt.get_relay_count(), MAX_LINK);
    assert!(!rt.get_relay(&src).contains(&extra));
}

#[test]
fn insert_front_relay_prepends() {
    let me = Peer::from_bytes(&[0]);
    let src = Peer::from_bytes(&[1]);
    let c1 = Peer::from_bytes(&[2]);
    let c2 = Peer::from_bytes(&[3]);

    let mut rt = RouteTable::new(&me);
    rt.insert_relay(&src, &c1);
    rt.insert_front_relay(&src, &c2);
    assert_eq!(rt.get_relay(&src), vec![c2, c1]);
}

#[test]
fn delegate_keeps_first_registration() {
    let me = Peer::from_bytes(&[0]);
    let src = Peer::from_bytes(&[1]);
    let d1 = Peer::from_bytes(&[2]);
    let d2 = Peer::from_bytes(&[3]);

    let mut rt = RouteTable::new(&me);
    assert!(rt.get_delegate(&src).is_none());
    assert!(rt.get_best_src().is_none());

    rt.reg_delegate(&src, &d1);
    assert_eq!(rt.get_delegate(&src).unwrap(), d1);

    // A conflicting registration changes nothing.
    rt.reg_delegate(&src, &d2);
    assert_eq!(rt.get_delegate(&src).unwrap(), d1);

    assert_eq!(rt.get_best_src().unwrap(), src);
    assert_eq!(rt.get_src_list(), vec![src]);
}
