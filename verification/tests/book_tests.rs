use yulong_bdn::bidirct_hashmap::BidirctHashmap;
use yulong_bdn::identity::Peer;
use yulong_bdn::sock::SocketAddrBi;

#[test]
fn insert_and_lookup_both_ways() {
    let p1 = Peer::from_bytes(&[1]);
    let p2 = Peer::from_bytes(&[2]);
    let a1 = SocketAddrBi::new(&[127, 0, 0, 1], 9001, None);
    let a2 = SocketAddrBi::new(&[127, 0, 0, 2], 9002, Some(40000));

    let mut book = BidirctHashmap::new();
    assert!(!book.contains_key(&p1));
    assert!(!book.contains_value(&a1));

    book.insert(&p1, &a1);
    book.insert(&p2, &a2);
    assert_eq!(book.len(), 2);
    assert!(book.contains_key(&p1));
    assert!(book.contains_value(&a2));

    // Lookup by key, then back by the value: the identity.
    let v = book.get_by_key(&p1).unwrap().clone();
    let k = book.get_by_value(&v).unwrap();
    assert_eq!(k.get_id(), p1.get_id());

    // And the other way round.
    let k2 = book.get_by_value(&a2).unwrap().clone();
    let v2 = book.get_by_key(&k2).unwrap();
    assert_eq!(v2.ip(), a2.ip());
    assert_eq!(v2.listen_port(), 9002);
}

#[test]
fn update_by_key_rewrites_both_sides() {
    let p1 = Peer::from_bytes(&[1]);
    let a1 = SocketAddrBi::new(&[10, 0, 0, 1], 9001, None);
    let a2 = SocketAddrBi::new(&[10, 0, 0, 2], 9001, None);

    let mut book = BidirctHashmap::new();

    // An unknown key is refused and nothing changes.
    assert!(book.update_by_key(&p1, &a1).is_none());
    assert_eq!(book.len(), 0);

    book.insert(&p1, &a1);
    assert!(book.update_by_key(&p1, &a2).is_some());
    assert_eq!(book.len(), 1);
    assert_eq!(book.get_by_key(&p1).unwrap().ip(), a2.ip());
    assert!(!book.contains_value(&a1));
    assert_eq!(book.get_by_value(&a2).unwrap().get_id(), p1.get_id());
}

#[test]
fn update_by_value_rewrites_both_sides() {
    let p1 = Peer::from_bytes(&[1]);
    let p2 = Peer::from_bytes(&[2]);
    let a1 = SocketAddrBi::new(&[10, 0, 0, 1], 9001, None);

    let mut book = BidirctHashmap::new();
    assert!(book.update_by_value(&a1, &p2).is_none());

    book.insert(&p1, &a1);
    assert!(book.update_by_value(&a1, &p2).is_some());
    assert!(!book.contains_key(&p1));
    assert_eq!(book.get_by_value(&a1).unwrap().get_id(), p2.get_id());
    assert_eq!(book.get_by_key(&p2).unwrap().ip(), a1.ip());
}

#[test]
fn locators_match_by_ip_alone() {
    let p1 = Peer::from_bytes(&[1]);
    let behind_nat_listen = SocketAddrBi::new(&[8, 8, 8, 8], 10450, None);
    let behind_nat_dial = SocketAddrBi::new(&[8, 8, 8, 8], 10450, Some(53200));

    assert_eq!(behind_nat_listen, behind_nat_dial);

    let mut book = BidirctHashmap::new();
    book.insert(&p1, &behind_nat_listen);

    // The dialing locator differs only in its incoming port: same peer.
    let k = book.get_by_value(&behind_nat_dial).unwrap();
    assert_eq!(k.get_id(), p1.get_id());
}

#[test]
fn insert_keeps_the_book_injective() {
    let p1 = Peer::from_bytes(&[1]);
    let p2 = Peer::from_bytes(&[2]);
    let a1 = SocketAddrBi::new(&[10, 0, 0, 1], 9001, None);
    let a2 = SocketAddrBi::new(&[10, 0, 0, 2], 9002, None);

    let mut book = BidirctHashmap::new();
    book.insert(&p1, &a1);

    // Re-mapping the same IP to another peer evicts the old owner.
    book.insert(&p2, &a1);
    assert_eq!(book.len(), 1);
    assert!(!book.contains_key(&p1));
    assert_eq!(book.get_by_value(&a1).unwrap().get_id(), p2.get_id());

    // Re-mapping the peer to another IP drops the old locator.
    book.insert(&p2, &a2);
    assert_eq!(book.len(), 1);
    assert!(!book.contains_value(&a1));

    let entries = book.iter();
    assert_eq!(entries.len(), 1);
    assert_eq!(entries[0].0.get_id(), p2.get_id());
    assert_eq!(entries[0].1.ip(), a2.ip());
}
