use yulong_bdn::identity::Peer;
use yulong_bdn::measure::NetStat;
use yulong_bdn::mlbt_stat::MlbtStatList;
use yulong_bdn::sock::SocketAddrBi;

#[test]
fn tree_records_start_at_defaults() {
    let tr = Peer::from_bytes(&[1]);
    let mut stats = MlbtStatList::new();
    assert!(stats.src_inv(&tr).is_none());
    assert!(stats.relay_inv(&tr).is_none());
    assert!(stats.merge_thrd(&tr).is_none());

    stats.insert_default(&tr);
    assert_eq!(stats.src_inv(&tr).unwrap(), 0);
    assert_eq!(stats.relay_inv(&tr).unwrap(), 0);
    assert_eq!(stats.merge_thrd(&tr).unwrap(), 500);
}

#[test]
fn setters_touch_one_field() {
    let tr = Peer::from_bytes(&[1]);
    let desc = Peer::from_bytes(&[2]);
    let mut stats = MlbtStatList::new();

    // An unknown source takes no values.
    assert!(stats.set_src_inv(&tr, 10).is_none());

    stats.insert_default(&tr);
    assert!(stats.set_src_inv(&tr, 10).is_some());
    assert!(stats.set_relay_inv(&tr, 20).is_some());
    assert_eq!(stats.src_inv(&tr).unwrap(), 10);
    assert_eq!(stats.relay_inv(&tr).unwrap(), 20);
    assert_eq!(stats.merge_thrd(&tr).unwrap(), 500);

    assert!(stats.src_inv_desc(&tr, &desc).is_none());
    assert!(stats.set_src_inv_desc(&tr, &desc, 33).is_some());
    assert_eq!(stats.src_inv_desc(&tr, &desc).unwrap(), 33);
    assert!(stats.set_relay_inv_desc(&tr, &desc, 44).is_some());
    assert_eq!(stats.relay_inv_desc(&tr, &desc).unwrap(), 44);
}

#[test]
fn delay_moving_average() {
    let nb = Peer::from_bytes(&[1]);
    let mut stats = MlbtStatList::new();

    // No record: the rolling update does not create one.
    stats.roll_update_delay_ts(&nb, 500);
    assert!(stats.delay_ts(&nb).is_none());

    stats.set_delay_ts(&nb, 100).unwrap();
    stats.roll_update_delay_ts(&nb, 200);
    // (100 * 9 + 200) / 10
    assert_eq!(stats.delay_ts(&nb).unwrap(), 110);

    stats.roll_update_delay_ts(&nb, 0);
    // (110 * 9 + 0) / 10
    assert_eq!(stats.delay_ts(&nb).unwrap(), 99);
}

#[test]
fn netstat_records_observations() {
    let p = Peer::from_bytes(&[1]);
    let addr = SocketAddrBi::new(&[127, 0, 0, 1], 10450, None);
    let mut ns = NetStat::new();

    assert!(ns.latency(&p).is_none());
    assert!(ns.bandwidth(&p).is_none());

    // Without a locator an unknown peer cannot be recorded.
    ns.set(&p, None, Some(5), None);
    assert!(ns.latency(&p).is_none());

    ns.set(&p, Some(addr), Some(5), Some(1_000_000));
    assert_eq!(ns.latency(&p).unwrap(), 5);
    assert_eq!(ns.bandwidth(&p).unwrap(), 1_000_000);

    // A partial update keeps the other field.
    ns.set(&p, None, Some(8), None);
    assert_eq!(ns.latency(&p).unwrap(), 8);
    assert_eq!(ns.bandwidth(&p).unwrap(), 1_000_000);
}
