use yulong_bdn::identity::Peer;
use yulong_bdn::mlbt_wait::{JOIN_WAIT_TO, MERGE_PRE_TO, WaitList, WaitStateData, WaitStateType};
use yulong_bdn::utils::CasualTimer;

#[test]
fn timer_window() {
    let mut timer = CasualTimer::new(1000);
    // Unarmed: never expired.
    assert!(!timer.is_timeout_at(5000));

    timer.set_at(10_000);
    // Within the window, not expired; exactly at the edge, not expired.
    assert!(!timer.is_timeout_at(10_000));
    assert!(!timer.is_timeout_at(11_000));
    // One past the window: expired.
    assert!(timer.is_timeout_at(11_001));
    // A clock that went backwards has not expired anything.
    assert!(!timer.is_timeout_at(9_999));
}

#[test]
fn timeout_fires_exactly_once() {
    let src = Peer::from_bytes(&[1]);
    let target = Peer::from_bytes(&[2]);
    let mut wl = WaitList::new();

    wl.set_at(&src, WaitStateData::JoinWait((src.clone(), target.clone(), 7)), 1000);

    // Before the deadline nothing fires and the slot stays armed.
    assert!(wl.check_at(&src, WaitStateType::JoinWait, 1000 + JOIN_WAIT_TO).is_none());
    assert!(wl.get(&src, WaitStateType::JoinWait).is_some());

    // Past the deadline the slot fires with its data...
    let fired = wl.check_at(&src, WaitStateType::JoinWait, 1001 + JOIN_WAIT_TO);
    match fired {
        Some(WaitStateData::JoinWait((s, t, id))) => {
            assert_eq!(s.get_id(), src.get_id());
            assert_eq!(t.get_id(), target.get_id());
            assert_eq!(id, 7);
        },
        _ => panic!("join wait slot should have fired"),
    }

    // ... and only once: the slot is consumed.
    assert!(wl.check_at(&src, WaitStateType::JoinWait, 1_000_000).is_none());
    assert!(wl.get(&src, WaitStateType::JoinWait).is_none());
}

#[test]
fn setting_overwrites_and_kinds_are_disjoint() {
    let src = Peer::from_bytes(&[1]);
    let a = Peer::from_bytes(&[2]);
    let b = Peer::from_bytes(&[3]);
    let mut wl = WaitList::new();

    wl.set_at(&src, WaitStateData::JoinWait((src.clone(), a.clone(), 1)), 0);
    wl.set_at(&src, WaitStateData::MergePre((src.clone(), b.clone(), 2)), 0);
    // Overwrite the join wait; the merge pre stays.
    wl.set_at(&src, WaitStateData::JoinWait((src.clone(), b.clone(), 9)), 50);

    match wl.get(&src, WaitStateType::JoinWait) {
        Some(WaitStateData::JoinWait((_, t, id))) => {
            assert_eq!(t.get_id(), b.get_id());
            assert_eq!(id, 9);
        },
        _ => panic!("join wait should be armed"),
    }
    assert!(wl.get(&src, WaitStateType::MergePre).is_some());
    assert!(wl.get(&src, WaitStateType::MergeWait).is_none());

    // The pre-merge window is the long one.
    assert!(wl.check_at(&src, WaitStateType::MergePre, MERGE_PRE_TO).is_none());
    assert!(wl.check_at(&src, WaitStateType::MergePre, MERGE_PRE_TO + 1).is_some());
}

#[test]
fn get_by_id_finds_the_pending_handshake() {
    let s1 = Peer::from_bytes(&[1]);
    let s2 = Peer::from_bytes(&[2]);
    let t = Peer::from_bytes(&[3]);
    let mut wl = WaitList::new();

    wl.set_at(&s1, WaitStateData::JoinWait((s1.clone(), t.clone(), 41)), 0);
    wl.set_at(&s2, WaitStateData::MergeCheck((s2.clone(), t.clone(), 77, 42)), 0);

    match wl.get_by_id(41) {
        Some(WaitStateData::JoinWait((s, _, _))) => assert_eq!(s.get_id(), s1.get_id()),
        _ => panic!("id 41 should name the join wait"),
    }
    // The merge check is found by its check id, not its confirmation id.
    match wl.get_by_id(42) {
        Some(WaitStateData::MergeCheck((s, _, confirm, _))) => {
            assert_eq!(s.get_id(), s2.get_id());
            assert_eq!(confirm, 77);
        },
        _ => panic!("id 42 should name the merge check"),
    }
    assert!(wl.get_by_id(77).is_none());
    assert!(wl.get_by_id(40).is_none());
}

#[test]
fn is_waiting_sees_any_armed_slot() {
    let src = Peer::from_bytes(&[1]);
    let other = Peer::from_bytes(&[2]);
    let mut wl = WaitList::new();
    assert!(!wl.is_waiting(&src));

    wl.set_at(&src, WaitStateData::GrantTotal((src.clone(), other.clone())), 0);
    assert!(wl.is_waiting(&src));
    assert!(!wl.is_waiting(&other));

    wl.clear(&src, WaitStateType::GrantTotal);
    assert!(!wl.is_waiting(&src));
}
