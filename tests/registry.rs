use android_view::registry::PeerRegistry;

#[test]
fn unregistered_handle_gets_default() {
    let mut reg: PeerRegistry<String> = PeerRegistry::new();
    let r = reg.dispatch(42, -1i32, |p| (p, 7));
    assert_eq!(r, -1);
    let b = reg.dispatch(0, false, |p| (p, true));
    assert!(!b);
    assert!(!reg.contains(42));
}

#[test]
fn handles_increase_and_are_not_reused() {
    let mut reg: PeerRegistry<u32> = PeerRegistry::new();
    assert_eq!(reg.register_view_peer(10), Some(0));
    assert_eq!(reg.register_view_peer(11), Some(1));
    assert_eq!(reg.remove(0), Some(10));
    assert_eq!(reg.remove(0), None);
    assert_eq!(reg.register_view_peer(12), Some(2));
    assert!(!reg.contains(0));
    assert!(reg.contains(1));
}

#[test]
fn dispatch_runs_on_registered_peer() {
    let mut reg: PeerRegistry<Vec<u8>> = PeerRegistry::new();
    let h = reg.register_view_peer(vec![1]).unwrap();
    let len = reg.dispatch(h, 0usize, |mut p| {
        p.push(2);
        let n = p.len();
        (p, n)
    });
    assert_eq!(len, 2);
    assert_eq!(reg.remove(h), Some(vec![1, 2]));
    assert_eq!(reg.dispatch(h, 99usize, |p| (p, 0)), 99);
}

#[test]
fn checked_out_peer_is_absent_until_checked_in() {
    let mut reg: PeerRegistry<&'static str> = PeerRegistry::new();
    let h = reg.register_view_peer("peer").unwrap();
    let p = reg.checkout(h).unwrap();
    assert_eq!(reg.dispatch(h, "none", |p| (p, "some")), "none");
    assert!(reg.checkin(h, p));
    assert_eq!(reg.dispatch(h, "none", |p| (p, "some")), "some");
    assert!(!reg.checkin(5, "forged"));
    assert!(!reg.checkin(-1, "forged"));
    assert!(!reg.contains(5));
}
