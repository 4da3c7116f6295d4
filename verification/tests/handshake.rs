use beemesh::handshake::{loopback_dial_address, AddrPart, HandshakeState, HandshakeTable};

const P1: &[u8] = &[1, 1];
const P2: &[u8] = &[2, 2];
const P3: &[u8] = &[3, 3];

#[test]
fn discovered_peer_is_tried_at_once() {
    let mut t = HandshakeTable::new();
    t.discover(P1, 10_000);
    assert_eq!(
        t.get(P1),
        Some(HandshakeState { attempts: 0, last_attempt: 7_000, confirmed: false })
    );
    let (dropped, retry) = t.tick(10_000);
    assert!(dropped.is_empty());
    assert_eq!(retry, vec![P1.to_vec()]);
}

#[test]
fn rediscovery_keeps_state() {
    let mut t = HandshakeTable::new();
    t.discover(P1, 10_000);
    t.record_attempt(P1, 10_000);
    t.discover(P1, 20_000);
    assert_eq!(
        t.get(P1),
        Some(HandshakeState { attempts: 1, last_attempt: 10_000, confirmed: false })
    );
}

#[test]
fn retries_wait_two_seconds() {
    let mut t = HandshakeTable::new();
    t.discover(P1, 10_000);
    t.record_attempt(P1, 10_000);
    let (_, retry) = t.tick(11_999);
    assert!(retry.is_empty());
    let (_, retry) = t.tick(12_000);
    assert_eq!(retry, vec![P1.to_vec()]);
}

#[test]
fn unanswered_peer_is_dropped_after_three_attempts() {
    let mut t = HandshakeTable::new();
    t.discover(P1, 10_000);
    for k in 0..3u64 {
        let now = 10_000 + k * 2_000;
        let (dropped, retry) = t.tick(now);
        assert!(dropped.is_empty());
        assert_eq!(retry, vec![P1.to_vec()]);
        t.record_attempt(P1, now);
    }
    let (dropped, retry) = t.tick(16_000);
    assert_eq!(dropped, vec![P1.to_vec()]);
    assert!(retry.is_empty());
    assert_eq!(t.get(P1), None);
}

#[test]
fn confirmed_peer_is_kept_and_not_retried() {
    let mut t = HandshakeTable::new();
    t.discover(P1, 10_000);
    t.record_attempt(P1, 10_000);
    t.record_attempt(P1, 12_000);
    t.record_attempt(P1, 14_000);
    t.confirm(P1, 14_500);
    let (dropped, retry) = t.tick(30_000);
    assert!(dropped.is_empty());
    assert!(retry.is_empty());
    assert_eq!(
        t.get(P1),
        Some(HandshakeState { attempts: 3, last_attempt: 14_000, confirmed: true })
    );
}

#[test]
fn confirming_an_unknown_peer_adds_it() {
    let mut t = HandshakeTable::new();
    t.confirm(P2, 5_000);
    assert_eq!(
        t.get(P2),
        Some(HandshakeState { attempts: 0, last_attempt: 2_000, confirmed: true })
    );
}

#[test]
fn tick_keeps_table_order() {
    let mut t = HandshakeTable::new();
    t.discover(P1, 10_000);
    t.discover(P2, 10_000);
    t.discover(P3, 10_000);
    for _ in 0..3 {
        t.record_attempt(P2, 10_000);
    }
    let (dropped, retry) = t.tick(20_000);
    assert_eq!(dropped, vec![P2.to_vec()]);
    assert_eq!(retry, vec![P1.to_vec(), P3.to_vec()]);
    assert_eq!(t.get(P2), None);
    assert!(t.get(P1).is_some());
    assert!(t.get(P3).is_some());
}

#[test]
fn loopback_address_for_external_peers() {
    let external = vec![AddrPart::Ip4(192, 168, 1, 7), AddrPart::Tcp(4001), AddrPart::Other];
    assert_eq!(
        loopback_dial_address(&external, "12D3KooWpeer"),
        Some("/ip4/127.0.0.1/tcp/4001/p2p/12D3KooWpeer".to_string())
    );
    let loopback = vec![AddrPart::Ip4(127, 0, 0, 1), AddrPart::Tcp(4001)];
    assert_eq!(loopback_dial_address(&loopback, "p"), None);
    let unspecified = vec![AddrPart::Ip4(0, 0, 0, 0), AddrPart::Tcp(4001)];
    assert_eq!(loopback_dial_address(&unspecified, "p"), None);
    let no_port = vec![AddrPart::Ip4(10, 0, 0, 2), AddrPart::Other];
    assert_eq!(loopback_dial_address(&no_port, "p"), None);
}
