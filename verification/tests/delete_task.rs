use beemesh::delete::{
    classify_delete_targets, delete_forced, delete_operation_id, local_delete_result,
    no_providers_reply, DeleteTally, DeleteTarget, TargetOutcome,
};

fn peer_bytes(n: u8) -> Vec<u8> {
    let mut p = vec![0x12, 0x20];
    p.extend(std::iter::repeat(n).take(32));
    p
}

fn peer_text(n: u8) -> String {
    libp2p::PeerId::from_bytes(&peer_bytes(n)).unwrap().to_base58()
}

#[test]
fn operation_id_names_task_and_time() {
    assert_eq!(delete_operation_id("task-1", 1234), "delete-task-1-1234");
    assert_eq!(delete_operation_id("", 0), "delete--0");
}

#[test]
fn forced_when_body_says_so() {
    assert!(delete_forced(b"force=true"));
    assert!(delete_forced(b"a=1&force=true&b=2"));
    assert!(delete_forced(&[0xff, 0xfe, b'f', b'o', b'r', b'c', b'e', b'=', b't', b'r', b'u', b'e']));
    assert!(!delete_forced(b"force=false"));
    assert!(!delete_forced(b"force=tru"));
    assert!(!delete_forced(b""));
}

#[test]
fn targets_are_classified() {
    let local = peer_bytes(1);
    let providers = vec![peer_text(1), "not-a-peer".to_string(), peer_text(2)];
    let targets = classify_delete_targets(&providers, &local);
    assert_eq!(
        targets,
        vec![
            DeleteTarget::Local(peer_text(1)),
            DeleteTarget::InvalidPeer("not-a-peer".to_string()),
            DeleteTarget::Remote(peer_text(2)),
        ]
    );
}

#[test]
fn tally_counts_reached_providers() {
    let mut t = DeleteTally::new();
    t.record("p1".to_string(), TargetOutcome::LocalRemoved(vec!["w1".to_string(), "w2".to_string()]));
    t.record("p2".to_string(), TargetOutcome::RemoteSent);
    assert_eq!(t.successful, vec!["p1".to_string(), "p2".to_string()]);
    assert!(t.failed.is_empty());
    assert_eq!(t.removed_workloads, vec!["w1".to_string(), "w2".to_string()]);
    assert_eq!(t.summary(), (true, "Delete requests sent to 2 providers".to_string()));
}

#[test]
fn tally_lists_failures() {
    let mut t = DeleteTally::new();
    t.record("p1".to_string(), TargetOutcome::RemoteSent);
    t.record("p2".to_string(), TargetOutcome::InvalidPeer);
    t.record("p3".to_string(), TargetOutcome::LocalFailed("local deletion failed: x".to_string()));
    t.record("p4".to_string(), TargetOutcome::RemoteFailed("Request timed out".to_string()));
    assert_eq!(
        t.failed,
        vec![
            "p2:invalid_peer_id".to_string(),
            "p3:self_delete_failed:local deletion failed: x".to_string(),
            "p4:Request timed out".to_string(),
        ]
    );
    let expected = format!("Delete requests sent to 1/4 providers. Failures: {:?}", t.failed);
    assert_eq!(t.summary(), (true, expected));
}

#[test]
fn tally_without_success_fails() {
    let mut t = DeleteTally::new();
    t.record("p9".to_string(), TargetOutcome::RemoteFailed("e".to_string()));
    assert_eq!(
        t.summary(),
        (
            false,
            "Failed to send delete requests to any providers: [\"p9:e\"]".to_string()
        )
    );
}

#[test]
fn local_delete_and_no_provider_answers() {
    assert_eq!(local_delete_result(Ok(vec!["w".to_string()])), Ok(vec!["w".to_string()]));
    assert_eq!(
        local_delete_result(Err("boom".to_string())),
        Err("local deletion failed: boom".to_string())
    );
    assert_eq!(no_providers_reply(), (true, "No providers found for task".to_string()));
}
