use beemesh::tasks::{
    apply_direct_response, manifest_id_of_hash, peer_delete_result, task_ids, task_manifest_id,
    task_status, DirectApplyOutcome, TaskStore,
};
use std::collections::hash_map::DefaultHasher;
use std::hash::{Hash, Hasher};

fn hash_of<T: Hash + ?Sized>(v: &T) -> u64 {
    let mut h = DefaultHasher::new();
    v.hash(&mut h);
    h.finish()
}

#[test]
fn manifest_id_is_first_sixteen_hex_digits() {
    assert_eq!(manifest_id_of_hash(0x1234_5678_9abc_def0), "123456789abcdef0");
    assert_eq!(manifest_id_of_hash(u64::MAX), "ffffffffffffffff");
    assert_eq!(manifest_id_of_hash(0x1000_0000_0000_0000), "1000000000000000");
}

#[test]
fn task_manifest_id_follows_the_hash() {
    for name in ["nginx", "web", "db", "cache", "api"] {
        let h = hash_of(name);
        let expected = format!("{:x}", h);
        match task_manifest_id(Some(name), b"ignored") {
            Some(id) => assert_eq!(id, expected[..16].to_string()),
            None => assert!(expected.len() < 16),
        }
    }
    let payload = b"payload bytes".to_vec();
    let expected = format!("{:x}", hash_of(&payload));
    match task_manifest_id(None, &payload) {
        Some(id) => assert_eq!(id, expected[..16].to_string()),
        None => assert!(expected.len() < 16),
    }
}

#[test]
fn task_ids_prefer_given_values() {
    assert_eq!(
        task_ids(Some("m1"), Some("op1"), "fresh", None, b""),
        Some(("m1".to_string(), "op1".to_string()))
    );
    assert_eq!(
        task_ids(Some("m1"), None, "fresh", None, b""),
        Some(("m1".to_string(), "fresh".to_string()))
    );
    let derived = task_manifest_id(Some("nginx"), b"x");
    assert_eq!(
        task_ids(None, Some("op2"), "fresh", Some("nginx"), b"x"),
        derived.map(|id| (id, "op2".to_string()))
    );
}

#[test]
fn created_task_is_found() {
    let mut store = TaskStore::new();
    store.create_task("m1", "op1", vec![1, 2], vec![9], 100);
    let t = store.get_task("m1").unwrap();
    assert_eq!(t.manifest_bytes, vec![1, 2]);
    assert_eq!(t.created_at, 100);
    assert_eq!(t.assigned_peers, None);
    assert_eq!(t.manifest_cid, Some("m1".to_string()));
    assert_eq!(t.last_operation_id, Some("op1".to_string()));
    assert_eq!(t.owner_pubkey, vec![9]);
    assert_eq!(store.get_task_manifest_id("m1"), Some("m1".to_string()));
    assert_eq!(store.get_manifest_cid_for_operation("op1"), Some("m1".to_string()));
    assert!(store.get_task("m2").is_none());
    assert_eq!(store.get_task_manifest_id("m2"), None);
}

#[test]
fn operation_mapping_takes_precedence() {
    let mut store = TaskStore::new();
    store.create_task("m1", "op1", vec![], vec![], 1);
    store.store_operation_manifest_mapping("op1", "other");
    assert_eq!(store.get_task_manifest_id("m1"), Some("other".to_string()));
    store.create_task("m1", "op1", vec![3], vec![], 2);
    assert_eq!(store.get_task_manifest_id("m1"), Some("m1".to_string()));
    assert_eq!(store.get_task("m1").unwrap().manifest_bytes, vec![3]);
}

#[test]
fn status_answers() {
    let mut store = TaskStore::new();
    store.create_task("m1", "op1", vec![], vec![], 1);
    let t = store.get_task("m1");
    assert_eq!(
        task_status("m1", t.as_ref()),
        ("m1".to_string(), "Pending".to_string(), vec![], Some("m1".to_string()))
    );
    assert_eq!(
        task_status("zz", None),
        (String::new(), "Error".to_string(), vec![], None)
    );
}

#[test]
fn apply_direct_answers() {
    assert_eq!(
        apply_direct_response(DirectApplyOutcome::InvalidPeer("bad".to_string())),
        (false, "unknown".to_string(), "Invalid peer ID: bad".to_string())
    );
    assert_eq!(
        apply_direct_response(DirectApplyOutcome::NotForwarded),
        (false, "unknown".to_string(), "Failed to forward request to libp2p".to_string())
    );
    assert_eq!(
        apply_direct_response(DirectApplyOutcome::Answered(Ok("x".to_string()))),
        (true, "forwarded".to_string(), "Request forwarded successfully".to_string())
    );
    assert_eq!(
        apply_direct_response(DirectApplyOutcome::Answered(Err("e".to_string()))),
        (false, "forwarded".to_string(), "Forward failed: e".to_string())
    );
    assert_eq!(
        apply_direct_response(DirectApplyOutcome::TimedOut),
        (false, "forwarded".to_string(), "Timeout waiting for peer response".to_string())
    );
}

#[test]
fn peer_delete_results() {
    assert_eq!(peer_delete_result(Some(Some(Ok("ok".to_string())))), Ok("ok".to_string()));
    assert_eq!(peer_delete_result(Some(Some(Err("no".to_string())))), Err("no".to_string()));
    assert_eq!(peer_delete_result(Some(None)), Err("Reply channel closed".to_string()));
    assert_eq!(peer_delete_result(None), Err("Request timed out".to_string()));
}
