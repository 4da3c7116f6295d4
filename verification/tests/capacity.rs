use beemesh::capacity::{
    capacity_request_id, extract_manifest_id_from_request_id, parse_candidates, record_responder,
    responder_entry, PendingQueries,
};
use beemesh::reply::{local_capacity_params, scheduler_reply_params, CapacityCheck};

#[test]
fn request_ids_carry_the_manifest() {
    let id = capacity_request_id("free-capacity", "task-9", "1234");
    assert_eq!(id, "free-capacity:task-9:1234");
    assert_eq!(
        extract_manifest_id_from_request_id(&id, "free-capacity"),
        Some("task-9".to_string())
    );
    // Older form with hyphens.
    assert_eq!(
        extract_manifest_id_from_request_id("cap-abc-uuid", "cap"),
        Some("abc".to_string())
    );
    assert_eq!(extract_manifest_id_from_request_id("cap::x", "cap"), None);
    assert_eq!(extract_manifest_id_from_request_id("other:abc:u", "cap"), None);
    assert_eq!(extract_manifest_id_from_request_id("cap", "cap"), None);
    assert_eq!(extract_manifest_id_from_request_id("cap:only", "cap"), Some("only".to_string()));
}

#[test]
fn responders_are_recorded_once() {
    let mut responders = Vec::new();
    assert!(!record_responder(&mut responders, "a:k1".to_string(), 2));
    assert!(!record_responder(&mut responders, "a:k1".to_string(), 2));
    assert!(record_responder(&mut responders, "b:k2".to_string(), 2));
    assert_eq!(responders, vec!["a:k1".to_string(), "b:k2".to_string()]);
}

#[test]
fn candidates_need_a_key() {
    let responders = vec![
        "peerA:a2V5QQ==".to_string(),
        "peerB:".to_string(),
        "no-colon".to_string(),
        "peerC:x:y".to_string(),
    ];
    assert_eq!(
        parse_candidates(&responders),
        vec![
            ("peerA".to_string(), "a2V5QQ==".to_string()),
            ("peerC".to_string(), "x:y".to_string())
        ]
    );
}

#[test]
fn lib_test_invalid_peer_format() {
    let peers = vec!["invalid_peer_format".to_string()];
    let candidates = parse_candidates(&peers);
    assert!(candidates.is_empty());
}

#[test]
fn mod_test_invalid_peer_format() {
    let peers = vec!["invalid_peer_format".to_string()];
    assert!(parse_candidates(&peers).is_empty());
    let good = vec!["peer1:dGVzdF9wdWJrZXlfMQ==".to_string(), "invalid_peer_format".to_string()];
    assert_eq!(
        parse_candidates(&good),
        vec![("peer1".to_string(), "dGVzdF9wdWJrZXlfMQ==".to_string())]
    );
}

#[test]
fn responder_entries_read_back_as_candidates() {
    let with_key = responder_entry("12D3KooWpeer", Some("a2VtLWtleQ=="));
    assert_eq!(with_key, "12D3KooWpeer:a2VtLWtleQ==");
    let without = responder_entry("12D3KooWother", None);
    assert_eq!(without, "12D3KooWother:");
    let parsed = parse_candidates(&vec![with_key, without]);
    assert_eq!(
        parsed,
        vec![("12D3KooWpeer".to_string(), "a2VtLWtleQ==".to_string())]
    );
}

#[test]
fn pending_queries_hand_answers_to_subscribers() {
    let mut q = PendingQueries::new();
    assert!(q.subscribers("req-1").is_empty());
    q.register("req-1".to_string(), 7);
    q.register("req-2".to_string(), 8);
    q.register("req-1".to_string(), 9);
    assert_eq!(q.subscribers("req-1"), vec![7, 9]);
    assert_eq!(q.subscribers("req-2"), vec![8]);
    assert!(q.subscribers("req-3").is_empty());
}

#[test]
fn scheduler_replies_only_with_room() {
    let room = CapacityCheck {
        has_capacity: true,
        available_cpu_milli: 1500,
        available_memory_bytes: 2048,
        available_storage_bytes: 4096,
    };
    let p = scheduler_reply_params("req", "me", false, room).expect("reply");
    assert!(p.ok);
    assert_eq!((p.cpu_milli, p.memory_bytes, p.storage_bytes), (1500, 2048, 4096));
    assert_eq!((p.request_id, p.responder_peer, p.region), ("req", "me", "local"));
    assert_eq!(p.capabilities, vec!["default"]);
    assert!(scheduler_reply_params("req", "me", true, room).is_none());
    let full = CapacityCheck { has_capacity: false, ..room };
    assert!(scheduler_reply_params("req", "me", false, full).is_none());
}

#[test]
fn local_capacity_reply_offers_the_request() {
    let p = local_capacity_params("req", "me", 250, 1 << 20, 1 << 30);
    assert!(p.ok);
    assert_eq!((p.cpu_milli, p.memory_bytes, p.storage_bytes), (250, 1 << 20, 1 << 30));
    assert_eq!(p.region, "local");
}
