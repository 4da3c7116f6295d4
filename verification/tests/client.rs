use base64::Engine;
use beemesh::client::{
    answer_may_be_envelope, apply_direct_url, candidate_entries, candidates_url,
    check_candidate_count, cli_manifest_id, decrypt_from_machine, default_tenant, delete_body,
    kem_pubkey_url, machine_key_from_answer, parse_candidate_list, per_node_manifest,
    per_node_replicas_field, requested_replicas, task_url, ReplicasField,
    trim_trailing_slashes, ManifestAction,
};
use beemesh::crypto::encrypt_payload_for_recipient;
use std::collections::hash_map::DefaultHasher;
use std::hash::{Hash, Hasher};

#[test]
fn manifest_id_hashes_key_and_name() {
    let pk = vec![1u8, 2, 3, 4, 5, 6, 7, 8];
    let mut h = DefaultHasher::new();
    pk.hash(&mut h);
    "nginx".to_string().hash(&mut h);
    let expected = format!("{:016x}", h.finish())[..16].to_string();
    assert_eq!(cli_manifest_id(&pk, Some("nginx"), ManifestAction::Deployment), Ok(expected.clone()));
    assert_eq!(cli_manifest_id(&pk, Some("nginx"), ManifestAction::Deletion), Ok(expected));
    assert_ne!(
        cli_manifest_id(&pk, Some("nginx"), ManifestAction::Deployment),
        cli_manifest_id(&[9], Some("nginx"), ManifestAction::Deployment)
    );
}

#[test]
fn manifest_without_name_is_refused() {
    assert_eq!(
        cli_manifest_id(&[1], None, ManifestAction::Deployment),
        Err("Manifest must have a name field in metadata for deployment".to_string())
    );
    assert_eq!(
        cli_manifest_id(&[1], None, ManifestAction::Deletion),
        Err("Manifest must have a name field in metadata for deletion".to_string())
    );
}

#[test]
fn replicas_and_candidate_counts() {
    assert_eq!(requested_replicas(Some(3), Some(5)), 3);
    assert_eq!(requested_replicas(None, Some(5)), 5);
    assert_eq!(requested_replicas(None, None), 1);
    assert_eq!(
        check_candidate_count(0, 1),
        Err("No candidate nodes available for scheduling".to_string())
    );
    assert_eq!(
        check_candidate_count(2, 3),
        Err("Not enough candidate nodes available: need 3, got 2".to_string())
    );
    assert_eq!(check_candidate_count(3, 3), Ok(()));
}

#[test]
fn candidate_list_parsing() {
    let peers = vec![
        "peer1:dGVzdF9wdWJrZXlfMQ==".to_string(),
        "peer2:".to_string(),
        "peer3:a:b".to_string(),
    ];
    assert_eq!(
        parse_candidate_list(&peers),
        Ok(vec![
            ("peer1".to_string(), "dGVzdF9wdWJrZXlfMQ==".to_string()),
            ("peer2".to_string(), String::new()),
            ("peer3".to_string(), "a:b".to_string()),
        ])
    );
    let bad = vec!["peer1:k".to_string(), "invalid_peer_format".to_string(), "x".to_string()];
    assert_eq!(
        parse_candidate_list(&bad),
        Err("Invalid candidate format: expected 'peer_id:pubkey_b64', got 'invalid_peer_format'"
            .to_string())
    );
}

#[test]
fn urls() {
    assert_eq!(trim_trailing_slashes("http://h:3000///"), "http://h:3000");
    assert_eq!(trim_trailing_slashes(""), "");
    assert_eq!(
        apply_direct_url("http://h/", &default_tenant(), "node1"),
        "http://h/tenant/00000000-0000-0000-0000-000000000000/apply_direct/node1"
    );
    assert_eq!(task_url("http://h", "t", "m1"), "http://h/tenant/t/tasks/m1");
    assert_eq!(candidates_url("http://h//", "m1"), "http://h/tasks/m1/candidates");
    assert_eq!(kem_pubkey_url("http://h/"), "http://h//api/v1/kem_pubkey");
    assert_eq!(delete_body(true), "force=true");
    assert_eq!(delete_body(false), "");
}

#[test]
fn machine_key_answers() {
    let key = vec![7u8; 800];
    let b64 = base64::engine::general_purpose::STANDARD.encode(&key);
    assert_eq!(machine_key_from_answer(&b64), Ok(key));
    assert_eq!(
        machine_key_from_answer("ERROR: Failed to get KEM public key: x"),
        Err("Machine returned error: ERROR: Failed to get KEM public key: x".to_string())
    );
    let err = machine_key_from_answer("not base64!").unwrap_err();
    assert!(err.starts_with("Failed to decode public key: "));
}

#[test]
fn candidate_entries_of_answer() {
    let c = vec![
        (Some("p1".to_string()), Some("k1".to_string())),
        (None, Some("k2".to_string())),
        (Some("p3".to_string()), None),
    ];
    assert_eq!(candidate_entries(&c), vec!["p1:k1".to_string(), "p3:".to_string()]);
}

#[test]
fn machine_payloads() {
    assert!(!answer_may_be_envelope(100, true));
    assert!(answer_may_be_envelope(101, true));
    assert!(!answer_may_be_envelope(500, false));

    let kem = saorsa_pqc::api::kem::ml_kem_512();
    let (pubk, privk) = kem.generate_keypair().expect("kem keygen");
    let blob = encrypt_payload_for_recipient(&pubk.to_bytes(), b"answer").unwrap();
    assert_eq!(decrypt_from_machine(&blob, &privk.to_bytes()), Ok(b"answer".to_vec()));
    assert_eq!(decrypt_from_machine(b"plain", &privk.to_bytes()), Ok(b"plain".to_vec()));
}

fn scheduler_input_peers() -> Vec<String> {
    vec![
        "peer1:dGVzdF9wdWJrZXlfMQ==".to_string(),
        "peer2:dGVzdF9wdWJrZXlfMg==".to_string(),
        "peer3:dGVzdF9wdWJrZXlfMw==".to_string(),
        "peer4:dGVzdF9wdWJrZXlfNA==".to_string(),
    ]
}

// The scheduling half of this test needs the scheduler crate, which is not
// part of this build; the parsing half and the replica check stand here.
#[test]
fn lib_test_candidate_parsing_and_scheduling() {
    let peers = scheduler_input_peers();
    let parsed = parse_candidate_list(&peers).expect("well-formed candidates");
    assert_eq!(parsed.len(), peers.len());
    assert_eq!(parsed[0], ("peer1".to_string(), "dGVzdF9wdWJrZXlfMQ==".to_string()));
    assert_eq!(parsed[3], ("peer4".to_string(), "dGVzdF9wdWJrZXlfNA==".to_string()));
    assert!(check_candidate_count(parsed.len(), 2).is_ok());
}

#[test]
fn mod_test_candidate_parsing_and_scheduling() {
    let peers = scheduler_input_peers();
    let parsed = parse_candidate_list(&peers).expect("well-formed candidates");
    let ids: Vec<&str> = parsed.iter().map(|(p, _)| p.as_str()).collect();
    assert_eq!(ids, vec!["peer1", "peer2", "peer3", "peer4"]);
    assert_eq!(parsed[1].1, "dGVzdF9wdWJrZXlfMg==");
    assert!(check_candidate_count(parsed.len(), 2).is_ok());
}

#[test]
fn each_node_gets_one_replica() {
    let spec = r#"{"kind":"Deployment","spec":{"replicas":3,"template":{}}}"#;
    let out: serde_json::Value = serde_json::from_str(&per_node_manifest(spec).unwrap()).unwrap();
    assert_eq!(out["spec"]["replicas"], 1);
    assert_eq!(out["kind"], "Deployment");
    let top = r#"{"name":"x","replicas":4}"#;
    let out: serde_json::Value = serde_json::from_str(&per_node_manifest(top).unwrap()).unwrap();
    assert_eq!(out["replicas"], 1);
    let odd = r#"{"spec":"text","replicas":4}"#;
    let out: serde_json::Value = serde_json::from_str(&per_node_manifest(odd).unwrap()).unwrap();
    assert_eq!(out["replicas"], 4);
    let none = r#"{"name":"x"}"#;
    let out: serde_json::Value = serde_json::from_str(&per_node_manifest(none).unwrap()).unwrap();
    assert!(out.get("replicas").is_none());
    assert_eq!(per_node_manifest("not json"), None);
    assert_eq!(per_node_replicas_field(true, true, true), ReplicasField::InSpec);
    assert_eq!(per_node_replicas_field(true, false, true), ReplicasField::Untouched);
    assert_eq!(per_node_replicas_field(false, false, true), ReplicasField::TopLevel);
    assert_eq!(per_node_replicas_field(false, false, false), ReplicasField::Untouched);
}
