use beemesh::control::{
    announce_attempt_step, announce_failure_message, announce_precheck, bootstrap_due,
    provider_record_key, AnnounceStep,
};
use beemesh::config::Cli;
use beemesh::control::{cleanup_timed_out_manifest_requests, request_timeout_message, ActiveAnnounces};
use beemesh::delete::{delete_outcome, delete_permission, verify_delete_ownership, OwnershipStatus};
use beemesh::error_helpers::{
    control_sender_unavailable, insufficient_key_shares, not_enough_local_key_shares, wrap_send_error,
};
use beemesh::reply::{baseline_capacity_params, warn_missing_kem};
use beemesh::rest::{compute_manifest_id, EnvelopeHandler, FlatbufferEnvelopeBuilder};
use beemesh::signing::{envelope_nonce, fresh_envelope_nonce, make_nonce, request_nonce, SignedEnvelope};

#[test]
fn verify_delete_ownership_unknown_when_unrecorded() {
    assert_eq!(verify_delete_ownership(None, b"any"), OwnershipStatus::Unknown);
    assert_eq!(verify_delete_ownership(Some(&[]), b"any"), OwnershipStatus::Unknown);
}

#[test]
fn verify_delete_ownership_matches_recorded_owner() {
    let owner = vec![1u8, 2, 3];
    assert_eq!(verify_delete_ownership(Some(&owner), &owner), OwnershipStatus::Match);
}

#[test]
fn verify_delete_ownership_detects_mismatch() {
    let owner = vec![4u8, 5, 6];
    assert_eq!(verify_delete_ownership(Some(&owner), &[9u8, 8, 7]), OwnershipStatus::Mismatch);
}

#[test]
fn delete_permissions_and_outcomes() {
    assert_eq!(delete_permission(OwnershipStatus::Match, false), Ok(()));
    assert_eq!(delete_permission(OwnershipStatus::Mismatch, true), Ok(()));
    assert_eq!(
        delete_permission(OwnershipStatus::Mismatch, false),
        Err("ownership verification failed".to_string())
    );
    assert_eq!(
        delete_permission(OwnershipStatus::Unknown, true),
        Err("ownership unknown for manifest on this node".to_string())
    );
    assert_eq!(
        delete_outcome(Ok(vec![])),
        (true, "no workloads found for manifest".to_string(), vec![])
    );
    assert_eq!(
        delete_outcome(Ok(vec!["w1".to_string(), "w2".to_string()])),
        (true, "removed 2 workloads".to_string(), vec!["w1".to_string(), "w2".to_string()])
    );
    assert_eq!(
        delete_outcome(Err("io".to_string())),
        (false, "failed to remove workloads: io".to_string(), vec![])
    );
}

#[test]
fn announce_schedule() {
    let mut table = ActiveAnnounces::new();
    table.record_announced("a".to_string(), 9000, 1000); // due at 1000 + 3000
    table.record_announced("b".to_string(), 3000, 1000); // due at 1000 + 2000
    table.record_announced("c".to_string(), 0, 1000); // never renewed
    assert_eq!(table.list_active_announces(), vec!["a".to_string(), "b".to_string(), "c".to_string()]);
    assert!(table.renew_due(2999).is_empty());
    assert_eq!(table.renew_due(3000), vec!["b".to_string()]);
    assert_eq!(table.renew_due(4000), vec!["a".to_string()]);
    assert_eq!(table.renew_due(5000), vec!["b".to_string()]);
    table.withdraw("b");
    assert_eq!(table.withdraw_all(), vec!["a".to_string(), "c".to_string()]);
    assert!(table.list_active_announces().is_empty());
}

#[test]
fn withdrawn_record_is_not_renewed() {
    let mut table = ActiveAnnounces::new();
    table.record_announced("x".to_string(), 3000, 0);
    table.record_announced("y".to_string(), 3000, 0);
    table.withdraw("x");
    assert_eq!(table.renew_due(10_000), vec!["y".to_string()]);
}

#[test]
fn timed_out_requests_are_dropped() {
    let mut pending = vec![(1u64, 0u64), (2, 4_001), (3, 9_000)];
    let timed_out = cleanup_timed_out_manifest_requests(&mut pending, 9_001);
    // Request 1 waited 9001 ms; request 2 exactly 5000 ms, which is not
    // more than the timeout.
    assert_eq!(timed_out, vec![1]);
    assert_eq!(pending, vec![(2, 4_001), (3, 9_000)]);
    assert_eq!(cleanup_timed_out_manifest_requests(&mut pending, 9_000), Vec::<u64>::new());
    assert_eq!(request_timeout_message(), "Request timeout");
}

#[test]
fn error_messages() {
    assert_eq!(control_sender_unavailable(), "control sender not available");
    assert_eq!(wrap_send_error("apply", "closed"), "failed to send apply control message: closed");
    assert_eq!(
        insufficient_key_shares(1, 3),
        "insufficient key shares after distributed retrieval: have 1 need 3"
    );
    assert_eq!(not_enough_local_key_shares(2), "not enough local key shares - need 2 more");
}

#[test]
fn capacity_baseline() {
    let p = baseline_capacity_params("req-1", "peer-a");
    assert!(p.ok);
    assert_eq!(p.cpu_milli, 1000);
    assert_eq!(p.memory_bytes, 512 * 1024 * 1024);
    assert_eq!(p.storage_bytes, 1024 * 1024 * 1024);
    assert_eq!(p.request_id, "req-1");
    assert_eq!(p.responder_peer, "peer-a");
    assert_eq!(p.region, "local");
    assert_eq!(p.capabilities, vec!["default"]);
    assert_eq!(
        warn_missing_kem("apply", "peer-a", None),
        Some("libp2p: apply capacity reply missing KEM public key for peer-a".to_string())
    );
    assert!(warn_missing_kem("apply", "peer-a", Some("")).is_some());
    assert!(warn_missing_kem("apply", "peer-a", Some("a2V5")).is_none());
}

#[test]
fn nonces_and_signed_envelope() {
    assert_eq!(envelope_nonce("capacity_reply", 0xab), "capacity_reply-00000000000000ab");
    let n = fresh_envelope_nonce("test");
    assert!(n.starts_with("test-"));
    assert_eq!(n.len(), "test-".len() + 16);
    assert_eq!(request_nonce(Some("apply"), 42), "apply_42");
    assert_eq!(request_nonce(None, 7), "nonce_7");
    assert!(make_nonce(None).starts_with("nonce_"));
    let env = SignedEnvelope::new(vec![1, 2], "n".to_string(), 5, "sig".to_string(), "pk".to_string());
    assert_eq!(env.bytes(), &[1, 2]);
    assert_eq!(env.nonce(), "n");
    assert_eq!(env.timestamp_ms(), 5);
    assert_eq!(env.signature_b64(), "sig");
    assert_eq!(env.public_key_b64(), "pk");
    assert_eq!(env.into_bytes(), vec![1, 2]);
}

#[test]
fn rest_records() {
    let h = EnvelopeHandler::with_keys(vec![1], Some(vec![2]), "pub".to_string());
    assert_eq!(h.get_public_key(), "pub");
    assert_eq!(h.kem_private_key(), &[1]);
    assert_eq!(h.signing_private_key(), Some(&[2u8][..]));
    let b = FlatbufferEnvelopeBuilder::with_keys("peer".to_string(), "pk".to_string());
    assert_eq!(b.peer_id(), "peer");
    assert_eq!(b.public_key(), "pk");
    let id = compute_manifest_id("default", "web", "Deployment");
    assert_eq!(id.len(), 16);
    assert_eq!(id, compute_manifest_id("default", "web", "Deployment"));
    assert_ne!(id, compute_manifest_id("default", "web", "Service"));
}

#[test]
fn cli_defaults() {
    let c = Cli::default();
    assert!(!c.ephemeral);
    assert_eq!(c.rest_api_host, "127.0.0.1");
    assert_eq!(c.rest_api_port, 3000);
    assert_eq!(c.api_socket, Some("/run/beemesh/host.sock".to_string()));
    assert_eq!(c.key_dir, "/etc/beemesh/machine");
    assert_eq!(c.libp2p_host, "0.0.0.0");
    assert!(c.bootstrap_peer.is_empty());
}

#[test]
fn schedule_bounds() {
    assert!(ActiveAnnounces::can_schedule(0, u64::MAX - 3_600_000));
    assert!(!ActiveAnnounces::can_schedule(0, u64::MAX - 3_599_999));
    assert!(ActiveAnnounces::can_schedule(9_000, u64::MAX - 3_000));
    assert!(!ActiveAnnounces::can_schedule(9_000, u64::MAX - 2_999));
    let mut table = ActiveAnnounces::new();
    table.record_announced("a".to_string(), 9_000, 0);
    assert!(table.can_renew(u64::MAX - 3_000));
    assert!(!table.can_renew(u64::MAX - 2_999));
}

#[test]
fn provider_announcement_attempts() {
    assert_eq!(
        announce_precheck(0),
        Err("No connected peers for DHT announcement".to_string())
    );
    assert_eq!(announce_precheck(1), Ok(()));
    assert_eq!(announce_attempt_step(1, true), AnnounceStep::Done);
    assert_eq!(announce_attempt_step(1, false), AnnounceStep::RetryAfter(100));
    assert_eq!(announce_attempt_step(2, false), AnnounceStep::RetryAfter(100));
    assert_eq!(announce_attempt_step(3, false), AnnounceStep::GiveUp);
    assert_eq!(announce_attempt_step(3, true), AnnounceStep::Done);
    assert_eq!(announce_failure_message(), "All provider announcement attempts failed");
    assert_eq!(provider_record_key("m1"), "provider:m1");
    assert!(!bootstrap_due(1));
    assert!(bootstrap_due(2));
}

#[test]
fn startup_plans() {
    let mut cli = Cli::default();
    let p = cli.startup_plan();
    assert_eq!(p.keystore_shared_name, None);
    assert!(!p.ephemeral_keys);
    assert_eq!(p.rest_bind_addr, Some("127.0.0.1:3000".to_string()));
    assert_eq!(p.host_api_socket, Some("/run/beemesh/host.sock".to_string()));

    cli.ephemeral = true;
    cli.rest_api_port = 3005;
    cli.disable_machine_api = true;
    let p = cli.startup_plan();
    assert_eq!(p.keystore_shared_name, Some("node_3005".to_string()));
    assert!(p.ephemeral_keys);
    assert_eq!(p.rest_bind_addr, Some("127.0.0.1:3005".to_string()));
    assert_eq!(p.host_api_socket, None);

    cli.disable_rest_api = true;
    cli.disable_machine_api = false;
    cli.api_socket = None;
    let p = cli.startup_plan();
    assert_eq!(p.rest_bind_addr, None);
    assert_eq!(p.host_api_socket, None);
}

#[test]
fn timestamps_are_milliseconds() {
    let before = std::time::SystemTime::now()
        .duration_since(std::time::UNIX_EPOCH)
        .unwrap()
        .as_millis() as u64;
    let t = beemesh::signing::make_timestamp_ms();
    let after = std::time::SystemTime::now()
        .duration_since(std::time::UNIX_EPOCH)
        .unwrap()
        .as_millis() as u64;
    assert!(before <= t && t <= after);
}
