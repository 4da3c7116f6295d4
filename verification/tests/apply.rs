use base64::Engine;
use beemesh::apply::{
    deployment_env, deployment_replicas,
    admitted_apply_request, apply_dispatch_reply, apply_manifest_id, apply_response_fields,
    applied_manifest_record, decrypt_manifest_from_envelope_payload, dht_get_result,
    dht_store_result, envelope_manifest_payload, outgoing_apply_manifest_id,
    remote_capability_grant, EnvelopeManifestError, ManifestDecryptError,
};
use beemesh::crypto::{encrypt_payload_for_recipient, BlobDecryptError};
use std::collections::hash_map::DefaultHasher;
use std::hash::{Hash, Hasher};

fn kem_keypair() -> (Vec<u8>, Vec<u8>) {
    let kem = saorsa_pqc::api::kem::ml_kem_512();
    let (pubk, privk) = kem.generate_keypair().expect("kem keygen");
    (pubk.to_bytes(), privk.to_bytes())
}

fn b64(data: &[u8]) -> String {
    base64::engine::general_purpose::STANDARD.encode(data)
}

#[test]
fn test_recipient_blob_envelope_payload_decrypts() {
    let manifest_yaml = "apiVersion: v1\nkind: Pod\nmetadata:\n  name: test-pod\nspec:\n  containers:\n  - name: nginx\n    image: nginx:latest\n";
    let (kem_pub, kem_priv) = kem_keypair();
    let recipient_blob =
        encrypt_payload_for_recipient(&kem_pub, manifest_yaml.as_bytes()).expect("encrypt");
    let decrypted =
        decrypt_manifest_from_envelope_payload(&recipient_blob, &kem_priv).expect("decrypt");
    assert_eq!(decrypted, manifest_yaml);
}

#[test]
fn envelope_payload_must_be_a_recipient_blob() {
    let (_kem_pub, kem_priv) = kem_keypair();
    assert_eq!(
        decrypt_manifest_from_envelope_payload(&[], &kem_priv),
        Err(ManifestDecryptError::UnsupportedPayloadFormat)
    );
    assert_eq!(
        decrypt_manifest_from_envelope_payload(&[0x01, 0, 0], &kem_priv),
        Err(ManifestDecryptError::UnsupportedPayloadFormat)
    );
}

#[test]
fn envelope_payload_for_another_key_does_not_decrypt() {
    let (kem_pub, _kem_priv) = kem_keypair();
    let (_other_pub, other_priv) = kem_keypair();
    let blob = encrypt_payload_for_recipient(&kem_pub, b"manifest").expect("encrypt");
    assert!(matches!(
        decrypt_manifest_from_envelope_payload(&blob, &other_priv),
        Err(ManifestDecryptError::Blob(
            BlobDecryptError::Decapsulation | BlobDecryptError::Decryption
        ))
    ));
}

#[test]
fn decrypted_manifest_must_be_text() {
    let (kem_pub, kem_priv) = kem_keypair();
    let blob = encrypt_payload_for_recipient(&kem_pub, &[0xff, 0xfe, 0x00]).expect("encrypt");
    assert_eq!(
        decrypt_manifest_from_envelope_payload(&blob, &kem_priv),
        Err(ManifestDecryptError::NotUtf8)
    );
}

fn expected_id(t: &str, o: &str, m: &str) -> String {
    let mut hasher = DefaultHasher::new();
    t.hash(&mut hasher);
    o.hash(&mut hasher);
    m.hash(&mut hasher);
    format!("{:x}", hasher.finish())
}

#[test]
fn apply_manifest_id_is_hash_of_fields() {
    assert_eq!(apply_manifest_id("tenant", "op-1", "{}"), expected_id("tenant", "op-1", "{}"));
    assert_ne!(apply_manifest_id("tenant", "op-1", "{}"), apply_manifest_id("tenant", "op-2", "{}"));
    assert_eq!(
        outgoing_apply_manifest_id(Some(("a", "b", "c")), b"raw"),
        expected_id("a", "b", "c")
    );
    let raw = b"raw request".to_vec();
    let mut hasher = DefaultHasher::new();
    raw.hash(&mut hasher);
    assert_eq!(outgoing_apply_manifest_id(None, &raw), format!("{:x}", hasher.finish()));
}

#[test]
fn apply_request_admission() {
    assert_eq!(admitted_apply_request(Some(vec![1, 2]), true, &[9]), Ok(vec![1, 2]));
    assert_eq!(
        admitted_apply_request(None, true, &[9]),
        Err("unsigned or invalid envelope".to_string())
    );
    assert_eq!(admitted_apply_request(None, false, &[9]), Ok(vec![9]));
}

#[test]
fn apply_response_and_reply_texts() {
    assert_eq!(
        apply_response_fields(true, Some("op")),
        (true, "op".to_string(), "Successfully applied manifest and stored in DHT".to_string())
    );
    assert_eq!(
        apply_response_fields(false, None),
        (false, "unknown".to_string(), "Failed to apply manifest".to_string())
    );
    assert_eq!(apply_dispatch_reply(true, "p1"), "Apply request handled locally for p1");
    assert_eq!(apply_dispatch_reply(false, "p1"), "Apply request sent to p1");
}

#[test]
fn envelope_manifest_payload_cases() {
    assert_eq!(envelope_manifest_payload(Some("manifest"), Some(&[1, 2])), Ok(vec![1, 2]));
    assert_eq!(
        envelope_manifest_payload(Some("manifest"), None),
        Err(EnvelopeManifestError::MissingPayload)
    );
    let e = envelope_manifest_payload(Some("keyshare"), Some(&[1])).unwrap_err();
    assert_eq!(e.message(), "Wrong payload type: 'keyshare', expected 'manifest'");
    let e = envelope_manifest_payload(None, Some(&[1])).unwrap_err();
    assert_eq!(e, EnvelopeManifestError::WrongPayloadType(String::new()));
    assert_eq!(EnvelopeManifestError::MissingPayload.message(), "Envelope missing payload");
}

#[test]
fn capability_grant_lasts_an_hour() {
    let g = remote_capability_grant("m1", "issuer", "peer", 1_000);
    assert_eq!(g.task_id, "m1");
    assert_eq!(g.issuer_peer_id, "issuer");
    assert_eq!(g.authorized_peer, "peer");
    assert_eq!(g.required_quorum, 1);
    assert_eq!(g.issued_at_ms, 1_000);
    assert_eq!(g.expires_at_ms, 3_601_000);
}

#[test]
fn test_build_applied_manifest_includes_owner() {
    let manifest_json = format!(
        "{{\"pubkey\":\"{}\",\"sig\":\"ml-dsa-65:{}\"}}",
        b64(&[1, 2, 3]),
        b64(&[9, 8, 7])
    );
    let pubkey = b64(&[1, 2, 3]);
    let sig = format!("ml-dsa-65:{}", b64(&[9, 8, 7]));
    let rec = applied_manifest_record(
        "t",
        "op",
        "local-peer",
        &manifest_json,
        Some(&pubkey),
        Some(&sig),
        "Test",
        0,
    )
    .expect("record");
    assert_eq!(rec.owner_pubkey.len(), 3);
    assert_eq!(rec.owner_signature.len(), 3);
    assert_eq!(rec.owner_pubkey, vec![1, 2, 3]);
    assert_eq!(rec.owner_signature, vec![9, 8, 7]);
    assert_eq!(rec.manifest_id, expected_id("t", "op", &manifest_json));
    let mut content_hasher = DefaultHasher::new();
    manifest_json.hash(&mut content_hasher);
    assert_eq!(rec.content_hash, format!("{:x}", content_hasher.finish()));
    assert_eq!(rec.ttl_secs, 3600);
    assert_eq!(
        rec.labels,
        vec![
            ("deployed-by".to_string(), "beemesh-node".to_string()),
            ("kind".to_string(), "Test".to_string()),
            ("tenant".to_string(), "t".to_string()),
        ]
    );
}

#[test]
fn applied_manifest_record_edge_cases() {
    let rec = applied_manifest_record("t", "op", "p", "{}", Some("%%%"), None, "Pod", 5).unwrap();
    assert!(rec.owner_pubkey.is_empty());
    assert!(rec.owner_signature.is_empty());
    assert_eq!(rec.timestamp_ms, 5);
    let err = applied_manifest_record("t", "op", "p", "{}", None, Some("x:%%%"), "Pod", 5)
        .unwrap_err();
    assert_eq!(err, "failed to decode signature: failed to base64-decode signature");
}

#[test]
fn dht_results() {
    assert_eq!(dht_store_result("m".to_string(), Some(Ok(()))), Ok("m".to_string()));
    assert_eq!(
        dht_store_result("m".to_string(), Some(Err("x".to_string()))),
        Err("Failed to store manifest in DHT: x".to_string())
    );
    assert_eq!(
        dht_store_result("m".to_string(), None),
        Err("DHT store operation was cancelled".to_string())
    );
    assert_eq!(dht_get_result(Some(Ok(Some(vec![1])))), Ok(Some(vec![1])));
    assert_eq!(dht_get_result(Some(Ok(None))), Ok(None));
    assert_eq!(
        dht_get_result(Some(Err("y".to_string()))),
        Err("Failed to get manifest from DHT: y".to_string())
    );
    assert_eq!(dht_get_result(None), Err("DHT get operation was cancelled".to_string()));
}

#[test]
fn deployment_settings_from_manifest() {
    assert_eq!(deployment_replicas(None), 1);
    assert_eq!(deployment_replicas(Some(3)), 3);
    assert_eq!(deployment_replicas(Some((1u64 << 32) + 5)), 5);
    let some = |s: &str| Some(s.to_string());
    let vars = vec![
        (some("A"), some("1")),
        (some("B"), None),
        (None, some("x")),
        (some("C"), some("3")),
        (some("A"), some("2")),
    ];
    let env = deployment_env(&vars);
    assert_eq!(
        env,
        vec![("A".to_string(), "2".to_string()), ("C".to_string(), "3".to_string())]
    );
    assert!(deployment_env(&vec![]).is_empty());
}
