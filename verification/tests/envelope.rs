use base64::Engine;
use beemesh::crypto::{ensure_keypair_ephemeral, normalize_and_decode_signature, sign_envelope};
use beemesh::envelope::{
    verify_envelope_and_check_nonce, verify_envelope_and_check_nonce_for_peer,
    verify_flatbuffer_envelope, verify_flatbuffer_envelope_skip_nonce_check,
    verify_signed_payload_for_peer, EnvelopeError, EnvelopeFields, EnvelopeRejection,
};
use beemesh::replay::{NonceError, NonceStore};

#[test]
fn test_nonce_replay_protection() {
    let mut store = NonceStore::new();
    let nonce = "test-nonce-unique";
    let window = 60_000; // one minute, in ms
    let now = 1_000_000;

    // First use should succeed
    assert!(store.check_and_insert_nonce(nonce, window, now).is_ok());

    // Second use should fail (replay)
    assert!(store.check_and_insert_nonce(nonce, window, now).is_err());
}

#[test]
fn test_signature_prefix_handling() {
    // Test with prefix
    let sig_with_prefix = "ml-dsa-65:dGVzdA=="; // "test" in base64
    let decoded = normalize_and_decode_signature(Some(sig_with_prefix)).unwrap();
    assert_eq!(decoded, b"test");

    // Test without prefix
    let sig_without_prefix = "dGVzdA==";
    let decoded = normalize_and_decode_signature(Some(sig_without_prefix)).unwrap();
    assert_eq!(decoded, b"test");
}

#[test]
fn bad_signature_text_is_refused() {
    assert_eq!(
        normalize_and_decode_signature(Some("ml-dsa-65:!!not base64!!")),
        Err("failed to base64-decode signature".to_string())
    );
    assert_eq!(normalize_and_decode_signature(None), Ok(Vec::new()));
}

#[test]
fn nonce_window_and_peers() {
    let mut store = NonceStore::new();
    assert_eq!(store.check_and_insert_nonce_for_peer("", 1000, "p", 0), Err(NonceError::EmptyNonce));
    assert!(store.check_and_insert_nonce_for_peer("n1", 1000, "p", 0).is_ok());
    // Another peer may use the same nonce.
    assert!(store.check_and_insert_nonce_for_peer("n1", 1000, "q", 0).is_ok());
    // Within the window the nonce is a replay.
    assert_eq!(store.check_and_insert_nonce_for_peer("n1", 1000, "p", 1000), Err(NonceError::Replay));
    // After the window it is accepted again.
    assert!(store.check_and_insert_nonce_for_peer("n1", 1000, "p", 2001).is_ok());
    assert_eq!(NonceError::Replay.message(), "replay detected: nonce already seen");
    assert_eq!(NonceError::EmptyNonce.message(), "nonce cannot be empty");
}

fn signed_fields(canonical: &[u8], nonce: &str) -> EnvelopeFields {
    let (pubb, privb) = ensure_keypair_ephemeral().expect("keypair");
    let (sig_b64, pub_b64) = sign_envelope(&privb, &pubb, canonical).expect("sign");
    EnvelopeFields {
        payload: b"test payload data".to_vec(),
        payload_type: "test".to_string(),
        nonce: nonce.to_string(),
        ts: 1234567890,
        alg: "ml-dsa-65".to_string(),
        sig: format!("ml-dsa-65:{}", sig_b64),
        pubkey: pub_b64,
    }
}

#[test]
fn signed_envelope_verifies_once() {
    let canonical = b"canonical envelope bytes";
    let fields = signed_fields(canonical, "nonce-1");
    let mut store = NonceStore::new();
    let (payload, pubkey, sig) =
        verify_flatbuffer_envelope(&mut store, &fields, canonical, 300_000, 10).expect("verify");
    assert_eq!(payload, b"test payload data");
    assert_eq!(
        base64::engine::general_purpose::STANDARD.encode(&pubkey),
        fields.pubkey
    );
    assert_eq!(sig.len(), 3309);
    // The same envelope again is a replay.
    assert_eq!(
        verify_flatbuffer_envelope(&mut store, &fields, canonical, 300_000, 11),
        Err(EnvelopeError::Nonce(NonceError::Replay))
    );
}

#[test]
fn tampered_envelope_is_refused() {
    let canonical = b"canonical envelope bytes";
    let fields = signed_fields(canonical, "");
    let mut store = NonceStore::new();
    assert_eq!(
        verify_envelope_and_check_nonce_for_peer(&mut store, &fields, b"other bytes", "peer", 5),
        Err(EnvelopeError::SignatureInvalid)
    );
    let mut bad = fields.clone();
    bad.pubkey = "%%%".to_string();
    assert_eq!(
        verify_envelope_and_check_nonce_for_peer(&mut store, &bad, canonical, "peer", 5),
        Err(EnvelopeError::PublicKeyEncoding)
    );
    let mut bad = fields.clone();
    bad.sig = "ml-dsa-65:%%%".to_string();
    match verify_signed_payload_for_peer(&mut store, &bad, canonical, "peer", 5) {
        Err(rejection) => {
            assert_eq!(rejection.message(), "signed message required: failed to base64-decode signature");
            assert!(matches!(rejection, EnvelopeRejection::SignatureRequired(EnvelopeError::SignatureEncoding)));
        }
        Ok(_) => panic!("a bad signature must be refused"),
    }
    assert_eq!(EnvelopeError::SignatureInvalid.message(), "flatbuffer signature verification failed");
}

#[test]
fn global_nonces_and_skipped_nonce_check() {
    let canonical = b"canonical bytes for the global peer";
    let fields = signed_fields(canonical, "global-nonce");
    let mut store = NonceStore::new();
    assert!(verify_envelope_and_check_nonce(&mut store, &fields, canonical, 0).is_ok());
    // Within five minutes the nonce is a replay; after them it is accepted.
    assert_eq!(
        verify_envelope_and_check_nonce(&mut store, &fields, canonical, 299_999),
        Err(EnvelopeError::Nonce(NonceError::Replay))
    );
    assert!(verify_envelope_and_check_nonce(&mut store, &fields, canonical, 300_001).is_ok());
    // Without the nonce check the same envelope verifies any number of times.
    assert!(verify_flatbuffer_envelope_skip_nonce_check(&fields, canonical).is_ok());
    assert!(verify_flatbuffer_envelope_skip_nonce_check(&fields, canonical).is_ok());
    assert_eq!(
        verify_flatbuffer_envelope_skip_nonce_check(&fields, b"tampered"),
        Err(EnvelopeError::SignatureInvalid)
    );
}

#[test]
fn test_build_and_verify_flatbuffer_envelope_roundtrip() {
    let (pubb, privb) = ensure_keypair_ephemeral().expect("keypair");
    let payload = b"test payload data";
    let nonce = format!(
        "test-nonce-{}",
        std::time::SystemTime::now()
            .duration_since(std::time::UNIX_EPOCH)
            .unwrap()
            .as_nanos()
    );
    // The canonical bytes the signature covers: payload, type, nonce,
    // timestamp and algorithm.
    let mut canonical = payload.to_vec();
    canonical.extend_from_slice(b"test");
    canonical.extend_from_slice(nonce.as_bytes());
    canonical.extend_from_slice(&1234567890u64.to_be_bytes());
    canonical.extend_from_slice(b"ml-dsa-65");
    let (sig_b64, pub_b64) = sign_envelope(&privb, &pubb, &canonical).expect("sign");
    let fields = EnvelopeFields {
        payload: payload.to_vec(),
        payload_type: "test".to_string(),
        nonce,
        ts: 1234567890,
        alg: "ml-dsa-65".to_string(),
        sig: sig_b64,
        pubkey: pub_b64,
    };
    let mut store = NonceStore::new();
    let (payload_bytes, _pub, _sig) =
        verify_flatbuffer_envelope(&mut store, &fields, &canonical, 300_000, 1).expect("verify");
    assert_eq!(payload_bytes, payload);
}
