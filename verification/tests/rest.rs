use base64::Engine;
use beemesh::crypto::{encrypt_payload_for_recipient, ensure_keypair_ephemeral, sign_envelope};
use beemesh::envelope::{EnvelopeError, EnvelopeFields};
use beemesh::replay::{NonceError, NonceStore};
use beemesh::rest::{envelope_layer_status, extract_peer_id, EnvelopeHandler, EnvelopeMetadata, RequestEnvelopeError};

fn kem_keypair() -> (Vec<u8>, Vec<u8>) {
    let kem = saorsa_pqc::api::kem::ml_kem_512();
    let (pubk, privk) = kem.generate_keypair().expect("kem keygen");
    (pubk.to_bytes(), privk.to_bytes())
}

fn b64(data: &[u8]) -> String {
    base64::engine::general_purpose::STANDARD.encode(data)
}

fn signed_envelope(payload: Vec<u8>, nonce: &str) -> (EnvelopeFields, Vec<u8>) {
    let (sender_pub, sender_priv) = ensure_keypair_ephemeral().expect("keygen");
    let mut canonical = b"test|".to_vec();
    canonical.extend_from_slice(nonce.as_bytes());
    canonical.extend_from_slice(&payload);
    let (sig_b64, pub_b64) = sign_envelope(&sender_priv, &sender_pub, &canonical).expect("sign");
    let fields = EnvelopeFields {
        payload,
        payload_type: "test".to_string(),
        nonce: nonce.to_string(),
        ts: 1,
        alg: "ml-dsa-65".to_string(),
        sig: format!("ml-dsa-65:{}", sig_b64),
        pubkey: pub_b64,
    };
    (fields, canonical)
}

#[test]
fn test_envelope_roundtrip() {
    let (recipient_kem_pub, recipient_kem_priv) = kem_keypair();
    let payload = b"test payload data";
    let encrypted_payload =
        encrypt_payload_for_recipient(&recipient_kem_pub, payload).expect("encrypt");
    let (fields, canonical) = signed_envelope(encrypted_payload, "test-nonce-1");

    let handler = EnvelopeHandler::new(recipient_kem_priv, "pk".to_string(), None, None);
    let mut store = NonceStore::new();
    let decrypted = handler
        .decrypt_request_envelope(&mut store, &fields, &canonical, None, 1_000)
        .expect("decrypt");
    assert_eq!(payload.to_vec(), decrypted);

    // The same envelope again is a replay.
    assert_eq!(
        handler.decrypt_request_envelope(&mut store, &fields, &canonical, None, 2_000),
        Err(RequestEnvelopeError::Verification(EnvelopeError::Nonce(NonceError::Replay)))
    );
    // Another peer's nonces are kept apart.
    assert!(handler
        .decrypt_request_envelope(&mut store, &fields, &canonical, Some("peer-x"), 2_000)
        .is_ok());
}

#[test]
fn envelope_for_another_key_is_not_opened() {
    let (kem_pub, _) = kem_keypair();
    let (_, other_priv) = kem_keypair();
    let encrypted = encrypt_payload_for_recipient(&kem_pub, b"x").expect("encrypt");
    let (fields, canonical) = signed_envelope(encrypted, "n-2");
    let handler = EnvelopeHandler::new(other_priv, "pk".to_string(), None, None);
    let mut store = NonceStore::new();
    assert!(matches!(
        handler.decrypt_request_envelope(&mut store, &fields, &canonical, None, 0),
        Err(RequestEnvelopeError::Decryption(_))
    ));
}

#[test]
fn tampered_request_envelope_is_refused() {
    let (kem_pub, kem_priv) = kem_keypair();
    let encrypted = encrypt_payload_for_recipient(&kem_pub, b"x").expect("encrypt");
    let (fields, mut canonical) = signed_envelope(encrypted, "n-3");
    canonical.push(0);
    let handler = EnvelopeHandler::new(kem_priv, "pk".to_string(), None, None);
    let mut store = NonceStore::new();
    assert_eq!(
        handler.decrypt_request_envelope(&mut store, &fields, &canonical, None, 0),
        Err(RequestEnvelopeError::Verification(EnvelopeError::SignatureInvalid))
    );
}

#[test]
fn signing_key_choice() {
    let h = EnvelopeHandler::new(vec![1], "pk".to_string(), Some((vec![2], vec![3])), Some(vec![4]));
    assert_eq!(h.signing_private_key(), Some(&[3u8][..]));
    let h = EnvelopeHandler::new(vec![1], "pk".to_string(), None, Some(vec![4]));
    assert_eq!(h.signing_private_key(), Some(&[4u8][..]));
    let h = EnvelopeHandler::new(vec![1], "pk".to_string(), None, None);
    assert_eq!(h.signing_private_key(), None);
    assert_eq!(h.get_public_key(), "pk");
    assert_eq!(h.kem_private_key(), &[1u8][..]);
}

#[test]
fn response_prechecks() {
    let with_key = EnvelopeHandler::new(vec![], "pk".to_string(), None, Some(vec![4]));
    let without_key = EnvelopeHandler::new(vec![], "pk".to_string(), None, None);
    assert_eq!(
        with_key.response_precheck("p1", &[]),
        Err("No KEM public key provided for peer: p1".to_string())
    );
    assert_eq!(
        without_key.response_precheck("p1", &[7]),
        Err("No signing private key available for peer: p1".to_string())
    );
    assert_eq!(with_key.response_precheck("p1", &[7]), Ok(()));
}

#[test]
fn envelope_metadata() {
    let m = EnvelopeMetadata::from_envelope(Some(&b64(&[1, 2])), Some("%%"), Some("cli-client"));
    assert_eq!(m.signing_pubkey, vec![1, 2]);
    assert!(m.kem_pubkey.is_empty());
    assert_eq!(m.peer_id, Some("cli-client".to_string()));
    assert!(!m.answer_encrypted());
    let m = EnvelopeMetadata::from_envelope(None, Some(&b64(&[9])), Some("p"));
    assert!(m.answer_encrypted());
    let m = EnvelopeMetadata::from_envelope(None, Some(&b64(&[9])), None);
    assert!(!m.answer_encrypted());
    let e = EnvelopeMetadata::empty();
    assert!(e.signing_pubkey.is_empty() && e.kem_pubkey.is_empty() && e.peer_id.is_none());
}

#[test]
fn peer_id_of_request() {
    assert_eq!(extract_peer_id(Some(Some("h")), Some("e")), Some("h".to_string()));
    assert_eq!(extract_peer_id(Some(None), Some("e")), Some("e".to_string()));
    assert_eq!(extract_peer_id(None, Some("e")), Some("e".to_string()));
    assert_eq!(extract_peer_id(None, None), None);
}

#[test]
fn envelope_layer_statuses() {
    let oct = "application/octet-stream";
    assert_eq!(envelope_layer_status("application/json", false, true, false), None);
    assert_eq!(envelope_layer_status(oct, false, false, false), Some(400));
    assert_eq!(envelope_layer_status(oct, true, true, false), Some(401));
    assert_eq!(envelope_layer_status(oct, true, true, true), None);
    assert_eq!(envelope_layer_status(oct, true, false, false), None);
}
