use base64::Engine;
use beemesh::keyshare::{
    announcements_after_store, capability_metadata, decode_shares, fetch_capability_bytes,
    fetch_reply, is_recipient_blob, manifest_provider_cid, own_keyshares_bytes,
    own_share_bytes_to_store, received_keyshares_bytes, received_share_plan, KeyshareReply,
    SharePlan,
};

fn b64(data: &[u8]) -> String {
    base64::engine::general_purpose::STANDARD.encode(data)
}

#[test]
fn fetch_capability_cases() {
    assert_eq!(fetch_capability_bytes(None), Err(KeyshareReply::MissingCapability));
    assert_eq!(fetch_capability_bytes(Some("!!")), Err(KeyshareReply::InvalidCapability));
    assert_eq!(fetch_capability_bytes(Some(&b64(b"cap"))), Ok(b"cap".to_vec()));
}

#[test]
fn fetch_reply_cases() {
    let found = fetch_reply(Some(b"share"));
    assert_eq!(found, KeyshareReply::FetchFound(b64(b"share")));
    assert!(found.ok());
    assert_eq!(found.operation(), "fetch");
    assert_eq!(found.message(), b64(b"share"));
    let missing = fetch_reply(None);
    assert!(!missing.ok());
    assert_eq!(missing.operation(), "fetch");
    assert_eq!(missing.message(), "not_found");
}

#[test]
fn reply_texts() {
    let cases = [
        (KeyshareReply::MissingCapability, false, "fetch", "missing_capability"),
        (KeyshareReply::InvalidCapability, false, "fetch", "invalid_capability"),
        (KeyshareReply::StoredSimpleShare, true, "keyshare_op", "stored simple share"),
        (KeyshareReply::StorageEncryptionFailed, false, "keyshare_op", "encryption for storage failed"),
        (KeyshareReply::Decapsulated, true, "keyshare_op", "decapsulated, stored and announced"),
        (KeyshareReply::DecapsulationFailed, false, "keyshare_op", "decapsulation failed"),
        (KeyshareReply::KemKeyUnavailable, false, "keyshare_op", "server kem key unavailable"),
        (KeyshareReply::EnvelopeVerificationFailed, false, "keyshare_op", "envelope verification failed"),
        (KeyshareReply::UnsupportedPayloadFormat, false, "keyshare_op", "unsupported_payload_format"),
        (KeyshareReply::InvalidRecipientBlob, false, "keyshare_op", "invalid recipient blob"),
    ];
    for (reply, ok, op, msg) in cases {
        assert_eq!(reply.ok(), ok);
        assert_eq!(reply.operation(), op);
        assert_eq!(reply.message(), msg);
    }
}

#[test]
fn keys_for_capabilities() {
    assert_eq!(capability_metadata("m1"), "capability:m1");
    assert_eq!(manifest_provider_cid("m1"), "manifest:m1");
}

#[test]
fn recipient_blob_detection() {
    assert!(is_recipient_blob(&[0x02, 0x00]));
    assert!(!is_recipient_blob(&[0x01, 0x02]));
    assert!(!is_recipient_blob(&[]));
}

#[test]
fn share_plans() {
    assert_eq!(
        received_share_plan("capability", Some("task-9")),
        SharePlan::Whole(Some("capability:task-9".to_string()))
    );
    assert_eq!(received_share_plan("capability", None), SharePlan::Whole(None));
    assert_eq!(received_share_plan("keyshare", Some("x")), SharePlan::Split);
    assert_eq!(received_share_plan("", None), SharePlan::Whole(None));
    assert_eq!(
        received_share_plan("manifest", None),
        SharePlan::Whole(Some("manifest".to_string()))
    );
}

#[test]
fn keyshares_bytes_of_payloads() {
    let encoded = b64(b"shares-record");
    assert_eq!(received_keyshares_bytes(encoded.as_bytes()), b"shares-record".to_vec());
    assert_eq!(received_keyshares_bytes(b"not base64!"), b"not base64!".to_vec());
    assert_eq!(received_keyshares_bytes(&[0xff, 0x00]), vec![0xff, 0x00]);

    assert_eq!(own_keyshares_bytes(encoded.as_bytes()), Some(b"shares-record".to_vec()));
    assert_eq!(own_keyshares_bytes(b"not base64!"), Some(b"not base64!".to_vec()));
    assert_eq!(own_keyshares_bytes(&[0xff, 0x00]), None);
}

#[test]
fn shares_that_decode_are_kept_in_order() {
    let shares = vec![b64(&[1]), "%%".to_string(), b64(&[2, 3]), String::new()];
    assert_eq!(decode_shares(&shares), vec![vec![1], vec![2, 3], vec![]]);
    assert!(decode_shares(&Vec::new()).is_empty());
}

#[test]
fn announcements() {
    assert_eq!(
        announcements_after_store("cid1", Some("capability:m7")),
        vec!["manifest:m7".to_string(), "cid1".to_string()]
    );
    assert_eq!(announcements_after_store("cid1", Some("m7")), vec!["cid1".to_string()]);
    assert_eq!(announcements_after_store("cid1", None), vec!["cid1".to_string()]);
    assert_eq!(
        announcements_after_store("cid1", Some("capability:")),
        vec!["manifest:".to_string(), "cid1".to_string()]
    );
}

#[test]
fn own_share_bytes() {
    assert_eq!(own_share_bytes_to_store("capability", &[1, 2], &[3]), vec![1, 2]);
    assert_eq!(own_share_bytes_to_store("keyshare", &[1, 2], &[3]), vec![3]);
}
