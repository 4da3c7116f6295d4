use beemesh::keystore_helper::{
    keystore_entry_type, keystore_location, KeystoreError, KeystoreHelper, KeystoreLocation,
    KeystoreStatistics,
};

#[test]
fn test_keystore_error_display() {
    let error = KeystoreError::AccessFailed("test error".to_string());
    assert!(error.message().contains("test error"));

    let error = KeystoreError::EncryptionFailed("encrypt fail".to_string());
    assert!(error.message().contains("encrypt fail"));

    let error = KeystoreError::DecryptionFailed("decrypt fail".to_string());
    assert!(error.message().contains("decrypt fail"));

    let error = KeystoreError::ShareNotFound("not found".to_string());
    assert!(error.message().contains("not found"));

    let error = KeystoreError::InvalidShareData("invalid".to_string());
    assert!(error.message().contains("invalid"));

    let error = KeystoreError::KeypairFailed("keypair error".to_string());
    assert!(error.message().contains("keypair error"));
}

#[test]
fn test_keystore_statistics() {
    let stats = KeystoreStatistics {
        total_shares: 10,
        total_manifests: 5,
        manifests: vec!["manifest1".to_string(), "manifest2".to_string()],
    };

    assert_eq!(stats.total_shares, 10);
    assert_eq!(stats.total_manifests, 5);
    assert_eq!(stats.manifests.len(), 2);
}

#[test]
fn test_safe_wrappers() {
    // Without a keystore the store and the retrieval fail; the safe
    // wrappers turn the failure into `None` instead of panicking.
    let result = KeystoreHelper::try_store_encrypted_share(Err(KeystoreError::AccessFailed(
        "keystore open failed".to_string(),
    )));
    assert!(result.is_none());

    let result = KeystoreHelper::try_retrieve_and_decrypt_share(Err(KeystoreError::AccessFailed(
        "keystore open failed".to_string(),
    )));
    assert!(result.is_none());
}

#[test]
fn keystore_error_texts_are_exact() {
    assert_eq!(
        KeystoreError::AccessFailed("x".to_string()).message(),
        "Keystore access failed: x"
    );
    assert_eq!(KeystoreError::EncryptionFailed("x".to_string()).message(), "Encryption failed: x");
    assert_eq!(KeystoreError::DecryptionFailed("x".to_string()).message(), "Decryption failed: x");
    assert_eq!(KeystoreError::ShareNotFound("x".to_string()).message(), "Share not found: x");
    assert_eq!(KeystoreError::InvalidShareData("x".to_string()).message(), "Invalid share data: x");
    assert_eq!(
        KeystoreError::KeypairFailed("x".to_string()).message(),
        "Keypair operation failed: x"
    );
}

#[test]
fn share_metadata_formats() {
    assert_eq!(KeystoreHelper::share_metadata("m1", None), "manifest_id=m1");
    assert_eq!(
        KeystoreHelper::share_metadata("m1", Some("type=manifest")),
        "manifest_id=m1;type=manifest"
    );
    assert_eq!(KeystoreHelper::capability_manifest_id("tok"), "capability_tok");
    assert_eq!(KeystoreHelper::capability_metadata(), "type=capability");
    assert_eq!(KeystoreHelper::manifest_metadata(), "type=manifest");
    assert_eq!(KeystoreHelper::batch_share_metadata("s7"), "type=share;share_id=s7");
}

#[test]
fn list_manifests_reads_the_metadata() {
    let meta = |s: &str| Some(s.to_string());
    let rows = vec![
        meta("manifest_id=m1"),
        None,
        meta("manifest_id=m2;type=share;share_id=3"),
        meta("capability:m9"),
        meta("manifest_id=m1;type=manifest"),
        meta("manifest_id="),
        meta("manifest_id=m3"),
    ];
    let manifests = KeystoreHelper::list_manifests(&rows);
    assert_eq!(manifests, vec!["m1".to_string(), "m2".to_string(), "m3".to_string()]);
    let stats = KeystoreHelper::get_statistics(&rows);
    assert_eq!(stats.total_shares, 7);
    assert_eq!(stats.total_manifests, 3);
    assert_eq!(stats.manifests, manifests);
    // The metadata written for a stored share names its manifest.
    let written = KeystoreHelper::share_metadata("m1", None);
    assert_eq!(KeystoreHelper::list_manifests(&vec![Some(written)]), vec!["m1".to_string()]);
    assert_eq!(KeystoreHelper::metadata_manifest_id("type=share"), None);
}

#[test]
fn delete_operations_are_refused() {
    match KeystoreHelper::delete_share("cid") {
        Err(KeystoreError::AccessFailed(d)) => {
            assert_eq!(d, "delete operation not implemented in keystore")
        }
        _ => panic!("delete_share must fail"),
    }
    match KeystoreHelper::delete_manifest_shares("m") {
        Err(KeystoreError::AccessFailed(d)) => {
            assert_eq!(d, "delete operations not implemented in keystore")
        }
        _ => panic!("delete_manifest_shares must fail"),
    }
}

#[test]
fn safe_wrappers_pass_results_through() {
    assert_eq!(
        KeystoreHelper::try_store_encrypted_share(Ok("cid1".to_string())),
        Some("cid1".to_string())
    );
    assert_eq!(KeystoreHelper::try_retrieve_and_decrypt_share(Ok(vec![1, 2])), Some(vec![1, 2]));
}

#[test]
fn keystore_locations() {
    assert_eq!(keystore_location(false, false, Some("n")), KeystoreLocation::File);
    assert_eq!(keystore_location(true, false, None), KeystoreLocation::Memory);
    assert_eq!(
        keystore_location(false, true, Some("node_3000")),
        KeystoreLocation::SharedTempFile("beemesh_keystore_node_3000".to_string())
    );
}

#[test]
fn keystore_entry_types() {
    assert_eq!(keystore_entry_type(Some("capability:m1")), "capability");
    assert_eq!(keystore_entry_type(Some("m1")), "keyshare");
    assert_eq!(keystore_entry_type(Some("capability")), "keyshare");
    assert_eq!(keystore_entry_type(None), "unknown");
}
