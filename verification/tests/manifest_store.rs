use beemesh::manifest_store::{
    create_manifest_access_token, current_timestamp, verify_manifest_access_token,
    verify_manifest_access_token_at, LocalManifestStore, ManifestEntry, ManifestPermissions,
};

#[test]
fn test_manifest_store_basic_operations() {
    let mut store = LocalManifestStore::new();
    assert!(store.is_empty());

    let entry = ManifestEntry {
        manifest_id: "test-manifest".to_string(),
        version: 1,
        encrypted_data: vec![1, 2, 3, 4],
        stored_at: current_timestamp(),
        access_tokens: vec!["token1".to_string()],
        owner_pubkey: vec![5, 6, 7, 8],
    };

    // Store manifest
    assert!(store.store_manifest(entry.clone()).is_ok());
    assert_eq!(store.len(), 1);
    assert!(!store.is_empty());

    // Retrieve manifest
    let retrieved = store.get_manifest("test-manifest", 1);
    assert!(retrieved.is_some());
    assert_eq!(retrieved.unwrap().manifest_id, "test-manifest");
    assert_eq!(retrieved.unwrap().version, 1);
}

#[test]
fn test_latest_version() {
    let mut store = LocalManifestStore::new();

    // Store multiple versions
    for version in [1, 3, 2, 5, 4] {
        let entry = ManifestEntry {
            manifest_id: "test-manifest".to_string(),
            version,
            encrypted_data: vec![],
            stored_at: current_timestamp(),
            access_tokens: vec![],
            owner_pubkey: vec![],
        };
        store.store_manifest(entry).unwrap();
    }

    let latest = store.get_latest_version("test-manifest");
    assert!(latest.is_some());
    assert_eq!(latest.unwrap().version, 5);
}

#[test]
fn test_access_tokens() {
    let mut store = LocalManifestStore::new();

    let entry = ManifestEntry {
        manifest_id: "test-manifest".to_string(),
        version: 1,
        encrypted_data: vec![],
        stored_at: current_timestamp(),
        access_tokens: vec!["valid-token".to_string(), "another-token".to_string()],
        owner_pubkey: vec![],
    };

    store.store_manifest(entry).unwrap();

    assert!(store.has_access_token("test-manifest", 1, "valid-token"));
    assert!(store.has_access_token("test-manifest", 1, "another-token"));
    assert!(!store.has_access_token("test-manifest", 1, "invalid-token"));
    assert!(!store.has_access_token("test-manifest", 2, "valid-token")); // wrong version
}

#[test]
fn test_capability_token_creation_and_verification() {
    let issuer_privkey = vec![1, 2, 3, 4];
    let issuer_pubkey = vec![5, 6, 7, 8];
    let permissions = ManifestPermissions {
        can_read: true,
        can_execute: false,
        specific_version: Some(1),
    };

    let token = create_manifest_access_token(
        "test-manifest".to_string(),
        "peer123".to_string(),
        current_timestamp() + 3600, // expires in 1 hour
        permissions,
        &issuer_privkey,
        issuer_pubkey,
    )
    .unwrap();

    // Verify token
    assert!(verify_manifest_access_token(&token, "test-manifest", "peer123").unwrap());
    assert!(!verify_manifest_access_token(&token, "wrong-manifest", "peer123").unwrap());
    assert!(!verify_manifest_access_token(&token, "test-manifest", "wrong-peer").unwrap());
}

#[test]
fn test_capability_token_expiration() {
    let issuer_privkey = vec![1, 2, 3, 4];
    let issuer_pubkey = vec![5, 6, 7, 8];
    let permissions = ManifestPermissions {
        can_read: true,
        can_execute: false,
        specific_version: None,
    };

    let expired_token = create_manifest_access_token(
        "test-manifest".to_string(),
        "peer123".to_string(),
        current_timestamp() - 1, // expired 1 second ago
        permissions,
        &issuer_privkey,
        issuer_pubkey,
    )
    .unwrap();

    // Verify expired token fails
    assert!(!verify_manifest_access_token(&expired_token, "test-manifest", "peer123").unwrap());
}

#[test]
fn stored_entry_reads_back_and_removes() {
    let mut store = LocalManifestStore::new();
    for (id, v) in [("a", 2u64), ("b", 1), ("a", 1)] {
        store
            .store_manifest(ManifestEntry {
                manifest_id: id.to_string(),
                version: v,
                encrypted_data: vec![v as u8],
                stored_at: 7,
                access_tokens: vec![],
                owner_pubkey: vec![],
            })
            .unwrap();
    }
    assert_eq!(store.get_manifest("a", 2).unwrap().encrypted_data, vec![2]);
    assert_eq!(store.get_all_versions("a"), vec![1, 2]);
    let mut ids = store.get_all_manifest_ids();
    ids.sort();
    assert_eq!(ids, vec!["a".to_string(), "b".to_string()]);
    assert_eq!(store.remove_manifest("a", 2).unwrap().version, 2);
    assert!(store.get_manifest("a", 2).is_none());
    assert!(store.remove_manifest("a", 2).is_none());
    assert_eq!(store.len(), 2);
}

#[test]
fn token_signature_is_hash_bytes_and_exact_expiry() {
    let permissions = ManifestPermissions { can_read: true, can_execute: true, specific_version: None };
    let token = create_manifest_access_token(
        "m".to_string(),
        "p".to_string(),
        100,
        permissions,
        &[9, 9],
        vec![1],
    )
    .unwrap();
    assert_eq!(token.signature.len(), 8);
    assert_eq!(verify_manifest_access_token_at(&token, "m", "p", 100), Ok(true));
    assert_eq!(verify_manifest_access_token_at(&token, "m", "p", 101), Ok(false));
    let other = create_manifest_access_token(
        "m".to_string(),
        "p".to_string(),
        100,
        permissions,
        &[9, 8],
        vec![1],
    )
    .unwrap();
    assert_ne!(token.signature, other.signature);
}
