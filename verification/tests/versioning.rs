use beemesh::versioning::{generate_content_hash, VersionStore};

#[test]
fn test_version_store_basic_operations() {
    let mut store = VersionStore::new();
    assert!(store.is_empty());

    let owner_pubkey = vec![1, 2, 3, 4];
    let manifest_id = "test-manifest".to_string();
    let content_hash = "hash1".to_string();

    // Create new manifest
    let version = store
        .create_or_update_manifest(
            manifest_id.clone(),
            content_hash.clone(),
            owner_pubkey.clone(),
            Some("Initial version".to_string()),
        )
        .unwrap();

    assert_eq!(version, 1);
    assert_eq!(store.len(), 1);
    assert!(!store.is_empty());
    assert_eq!(store.get_latest_version(&manifest_id), Some(1));
}

#[test]
fn test_version_updates() {
    let mut store = VersionStore::new();
    let owner_pubkey = vec![1, 2, 3, 4];
    let manifest_id = "test-manifest".to_string();

    // Create initial version
    let v1 = store
        .create_or_update_manifest(
            manifest_id.clone(),
            "hash1".to_string(),
            owner_pubkey.clone(),
            Some("Initial".to_string()),
        )
        .unwrap();
    assert_eq!(v1, 1);

    // Update to version 2
    let v2 = store
        .create_or_update_manifest(
            manifest_id.clone(),
            "hash2".to_string(),
            owner_pubkey.clone(),
            Some("Updated".to_string()),
        )
        .unwrap();
    assert_eq!(v2, 2);
    assert_eq!(store.get_latest_version(&manifest_id), Some(2));

    // Check version history
    let versions = store.get_all_versions(&manifest_id);
    assert_eq!(versions, vec![1, 2]);
}

#[test]
fn test_owner_verification() {
    let mut store = VersionStore::new();
    let owner_pubkey = vec![1, 2, 3, 4];
    let other_pubkey = vec![5, 6, 7, 8];
    let manifest_id = "test-manifest".to_string();

    // Create manifest with owner
    store
        .create_or_update_manifest(manifest_id.clone(), "hash1".to_string(), owner_pubkey.clone(), None)
        .unwrap();

    // Verify owner
    assert!(store.verify_owner(&manifest_id, &owner_pubkey));
    assert!(!store.verify_owner(&manifest_id, &other_pubkey));

    // Try to update with wrong owner
    let result = store.create_or_update_manifest(
        manifest_id.clone(),
        "hash2".to_string(),
        other_pubkey,
        None,
    );
    assert!(result.is_err());
    assert!(result.unwrap_err().contains("Only the manifest owner"));
}

#[test]
fn test_content_hash_generation() {
    let data1 = b"test data 1";
    let data2 = b"test data 2";
    let data1_again = b"test data 1";

    let hash1 = generate_content_hash(data1);
    let hash2 = generate_content_hash(data2);
    let hash1_again = generate_content_hash(data1_again);

    assert_ne!(hash1, hash2);
    assert_eq!(hash1, hash1_again);
}

#[test]
fn test_version_history_limit() {
    let mut store = VersionStore::new();
    let owner_pubkey = vec![1, 2, 3, 4];
    let manifest_id = "test-manifest".to_string();

    // Create 105 versions (should keep only last 100)
    for i in 1..=105 {
        store
            .create_or_update_manifest(
                manifest_id.clone(),
                format!("hash{}", i),
                owner_pubkey.clone(),
                Some(format!("Version {}", i)),
            )
            .unwrap();
    }

    let pointer = store.get_manifest_pointer(&manifest_id).unwrap();
    assert_eq!(pointer.version_history.len(), 100);
    assert_eq!(pointer.latest_version, 105);

    // Should have versions 6-105 (last 100)
    let versions = store.get_all_versions(&manifest_id);
    assert_eq!(versions.len(), 100);
    assert_eq!(versions[0], 6);
    assert_eq!(versions[99], 105);
}

#[test]
fn content_hash_is_sixteen_hex_digits() {
    let h = generate_content_hash(b"abc");
    assert_eq!(h.len(), 16);
    assert!(h.chars().all(|c| c.is_ascii_hexdigit() && !c.is_ascii_uppercase()));
}

#[test]
fn entries_and_removal() {
    let mut store = VersionStore::new();
    let id = "m".to_string();
    store.create_or_update_manifest(id.clone(), "h1".to_string(), vec![1], None).unwrap();
    store.create_or_update_manifest(id.clone(), "h2".to_string(), vec![1], Some("c".to_string())).unwrap();
    assert_eq!(store.get_content_hash(&id, 2), Some("h2".to_string()));
    assert_eq!(store.get_content_hash(&id, 3), None);
    assert_eq!(store.get_version_entry(&id, 1).unwrap().content_hash, "h1");
    assert_eq!(store.get_all_manifest_ids(), vec!["m".to_string()]);
    assert_eq!(store.remove_manifest(&id).unwrap().latest_version, 2);
    assert!(store.remove_manifest(&id).is_none());
    assert!(store.is_empty());
    assert_eq!(store.get_latest_version(&id), None);
}

#[test]
fn refused_update_leaves_store_unchanged() {
    let mut store = VersionStore::new();
    let id = "m".to_string();
    store.create_or_update_manifest(id.clone(), "h1".to_string(), vec![1], None).unwrap();
    let err = store.create_or_update_manifest(id.clone(), "h2".to_string(), vec![2], None).unwrap_err();
    assert_eq!(err, "Only the manifest owner can update it");
    assert_eq!(store.get_latest_version(&id), Some(1));
    assert_eq!(store.get_all_versions(&id), vec![1]);
}

#[test]
fn non_owner_update_leaves_the_pointer() {
    let mut store = VersionStore::new();
    store
        .create_or_update_manifest("m".to_string(), "h1".to_string(), vec![1], None)
        .unwrap();
    store
        .create_or_update_manifest("m".to_string(), "h2".to_string(), vec![1], None)
        .unwrap();
    let before = store.get_manifest_pointer("m").unwrap().clone();
    let r = store.create_or_update_manifest("m".to_string(), "h3".to_string(), vec![2], None);
    assert_eq!(r, Err("Only the manifest owner can update it".to_string()));
    let after = store.get_manifest_pointer("m").unwrap();
    assert_eq!(after.latest_version, before.latest_version);
    assert_eq!(after.version_history.len(), before.version_history.len());
    assert_eq!(after.updated_at, before.updated_at);
    assert_eq!(store.len(), 1);
}

#[test]
fn histories_stay_consecutive_and_bounded() {
    let mut store = VersionStore::new();
    for i in 0..130u32 {
        let v = store
            .create_or_update_manifest("m".to_string(), format!("h{}", i), vec![1], None)
            .unwrap();
        assert_eq!(v, (i + 1) as u64);
    }
    let p = store.get_manifest_pointer("m").unwrap();
    assert_eq!(p.version_history.len(), 100);
    assert_eq!(p.version_history.last().unwrap().version, p.latest_version);
    for w in p.version_history.windows(2) {
        assert_eq!(w[1].version, w[0].version + 1);
    }
}
