use beemesh::manifest_announcement::{
    ManifestAnnouncement, ManifestHolderInfo, ManifestHolderQuery, ManifestHolderStore,
};
use beemesh::manifest_store::current_timestamp;

#[test]
fn test_manifest_announcement_creation() {
    let announcement = ManifestAnnouncement {
        manifest_id: "test-manifest".to_string(),
        version: 1,
        holder_peer_id: "peer123".to_string(),
        timestamp: current_timestamp(),
        signature: vec![1, 2, 3, 4],
    };

    assert_eq!(announcement.manifest_id, "test-manifest");
    assert_eq!(announcement.version, 1);
}

#[test]
fn test_holder_query() {
    let query = ManifestHolderQuery {
        manifest_id: "test-manifest".to_string(),
        version: Some(1),
    };

    assert_eq!(query.manifest_id, "test-manifest");
    assert_eq!(query.version, Some(1));
}

#[test]
fn test_holder_store_management() {
    let mut store = ManifestHolderStore::new();

    // Announce that we hold a manifest
    store.announce_manifest_holder("test-manifest".to_string(), 1);

    // Check that we can retrieve the holder info
    let holders = store.get_manifest_holders("test-manifest");
    assert_eq!(holders.len(), 1);
    assert_eq!(holders[0].version, 1);
}

#[test]
fn test_holder_info_update() {
    let mut store = ManifestHolderStore::new();

    let holder1 = ManifestHolderInfo {
        peer_id: "peer1".to_string(),
        version: 1,
        timestamp: current_timestamp(),
    };

    let holder2 = ManifestHolderInfo {
        peer_id: "peer1".to_string(), // Same peer, different version
        version: 2,
        timestamp: current_timestamp() + 1,
    };

    store.update_holder_info("test-manifest".to_string(), holder1);
    store.update_holder_info("test-manifest".to_string(), holder2);

    let holders = store.get_manifest_holders("test-manifest");
    assert_eq!(holders.len(), 1); // Should only have one entry per peer
    assert_eq!(holders[0].version, 2); // Should have the latest version
}

#[test]
fn holder_query_filters_and_reports_latest() {
    let mut store = ManifestHolderStore::new();
    for (peer, version, ts) in [("p1", 1u64, 10u64), ("p2", 3, 11), ("p3", 1, 12)] {
        store.update_holder_info(
            "m".to_string(),
            ManifestHolderInfo { peer_id: peer.to_string(), version, timestamp: ts },
        );
    }
    let all = store.handle_holder_query(&ManifestHolderQuery { manifest_id: "m".to_string(), version: None });
    assert_eq!(all.holders.len(), 3);
    assert_eq!(all.latest_version, Some(3));
    let v1 = store.handle_holder_query(&ManifestHolderQuery { manifest_id: "m".to_string(), version: Some(1) });
    assert_eq!(v1.holders.len(), 2);
    assert_eq!(v1.latest_version, Some(1));
    let none = store.handle_holder_query(&ManifestHolderQuery { manifest_id: "x".to_string(), version: None });
    assert!(none.holders.is_empty());
    assert_eq!(none.latest_version, None);
}

#[test]
fn holder_list_is_pruned_to_most_recent_fifty() {
    let mut store = ManifestHolderStore::new();
    for i in 0..101u64 {
        store.update_holder_info(
            "m".to_string(),
            ManifestHolderInfo { peer_id: format!("peer{}", i), version: 1, timestamp: 1000 - i },
        );
    }
    let holders = store.get_manifest_holders("m");
    assert_eq!(holders.len(), 50);
    // The 50 most recent time stamps, in increasing order.
    assert_eq!(holders[0].timestamp, 951);
    assert_eq!(holders[49].timestamp, 1000);
}

#[test]
fn newest_holder_survives_pruning() {
    let mut store = ManifestHolderStore::new();
    for i in 0..100u64 {
        store.update_holder_info(
            "m".to_string(),
            ManifestHolderInfo { peer_id: format!("peer{}", i), version: 1, timestamp: 10 + i },
        );
    }
    store.update_holder_info(
        "m".to_string(),
        ManifestHolderInfo { peer_id: "fresh".to_string(), version: 2, timestamp: 5000 },
    );
    let holders = store.get_manifest_holders("m");
    assert_eq!(holders.len(), 50);
    assert_eq!(holders[49].peer_id, "fresh");
    assert!(holders.iter().all(|h| h.timestamp >= 61));
}
