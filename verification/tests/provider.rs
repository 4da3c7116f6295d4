use beemesh::discovery::{ProviderConfig, ProviderInfo};
use beemesh::provider::{AnnouncementError, AnnouncementManager, ProviderAnnouncement};
use beemesh::provider_manager::ProviderManager;

fn peer(n: u8) -> Vec<u8> {
    let mut p = vec![0x12, 0x20];
    p.extend(std::iter::repeat(n).take(32));
    p
}

fn now_secs() -> u64 {
    std::time::SystemTime::now()
        .duration_since(std::time::UNIX_EPOCH)
        .unwrap()
        .as_secs()
}

fn meta_get<'a>(m: &'a [(String, String)], k: &str) -> Option<&'a String> {
    m.iter().rev().find(|(key, _)| key == k).map(|(_, v)| v)
}

#[test]
fn test_provider_info_expiration() {
    let mut provider = ProviderInfo {
        peer_id: peer(1),
        manifest_id: "test".to_string(),
        announced_at: now_secs() - 3700, // 1 hour 1 minute ago
        last_seen: now_secs(),
        ttl_seconds: 3600, // 1 hour TTL
        metadata: Vec::new(),
    };

    assert!(provider.is_expired());

    // Update to recent announcement
    provider.announced_at = now_secs();
    assert!(!provider.is_expired());
}

#[test]
fn test_provider_manager_creation() {
    let manager = ProviderManager::new_default();
    let stats = manager.get_stats(0);

    assert_eq!(stats.local_providers, 0);
    assert_eq!(stats.remote_manifests, 0);
    assert_eq!(stats.total_remote_providers, 0);
    assert_eq!(stats.pending_queries, 0);
}

#[test]
fn test_local_provider_management() {
    let mut manager = ProviderManager::new_default();

    // Initially no providers
    assert!(manager.get_local_providers().is_empty());

    // Test stop providing non-existent manifest
    assert!(manager.stop_providing("non-existent").is_err());
}

#[test]
fn test_provider_stats() {
    let manager = ProviderManager::new_default();
    let stats = manager.get_stats(0);

    assert_eq!(stats.local_providers, 0);
    assert_eq!(stats.remote_manifests, 0);
    assert_eq!(stats.total_remote_providers, 0);
}

#[test]
fn test_cleanup_expired_providers() {
    let mut manager = ProviderManager::new_default();
    let now = now_secs();

    // Add an expired provider
    let expired_provider = ProviderInfo {
        peer_id: peer(1),
        manifest_id: "test".to_string(),
        announced_at: now - 7200, // 2 hours ago
        last_seen: now,
        ttl_seconds: 3600, // 1 hour TTL
        metadata: Vec::new(),
    };
    manager.record_query_result("test", vec![expired_provider]);

    // Stats should show 1 remote provider
    assert_eq!(manager.get_stats(0).total_remote_providers, 1);

    // Cleanup should remove it
    manager.cleanup_expired_providers(now);
    assert_eq!(manager.get_stats(0).total_remote_providers, 0);
}

#[test]
fn test_provider_announcement_creation() {
    let peer_id = peer(7);
    let manifest_id = "test-manifest".to_string();
    let metadata = Vec::new();

    let announcement = ProviderAnnouncement::new(peer_id.clone(), manifest_id.clone(), 3600, metadata);

    assert_eq!(announcement.peer_id, peer_id);
    assert_eq!(announcement.manifest_id, manifest_id);
    assert_eq!(announcement.ttl_seconds, 3600);
    assert!(!announcement.is_expired());
    assert_eq!(announcement.get_dht_key(), "provider:test-manifest");
}

#[test]
fn test_provider_announcement_serialization() {
    let peer_id = peer(7);
    let manifest_id = "test-manifest".to_string();
    let metadata = vec![
        ("key1".to_string(), "value1".to_string()),
        ("key2".to_string(), "value2".to_string()),
    ];

    let original = ProviderAnnouncement::new(peer_id, manifest_id, 7200, metadata);

    let bytes = original.to_bytes();
    let deserialized = ProviderAnnouncement::from_bytes(&bytes).unwrap();

    assert_eq!(original.peer_id, deserialized.peer_id);
    assert_eq!(original.manifest_id, deserialized.manifest_id);
    assert_eq!(original.ttl_seconds, deserialized.ttl_seconds);
    let mut a = original.metadata.clone();
    let mut b = deserialized.metadata.clone();
    a.sort();
    b.sort();
    assert_eq!(a, b);
    assert_eq!(original.signature, deserialized.signature);
}

#[test]
fn test_provider_announcement_with_signature() {
    let peer_id = peer(7);
    let manifest_id = "test-manifest".to_string();
    let metadata = Vec::new();
    let signature = vec![1, 2, 3, 4, 5];

    let announcement =
        ProviderAnnouncement::new_signed(peer_id, manifest_id, 3600, metadata, signature.clone());

    assert_eq!(announcement.signature, Some(signature));

    // Test serialization with signature
    let bytes = announcement.to_bytes();
    let deserialized = ProviderAnnouncement::from_bytes(&bytes).unwrap();
    assert_eq!(announcement.signature, deserialized.signature);
}

#[test]
fn test_announcement_expiration() {
    let peer_id = peer(7);
    let manifest_id = "test-manifest".to_string();
    let metadata = Vec::new();

    let mut announcement = ProviderAnnouncement::new(
        peer_id,
        manifest_id,
        1, // 1 second TTL
        metadata,
    );

    // Should not be expired initially
    assert!(!announcement.is_expired());

    // Manually set timestamp to past
    announcement.timestamp = now_secs() - 2;

    // Should be expired now
    assert!(announcement.is_expired());
}

#[test]
fn test_create_metadata() {
    let capabilities = vec!["podman".to_string(), "docker".to_string()];
    let resources = vec![
        ("cpu".to_string(), "4".to_string()),
        ("memory".to_string(), "8GB".to_string()),
    ];
    let custom = vec![("region".to_string(), "us-west".to_string())];

    let metadata = AnnouncementManager::create_metadata(&capabilities, Some(&resources), &custom);

    assert_eq!(meta_get(&metadata, "capabilities"), Some(&"podman,docker".to_string()));
    assert_eq!(meta_get(&metadata, "resource.cpu"), Some(&"4".to_string()));
    assert_eq!(meta_get(&metadata, "resource.memory"), Some(&"8GB".to_string()));
    assert_eq!(meta_get(&metadata, "region"), Some(&"us-west".to_string()));
    assert!(meta_get(&metadata, "announced_at").is_some());
}

#[test]
fn test_validate_announcement() {
    let peer_id = peer(7);
    let manifest_id = "test-manifest".to_string();
    let metadata = Vec::new();

    // Valid announcement
    let valid_announcement = ProviderAnnouncement::new(peer_id.clone(), manifest_id, 3600, metadata.clone());
    assert!(AnnouncementManager::validate_announcement(&valid_announcement));

    // Expired announcement
    let mut expired_announcement =
        ProviderAnnouncement::new(peer_id.clone(), "test-manifest-2".to_string(), 1, metadata.clone());
    expired_announcement.timestamp = now_secs() - 2;
    assert!(!AnnouncementManager::validate_announcement(&expired_announcement));

    // Empty manifest ID
    let invalid_announcement = ProviderAnnouncement::new(peer_id, String::new(), 3600, metadata);
    assert!(!AnnouncementManager::validate_announcement(&invalid_announcement));
}

#[test]
fn announcement_bytes_reject_garbage() {
    assert!(ProviderAnnouncement::from_bytes(&[]).is_err());
    assert!(ProviderAnnouncement::from_bytes(&[0, 0, 0, 3, 1, 2]).is_err());
}

#[test]
fn provider_found_updates_and_caps() {
    let mut config = ProviderConfig::default();
    config.max_providers_per_manifest = 2;
    let mut manager = ProviderManager::new(config);
    manager.handle_provider_found("m", peer(1), 100);
    manager.handle_provider_found("m", peer(2), 200);
    manager.handle_provider_found("m", peer(1), 300);
    let list = manager.get_providers_for_manifest("m");
    assert_eq!(list.len(), 2);
    assert_eq!(list[0].peer_id, peer(1));
    assert_eq!(list[0].last_seen, 300);
    assert_eq!(list[0].announced_at, 100);
    // At the cap, the least recently seen provider (peer 2) gives way.
    manager.handle_provider_found("m", peer(3), 400);
    let list = manager.get_providers_for_manifest("m");
    let peers: Vec<Vec<u8>> = list.iter().map(|p| p.peer_id.clone()).collect();
    assert_eq!(peers, vec![peer(1), peer(3)]);
    assert_eq!(list[1].ttl_seconds, 3600);
    assert_eq!(manager.cached_live_providers("m", 400).len(), 2);
    assert_eq!(manager.cached_live_providers("m", 4000).len(), 1);
    assert!(manager.get_providers_for_manifest("other").is_empty());
}

#[test]
fn local_providers_announce_and_stop() {
    let mut manager = ProviderManager::new_default();
    manager.announce_provider_at(peer(5), "m", vec![("k".to_string(), "v".to_string())], 77);
    let local = manager.get_local_providers();
    assert_eq!(local.len(), 1);
    assert_eq!(local[0].announced_at, 77);
    assert_eq!(local[0].ttl_seconds, 3600);
    assert_eq!(manager.local_manifest_ids(), vec!["m".to_string()]);
    assert!(manager.stop_providing("m").is_ok());
    assert!(manager.get_local_providers().is_empty());
    match manager.stop_providing("m") {
        Err(e) => assert_eq!(e.message(), "Provider not found: m"),
        Ok(()) => panic!("already stopped"),
    }
}

#[test]
fn announcement_error_texts() {
    assert_eq!(
        AnnouncementError::MissingPeerIdLength.message(),
        "Invalid data: missing peer ID length"
    );
    assert_eq!(AnnouncementError::MissingTtl.message(), "Invalid data: missing TTL");
    let short = ProviderAnnouncement::from_bytes(&[0, 0, 0, 3, 1, 2]).unwrap_err();
    assert_eq!(short.message(), "Invalid data: peer ID too short");
}

#[test]
fn truncated_announcements_are_refused() {
    let metadata = vec![
        ("region".to_string(), "eu \"west\"\n".to_string()),
        ("cpu".to_string(), "4".to_string()),
    ];
    for a in [
        ProviderAnnouncement::new(peer(3), "m-1".to_string(), 60, metadata.clone()),
        ProviderAnnouncement::new_signed(peer(4), "m-2".to_string(), 60, metadata, vec![9, 8, 7]),
    ] {
        let bytes = a.to_bytes();
        let back = ProviderAnnouncement::from_bytes(&bytes).unwrap();
        let mut x = a.metadata.clone();
        let mut y = back.metadata.clone();
        x.sort();
        y.sort();
        assert_eq!(x, y);
        assert_eq!(back.timestamp, a.timestamp);
        for k in 0..bytes.len() {
            assert!(ProviderAnnouncement::from_bytes(&bytes[..k]).is_err());
        }
    }
}
