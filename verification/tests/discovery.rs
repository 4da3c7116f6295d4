use beemesh::discovery::{
    filter_providers, DiscoveryConfig, DiscoveryQuery, DiscoveryUtils, ProviderInfo,
    DEFAULT_QUERY_TIMEOUT_MS,
};
use beemesh::discovery_manager::{DiscoveryManager, DiscoveryResult, DiscoveryStep};

fn peer(n: u8) -> Vec<u8> {
    let mut p = vec![0x12, 0x20];
    p.extend(std::iter::repeat(n).take(32));
    p
}

fn info(peer_id: Vec<u8>, manifest_id: &str, announced_at: u64, last_seen: u64) -> ProviderInfo {
    ProviderInfo {
        peer_id,
        manifest_id: manifest_id.to_string(),
        announced_at,
        last_seen,
        ttl_seconds: 3600,
        metadata: Vec::new(),
    }
}

#[test]
fn test_discovery_query_creation() {
    let manifest_id = "test-manifest".to_string();
    let query = DiscoveryQuery::new(manifest_id.clone());

    assert_eq!(query.manifest_id, manifest_id);
    assert_eq!(query.timeout, 30_000); // 30 s, in ms
    assert_eq!(query.min_providers, 1);
    assert_eq!(query.max_providers, 10);
    assert!(!query.include_expired);
    assert!(!query.is_timed_out());
    assert_eq!(query.get_dht_key(), "provider:test-manifest");
}

#[test]
fn test_discovery_query_configuration() {
    let query = DiscoveryQuery::new("test".to_string())
        .with_timeout(60_000) // 60 s, in ms
        .with_min_providers(2)
        .with_max_providers(5)
        .include_expired(true);

    assert_eq!(query.timeout, 60_000);
    assert_eq!(query.min_providers, 2);
    assert_eq!(query.max_providers, 5);
    assert!(query.include_expired);
}

#[test]
fn test_discovery_manager_creation() {
    let manager = DiscoveryManager::new_default();
    let stats = manager.get_stats(0);

    assert_eq!(stats.active_queries, 0);
    assert_eq!(stats.cached_manifests, 0);
    assert_eq!(stats.pending_channels, 0);
}

#[test]
fn test_discovery_utils_extract_peer_ids() {
    let now = 1_000;
    let providers = vec![info(peer(1), "test1", now, now), info(peer(2), "test2", now, now)];

    let peer_ids = DiscoveryUtils::extract_peer_ids(&providers);
    assert_eq!(peer_ids.len(), 2);
}

#[test]
fn test_discovery_utils_group_by_manifest() {
    let peer_id1 = peer(1);
    let peer_id2 = peer(2);
    let now = 1_000;

    let providers = vec![
        info(peer_id1.clone(), "test1", now, now),
        info(peer_id2, "test1", now, now),
        info(peer_id1, "test2", now, now),
    ];

    let grouped = DiscoveryUtils::group_by_manifest(&providers);
    assert_eq!(grouped.len(), 2);
    let get = |k: &str| grouped.iter().find(|(id, _)| id == k).map(|(_, v)| v.len());
    assert_eq!(get("test1"), Some(2));
    assert_eq!(get("test2"), Some(1));
}

#[test]
fn test_discovery_utils_filter_by_metadata() {
    let metadata1 = vec![
        ("region".to_string(), "us-west".to_string()),
        ("type".to_string(), "podman".to_string()),
    ];
    let metadata2 = vec![
        ("region".to_string(), "us-east".to_string()),
        ("type".to_string(), "podman".to_string()),
    ];
    let now = 1_000;
    let mut p1 = info(peer(1), "test1", now, now);
    p1.metadata = metadata1;
    let mut p2 = info(peer(2), "test2", now, now);
    p2.metadata = metadata2;
    let providers = vec![p1, p2];

    let criteria = vec![("region".to_string(), "us-west".to_string())];

    let filtered = DiscoveryUtils::filter_by_metadata(&providers, &criteria);
    assert_eq!(filtered.len(), 1);
    assert_eq!(filtered[0].manifest_id, "test1");
}

#[test]
fn test_discovery_result() {
    let result = DiscoveryResult {
        manifest_id: "test".to_string(),
        providers: Vec::new(),
        success: true,
        error: None,
        duration_ms: 100,
        timed_out: false,
    };

    assert_eq!(result.manifest_id, "test");
    assert!(result.success);
    assert!(result.error.is_none());
    assert!(!result.timed_out);
}

#[test]
fn extracted_peer_ids_are_sorted_and_distinct() {
    let providers = vec![
        info(peer(3), "a", 1, 1),
        info(peer(1), "b", 1, 1),
        info(peer(3), "c", 1, 1),
        info(peer(2), "d", 1, 1),
    ];
    assert_eq!(DiscoveryUtils::extract_peer_ids(&providers), vec![peer(1), peer(2), peer(3)]);
}

#[test]
fn sort_by_preference_orders_providers() {
    let providers = vec![
        info(peer(2), "a", 5, 10),
        info(peer(1), "b", 9, 20),
        info(peer(3), "c", 7, 10),
        info(peer(1), "d", 7, 10),
    ];
    let sorted = DiscoveryUtils::sort_by_preference(providers);
    let ids: Vec<&str> = sorted.iter().map(|p| p.manifest_id.as_str()).collect();
    assert_eq!(ids, vec!["b", "d", "c", "a"]);
}

#[test]
fn filter_providers_drops_expired_duplicates_and_caps() {
    let now = 10_000;
    let mut expired = info(peer(9), "m", now - 4_000, now);
    expired.ttl_seconds = 3_600;
    let providers = vec![
        info(peer(1), "m", now, 100),
        info(peer(2), "m", now, 300),
        info(peer(1), "m", now, 900),
        expired,
        info(peer(3), "m", now, 200),
    ];
    let query = DiscoveryQuery::new("m".to_string()).with_max_providers(2);
    let chosen = filter_providers(&query, providers.clone(), now);
    let peers: Vec<Vec<u8>> = chosen.iter().map(|p| p.peer_id.clone()).collect();
    assert_eq!(peers, vec![peer(2), peer(3)]);
    let all = filter_providers(&query.clone().include_expired(true).with_max_providers(10), providers, now);
    assert_eq!(all.len(), 4);
    assert_eq!(all[0].peer_id, peer(9));
}

#[test]
fn discovery_manager_steps() {
    let mut config = DiscoveryConfig::default();
    config.max_concurrent_queries = 1;
    let mut manager = DiscoveryManager::new(config);
    let q = DiscoveryQuery::new("m".to_string());
    assert!(matches!(manager.discover_providers(q.clone(), 1_000), DiscoveryStep::StartQuery));
    assert!(matches!(manager.discover_providers(q.clone(), 1_000), DiscoveryStep::JoinExisting));
    let other = DiscoveryQuery::new("n".to_string());
    match manager.discover_providers(other, 1_000) {
        DiscoveryStep::Rejected(e) => assert_eq!(e.message(), "Network error: Too many concurrent queries"),
        _ => panic!("expected a rejection"),
    }
    let found = manager.handle_providers_found("m", vec![peer(1), peer(1), peer(2)], 50, 2_000_000).unwrap();
    assert_eq!(found.providers.len(), 2);
    assert_eq!(found.duration_ms, 50);
    assert_eq!(manager.get_stats(0).active_queries, 0);
    assert_eq!(manager.get_stats(0).cached_manifests, 1);
    // Within the cache TTL the cache answers.
    match manager.discover_providers(q.clone(), 2_000_000 + 299_999) {
        DiscoveryStep::Cached(r) => assert_eq!(r.providers.len(), 2),
        _ => panic!("expected a cached answer"),
    }
    // After it, the entry is stale and is cleaned up.
    assert!(manager.get_cached_providers("m", 2_000_000 + 300_000).is_none());
    manager.cleanup_expired_cache(2_000_000 + 300_000);
    assert_eq!(manager.get_stats(3).cached_manifests, 0);
    assert!(manager.handle_providers_found("unknown", vec![peer(1)], 1, 1).is_none());
    let err = manager.handle_discovery_error("m", "boom".to_string(), 5);
    assert!(!err.success);
    assert_eq!(err.error, Some("boom".to_string()));
}

#[test]
fn query_timeout_and_default() {
    let q = DiscoveryQuery::new_at("m".to_string(), 1_000);
    assert_eq!(q.timeout, DEFAULT_QUERY_TIMEOUT_MS);
    assert!(!q.is_timed_out_at(31_000));
    assert!(q.is_timed_out_at(31_001));
    let custom = DiscoveryUtils::create_custom_query("m", 5, 2, 3);
    assert_eq!(custom.timeout, 5_000);
    assert_eq!(custom.min_providers, 2);
    assert_eq!(custom.max_providers, 3);
    let endless = DiscoveryUtils::create_custom_query("m", u64::MAX, 1, 10);
    assert_eq!(endless.timeout, u64::MAX);
    assert!(!endless.is_timed_out_at(u64::MAX));
}

#[test]
fn default_query_and_last_seen() {
    let q = DiscoveryUtils::create_query("m-1");
    assert_eq!(q.manifest_id, "m-1");
    assert_eq!(q.timeout, DEFAULT_QUERY_TIMEOUT_MS);
    assert_eq!(q.min_providers, 1);
    assert_eq!(q.max_providers, 10);
    assert!(!q.include_expired);

    let mut p = info(peer(4), "m-1", 100, 100);
    p.update_last_seen_at(250);
    assert_eq!(p.last_seen, 250);
    assert_eq!(p.announced_at, 100);
}
