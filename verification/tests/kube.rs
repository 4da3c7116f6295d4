use beemesh::kube::{check_apply_target, ensure_metadata, DeploymentStore, ResourceError};
use beemesh::rest::compute_manifest_id;

#[test]
fn resource_metadata_checks() {
    assert_eq!(
        ensure_metadata(Some("Deployment"), Some("apps/v1"), Some("web"), None, "default", "Deployment", "apps/v1"),
        Ok(("default".to_string(), "web".to_string()))
    );
    assert_eq!(
        ensure_metadata(None, None, Some("web"), Some("prod"), "default", "Deployment", "apps/v1"),
        Ok(("prod".to_string(), "web".to_string()))
    );
    assert_eq!(
        ensure_metadata(Some("Service"), None, Some("web"), None, "default", "Deployment", "apps/v1"),
        Err(ResourceError::WrongKind)
    );
    assert_eq!(
        ensure_metadata(None, Some("v1"), Some("web"), None, "default", "Deployment", "apps/v1"),
        Err(ResourceError::WrongApiVersion)
    );
    assert_eq!(
        ensure_metadata(None, None, None, None, "default", "Deployment", "apps/v1"),
        Err(ResourceError::MissingName)
    );
    assert_eq!(check_apply_target("default", "web", "default", "web"), Ok(()));
    assert_eq!(check_apply_target("default", "web", "prod", "web"), Err(ResourceError::PathMismatch));
}

#[test]
fn deployments_upsert_by_namespace_and_name() {
    let mut store = DeploymentStore::new();
    let id = store.upsert_deployment("default", "web", b"{\"v\":1}".to_vec(), 100);
    assert_eq!(id, compute_manifest_id("default", "web", "Deployment"));
    let (found_id, d) = store.find_deployment("default", "web").unwrap();
    assert_eq!(found_id, id);
    assert_eq!(d.resource_version, 1);
    assert_eq!(d.creation_timestamp, 100);
    assert_eq!(d.last_operation_id, "kube:apps/v1:Deployment:default:web");

    let again = store.upsert_deployment("default", "web", b"{\"v\":2}".to_vec(), 200);
    assert_eq!(again, id);
    let (_, d) = store.find_deployment("default", "web").unwrap();
    assert_eq!(d.resource_version, 2);
    assert_eq!(d.manifest, b"{\"v\":2}".to_vec());
    assert_eq!(d.creation_timestamp, 100);

    store.upsert_deployment("prod", "web", b"{}".to_vec(), 300);
    assert_eq!(store.list_deployments("default").len(), 1);
    assert_eq!(store.list_deployments("prod").len(), 1);
    assert!(store.list_deployments("none").is_empty());
    assert!(store.find_deployment("default", "api").is_none());
}
