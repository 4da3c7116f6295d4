use beemesh::manifest_fetch::{
    capability_token_bytes, capability_token_grants, capability_token_verdict,
    handle_manifest_store_request, manifest_distribution_result, manifest_fetch_reply,
    manifest_push_request, store_own_manifest, CapabilityTokenFields, CaveatFields, FetchRefusal,
    FetchReply,
};
use beemesh::manifest_store::{LocalManifestStore, ManifestEntry};

fn store_with(tokens: Vec<String>) -> LocalManifestStore {
    let mut store = LocalManifestStore::new();
    store
        .store_manifest(ManifestEntry {
            manifest_id: "m1".to_string(),
            version: 2,
            encrypted_data: vec![9, 8, 7],
            stored_at: 10,
            access_tokens: tokens,
            owner_pubkey: vec![],
        })
        .unwrap();
    store
}

#[test]
fn store_request_with_valid_base64_is_stored() {
    let mut store = LocalManifestStore::new();
    // "aGVsbG8=" is the base64 text of "hello".
    let reply = handle_manifest_store_request(&mut store, b"abc:aGVsbG8=", 42);
    assert_eq!(reply, Some(b"Manifest stored successfully".to_vec()));
    let entry = store.get_manifest("abc", 1).unwrap();
    assert_eq!(entry.encrypted_data, b"hello".to_vec());
    assert_eq!(entry.stored_at, 42);
    assert!(entry.access_tokens.is_empty());
    assert!(entry.owner_pubkey.is_empty());
}

#[test]
fn store_request_splits_at_first_colon() {
    let mut store = LocalManifestStore::new();
    let reply = handle_manifest_store_request(&mut store, b"a:b:c", 1);
    // "b:c" is not base64, so nothing is stored.
    let text = String::from_utf8(reply.unwrap()).unwrap();
    assert!(text.starts_with("Failed to decode manifest: "));
    assert!(store.is_empty());
}

#[test]
fn store_request_with_bad_base64_is_refused() {
    let mut store = LocalManifestStore::new();
    let reply = handle_manifest_store_request(&mut store, b"abc:!!!", 1).unwrap();
    let text = String::from_utf8(reply).unwrap();
    assert!(text.starts_with("Failed to decode manifest: "));
    assert!(text.len() > "Failed to decode manifest: ".len());
    assert!(store.is_empty());
}

#[test]
fn request_without_colon_is_not_a_store_request() {
    let mut store = LocalManifestStore::new();
    assert_eq!(handle_manifest_store_request(&mut store, b"no colon here", 1), None);
    assert_eq!(handle_manifest_store_request(&mut store, &[0xff, 0x3a, 0x41], 1), None);
    assert!(store.is_empty());
}

#[test]
fn fetch_serves_with_listed_token() {
    let store = store_with(vec!["t1".to_string()]);
    match manifest_fetch_reply(&store, "m1", 2, "t1", Ok(true)) {
        FetchReply::Serve { data, version } => {
            assert_eq!(data, vec![9, 8, 7]);
            assert_eq!(version, 2);
        }
        FetchReply::Refuse(r) => panic!("refused: {}", r.message()),
    }
}

#[test]
fn fetch_serves_with_debug_token() {
    let store = store_with(vec![]);
    assert!(matches!(
        manifest_fetch_reply(&store, "m1", 2, "debug", Ok(true)),
        FetchReply::Serve { version: 2, .. }
    ));
}

#[test]
fn fetch_refusals() {
    let store = store_with(vec!["t1".to_string()]);
    let refusal = |r: FetchReply| match r {
        FetchReply::Refuse(x) => x,
        FetchReply::Serve { .. } => panic!("served"),
    };
    assert_eq!(
        refusal(manifest_fetch_reply(&store, "m1", 2, "other", Ok(true))),
        FetchRefusal::InsufficientPermissions
    );
    assert_eq!(
        refusal(manifest_fetch_reply(&store, "m1", 3, "t1", Ok(true))),
        FetchRefusal::NotFound
    );
    assert_eq!(
        refusal(manifest_fetch_reply(&store, "m1", 2, "t1", Ok(false))),
        FetchRefusal::InvalidToken
    );
    assert_eq!(
        refusal(manifest_fetch_reply(&store, "m1", 2, "t1", Err("x".to_string()))),
        FetchRefusal::VerificationFailed
    );
    assert_eq!(FetchRefusal::InsufficientPermissions.message(), "Insufficient permissions");
    assert_eq!(FetchRefusal::NotFound.message(), "Manifest not found");
    assert_eq!(FetchRefusal::InvalidToken.message(), "Invalid capability token");
    assert_eq!(FetchRefusal::VerificationFailed.message(), "Token verification failed");
}

#[test]
fn distribution_result_reads_the_answer() {
    assert_eq!(manifest_distribution_result(b"Manifest stored successfully"), Ok(()));
    assert_eq!(manifest_distribution_result(b"it was a success"), Ok(()));
    assert_eq!(manifest_distribution_result(b"stored"), Ok(()));
    assert_eq!(
        manifest_distribution_result(b"Failed to decode manifest: x"),
        Err("Manifest storage failed".to_string())
    );
    assert_eq!(
        manifest_distribution_result(&[0xff, 0xfe]),
        Err("Manifest storage failed".to_string())
    );
    assert_eq!(manifest_distribution_result(b""), Err("Manifest storage failed".to_string()));
}

#[test]
fn capability_token_bytes_cases() {
    assert_eq!(capability_token_bytes("debug"), Ok(None));
    assert_eq!(capability_token_bytes(""), Ok(None));
    assert_eq!(capability_token_bytes("aGVsbG8="), Ok(Some(b"hello".to_vec())));
    let err = capability_token_bytes("!!!").unwrap_err();
    assert!(err.starts_with("Failed to decode token: "));
}

fn token(root: Option<Option<&str>>, caveats: Vec<(Option<&str>, Option<&[u8]>)>) -> CapabilityTokenFields {
    CapabilityTokenFields {
        root_capability: root.map(|r| r.map(|s| s.to_string())),
        caveats: caveats
            .into_iter()
            .map(|(t, v)| CaveatFields {
                condition_type: t.map(|s| s.to_string()),
                value: v.map(|b| b.to_vec()),
            })
            .collect(),
    }
}

#[test]
fn capability_token_grants_cases() {
    let good = token(Some(Some("m1")), vec![(Some("authorized_peer"), Some(b"peerA"))]);
    assert!(capability_token_grants(&good, "m1", "peerA"));
    assert!(!capability_token_grants(&good, "m2", "peerA"));
    assert!(!capability_token_grants(&good, "m1", "peerB"));

    let later = token(
        Some(Some("m1")),
        vec![
            (Some("expires"), Some(b"peerA")),
            (None, Some(b"peerA")),
            (Some("authorized_peer"), None),
            (Some("authorized_peer"), Some(b"peerA")),
        ],
    );
    assert!(capability_token_grants(&later, "m1", "peerA"));

    let no_root = token(None, vec![(Some("authorized_peer"), Some(b"peerA"))]);
    assert!(!capability_token_grants(&no_root, "m1", "peerA"));

    let unnamed_root = token(Some(None), vec![(Some("authorized_peer"), Some(b"peerA"))]);
    assert!(capability_token_grants(&unnamed_root, "", "peerA"));
    assert!(!capability_token_grants(&unnamed_root, "m1", "peerA"));

    let bad_utf8: &[u8] = &[0xff];
    let odd = token(Some(Some("m1")), vec![(Some("authorized_peer"), Some(bad_utf8))]);
    assert!(capability_token_grants(&odd, "m1", ""));
    assert!(!capability_token_grants(&odd, "m1", "peerA"));

    let no_caveats = token(Some(Some("m1")), vec![]);
    assert!(!capability_token_grants(&no_caveats, "m1", "peerA"));
}

#[test]
fn capability_token_verdict_cases() {
    let good = token(Some(Some("m1")), vec![(Some("authorized_peer"), Some(b"peerA"))]);
    assert_eq!(capability_token_verdict(Ok(good.clone()), "m1", "peerA"), Ok(true));
    assert_eq!(capability_token_verdict(Ok(good), "m1", "peerB"), Ok(false));
    assert_eq!(
        capability_token_verdict(Err("bad".to_string()), "m1", "peerA"),
        Err("Failed to parse token: bad".to_string())
    );
}

#[test]
fn pushed_manifest_is_stored_by_the_peer() {
    let payload = vec![0u8, 1, 2, 250, 251, 252, 253, 254, 255];
    let request = manifest_push_request("manifest-7", &payload);
    assert!(request.starts_with(b"manifest-7:"));
    let mut store = LocalManifestStore::new();
    let reply = handle_manifest_store_request(&mut store, &request, 99);
    assert_eq!(reply, Some(b"Manifest stored successfully".to_vec()));
    let entry = store.get_manifest("manifest-7", 1).unwrap();
    assert_eq!(entry.encrypted_data, payload);
    assert_eq!(entry.stored_at, 99);
}

#[test]
fn own_manifest_is_stored_when_it_is_a_manifest() {
    let mut store = LocalManifestStore::new();
    assert!(!store_own_manifest(&mut store, "m", "manifest", &[], 1));
    assert!(!store_own_manifest(&mut store, "m", "keyshare", &[1], 1));
    assert!(store.is_empty());
    assert!(store_own_manifest(&mut store, "m", "manifest", &[1, 2], 5));
    let e = store.get_manifest("m", 1).unwrap();
    assert_eq!(e.encrypted_data, vec![1, 2]);
    assert_eq!(e.stored_at, 5);
    assert_eq!(e.version, 1);
}
