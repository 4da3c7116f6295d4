//! Apply requests between nodes: the id a manifest is deployed under, which
//! requests are admitted, the manifest carried in an envelope and its
//! decryption with the node's KEM key, the capability granted to the peer
//! asked to run a manifest, and the record kept in the DHT for an applied
//! manifest, and the deployment settings read from a manifest.
use vstd::prelude::*;
use vstd::utf8::{decode_utf8, valid_utf8};

use crate::assoc::{keys_distinct, lemma_push, lemma_to_map_dom, lemma_update, to_map};
use crate::bytes::copy_range;
use crate::crypto::{
    base64_decode, decrypt_payload_from_recipient_blob, normalize_and_decode_signature,
    signature_b64_part, spec_aes256gcm_decrypt, spec_base64_decode, spec_mlkem512_decapsulate,
    BlobDecryptError, AES_GCM_NONCE_LEN,
};
use crate::digest::{
    hash_bytes, hash_str, hash_three_strs, spec_hash_bytes, spec_hash_str, spec_hash_three_strs,
};
use crate::provider::utf8_to_string;
use crate::recipient_blob::{parse_blob, RECIPIENT_BLOB_VERSION};
use crate::text::{hex_min_chars, str_eq, u64_to_hex_min};

verus! {

/// The id a manifest of an apply request is deployed under: the hash of
/// the tenant, the operation id and the manifest text, in hexadecimal.
pub open spec fn spec_apply_manifest_id(tenant: Seq<char>, operation_id: Seq<char>, manifest_json: Seq<char>) -> Seq<char> {
    hex_min_chars(spec_hash_three_strs(tenant, operation_id, manifest_json) as nat)
}

/// The id of the manifest of an apply request with these fields.
pub fn apply_manifest_id(tenant: &str, operation_id: &str, manifest_json: &str) -> (id: String)
    ensures
        id@ == spec_apply_manifest_id(tenant@, operation_id@, manifest_json@),
{
    u64_to_hex_min(hash_three_strs(tenant, operation_id, manifest_json))
}

/// The id under which a manifest is sent to a peer: that of its apply
/// request when the request names a tenant, an operation and a manifest,
/// else the hash of the raw request bytes, in hexadecimal.
pub fn outgoing_apply_manifest_id(fields: Option<(&str, &str, &str)>, raw: &[u8]) -> (id: String)
    ensures
        id@ == match fields {
            Some((t, o, m)) => spec_apply_manifest_id(t@, o@, m@),
            None => hex_min_chars(spec_hash_bytes(raw@) as nat),
        },
{
    match fields {
        Some((t, o, m)) => apply_manifest_id(t, o, m),
        None => u64_to_hex_min(hash_bytes(raw)),
    }
}

/// The bytes of an apply request that are processed: the verified payload
/// of its envelope, or, when signed messages are not required, the request
/// as it came. Otherwise it is refused.
pub fn admitted_apply_request(verified_payload: Option<Vec<u8>>, require_signed: bool, raw: &[u8]) -> (r: Result<
    Vec<u8>,
    String,
>)
    ensures
        match verified_payload {
            Some(p) => r matches Ok(b) && b@ == p@,
            None => if require_signed {
                r matches Err(m) && m@ == "unsigned or invalid envelope"@
            } else {
                r matches Ok(b) && b@ == raw@
            },
        },
{
    match verified_payload {
        Some(p) => Ok(p),
        None => {
            if require_signed {
                Err(String::from_str("unsigned or invalid envelope"))
            } else {
                let b = copy_range(raw, 0, raw.len());
                assert(b@ =~= raw@);
                Ok(b)
            }
        },
    }
}

/// The answer to an apply request: (ok, operation id, message). It
/// succeeds when the request carries a manifest; an absent operation id is
/// answered as `unknown`.
pub fn apply_response_fields(has_manifest: bool, operation_id: Option<&str>) -> (r: (bool, String, String))
    ensures
        r.0 == has_manifest,
        r.1@ == match operation_id {
            Some(o) => o@,
            None => "unknown"@,
        },
        r.2@ == if has_manifest {
            "Successfully applied manifest and stored in DHT"@
        } else {
            "Failed to apply manifest"@
        },
{
    let op = match operation_id {
        Some(o) => o.to_owned(),
        None => String::from_str("unknown"),
    };
    let msg = if has_manifest {
        String::from_str("Successfully applied manifest and stored in DHT")
    } else {
        String::from_str("Failed to apply manifest")
    };
    (has_manifest, op, msg)
}

/// The reply to the node that asked for an apply to `peer`: handled here
/// when `peer` is this node, else sent.
pub fn apply_dispatch_reply(local: bool, peer: &str) -> (s: String)
    ensures
        s@ == if local {
            "Apply request handled locally for "@ + peer@
        } else {
            "Apply request sent to "@ + peer@
        },
{
    if local {
        String::from_str("Apply request handled locally for ").concat(peer)
    } else {
        String::from_str("Apply request sent to ").concat(peer)
    }
}

/// Why the manifest of an envelope could not be had.
#[derive(Debug, Clone, PartialEq, Eq)]
pub enum EnvelopeManifestError {
    /// The envelope carries another payload type.
    WrongPayloadType(String),
    /// The envelope carries no payload.
    MissingPayload,
}

impl EnvelopeManifestError {
    /// The error text.
    pub fn message(&self) -> (s: String)
        ensures
            s@ == match self {
                EnvelopeManifestError::WrongPayloadType(t) => "Wrong payload type: '"@ + t@
                    + "', expected 'manifest'"@,
                EnvelopeManifestError::MissingPayload => "Envelope missing payload"@,
            },
    {
        match self {
            EnvelopeManifestError::WrongPayloadType(t) => String::from_str("Wrong payload type: '").concat(
                t.as_str(),
            ).concat("', expected 'manifest'"),
            EnvelopeManifestError::MissingPayload => String::from_str("Envelope missing payload"),
        }
    }
}

/// The encrypted manifest an envelope carries: its payload, when its
/// payload type is `manifest` (an absent type reads as empty).
pub fn envelope_manifest_payload(payload_type: Option<&str>, payload: Option<&[u8]>) -> (r: Result<
    Vec<u8>,
    EnvelopeManifestError,
>)
    ensures
        ({
            let t = match payload_type {
                Some(t) => t@,
                None => Seq::<char>::empty(),
            };
            if t != "manifest"@ {
                r matches Err(EnvelopeManifestError::WrongPayloadType(w)) && w@ == t
            } else {
                match payload {
                    Some(p) => r matches Ok(b) && b@ == p@,
                    None => r == Err::<Vec<u8>, _>(EnvelopeManifestError::MissingPayload),
                }
            }
        }),
{
    let t: &str = match payload_type {
        Some(t) => t,
        None => "",
    };
    proof {
        reveal_strlit("");
        assert(t@ =~= match payload_type {
            Some(t) => t@,
            None => Seq::<char>::empty(),
        });
    }
    if !str_eq(t, "manifest") {
        return Err(EnvelopeManifestError::WrongPayloadType(t.to_owned()));
    }
    match payload {
        Some(p) => {
            let b = copy_range(p, 0, p.len());
            assert(b@ =~= p@);
            Ok(b)
        },
        None => Err(EnvelopeManifestError::MissingPayload),
    }
}

/// Why an encrypted manifest could not be read.
#[derive(Debug, Clone, PartialEq, Eq)]
pub enum ManifestDecryptError {
    /// The payload is not a recipient blob.
    UnsupportedPayloadFormat,
    /// The recipient blob could not be decrypted.
    Blob(BlobDecryptError),
    /// The decrypted manifest is not UTF-8 text.
    NotUtf8,
}

/// The manifest text in an envelope payload, decrypted with the node's KEM
/// private key: the payload must be a recipient blob, and what it decrypts
/// to must be UTF-8 text.
pub open spec fn spec_envelope_manifest(payload: Seq<u8>, kem_priv: Seq<u8>) -> Result<Seq<char>, ManifestDecryptError> {
    if payload.len() == 0 || payload[0] != RECIPIENT_BLOB_VERSION {
        Err(ManifestDecryptError::UnsupportedPayloadFormat)
    } else {
        match parse_blob(payload) {
            Err(e) => Err(ManifestDecryptError::Blob(BlobDecryptError::Malformed(e))),
            Ok((wrapped, nonce, ct)) => match spec_mlkem512_decapsulate(kem_priv, wrapped) {
                None => Err(ManifestDecryptError::Blob(BlobDecryptError::Decapsulation)),
                Some(key) => match spec_aes256gcm_decrypt(key, nonce, ct) {
                    None => Err(ManifestDecryptError::Blob(BlobDecryptError::Decryption)),
                    Some(p) => if valid_utf8(p) {
                        Ok(decode_utf8(p))
                    } else {
                        Err(ManifestDecryptError::NotUtf8)
                    },
                },
            },
        }
    }
}

/// Decrypt the manifest carried in an envelope payload with the node's KEM
/// private key.
pub fn decrypt_manifest_from_envelope_payload(payload_bytes: &[u8], kem_priv: &[u8]) -> (r: Result<
    String,
    ManifestDecryptError,
>)
    requires
        parse_blob(payload_bytes@) matches Ok((_, nonce, _)) ==> nonce.len() == AES_GCM_NONCE_LEN,
    ensures
        match spec_envelope_manifest(payload_bytes@, kem_priv@) {
            Ok(text) => r matches Ok(s) && s@ == text,
            Err(e) => r == Err::<String, _>(e),
        },
{
    if payload_bytes.len() == 0 || payload_bytes[0] != RECIPIENT_BLOB_VERSION {
        return Err(ManifestDecryptError::UnsupportedPayloadFormat);
    }
    let plain = match decrypt_payload_from_recipient_blob(payload_bytes, kem_priv) {
        Ok(p) => p,
        Err(e) => return Err(ManifestDecryptError::Blob(e)),
    };
    match utf8_to_string(plain) {
        Some(s) => Ok(s),
        None => Err(ManifestDecryptError::NotUtf8),
    }
}

/// Lifetime of a capability granted to a peer asked to run a manifest, in
/// milliseconds.
pub const CAPABILITY_GRANT_TTL_MS: u64 = 3600000;

/// A capability that lets one peer fetch the key shares of a manifest.
#[derive(Debug, Clone, PartialEq, Eq)]
pub struct CapabilityGrant {
    /// The manifest the capability is for.
    pub task_id: String,
    /// The peer that issues it.
    pub issuer_peer_id: String,
    /// The peer it authorizes (its single caveat).
    pub authorized_peer: String,
    pub required_quorum: u32,
    pub issued_at_ms: u64,
    pub expires_at_ms: u64,
}

/// The capability a node grants `peer` for the manifest `manifest_id` it
/// asks `peer` to run, issued at `now_ms` and valid for an hour.
pub fn remote_capability_grant(manifest_id: &str, issuer: &str, peer: &str, now_ms: u64) -> (g:
    CapabilityGrant)
    requires
        now_ms + CAPABILITY_GRANT_TTL_MS <= u64::MAX,
    ensures
        g.task_id@ == manifest_id@,
        g.issuer_peer_id@ == issuer@,
        g.authorized_peer@ == peer@,
        g.required_quorum == 1,
        g.issued_at_ms == now_ms,
        g.expires_at_ms == now_ms + CAPABILITY_GRANT_TTL_MS,
{
    CapabilityGrant {
        task_id: manifest_id.to_owned(),
        issuer_peer_id: issuer.to_owned(),
        authorized_peer: peer.to_owned(),
        required_quorum: 1,
        issued_at_ms: now_ms,
        expires_at_ms: now_ms + CAPABILITY_GRANT_TTL_MS,
    }
}

/// Lifetime of an applied-manifest record in the DHT, in seconds.
pub const APPLIED_MANIFEST_TTL_SECS: u64 = 3600;

/// The record of an applied manifest kept in the DHT.
#[derive(Debug, Clone)]
pub struct AppliedManifestRecord {
    pub manifest_id: String,
    pub tenant: String,
    pub operation_id: String,
    pub origin_peer: String,
    pub owner_pubkey: Vec<u8>,
    pub owner_signature: Vec<u8>,
    pub manifest_json: String,
    pub manifest_kind: String,
    pub labels: Vec<(String, String)>,
    pub timestamp_ms: u64,
    pub ttl_secs: u64,
    pub content_hash: String,
}

/// The owner key of an applied manifest: its base64 `pubkey` field
/// decoded, or empty when absent or not base64.
pub open spec fn owner_key_of(pubkey_b64: Option<Seq<char>>) -> Seq<u8> {
    match pubkey_b64 {
        Some(t) => match spec_base64_decode(t) {
            Ok(b) => b,
            Err(_) => Seq::empty(),
        },
        None => Seq::empty(),
    }
}

/// The labels of an applied manifest record.
pub open spec fn applied_labels(kind: Seq<char>, tenant: Seq<char>) -> Seq<(Seq<char>, Seq<char>)> {
    seq![("deployed-by"@, "beemesh-node"@), ("kind"@, kind), ("tenant"@, tenant)]
}

fn label(k: &str, v: &str) -> (l: (String, String))
    ensures
        l.0@ == k@,
        l.1@ == v@,
{
    (k.to_owned(), v.to_owned())
}

/// The DHT record of a manifest applied by this node (`origin_peer`) at
/// `now_ms`, from the manifest's text and its `pubkey` and `sig` fields. A
/// signature that is not base64 makes it fail.
pub fn applied_manifest_record(
    tenant: &str,
    operation_id: &str,
    origin_peer: &str,
    manifest_json: &str,
    pubkey_b64: Option<&str>,
    sig: Option<&str>,
    manifest_kind: &str,
    now_ms: u64,
) -> (r: Result<AppliedManifestRecord, String>)
    ensures
        ({
            let sig_text = match sig {
                Some(s) => s@,
                None => Seq::<char>::empty(),
            };
            match spec_base64_decode(signature_b64_part(sig_text)) {
                Err(_) => r matches Err(e) && e@ == "failed to decode signature: "@
                    + "failed to base64-decode signature"@,
                Ok(sig_bytes) => r matches Ok(rec) && {
                    &&& rec.manifest_id@ == spec_apply_manifest_id(tenant@, operation_id@, manifest_json@)
                    &&& rec.tenant@ == tenant@
                    &&& rec.operation_id@ == operation_id@
                    &&& rec.origin_peer@ == origin_peer@
                    &&& rec.owner_pubkey@ == owner_key_of(
                        match pubkey_b64 {
                            Some(p) => Some(p@),
                            None => None,
                        },
                    )
                    &&& rec.owner_signature@ == sig_bytes
                    &&& rec.manifest_json@ == manifest_json@
                    &&& rec.manifest_kind@ == manifest_kind@
                    &&& rec.labels@.map_values(|l: (String, String)| (l.0@, l.1@)) == applied_labels(
                        manifest_kind@,
                        tenant@,
                    )
                    &&& rec.timestamp_ms == now_ms
                    &&& rec.ttl_secs == APPLIED_MANIFEST_TTL_SECS
                    &&& rec.content_hash@ == hex_min_chars(spec_hash_str(manifest_json@) as nat)
                },
            }
        }),
{
    let owner_pubkey = match pubkey_b64 {
        Some(p) => match base64_decode(p) {
            Ok(b) => b,
            Err(_) => Vec::new(),
        },
        None => Vec::new(),
    };
    let owner_signature = match normalize_and_decode_signature(sig) {
        Ok(b) => b,
        Err(e) => return Err(String::from_str("failed to decode signature: ").concat(e.as_str())),
    };
    let mut labels: Vec<(String, String)> = Vec::new();
    labels.push(label("deployed-by", "beemesh-node"));
    labels.push(label("kind", manifest_kind));
    labels.push(label("tenant", tenant));
    proof {
        reveal_strlit("deployed-by");
        reveal_strlit("beemesh-node");
        assert(labels@.map_values(|l: (String, String)| (l.0@, l.1@)) =~= applied_labels(
            manifest_kind@,
            tenant@,
        ));
    }
    Ok(
        AppliedManifestRecord {
            manifest_id: apply_manifest_id(tenant, operation_id, manifest_json),
            tenant: tenant.to_owned(),
            operation_id: operation_id.to_owned(),
            origin_peer: origin_peer.to_owned(),
            owner_pubkey,
            owner_signature,
            manifest_json: manifest_json.to_owned(),
            manifest_kind: manifest_kind.to_owned(),
            labels,
            timestamp_ms: now_ms,
            ttl_secs: APPLIED_MANIFEST_TTL_SECS,
            content_hash: u64_to_hex_min(hash_str(manifest_json)),
        },
    )
}

/// The result of storing an applied manifest in the DHT, from the answer of
/// the network task: the manifest id on success, the failure otherwise,
/// and a cancellation when no answer came.
pub fn dht_store_result(manifest_id: String, answer: Option<Result<(), String>>) -> (r: Result<
    String,
    String,
>)
    ensures
        match answer {
            Some(Ok(())) => r matches Ok(id) && id@ == manifest_id@,
            Some(Err(e)) => r matches Err(m) && m@ == "Failed to store manifest in DHT: "@ + e@,
            None => r matches Err(m) && m@ == "DHT store operation was cancelled"@,
        },
{
    match answer {
        Some(Ok(())) => Ok(manifest_id),
        Some(Err(e)) => Err(String::from_str("Failed to store manifest in DHT: ").concat(e.as_str())),
        None => Err(String::from_str("DHT store operation was cancelled")),
    }
}

/// The result of reading a manifest from the DHT, from the answer of the
/// network task.
pub fn dht_get_result(answer: Option<Result<Option<Vec<u8>>, String>>) -> (r: Result<
    Option<Vec<u8>>,
    String,
>)
    ensures
        match answer {
            Some(Ok(v)) => r == Ok::<Option<Vec<u8>>, String>(v),
            Some(Err(e)) => r matches Err(m) && m@ == "Failed to get manifest from DHT: "@ + e@,
            None => r matches Err(m) && m@ == "DHT get operation was cancelled"@,
        },
{
    match answer {
        Some(Ok(v)) => Ok(v),
        Some(Err(e)) => Err(String::from_str("Failed to get manifest from DHT: ").concat(e.as_str())),
        None => Err(String::from_str("DHT get operation was cancelled")),
    }
}

/// Replicas a deployment asks for: `spec.replicas`, one when it is absent,
/// kept to the 32 bits the runtime takes (the higher bits are dropped).
pub fn deployment_replicas(spec_replicas: Option<u64>) -> (n: u32)
    ensures
        n == match spec_replicas {
            Some(r) => (r % 0x1_0000_0000) as u32,
            None => 1u32,
        },
{
    match spec_replicas {
        Some(r) => (r % 0x1_0000_0000) as u32,
        None => 1,
    }
}

/// The environment settings among a manifest's container variables: those
/// that have both a name and a value, in order.
pub open spec fn env_settings(vars: Seq<(Option<Seq<char>>, Option<Seq<char>>)>) -> Seq<
    (Seq<char>, Seq<char>),
>
    decreases vars.len(),
{
    if vars.len() == 0 {
        Seq::empty()
    } else {
        let rest = env_settings(vars.drop_last());
        match vars.last() {
            (Some(name), Some(value)) => rest.push((name, value)),
            _ => rest,
        }
    }
}

/// The view of an environment list.
pub open spec fn env_view(env: Seq<(String, String)>) -> Seq<(Seq<char>, Seq<char>)> {
    env.map_values(|e: (String, String)| (e.0@, e.1@))
}

/// The view of the container variables of a manifest.
pub open spec fn vars_view(vars: Seq<(Option<String>, Option<String>)>) -> Seq<
    (Option<Seq<char>>, Option<Seq<char>>),
> {
    vars.map_values(
        |v: (Option<String>, Option<String>)|
            (
                match v.0 {
                    Some(n) => Some(n@),
                    None => None,
                },
                match v.1 {
                    Some(x) => Some(x@),
                    None => None,
                },
            ),
    )
}

/// The position of `name` in an environment list, if it is set there.
fn env_index(env: &Vec<(String, String)>, name: &str) -> (r: Option<usize>)
    ensures
        match r {
            Some(k) => k < env@.len() && env_view(env@)[k as int].0 == name@,
            None => forall|j: int| 0 <= j < env@.len() ==> #[trigger] env_view(env@)[j].0 != name@,
        },
{
    let mut k: usize = 0;
    while k < env.len()
        invariant
            k <= env@.len(),
            forall|j: int| 0 <= j < k ==> #[trigger] env_view(env@)[j].0 != name@,
        decreases env@.len() - k,
    {
        if str_eq(env[k].0.as_str(), name) {
            return Some(k);
        }
        k = k + 1;
    }
    None
}

/// The environment of a deployment from the variables of all its
/// containers, in order: each variable with a name and a value is set, a
/// later one replacing an earlier one of the same name. Each name occurs
/// once in the result.
pub fn deployment_env(vars: &Vec<(Option<String>, Option<String>)>) -> (env: Vec<(String, String)>)
    ensures
        keys_distinct(env_view(env@)),
        to_map(env_view(env@)) == to_map(env_settings(vars_view(vars@))),
{
    let ghost all = vars_view(vars@);
    let mut env: Vec<(String, String)> = Vec::new();
    let mut i: usize = 0;
    proof {
        assert(env_view(env@) =~= Seq::<(Seq<char>, Seq<char>)>::empty());
        assert(all.take(0) =~= Seq::<(Option<Seq<char>>, Option<Seq<char>>)>::empty());
    }
    while i < vars.len()
        invariant
            i <= vars@.len(),
            all == vars_view(vars@),
            keys_distinct(env_view(env@)),
            to_map(env_view(env@)) == to_map(env_settings(all.take(i as int))),
        decreases vars@.len() - i,
    {
        proof {
            assert(all.take(i + 1).drop_last() =~= all.take(i as int));
            assert(all.take(i + 1).last() == all[i as int]);
        }
        match (&vars[i].0, &vars[i].1) {
            (Some(name), Some(value)) => {
                let ghost before = env_view(env@);
                let found = env_index(&env, name.as_str());
                if let Some(k) = found {
                    env.set(k, (name.clone(), value.clone()));
                    proof {
                        assert(env_view(env@) =~= before.update(k as int, (before[k as int].0, value@)));
                        lemma_update(before, k as int, value@);
                    }
                } else {
                    env.push((name.clone(), value.clone()));
                    proof {
                        lemma_to_map_dom(before, name@);
                        assert(env_view(env@) =~= before.push((name@, value@)));
                        lemma_push(before, name@, value@);
                    }
                }
                proof {
                    let done = env_settings(all.take(i as int));
                    assert(all[i as int] == (Some(name@), Some(value@)));
                    assert(env_settings(all.take(i + 1)) == done.push((name@, value@)));
                    assert(done.push((name@, value@)).drop_last() =~= done);
                }
            },
            _ => {
                proof {
                    assert(env_settings(all.take(i + 1)) == env_settings(all.take(i as int)));
                }
            },
        }
        i = i + 1;
    }
    proof {
        assert(all.take(i as int) =~= all);
    }
    env
}

} // verus!
