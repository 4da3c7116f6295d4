//! The command-line client's decisions: the id a manifest is applied and
//! deleted under, how many nodes it needs, the candidates a machine
//! offers, the machine's KEM key, the endpoints it calls, and what it
//! makes of a machine's answer. Files, HTTP and the scheduler are the
//! caller's part.
use vstd::prelude::*;

use crate::capacity::{find_char, index_of_char, lemma_index_of_char};
use crate::crypto::{
    base64_decode, decrypt_payload_from_recipient_blob, spec_aes256gcm_decrypt, spec_base64_decode,
    spec_mlkem512_decapsulate, BlobDecryptError, AES_GCM_NONCE_LEN,
};
use crate::digest::{hash_bytes_then_str, spec_hash_bytes_then_str};
use crate::bytes::copy_range;
use crate::capacity::starts_with;
use crate::recipient_blob::{parse_blob, RECIPIENT_BLOB_VERSION};
use crate::text::{decimal_chars, hex_chars, u64_to_decimal, u64_to_hex};

verus! {

/// The tenant the client acts for.
pub fn default_tenant() -> (s: String)
    ensures
        s@ == "00000000-0000-0000-0000-000000000000"@,
{
    String::from_str("00000000-0000-0000-0000-000000000000")
}

/// What the client does with a manifest.
#[derive(Debug, Clone, Copy, PartialEq, Eq, Structural)]
pub enum ManifestAction {
    Deployment,
    Deletion,
}

/// The id a manifest named `name` is applied and deleted under by the
/// owner of `owner_pubkey`: the hash of the key and the name, in sixteen
/// hexadecimal digits. A manifest without a name is refused.
pub fn cli_manifest_id(owner_pubkey: &[u8], name: Option<&str>, action: ManifestAction) -> (r: Result<
    String,
    String,
>)
    ensures
        match name {
            Some(n) => r matches Ok(id) && id@ == hex_chars(
                spec_hash_bytes_then_str(owner_pubkey@, n@) as nat,
                16,
            ),
            None => r matches Err(e) && e@ == match action {
                ManifestAction::Deployment => "Manifest must have a name field in metadata for deployment"@,
                ManifestAction::Deletion => "Manifest must have a name field in metadata for deletion"@,
            },
        },
{
    match name {
        Some(n) => Ok(u64_to_hex(hash_bytes_then_str(owner_pubkey, n), 16)),
        None => match action {
            ManifestAction::Deployment => Err(
                String::from_str("Manifest must have a name field in metadata for deployment"),
            ),
            ManifestAction::Deletion => Err(
                String::from_str("Manifest must have a name field in metadata for deletion"),
            ),
        },
    }
}

/// The number of replicas a manifest asks for: `spec.replicas`, else a
/// top-level `replicas`, else one.
pub fn requested_replicas(spec_replicas: Option<u64>, top_replicas: Option<u64>) -> (n: u64)
    ensures
        n == match spec_replicas {
            Some(r) => r,
            None => match top_replicas {
                Some(r) => r,
                None => 1,
            },
        },
{
    match spec_replicas {
        Some(r) => r,
        None => match top_replicas {
            Some(r) => r,
            None => 1,
        },
    }
}

/// Whether the candidates offered can carry the replicas: some are needed,
/// and at least one per replica.
pub fn check_candidate_count(candidates: usize, replicas: u64) -> (r: Result<(), String>)
    ensures
        candidates == 0 ==> (r matches Err(e) && e@ == "No candidate nodes available for scheduling"@),
        candidates > 0 && candidates < replicas ==> (r matches Err(e) && e@
            == "Not enough candidate nodes available: need "@ + decimal_chars(replicas as nat)
            + ", got "@ + decimal_chars(candidates as nat)),
        candidates > 0 && candidates >= replicas ==> r is Ok,
{
    if candidates == 0 {
        return Err(String::from_str("No candidate nodes available for scheduling"));
    }
    if (candidates as u64) < replicas {
        return Err(
            String::from_str("Not enough candidate nodes available: need ").concat(
                u64_to_decimal(replicas).as_str(),
            ).concat(", got ").concat(u64_to_decimal(candidates as u64).as_str()),
        );
    }
    Ok(())
}

/// The (peer id, key) of a candidate entry `peer_id:pubkey_b64`, split at
/// its first colon.
pub open spec fn split_candidate(entry: Seq<char>) -> Option<(Seq<char>, Seq<char>)> {
    let i = index_of_char(entry, ':');
    if i < entry.len() {
        Some((entry.subrange(0, i), entry.subrange(i + 1, entry.len() as int)))
    } else {
        None
    }
}

/// The entries in order, each split, or the first one without a colon.
pub open spec fn split_candidates(entries: Seq<Seq<char>>) -> Result<Seq<(Seq<char>, Seq<char>)>, Seq<char>>
    decreases entries.len(),
{
    if entries.len() == 0 {
        Ok(Seq::empty())
    } else {
        match split_candidates(entries.drop_last()) {
            Err(e) => Err(e),
            Ok(done) => match split_candidate(entries.last()) {
                Some(p) => Ok(done.push(p)),
                None => Err(entries.last()),
            },
        }
    }
}

/// Split every candidate entry `peer_id:pubkey_b64` at its first colon; an
/// entry without one is refused.
pub fn parse_candidate_list(peers: &Vec<String>) -> (r: Result<Vec<(String, String)>, String>)
    ensures
        match split_candidates(peers@.map_values(|s: String| s@)) {
            Ok(parts) => r matches Ok(v) && v@.map_values(|c: (String, String)| (c.0@, c.1@)) == parts,
            Err(bad) => r matches Err(e) && e@
                == "Invalid candidate format: expected 'peer_id:pubkey_b64', got '"@ + bad + "'"@,
        },
{
    let ghost all = peers@.map_values(|s: String| s@);
    let mut out: Vec<(String, String)> = Vec::new();
    let mut k: usize = 0;
    while k < peers.len()
        invariant
            k <= peers@.len(),
            all == peers@.map_values(|s: String| s@),
            split_candidates(all.take(k as int)) matches Ok(done) && out@.map_values(
                |c: (String, String)| (c.0@, c.1@),
            ) == done,
        decreases peers@.len() - k,
    {
        let entry = peers[k].as_str();
        let n = entry.unicode_len();
        let i = find_char(entry, ':', 0);
        proof {
            assert(entry@.subrange(0, entry@.len() as int) =~= entry@);
            lemma_index_of_char(entry@, ':');
            assert(all.take(k + 1).drop_last() =~= all.take(k as int));
            assert(all.take(k + 1).last() == entry@);
        }
        if i >= n {
            proof {
                assert(split_candidates(all.take(k + 1)) == Err::<Seq<(Seq<char>, Seq<char>)>, _>(
                    entry@,
                ));
                assert(split_candidates(all) == split_candidates(all.take(k + 1))) by {
                    lemma_split_candidates_prefix_err(all, k + 1);
                }
            }
            return Err(
                String::from_str("Invalid candidate format: expected 'peer_id:pubkey_b64', got '").concat(
                    entry,
                ).concat("'"),
            );
        }
        let peer = entry.substring_char(0, i);
        let key = entry.substring_char(i + 1, n);
        let ghost before = out@.map_values(|c: (String, String)| (c.0@, c.1@));
        out.push((peer.to_owned(), key.to_owned()));
        proof {
            assert(out@.map_values(|c: (String, String)| (c.0@, c.1@)) =~= before.push((peer@, key@)));
        }
        k = k + 1;
    }
    proof {
        assert(all.take(k as int) =~= all);
    }
    Ok(out)
}

proof fn lemma_split_candidates_prefix_err(all: Seq<Seq<char>>, k: int)
    requires
        0 <= k <= all.len(),
        split_candidates(all.take(k)) is Err,
    ensures
        split_candidates(all) == split_candidates(all.take(k)),
    decreases all.len() - k,
{
    if k < all.len() {
        assert(all.take(k + 1).drop_last() =~= all.take(k));
        lemma_split_candidates_prefix_err(all, k + 1);
    } else {
        assert(all.take(k) =~= all);
    }
}

/// `s` without its trailing slashes.
pub open spec fn trim_slashes(s: Seq<char>) -> Seq<char>
    decreases s.len(),
{
    if s.len() > 0 && s.last() == '/' {
        trim_slashes(s.drop_last())
    } else {
        s
    }
}

/// The base URL without its trailing slashes.
pub fn trim_trailing_slashes(base: &str) -> (r: String)
    ensures
        r@ == trim_slashes(base@),
{
    let mut n = base.unicode_len();
    assert(base@.subrange(0, n as int) =~= base@);
    while n > 0 && base.get_char(n - 1) == '/'
        invariant
            n <= base@.len(),
            trim_slashes(base@) == trim_slashes(base@.subrange(0, n as int)),
        decreases n,
    {
        proof {
            assert(base@.subrange(0, n as int).drop_last() =~= base@.subrange(0, n - 1));
        }
        n = n - 1;
    }
    proof {
        if n == base@.len() {
            assert(base@.subrange(0, n as int) =~= base@);
        }
    }
    base.substring_char(0, n).to_owned()
}

/// The endpoint that forwards an apply request to `node`.
pub fn apply_direct_url(base: &str, tenant: &str, node: &str) -> (r: String)
    ensures
        r@ == trim_slashes(base@) + "/tenant/"@ + tenant@ + "/apply_direct/"@ + node@,
{
    trim_trailing_slashes(base).concat("/tenant/").concat(tenant).concat("/apply_direct/").concat(node)
}

/// The endpoint of the task `manifest_id`.
pub fn task_url(base: &str, tenant: &str, manifest_id: &str) -> (r: String)
    ensures
        r@ == trim_slashes(base@) + "/tenant/"@ + tenant@ + "/tasks/"@ + manifest_id@,
{
    trim_trailing_slashes(base).concat("/tenant/").concat(tenant).concat("/tasks/").concat(manifest_id)
}

/// The endpoint that offers candidates for a task.
pub fn candidates_url(base: &str, task_id: &str) -> (r: String)
    ensures
        r@ == trim_slashes(base@) + "/tasks/"@ + task_id@ + "/candidates"@,
{
    trim_trailing_slashes(base).concat("/tasks/").concat(task_id).concat("/candidates")
}

/// The endpoint of the machine's KEM public key (the base is used as it
/// is).
pub fn kem_pubkey_url(base: &str) -> (r: String)
    ensures
        r@ == base@ + "/api/v1/kem_pubkey"@,
{
    base.to_owned().concat("/api/v1/kem_pubkey")
}

/// The body of a delete request.
pub fn delete_body(force: bool) -> (r: String)
    ensures
        r@ == if force {
            "force=true"@
        } else {
            ""@
        },
{
    if force {
        String::from_str("force=true")
    } else {
        String::from_str("")
    }
}

/// The machine's KEM public key from the text it answered: an answer
/// starting with `ERROR:` is refused, and the text must be base64.
pub fn machine_key_from_answer(body: &str) -> (r: Result<Vec<u8>, String>)
    ensures
        body@.len() >= 6 && body@.subrange(0, 6) == "ERROR:"@ ==> (r matches Err(e) && e@
            == "Machine returned error: "@ + body@),
        !(body@.len() >= 6 && body@.subrange(0, 6) == "ERROR:"@) ==> match spec_base64_decode(body@) {
            Ok(k) => r matches Ok(v) && v@ == k,
            Err(d) => r matches Err(e) && e@ == "Failed to decode public key: "@ + d,
        },
{
    proof {
        reveal_strlit("ERROR:");
    }
    if starts_with(body, "ERROR:") {
        return Err(String::from_str("Machine returned error: ").concat(body));
    }
    match base64_decode(body) {
        Ok(k) => Ok(k),
        Err(d) => Err(String::from_str("Failed to decode public key: ").concat(d.as_str())),
    }
}

/// The candidate entries `peer_id:public_key` of a candidates answer: a
/// candidate without a peer id is left out, and a missing key is empty.
pub fn candidate_entries(candidates: &Vec<(Option<String>, Option<String>)>) -> (r: Vec<String>)
    ensures
        r@.map_values(|s: String| s@) == candidate_texts(
            candidates@.map_values(
                |c: (Option<String>, Option<String>)|
                    (
                        match c.0 {
                            Some(p) => Some(p@),
                            None => None,
                        },
                        match c.1 {
                            Some(k) => k@,
                            None => Seq::<char>::empty(),
                        },
                    ),
            ),
        ),
{
    let ghost all = candidates@.map_values(
        |c: (Option<String>, Option<String>)|
            (
                match c.0 {
                    Some(p) => Some(p@),
                    None => None,
                },
                match c.1 {
                    Some(k) => k@,
                    None => Seq::<char>::empty(),
                },
            ),
    );
    let mut out: Vec<String> = Vec::new();
    let mut i: usize = 0;
    while i < candidates.len()
        invariant
            i <= candidates@.len(),
            all.len() == candidates@.len(),
            all == candidates@.map_values(
                |c: (Option<String>, Option<String>)|
                    (
                        match c.0 {
                            Some(p) => Some(p@),
                            None => None,
                        },
                        match c.1 {
                            Some(k) => k@,
                            None => Seq::<char>::empty(),
                        },
                    ),
            ),
            out@.map_values(|s: String| s@) == candidate_texts(all.take(i as int)),
        decreases candidates@.len() - i,
    {
        proof {
            assert(all.take(i + 1).drop_last() =~= all.take(i as int));
            assert(all.take(i + 1).last() == all[i as int]);
        }
        match &candidates[i].0 {
            Some(p) => {
                let key: String = match &candidates[i].1 {
                    Some(k) => k.clone(),
                    None => String::new(),
                };
                proof {
                    reveal_strlit("");
                }
                let ghost before = out@.map_values(|s: String| s@);
                out.push(p.clone().concat(":").concat(key.as_str()));
                proof {
                    assert(out@.map_values(|s: String| s@) =~= before.push(p@ + ":"@ + key@));
                }
            },
            None => {},
        }
        i = i + 1;
    }
    proof {
        assert(all.take(i as int) =~= all);
    }
    out
}

/// The `peer:key` texts of the candidates that have a peer id, in order.
pub open spec fn candidate_texts(c: Seq<(Option<Seq<char>>, Seq<char>)>) -> Seq<Seq<char>>
    decreases c.len(),
{
    if c.len() == 0 {
        Seq::empty()
    } else {
        let rest = candidate_texts(c.drop_last());
        match c.last().0 {
            Some(p) => rest.push(p + ":"@ + c.last().1),
            None => rest,
        }
    }
}

/// Whether a machine's answer is opened as an envelope: it is longer than
/// a hundred bytes and the machine's key is known.
pub fn answer_may_be_envelope(len: usize, machine_key_known: bool) -> (b: bool)
    ensures
        b == (len > 100 && machine_key_known),
{
    len > 100 && machine_key_known
}

/// What an envelope payload from a machine says: a recipient blob is
/// decrypted with the client's KEM private key, anything else is read as
/// it is.
pub fn decrypt_from_machine(payload: &[u8], kem_priv: &[u8]) -> (r: Result<Vec<u8>, BlobDecryptError>)
    requires
        parse_blob(payload@) matches Ok((_, nonce, _)) ==> nonce.len() == AES_GCM_NONCE_LEN,
    ensures
        !(payload@.len() > 0 && payload@[0] == RECIPIENT_BLOB_VERSION) ==> (r matches Ok(v) && v@
            == payload@),
        payload@.len() > 0 && payload@[0] == RECIPIENT_BLOB_VERSION ==> match parse_blob(payload@) {
            Err(e) => r == Err::<Vec<u8>, _>(BlobDecryptError::Malformed(e)),
            Ok((wrapped, nonce, ct)) => match spec_mlkem512_decapsulate(kem_priv@, wrapped) {
                None => r == Err::<Vec<u8>, _>(BlobDecryptError::Decapsulation),
                Some(key) => match spec_aes256gcm_decrypt(key, nonce, ct) {
                    None => r == Err::<Vec<u8>, _>(BlobDecryptError::Decryption),
                    Some(p) => r matches Ok(v) && v@ == p,
                },
            },
        },
{
    if payload.len() > 0 && payload[0] == RECIPIENT_BLOB_VERSION {
        decrypt_payload_from_recipient_blob(payload, kem_priv)
    } else {
        let b = copy_range(payload, 0, payload.len());
        assert(b@ =~= payload@);
        Ok(b)
    }
}

/// Where a manifest sent to one node gets `replicas: 1`.
#[derive(Debug, Clone, Copy, PartialEq, Eq, Structural)]
pub enum ReplicasField {
    /// `spec.replicas` (the manifest has a `spec` object).
    InSpec,
    /// The top-level `replicas` (no `spec`, but a top-level `replicas`).
    TopLevel,
    /// Nowhere: the manifest has neither, or a `spec` that is no object.
    Untouched,
}

/// Where each node's copy of a manifest is set to one replica: in `spec`
/// when the manifest has a `spec` object; left alone when its `spec` is not
/// an object; else at top level when the manifest has a top-level
/// `replicas`; else nowhere.
pub fn per_node_replicas_field(has_spec: bool, spec_is_object: bool, has_top_level_replicas: bool) -> (f:
    ReplicasField)
    ensures
        f == (if has_spec {
            if spec_is_object {
                ReplicasField::InSpec
            } else {
                ReplicasField::Untouched
            }
        } else if has_top_level_replicas {
            ReplicasField::TopLevel
        } else {
            ReplicasField::Untouched
        }),
{
    if has_spec {
        if spec_is_object {
            ReplicasField::InSpec
        } else {
            ReplicasField::Untouched
        }
    } else if has_top_level_replicas {
        ReplicasField::TopLevel
    } else {
        ReplicasField::Untouched
    }
}

/// The shape of a manifest's JSON text that the per-node rewrite reads:
/// (has `spec`, `spec` is an object, has a top-level `replicas`), or none
/// when the text is not JSON.
pub uninterp spec fn spec_manifest_shape(json: Seq<char>) -> Option<(bool, bool, bool)>;

/// The JSON text of the manifest read and written again
/// (`serde_json::to_string` of the parsed value), or none when the text is
/// not JSON.
pub uninterp spec fn spec_json_rewritten(json: Seq<char>) -> Option<Seq<char>>;

/// The JSON text of the manifest with `spec.replicas` set to 1, or none
/// when the text is not JSON or its `spec` is no object.
pub uninterp spec fn spec_json_spec_replicas_one(json: Seq<char>) -> Option<Seq<char>>;

/// The JSON text of the manifest with the top-level `replicas` set to 1,
/// or none when the text is not a JSON object.
pub uninterp spec fn spec_json_top_replicas_one(json: Seq<char>) -> Option<Seq<char>>;

/// `serde_json::from_str::<Value>`, then whether the value has a `spec`,
/// whether that is an object, and whether it has a top-level `replicas`;
/// the result is named `spec_manifest_shape` of the text.
#[verifier::external_body]
fn manifest_shape(json: &str) -> (r: Option<(bool, bool, bool)>)
    ensures
        r == spec_manifest_shape(json@),
{
    let v: serde_json::Value = serde_json::from_str(json).ok()?;
    Some((v.get("spec").is_some(), v.get("spec").map_or(false, |s| s.is_object()), v.get("replicas").is_some()))
}

/// `serde_json::from_str::<Value>`, then `serde_json::to_string`; the
/// result is named `spec_json_rewritten` of the text.
#[verifier::external_body]
fn json_rewritten(json: &str) -> (r: Option<String>)
    ensures
        match r {
            Some(t) => spec_json_rewritten(json@) == Some(t@),
            None => spec_json_rewritten(json@) is None,
        },
{
    let v: serde_json::Value = serde_json::from_str(json).ok()?;
    serde_json::to_string(&v).ok()
}

/// `serde_json::from_str::<Value>`, then the number 1 inserted as
/// `replicas` into the `spec` object, then `serde_json::to_string`; the
/// result is named `spec_json_spec_replicas_one` of the text.
#[verifier::external_body]
fn json_spec_replicas_one(json: &str) -> (r: Option<String>)
    ensures
        match r {
            Some(t) => spec_json_spec_replicas_one(json@) == Some(t@),
            None => spec_json_spec_replicas_one(json@) is None,
        },
{
    let mut v: serde_json::Value = serde_json::from_str(json).ok()?;
    v.get_mut("spec")?.as_object_mut()?.insert("replicas".to_string(), serde_json::Value::from(1u64));
    serde_json::to_string(&v).ok()
}

/// `serde_json::from_str::<Value>`, then the number 1 inserted as the
/// top-level `replicas`, then `serde_json::to_string`; the result is named
/// `spec_json_top_replicas_one` of the text.
#[verifier::external_body]
fn json_top_replicas_one(json: &str) -> (r: Option<String>)
    ensures
        match r {
            Some(t) => spec_json_top_replicas_one(json@) == Some(t@),
            None => spec_json_top_replicas_one(json@) is None,
        },
{
    let mut v: serde_json::Value = serde_json::from_str(json).ok()?;
    v.as_object_mut()?.insert("replicas".to_string(), serde_json::Value::from(1u64));
    serde_json::to_string(&v).ok()
}

/// The text each node receives for a manifest whose replicas go to `field`.
pub open spec fn spec_with_one_replica(json: Seq<char>, field: ReplicasField) -> Option<Seq<char>> {
    match field {
        ReplicasField::InSpec => spec_json_spec_replicas_one(json),
        ReplicasField::TopLevel => spec_json_top_replicas_one(json),
        ReplicasField::Untouched => spec_json_rewritten(json),
    }
}

/// The place where a manifest of this shape is set to one replica.
pub open spec fn replicas_field_of(shape: (bool, bool, bool)) -> ReplicasField {
    if shape.0 {
        if shape.1 {
            ReplicasField::InSpec
        } else {
            ReplicasField::Untouched
        }
    } else if shape.2 {
        ReplicasField::TopLevel
    } else {
        ReplicasField::Untouched
    }
}

/// The manifest each selected node receives: the manifest with one
/// replica, as [`per_node_replicas_field`] places it; none when the text is
/// not JSON.
pub fn per_node_manifest(manifest_json: &str) -> (r: Option<String>)
    ensures
        match spec_manifest_shape(manifest_json@) {
            None => r is None,
            Some(shape) => match spec_with_one_replica(manifest_json@, replicas_field_of(shape)) {
                Some(t) => r matches Some(s) && s@ == t,
                None => r is None,
            },
        },
{
    match manifest_shape(manifest_json) {
        None => None,
        Some((has_spec, spec_is_object, has_top)) => {
            match per_node_replicas_field(has_spec, spec_is_object, has_top) {
                ReplicasField::InSpec => json_spec_replicas_one(manifest_json),
                ReplicasField::TopLevel => json_top_replicas_one(manifest_json),
                ReplicasField::Untouched => json_rewritten(manifest_json),
            }
        },
    }
}

} // verus!
