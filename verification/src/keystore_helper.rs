//! The keystore conventions of a node: the metadata recorded with each
//! stored share, the manifest list and statistics derived from the rows'
//! metadata, and the errors of keystore operations. Reading and writing the
//! keystore itself is the caller's part.
use vstd::prelude::*;

use crate::capacity::{find_char, first_field, lemma_index_of_char, lemma_index_of_char_at, starts_with};
use crate::text::str_eq;

verus! {

/// Keystore operation error types.
#[derive(Debug, Clone, PartialEq, Eq)]
pub enum KeystoreError {
    AccessFailed(String),
    EncryptionFailed(String),
    DecryptionFailed(String),
    ShareNotFound(String),
    InvalidShareData(String),
    KeypairFailed(String),
}

/// The text of a keystore error.
pub open spec fn keystore_error_text(e: KeystoreError) -> Seq<char> {
    match e {
        KeystoreError::AccessFailed(d) => "Keystore access failed: "@ + d@,
        KeystoreError::EncryptionFailed(d) => "Encryption failed: "@ + d@,
        KeystoreError::DecryptionFailed(d) => "Decryption failed: "@ + d@,
        KeystoreError::ShareNotFound(d) => "Share not found: "@ + d@,
        KeystoreError::InvalidShareData(d) => "Invalid share data: "@ + d@,
        KeystoreError::KeypairFailed(d) => "Keypair operation failed: "@ + d@,
    }
}

impl KeystoreError {
    /// The error text.
    pub fn message(&self) -> (s: String)
        ensures
            s@ == keystore_error_text(*self),
    {
        match self {
            KeystoreError::AccessFailed(d) => String::from_str("Keystore access failed: ").concat(
                d.as_str(),
            ),
            KeystoreError::EncryptionFailed(d) => String::from_str("Encryption failed: ").concat(
                d.as_str(),
            ),
            KeystoreError::DecryptionFailed(d) => String::from_str("Decryption failed: ").concat(
                d.as_str(),
            ),
            KeystoreError::ShareNotFound(d) => String::from_str("Share not found: ").concat(
                d.as_str(),
            ),
            KeystoreError::InvalidShareData(d) => String::from_str("Invalid share data: ").concat(
                d.as_str(),
            ),
            KeystoreError::KeypairFailed(d) => String::from_str("Keypair operation failed: ").concat(
                d.as_str(),
            ),
        }
    }
}

/// Keystore statistics information.
#[derive(Debug, Clone)]
pub struct KeystoreStatistics {
    pub total_shares: usize,
    pub total_manifests: usize,
    pub manifests: Vec<String>,
}

/// The metadata stored with a share of `manifest_id`:
/// `manifest_id=<id>`, followed by `;<metadata>` when there is any.
pub open spec fn share_metadata_text(manifest_id: Seq<char>, metadata: Option<Seq<char>>) -> Seq<
    char,
> {
    match metadata {
        Some(m) => "manifest_id="@ + manifest_id + ";"@ + m,
        None => "manifest_id="@ + manifest_id,
    }
}

/// The manifest id that a row's metadata names: the text after a leading
/// `manifest_id=`, up to the first `;`.
pub open spec fn metadata_manifest_id(meta: Seq<char>) -> Option<Seq<char>> {
    let key = "manifest_id="@;
    if meta.len() >= key.len() && meta.subrange(0, key.len() as int) == key {
        Some(first_field(meta.subrange(key.len() as int, meta.len() as int), ';'))
    } else {
        None
    }
}

/// The manifest ids named by the rows' metadata, in row order.
pub open spec fn named_manifest_ids(metas: Seq<Option<Seq<char>>>) -> Seq<Seq<char>>
    decreases metas.len(),
{
    if metas.len() == 0 {
        Seq::empty()
    } else {
        let rest = named_manifest_ids(metas.drop_last());
        match metas.last() {
            Some(m) => match metadata_manifest_id(m) {
                Some(id) => rest.push(id),
                None => rest,
            },
            None => rest,
        }
    }
}

/// The view of the rows' metadata.
pub open spec fn metas_view(metas: Seq<Option<String>>) -> Seq<Option<Seq<char>>> {
    metas.map_values(
        |m: Option<String>|
            match m {
                Some(t) => Some(t@),
                None => None,
            },
    )
}

/// The non-empty texts, each once, in order of first occurrence.
pub open spec fn distinct_nonempty(cids: Seq<Seq<char>>) -> Seq<Seq<char>>
    decreases cids.len(),
{
    if cids.len() == 0 {
        Seq::empty()
    } else {
        let rest = distinct_nonempty(cids.drop_last());
        let c = cids.last();
        if c.len() == 0 || rest.contains(c) {
            rest
        } else {
            rest.push(c)
        }
    }
}

pub open spec fn strings_view(s: Seq<String>) -> Seq<Seq<char>> {
    s.map_values(|x: String| x@)
}

/// Centralized keystore helper for common operations.
pub struct KeystoreHelper;

impl KeystoreHelper {
    /// The metadata recorded with an encrypted share of `manifest_id`.
    pub fn share_metadata(manifest_id: &str, metadata: Option<&str>) -> (s: String)
        ensures
            s@ == share_metadata_text(
                manifest_id@,
                match metadata {
                    Some(m) => Some(m@),
                    None => None,
                },
            ),
    {
        let head = String::from_str("manifest_id=").concat(manifest_id);
        match metadata {
            Some(m) => head.concat(";").concat(m),
            None => head,
        }
    }

    /// The manifest id under which a capability token is stored:
    /// `capability_<token_id>`.
    pub fn capability_manifest_id(token_id: &str) -> (s: String)
        ensures
            s@ == "capability_"@ + token_id@,
    {
        String::from_str("capability_").concat(token_id)
    }

    /// The extra metadata of a capability token.
    pub fn capability_metadata() -> (s: String)
        ensures
            s@ == "type=capability"@,
    {
        String::from_str("type=capability")
    }

    /// The extra metadata of an encrypted manifest.
    pub fn manifest_metadata() -> (s: String)
        ensures
            s@ == "type=manifest"@,
    {
        String::from_str("type=manifest")
    }

    /// The extra metadata of one share in a batch: `type=share;share_id=<id>`.
    pub fn batch_share_metadata(share_id: &str) -> (s: String)
        ensures
            s@ == "type=share;share_id="@ + share_id@,
    {
        String::from_str("type=share;share_id=").concat(share_id)
    }

    /// The manifest id named by one row's metadata, if it names one.
    pub fn metadata_manifest_id(meta: &str) -> (r: Option<String>)
        ensures
            match r {
                Some(id) => metadata_manifest_id(meta@) == Some(id@),
                None => metadata_manifest_id(meta@) is None,
            },
    {
        proof {
            reveal_strlit("manifest_id=");
        }
        if !starts_with(meta, "manifest_id=") {
            return None;
        }
        let n = meta.unicode_len();
        let rest = meta.substring_char(12, n);
        let end = find_char(rest, ';', 0);
        proof {
            assert(rest@.subrange(0, rest@.len() as int) =~= rest@);
            lemma_index_of_char(rest@, ';');
        }
        let id = rest.substring_char(0, end);
        proof {
            assert(id@ =~= first_field(rest@, ';'));
        }
        Some(id.to_owned())
    }

    /// The manifests in the keystore, from the rows' metadata: the
    /// non-empty manifest ids that the metadata names (`manifest_id=<id>`),
    /// each once, in order of first occurrence.
    pub fn list_manifests(metas: &Vec<Option<String>>) -> (manifests: Vec<String>)
        ensures
            strings_view(manifests@) == distinct_nonempty(named_manifest_ids(metas_view(metas@))),
    {
        let ghost all = metas_view(metas@);
        let mut ids: Vec<String> = Vec::new();
        let mut i: usize = 0;
        while i < metas.len()
            invariant
                i <= metas@.len(),
                all == metas_view(metas@),
                strings_view(ids@) == named_manifest_ids(all.take(i as int)),
            decreases metas@.len() - i,
        {
            proof {
                assert(all.take(i + 1).drop_last() =~= all.take(i as int));
                assert(all.take(i + 1).last() == all[i as int]);
            }
            match &metas[i] {
                Some(m) => match Self::metadata_manifest_id(m.as_str()) {
                    Some(id) => {
                        let ghost before = strings_view(ids@);
                        ids.push(id);
                        proof {
                            assert(strings_view(ids@) =~= before.push(ids@[before.len() as int]@));
                        }
                    },
                    None => {},
                },
                None => {},
            }
            i = i + 1;
        }
        proof {
            assert(all.take(i as int) =~= all);
        }
        Self::distinct_nonempty_texts(&ids)
    }

    /// Keystore statistics from the rows' metadata: how many rows (shares),
    /// and the manifests as [`KeystoreHelper::list_manifests`] gives them.
    pub fn get_statistics(metas: &Vec<Option<String>>) -> (stats: KeystoreStatistics)
        ensures
            stats.total_shares == metas@.len(),
            strings_view(stats.manifests@) == distinct_nonempty(named_manifest_ids(metas_view(metas@))),
            stats.total_manifests == stats.manifests@.len(),
    {
        let manifests = Self::list_manifests(metas);
        KeystoreStatistics {
            total_shares: metas.len(),
            total_manifests: manifests.len(),
            manifests,
        }
    }

    /// The non-empty texts, each once, in order of first occurrence.
    fn distinct_nonempty_texts(all_cids: &Vec<String>) -> (manifests: Vec<String>)
        ensures
            strings_view(manifests@) == distinct_nonempty(strings_view(all_cids@)),
    {
        let ghost all = strings_view(all_cids@);
        let mut manifests: Vec<String> = Vec::new();
        let mut i: usize = 0;
        while i < all_cids.len()
            invariant
                i <= all_cids@.len(),
                all == strings_view(all_cids@),
                strings_view(manifests@) == distinct_nonempty(all.take(i as int)),
            decreases all_cids@.len() - i,
        {
            let ghost mv = strings_view(manifests@);
            let cid = &all_cids[i];
            let mut found = false;
            let mut j: usize = 0;
            while j < manifests.len()
                invariant
                    j <= manifests@.len(),
                    mv == strings_view(manifests@),
                    found == mv.take(j as int).contains(cid@),
                decreases manifests@.len() - j,
            {
                proof {
                    assert(mv.take(j + 1) =~= mv.take(j as int).push(mv[j as int]));
                }
                if str_eq(manifests[j].as_str(), cid.as_str()) {
                    found = true;
                    proof {
                        assert(mv.take(j + 1)[j as int] == cid@);
                    }
                } else {
                    proof {
                        if mv.take(j + 1).contains(cid@) {
                            let k = choose|k: int| 0 <= k < j + 1 && #[trigger] mv.take(j + 1)[k] == cid@;
                            if k < j {
                                assert(mv.take(j as int)[k] == cid@);
                            }
                        }
                        if mv.take(j as int).contains(cid@) {
                            let k = choose|k: int| 0 <= k < j && #[trigger] mv.take(j as int)[k] == cid@;
                            assert(mv.take(j + 1)[k] == cid@);
                        }
                    }
                }
                j = j + 1;
            }
            proof {
                assert(mv.take(j as int) =~= mv);
                assert(all.take(i + 1).drop_last() =~= all.take(i as int));
                assert(all.take(i + 1).last() == cid@);
            }
            if !cid.as_str().is_empty() && !found {
                manifests.push(cid.clone());
                proof {
                    assert(strings_view(manifests@) =~= mv.push(cid@));
                }
            }
            i = i + 1;
        }
        proof {
            assert(all.take(i as int) =~= all);
        }
        manifests
    }

    /// Delete share by CID: the keystore has no delete, so this always fails.
    pub fn delete_share(cid: &str) -> (r: Result<(), KeystoreError>)
        ensures
            r matches Err(KeystoreError::AccessFailed(d)) && d@
                == "delete operation not implemented in keystore"@,
    {
        Err(KeystoreError::AccessFailed(String::from_str("delete operation not implemented in keystore")))
    }

    /// Delete all shares of a manifest: the keystore has no delete, so this
    /// always fails.
    pub fn delete_manifest_shares(manifest_id: &str) -> (r: Result<usize, KeystoreError>)
        ensures
            r matches Err(KeystoreError::AccessFailed(d)) && d@
                == "delete operations not implemented in keystore"@,
    {
        Err(
            KeystoreError::AccessFailed(
                String::from_str("delete operations not implemented in keystore"),
            ),
        )
    }

    /// The CID of a store attempt, or nothing when it failed (the caller
    /// logs the error).
    pub fn try_store_encrypted_share(outcome: Result<String, KeystoreError>) -> (r: Option<String>)
        ensures
            match outcome {
                Ok(cid) => r matches Some(c) && c@ == cid@,
                Err(_) => r is None,
            },
    {
        match outcome {
            Ok(cid) => Some(cid),
            Err(_) => None,
        }
    }

    /// The share of a retrieval attempt, or nothing when it failed (the
    /// caller logs the error).
    pub fn try_retrieve_and_decrypt_share(outcome: Result<Vec<u8>, KeystoreError>) -> (r: Option<
        Vec<u8>,
    >)
        ensures
            match outcome {
                Ok(data) => r matches Some(d) && d@ == data@,
                Err(_) => r is None,
            },
    {
        match outcome {
            Ok(data) => Some(data),
            Err(_) => None,
        }
    }
}


/// Where a keystore is opened.
#[derive(Debug, Clone, PartialEq, Eq)]
pub enum KeystoreLocation {
    /// A file in the temporary directory shared by the keystores opened
    /// under this name: `beemesh_keystore_<name>`.
    SharedTempFile(String),
    /// A private in-memory database.
    Memory,
    /// The database file at the given path.
    File,
}

/// Where a keystore at a path is opened: an ephemeral keystore, or one at
/// `:memory:`, is kept in memory, shared through a temporary file when a
/// shared name is set; any other is the file at the path.
pub fn keystore_location(path_is_memory: bool, ephemeral: bool, shared_name: Option<&str>) -> (l:
    KeystoreLocation)
    ensures
        !(ephemeral || path_is_memory) ==> l == KeystoreLocation::File,
        (ephemeral || path_is_memory) ==> match shared_name {
            Some(n) => l matches KeystoreLocation::SharedTempFile(f) && f@ == "beemesh_keystore_"@ + n@,
            None => l == KeystoreLocation::Memory,
        },
{
    if ephemeral || path_is_memory {
        match shared_name {
            Some(n) => KeystoreLocation::SharedTempFile(String::from_str("beemesh_keystore_").concat(n)),
            None => KeystoreLocation::Memory,
        }
    } else {
        KeystoreLocation::File
    }
}

/// The kind of a keystore entry from its metadata: a capability when it
/// starts with `capability:`, a key share when it has other metadata, and
/// unknown without.
pub fn keystore_entry_type(meta: Option<&str>) -> (t: String)
    ensures
        t@ == match meta {
            Some(m) => if m@.len() >= 11 && m@.subrange(0, 11) == "capability:"@ {
                "capability"@
            } else {
                "keyshare"@
            },
            None => "unknown"@,
        },
{
    match meta {
        Some(m) => {
            proof {
                reveal_strlit("capability:");
            }
            if starts_with(m, "capability:") {
                String::from_str("capability")
            } else {
                String::from_str("keyshare")
            }
        },
        None => String::from_str("unknown"),
    }
}

/// The metadata written for a share of a manifest names that manifest
/// again when it is listed, whenever the id holds no `;`.
pub proof fn lemma_share_metadata_names_manifest(manifest_id: Seq<char>, metadata: Option<Seq<char>>)
    requires
        !manifest_id.contains(';'),
    ensures
        metadata_manifest_id(share_metadata_text(manifest_id, metadata)) == Some(manifest_id),
{
    reveal_strlit("manifest_id=");
    reveal_strlit(";");
    let key = "manifest_id="@;
    let t = share_metadata_text(manifest_id, metadata);
    assert(t.subrange(0, key.len() as int) =~= key);
    let rest = t.subrange(key.len() as int, t.len() as int);
    assert forall|j: int| 0 <= j < manifest_id.len() implies #[trigger] rest[j] != ';' by {
        assert(rest[j] == manifest_id[j]);
        if manifest_id[j] == ';' {
            assert(manifest_id.contains(';'));
        }
    }
    match metadata {
        Some(m) => {
            assert(rest =~= manifest_id + ";"@ + m);
            assert(rest[manifest_id.len() as int] == ';');
        },
        None => {
            assert(rest =~= manifest_id);
        },
    }
    lemma_index_of_char_at(rest, ';', manifest_id.len() as int);
    assert(rest.subrange(0, manifest_id.len() as int) =~= manifest_id);
}

} // verus!
