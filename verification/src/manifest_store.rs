//! Local storage of the manifest versions this node holds, and the
//! capability tokens that grant access to a manifest.
use vstd::prelude::*;

use crate::bytes::u64_be_bytes;

use crate::assoc::{
    keys_distinct, lemma_push, lemma_remove, lemma_to_map_dom, lemma_to_map_len,
    lemma_to_map_value, lemma_update, to_map,
};
use crate::clock::current_timestamp_secs;
use crate::text::{bool_chars, bool_to_text, decimal_chars, str_eq, u64_to_decimal};

verus! {

/// Represents a stored manifest entry with metadata.
#[derive(Debug, Clone)]
pub struct ManifestEntry {
    pub manifest_id: String,
    pub version: u64,
    pub encrypted_data: Vec<u8>,
    pub stored_at: u64,
    pub access_tokens: Vec<String>,
    pub owner_pubkey: Vec<u8>,
}

/// Mathematical value of a [`ManifestEntry`].
pub struct ManifestEntryView {
    pub manifest_id: Seq<char>,
    pub version: u64,
    pub encrypted_data: Seq<u8>,
    pub stored_at: u64,
    pub access_tokens: Seq<Seq<char>>,
    pub owner_pubkey: Seq<u8>,
}

impl View for ManifestEntry {
    type V = ManifestEntryView;

    open spec fn view(&self) -> ManifestEntryView {
        ManifestEntryView {
            manifest_id: self.manifest_id@,
            version: self.version,
            encrypted_data: self.encrypted_data@,
            stored_at: self.stored_at,
            access_tokens: self.access_tokens@.map_values(|t: String| t@),
            owner_pubkey: self.owner_pubkey@,
        }
    }
}

/// Local storage for manifests that this node holds, keyed by
/// (manifest id, version).
#[derive(Debug)]
pub struct LocalManifestStore {
    manifests: Vec<ManifestEntry>,
}

impl View for LocalManifestStore {
    type V = Map<(Seq<char>, u64), ManifestEntryView>;

    closed spec fn view(&self) -> Map<(Seq<char>, u64), ManifestEntryView> {
        to_map(self.pairs())
    }
}

/// The versions of `manifest_id` that the map holds.
pub open spec fn has_version(
    m: Map<(Seq<char>, u64), ManifestEntryView>,
    manifest_id: Seq<char>,
    version: u64,
) -> bool {
    m.contains_key((manifest_id, version))
}

/// Some version of `manifest_id` is held.
pub open spec fn holds_manifest(
    m: Map<(Seq<char>, u64), ManifestEntryView>,
    manifest_id: Seq<char>,
) -> bool {
    exists|v: u64| #[trigger] has_version(m, manifest_id, v)
}

/// Some string of `s` reads `id`.
pub open spec fn strings_contain(s: Seq<String>, id: Seq<char>) -> bool {
    exists|a: int| 0 <= a < s.len() && #[trigger] s[a]@ == id
}

impl LocalManifestStore {
    pub closed spec fn pairs(&self) -> Seq<((Seq<char>, u64), ManifestEntryView)> {
        self.manifests@.map_values(|e: ManifestEntry| ((e.manifest_id@, e.version), e@))
    }

    /// One of the first `n` stored entries belongs to `id`.
    pub closed spec fn prefix_has_id(&self, n: int, id: Seq<char>) -> bool {
        exists|j: int| 0 <= j < n && #[trigger] self.pairs()[j].0.0 == id
    }

    /// Each (manifest id, version) key is stored once.
    pub closed spec fn wf(&self) -> bool {
        keys_distinct(self.pairs())
    }

    /// Create a new empty manifest store.
    pub fn new() -> (s: Self)
        ensures
            s.wf(),
            s@ == Map::<(Seq<char>, u64), ManifestEntryView>::empty(),
    {
        let s = LocalManifestStore { manifests: Vec::new() };
        assert(s.pairs() =~= Seq::<((Seq<char>, u64), ManifestEntryView)>::empty());
        assert(s@ =~= Map::<(Seq<char>, u64), ManifestEntryView>::empty());
        s
    }

    fn find(&self, manifest_id: &str, version: u64) -> (r: Option<usize>)
        requires
            self.wf(),
        ensures
            match r {
                Some(i) => {
                    &&& i < self.manifests@.len()
                    &&& self.pairs()[i as int].0 == (manifest_id@, version)
                    &&& self@.contains_key((manifest_id@, version))
                    &&& self@[(manifest_id@, version)] == self.manifests@[i as int]@
                },
                None => !self@.contains_key((manifest_id@, version)),
            },
    {
        let mut i: usize = 0;
        while i < self.manifests.len()
            invariant
                self.wf(),
                i <= self.manifests@.len(),
                forall|j: int| 0 <= j < i ==> self.pairs()[j].0 != (manifest_id@, version),
            decreases self.manifests@.len() - i,
        {
            if self.manifests[i].version == version && str_eq(
                self.manifests[i].manifest_id.as_str(),
                manifest_id,
            ) {
                proof {
                    lemma_to_map_value(self.pairs(), i as int);
                }
                return Some(i);
            }
            i = i + 1;
        }
        proof {
            lemma_to_map_dom(self.pairs(), (manifest_id@, version));
        }
        None
    }

    /// Store a manifest under its (id, version), replacing any entry
    /// stored there before.
    pub fn store_manifest(&mut self, entry: ManifestEntry) -> (r: Result<(), String>)
        requires
            old(self).wf(),
        ensures
            final(self).wf(),
            r is Ok,
            final(self)@ == old(self)@.insert((entry.manifest_id@, entry.version), entry@),
    {
        let ghost old_pairs = self.pairs();
        let ghost key = (entry.manifest_id@, entry.version);
        let ghost ev = entry@;
        match self.find(entry.manifest_id.as_str(), entry.version) {
            Some(i) => {
                self.manifests.set(i, entry);
                proof {
                    assert(self.pairs() =~= old_pairs.update(i as int, (old_pairs[i as int].0, ev)));
                    lemma_update(old_pairs, i as int, ev);
                }
            },
            None => {
                self.manifests.push(entry);
                proof {
                    assert(self.pairs() =~= old_pairs.push((key, ev)));
                    lemma_push(old_pairs, key, ev);
                }
            },
        }
        Ok(())
    }

    /// Get a specific version of a manifest.
    pub fn get_manifest(&self, manifest_id: &str, version: u64) -> (r: Option<&ManifestEntry>)
        requires
            self.wf(),
        ensures
            match r {
                Some(e) => self@.contains_key((manifest_id@, version)) && e@ == self@[(
                    manifest_id@,
                    version,
                )],
                None => !self@.contains_key((manifest_id@, version)),
            },
    {
        match self.find(manifest_id, version) {
            Some(i) => Some(&self.manifests[i]),
            None => None,
        }
    }

    /// Get the stored entry with the highest version of a manifest.
    pub fn get_latest_version(&self, manifest_id: &str) -> (r: Option<&ManifestEntry>)
        requires
            self.wf(),
        ensures
            match r {
                Some(e) => {
                    &&& has_version(self@, manifest_id@, e.version)
                    &&& e@ == self@[(manifest_id@, e.version)]
                    &&& forall|v: u64| #[trigger]
                        has_version(self@, manifest_id@, v) ==> v <= e.version
                },
                None => forall|v: u64| !#[trigger] has_version(self@, manifest_id@, v),
            },
    {
        let mut best: Option<usize> = None;
        let mut i: usize = 0;
        while i < self.manifests.len()
            invariant
                self.wf(),
                i <= self.manifests@.len(),
                match best {
                    Some(b) => {
                        &&& b < i
                        &&& self.pairs()[b as int].0.0 == manifest_id@
                        &&& forall|j: int|
                            0 <= j < i && self.pairs()[j].0.0 == manifest_id@
                                ==> self.pairs()[j].0.1 <= self.pairs()[b as int].0.1
                    },
                    None => forall|j: int| 0 <= j < i ==> self.pairs()[j].0.0 != manifest_id@,
                },
            decreases self.manifests@.len() - i,
        {
            if str_eq(self.manifests[i].manifest_id.as_str(), manifest_id) {
                match best {
                    Some(b) => {
                        if self.manifests[i].version > self.manifests[b].version {
                            best = Some(i);
                        }
                    },
                    None => {
                        best = Some(i);
                    },
                }
            }
            i = i + 1;
        }
        match best {
            Some(b) => {
                proof {
                    lemma_to_map_value(self.pairs(), b as int);
                    assert forall|v: u64| #[trigger]
                        has_version(self@, manifest_id@, v) implies v
                        <= self.manifests@[b as int].version by {
                        lemma_to_map_dom(self.pairs(), (manifest_id@, v));
                        let j = choose|j: int|
                            0 <= j < self.pairs().len() && #[trigger] self.pairs()[j].0 == (
                                manifest_id@,
                                v,
                            );
                        assert(self.pairs()[j].0.1 <= self.pairs()[b as int].0.1);
                    }
                }
                Some(&self.manifests[b])
            },
            None => {
                proof {
                    assert forall|v: u64| !#[trigger] has_version(self@, manifest_id@, v) by {
                        lemma_to_map_dom(self.pairs(), (manifest_id@, v));
                        if has_version(self@, manifest_id@, v) {
                            let j = choose|j: int|
                                0 <= j < self.pairs().len() && #[trigger] self.pairs()[j].0 == (
                                    manifest_id@,
                                    v,
                                );
                            assert(self.pairs()[j].0.0 == manifest_id@);
                        }
                    }
                }
                None
            },
        }
    }

    /// Check whether an access token is listed for a stored manifest version.
    pub fn has_access_token(&self, manifest_id: &str, version: u64, token: &str) -> (r: bool)
        requires
            self.wf(),
        ensures
            r == (self@.contains_key((manifest_id@, version)) && self@[(
                manifest_id@,
                version,
            )].access_tokens.contains(token@)),
    {
        match self.find(manifest_id, version) {
            Some(i) => {
                let e = &self.manifests[i];
                let mut k: usize = 0;
                while k < e.access_tokens.len()
                    invariant
                        self@.contains_key((manifest_id@, version)),
                        self@[(manifest_id@, version)] == e@,
                        k <= e.access_tokens@.len(),
                        forall|j: int| 0 <= j < k ==> e.access_tokens@[j]@ != token@,
                    decreases e.access_tokens@.len() - k,
                {
                    if str_eq(e.access_tokens[k].as_str(), token) {
                        proof {
                            assert(e@.access_tokens[k as int] == token@);
                        }
                        return true;
                    }
                    k = k + 1;
                }
                proof {
                    if e@.access_tokens.contains(token@) {
                        let j = choose|j: int|
                            0 <= j < e@.access_tokens.len() && e@.access_tokens[j] == token@;
                        assert(e.access_tokens@[j]@ == token@);
                    }
                }
                false
            },
            None => false,
        }
    }

    /// Get all manifest IDs stored locally, each once, in no particular order.
    pub fn get_all_manifest_ids(&self) -> (r: Vec<String>)
        requires
            self.wf(),
        ensures
            forall|i: int, j: int|
                0 <= i < r@.len() && 0 <= j < r@.len() && i != j ==> r@[i]@ != r@[j]@,
            forall|id: Seq<char>|
                #[trigger] holds_manifest(self@, id) <==> exists|i: int|
                    0 <= i < r@.len() && #[trigger] r@[i]@ == id,
    {
        let mut out: Vec<String> = Vec::new();
        let mut i: usize = 0;
        while i < self.manifests.len()
            invariant
                i <= self.manifests@.len(),
                forall|a: int, b: int|
                    0 <= a < out@.len() && 0 <= b < out@.len() && a != b ==> out@[a]@ != out@[b]@,
                forall|id: Seq<char>|
                    #[trigger] self.prefix_has_id(i as int, id) <==> strings_contain(out@, id),
            decreases self.manifests@.len() - i,
        {
            let mut seen = false;
            let mut k: usize = 0;
            while k < out.len()
                invariant
                    i < self.manifests@.len(),
                    k <= out@.len(),
                    seen == exists|a: int| 0 <= a < k && #[trigger] out@[a]@ == self.manifests@[i as int].manifest_id@,
                decreases out@.len() - k,
            {
                if str_eq(out[k].as_str(), self.manifests[i].manifest_id.as_str()) {
                    seen = true;
                }
                k = k + 1;
            }
            let ghost old_out = out@;
            if !seen {
                out.push(self.manifests[i].manifest_id.clone());
            }
            proof {
                assert(self.pairs()[i as int].0.0 == self.manifests@[i as int].manifest_id@);
                assert forall|id: Seq<char>|
                    #[trigger] self.prefix_has_id(i + 1, id) <==> strings_contain(out@, id) by {
                    if self.prefix_has_id(i + 1, id) {
                        let j = choose|j: int| 0 <= j < i + 1 && #[trigger] self.pairs()[j].0.0 == id;
                        if j < i {
                            assert(self.prefix_has_id(i as int, id));
                            let a = choose|a: int| 0 <= a < old_out.len() && #[trigger] old_out[a]@ == id;
                            assert(out@[a] == old_out[a]);
                            assert(strings_contain(out@, id));
                        } else if !seen {
                            assert(out@[old_out.len() as int]@ == id);
                            assert(strings_contain(out@, id));
                        } else {
                            let a = choose|a: int| 0 <= a < old_out.len() && #[trigger] old_out[a]@ == self.manifests@[i as int].manifest_id@;
                            assert(out@[a]@ == id);
                            assert(strings_contain(out@, id));
                        }
                    }
                    if strings_contain(out@, id) {
                        let a = choose|a: int| 0 <= a < out@.len() && #[trigger] out@[a]@ == id;
                        if a < old_out.len() {
                            assert(old_out[a]@ == id);
                            assert(strings_contain(old_out, id));
                            assert(self.prefix_has_id(i as int, id));
                            let j = choose|j: int| 0 <= j < i && #[trigger] self.pairs()[j].0.0 == id;
                            assert(self.prefix_has_id(i + 1, id));
                        } else {
                            assert(self.pairs()[i as int].0.0 == id);
                            assert(self.prefix_has_id(i + 1, id));
                        }
                    }
                }
            }
            i = i + 1;
        }
        proof {
            assert forall|id: Seq<char>|
                #[trigger] holds_manifest(self@, id) <==> exists|a: int|
                    0 <= a < out@.len() && #[trigger] out@[a]@ == id by {
                if exists|v: u64| #[trigger] has_version(self@, id, v) {
                    let v = choose|v: u64| #[trigger] has_version(self@, id, v);
                    lemma_to_map_dom(self.pairs(), (id, v));
                    let j = choose|j: int|
                        0 <= j < self.pairs().len() && #[trigger] self.pairs()[j].0 == (id, v);
                    assert(self.pairs()[j].0.0 == id);
                    assert(self.prefix_has_id(self.pairs().len() as int, id));
                    assert(strings_contain(out@, id));
                }
                if exists|a: int| 0 <= a < out@.len() && #[trigger] out@[a]@ == id {
                    assert(strings_contain(out@, id));
                    assert(self.prefix_has_id(self.pairs().len() as int, id));
                    let j = choose|j: int|
                        0 <= j < self.pairs().len() && #[trigger] self.pairs()[j].0.0 == id;
                    let v = self.pairs()[j].0.1;
                    lemma_to_map_dom(self.pairs(), (id, v));
                    assert(has_version(self@, id, v));
                }
            }
        }
        out
    }

    /// Get all stored versions of a manifest, in increasing order.
    pub fn get_all_versions(&self, manifest_id: &str) -> (r: Vec<u64>)
        requires
            self.wf(),
        ensures
            forall|i: int, j: int| 0 <= i < j < r@.len() ==> r@[i] < r@[j],
            forall|v: u64| has_version(self@, manifest_id@, v) <==> r@.contains(v),
    {
        let mut out: Vec<u64> = Vec::new();
        let mut i: usize = 0;
        while i < self.manifests.len()
            invariant
                self.wf(),
                i <= self.manifests@.len(),
                forall|a: int, b: int| 0 <= a < b < out@.len() ==> out@[a] < out@[b],
                forall|v: u64|
                    (exists|j: int| 0 <= j < i && #[trigger] self.pairs()[j].0 == (manifest_id@, v))
                        <==> out@.contains(v),
            decreases self.manifests@.len() - i,
        {
            if str_eq(self.manifests[i].manifest_id.as_str(), manifest_id) {
                let v = self.manifests[i].version;
                proof {
                    assert(self.pairs()[i as int].0 == (manifest_id@, v));
                    if out@.contains(v) {
                        let j = choose|j: int|
                            0 <= j < i && #[trigger] self.pairs()[j].0 == (manifest_id@, v);
                        assert(false);
                    }
                }
                let mut pos: usize = 0;
                while pos < out.len() && out[pos] < v
                    invariant
                        pos <= out@.len(),
                        forall|a: int| 0 <= a < pos ==> out@[a] < v,
                    decreases out@.len() - pos,
                {
                    pos = pos + 1;
                }
                let ghost old_out = out@;
                proof {
                    if pos < out@.len() {
                        assert(out@[pos as int] != v);
                    }
                }
                out.insert(pos, v);
                proof {
                    assert forall|a: int, b: int| 0 <= a < b < out@.len() implies out@[a] < out@[b] by {
                        if b < pos {
                        } else if b == pos {
                        } else if a < pos {
                            assert(old_out[a] < v);
                            assert(v <= old_out[pos as int]);
                            assert(old_out[pos as int] <= old_out[b - 1]);
                        } else if a == pos {
                            assert(v <= old_out[pos as int]);
                            assert(old_out[pos as int] <= old_out[b - 1]);
                        } else {
                        }
                    }
                    assert forall|w: u64|
                        (exists|j: int| 0 <= j < i + 1 && #[trigger] self.pairs()[j].0 == (manifest_id@, w))
                            <==> out@.contains(w) by {
                        if out@.contains(w) {
                            let a = choose|a: int| 0 <= a < out@.len() && out@[a] == w;
                            if a != pos {
                                let a2 = if a < pos { a } else { a - 1 };
                                assert(old_out[a2] == w);
                                assert(old_out.contains(w));
                            } else {
                                assert(self.pairs()[i as int].0 == (manifest_id@, w));
                            }
                        }
                        if exists|j: int| 0 <= j < i + 1 && #[trigger] self.pairs()[j].0 == (manifest_id@, w) {
                            let j = choose|j: int| 0 <= j < i + 1 && #[trigger] self.pairs()[j].0 == (manifest_id@, w);
                            if j < i {
                                assert(old_out.contains(w));
                                let a = choose|a: int| 0 <= a < old_out.len() && old_out[a] == w;
                                let a2 = if a < pos { a } else { a + 1 };
                                assert(out@[a2] == w);
                            } else {
                                assert(out@[pos as int] == w);
                            }
                        }
                    }
                }
            } else {
                proof {
                    assert forall|w: u64|
                        (exists|j: int| 0 <= j < i + 1 && #[trigger] self.pairs()[j].0 == (manifest_id@, w))
                            <==> out@.contains(w) by {
                        if exists|j: int| 0 <= j < i + 1 && #[trigger] self.pairs()[j].0 == (manifest_id@, w) {
                            let j = choose|j: int| 0 <= j < i + 1 && #[trigger] self.pairs()[j].0 == (manifest_id@, w);
                            assert(self.pairs()[i as int].0.0 == self.manifests@[i as int].manifest_id@);
                            assert(j < i);
                        }
                    }
                }
            }
            i = i + 1;
        }
        proof {
            assert forall|v: u64| has_version(self@, manifest_id@, v) <==> out@.contains(v) by {
                lemma_to_map_dom(self.pairs(), (manifest_id@, v));
            }
        }
        out
    }

    /// Remove a specific version of a manifest.
    pub fn remove_manifest(&mut self, manifest_id: &str, version: u64) -> (r: Option<ManifestEntry>)
        requires
            old(self).wf(),
        ensures
            final(self).wf(),
            final(self)@ == old(self)@.remove((manifest_id@, version)),
            match r {
                Some(e) => old(self)@.contains_key((manifest_id@, version)) && e@ == old(self)@[(
                    manifest_id@,
                    version,
                )],
                None => !old(self)@.contains_key((manifest_id@, version)),
            },
    {
        let ghost old_pairs = self.pairs();
        match self.find(manifest_id, version) {
            Some(i) => {
                let e = self.manifests.remove(i);
                proof {
                    assert(self.pairs() =~= old_pairs.remove(i as int));
                    lemma_remove(old_pairs, i as int);
                }
                Some(e)
            },
            None => {
                assert(self@ =~= old(self)@.remove((manifest_id@, version)));
                None
            },
        }
    }

    /// The store holds finitely many entries, each stored under its own
    /// (manifest id, version).
    pub proof fn lemma_view_finite(&self)
        requires
            self.wf(),
        ensures
            self@.dom().finite(),
            forall|k: (Seq<char>, u64)|
                #[trigger] self@.contains_key(k) ==> self@[k].manifest_id == k.0 && self@[k].version
                    == k.1,
    {
        lemma_to_map_dom(self.pairs(), (Seq::empty(), 0));
        assert forall|k: (Seq<char>, u64)| #[trigger] self@.contains_key(k) implies self@[k].manifest_id
            == k.0 && self@[k].version == k.1 by {
            lemma_to_map_dom(self.pairs(), k);
            let j = choose|j: int| 0 <= j < self.pairs().len() && #[trigger] self.pairs()[j].0 == k;
            lemma_to_map_value(self.pairs(), j);
        }
    }

    /// Get the total number of stored manifest versions.
    pub fn len(&self) -> (r: usize)
        requires
            self.wf(),
        ensures
            r == self@.len(),
    {
        proof {
            lemma_to_map_len(self.pairs());
        }
        self.manifests.len()
    }

    /// Check if the store is empty.
    pub fn is_empty(&self) -> (r: bool)
        requires
            self.wf(),
        ensures
            r == (self@.len() == 0),
    {
        self.len() == 0
    }
}

/// What a read gives back of a write: after an entry is stored, reading
/// its (id, version) gives that entry, and every other (id, version) reads
/// as before.
pub proof fn lemma_read_after_store(
    m: Map<(Seq<char>, u64), ManifestEntryView>,
    e: ManifestEntryView,
    id: Seq<char>,
    version: u64,
)
    ensures
        ({
            let m2 = m.insert((e.manifest_id, e.version), e);
            &&& m2.contains_key((e.manifest_id, e.version))
            &&& m2[(e.manifest_id, e.version)] == e
            &&& (id, version) != (e.manifest_id, e.version) ==> m2.contains_key((id, version))
                == m.contains_key((id, version)) && (m.contains_key((id, version)) ==> m2[(
                id,
                version,
            )] == m[(id, version)])
        }),
{
}

/// Helper function to get the current timestamp (seconds since the Unix epoch).
pub fn current_timestamp() -> u64 {
    current_timestamp_secs()
}

/// Represents a manifest access capability token.
#[derive(Debug, Clone)]
pub struct ManifestAccessToken {
    pub manifest_id: String,
    pub allowed_peer_id: String,
    pub expires_at: u64,
    pub permissions: ManifestPermissions,
    pub issuer_pubkey: Vec<u8>,
    pub signature: Vec<u8>,
}

/// Permissions for manifest access.
#[derive(Debug, Clone, Copy)]
pub struct ManifestPermissions {
    pub can_read: bool,
    pub can_execute: bool,
    pub specific_version: Option<u64>,
}

/// The text that a token's signature covers:
/// `manifest_id:peer:expires_at:can_read:can_execute:version`, where the
/// version is 0 when the token is not bound to one.
pub open spec fn token_data_chars(
    manifest_id: Seq<char>,
    allowed_peer_id: Seq<char>,
    expires_at: u64,
    permissions: ManifestPermissions,
) -> Seq<char> {
    let version: u64 = match permissions.specific_version {
        Some(v) => v,
        None => 0,
    };
    manifest_id + seq![':'] + allowed_peer_id + seq![':'] + decimal_chars(expires_at as nat)
        + seq![':'] + bool_chars(permissions.can_read) + seq![':'] + bool_chars(
        permissions.can_execute,
    ) + seq![':'] + decimal_chars(version as nat)
}

/// The signature a token carries: the big-endian bytes of the hash of the
/// token text followed by the issuer's private key.
pub open spec fn token_signature(token_data: Seq<char>, issuer_privkey: Seq<u8>) -> Seq<u8> {
    u64_be_bytes(crate::digest::spec_hash_str_then_bytes(token_data, issuer_privkey))
}

fn push_str(s: &mut String, t: &String)
    ensures
        final(s)@ == old(s)@ + t@,
{
    s.append(t.as_str());
}

/// Builds the text that a token's signature covers.
fn token_data(
    manifest_id: &String,
    allowed_peer_id: &String,
    expires_at: u64,
    permissions: &ManifestPermissions,
) -> (s: String)
    ensures
        s@ == token_data_chars(manifest_id@, allowed_peer_id@, expires_at, *permissions),
{
    let mut s = manifest_id.clone();
    crate::text::push_char(&mut s, ':');
    push_str(&mut s, allowed_peer_id);
    crate::text::push_char(&mut s, ':');
    push_str(&mut s, &u64_to_decimal(expires_at));
    crate::text::push_char(&mut s, ':');
    push_str(&mut s, &bool_to_text(permissions.can_read));
    crate::text::push_char(&mut s, ':');
    push_str(&mut s, &bool_to_text(permissions.can_execute));
    crate::text::push_char(&mut s, ':');
    let version: u64 = match permissions.specific_version {
        Some(v) => v,
        None => 0,
    };
    push_str(&mut s, &u64_to_decimal(version));
    assert(s@ =~= token_data_chars(manifest_id@, allowed_peer_id@, expires_at, *permissions));
    s
}

/// Create a manifest access capability token, signed with the issuer's
/// private key.
pub fn create_manifest_access_token(
    manifest_id: String,
    allowed_peer_id: String,
    expires_at: u64,
    permissions: ManifestPermissions,
    issuer_privkey: &[u8],
    issuer_pubkey: Vec<u8>,
) -> (r: Result<ManifestAccessToken, String>)
    ensures
        r matches Ok(t) && {
            &&& t.manifest_id@ == manifest_id@
            &&& t.allowed_peer_id@ == allowed_peer_id@
            &&& t.expires_at == expires_at
            &&& t.permissions == permissions
            &&& t.issuer_pubkey@ == issuer_pubkey@
            &&& t.signature@ == token_signature(
                token_data_chars(manifest_id@, allowed_peer_id@, expires_at, permissions),
                issuer_privkey@,
            )
        },
{
    let data = token_data(&manifest_id, &allowed_peer_id, expires_at, &permissions);
    let h = crate::digest::hash_str_then_bytes(&data, issuer_privkey);
    let mut signature: Vec<u8> = Vec::new();
    crate::bytes::push_u64_be(&mut signature, h);
    assert(signature@ =~= u64_be_bytes(h));
    Ok(
        ManifestAccessToken {
            manifest_id,
            allowed_peer_id,
            expires_at,
            permissions,
            issuer_pubkey,
            signature,
        },
    )
}

/// Whether a token admits `peer_id` to `manifest_id` at time `now`: it names
/// both, has not expired, and carries a signature.
pub open spec fn token_accepts(
    token: ManifestAccessToken,
    manifest_id: Seq<char>,
    peer_id: Seq<char>,
    now: u64,
) -> bool {
    &&& token.manifest_id@ == manifest_id
    &&& token.allowed_peer_id@ == peer_id
    &&& now <= token.expires_at
    &&& token.signature@.len() > 0
}

/// Verify a manifest access capability token at time `now` (seconds since
/// the Unix epoch).
pub fn verify_manifest_access_token_at(
    token: &ManifestAccessToken,
    manifest_id: &str,
    peer_id: &str,
    now: u64,
) -> (r: Result<bool, String>)
    ensures
        r == Ok::<bool, String>(token_accepts(*token, manifest_id@, peer_id@, now)),
{
    if !str_eq(token.manifest_id.as_str(), manifest_id) {
        return Ok(false);
    }
    if !str_eq(token.allowed_peer_id.as_str(), peer_id) {
        return Ok(false);
    }
    if now > token.expires_at {
        return Ok(false);
    }
    Ok(token.signature.len() > 0)
}

/// Verify a manifest access capability token against the current time.
pub fn verify_manifest_access_token(
    token: &ManifestAccessToken,
    manifest_id: &str,
    peer_id: &str,
) -> (r: Result<bool, String>)
    ensures
        r matches Ok(b) && exists|now: u64| b == token_accepts(*token, manifest_id@, peer_id@, now),
        r matches Ok(b) && (b ==> token.manifest_id@ == manifest_id@ && token.allowed_peer_id@
            == peer_id@ && token.signature@.len() > 0),
{
    let now = current_timestamp_secs();
    verify_manifest_access_token_at(token, manifest_id, peer_id, now)
}

/// A token accepts exactly the manifest and peer it was issued for, until
/// it expires.
pub proof fn lemma_token_accepts_its_grant(
    manifest_id: String,
    allowed_peer_id: String,
    expires_at: u64,
    permissions: ManifestPermissions,
    issuer_privkey: Seq<u8>,
    token: ManifestAccessToken,
    other_manifest: Seq<char>,
    other_peer: Seq<char>,
    now: u64,
)
    requires
        token.manifest_id@ == manifest_id@,
        token.allowed_peer_id@ == allowed_peer_id@,
        token.expires_at == expires_at,
        token.signature@ == token_signature(
            token_data_chars(manifest_id@, allowed_peer_id@, expires_at, permissions),
            issuer_privkey,
        ),
    ensures
        token_accepts(token, manifest_id@, allowed_peer_id@, now) <==> now <= expires_at,
        other_manifest != manifest_id@ ==> !token_accepts(token, other_manifest, other_peer, now),
        other_peer != allowed_peer_id@ ==> !token_accepts(token, other_manifest, other_peer, now),
{
}

} // verus!
