//! Manifest versioning: one pointer per manifest id, recording its owner,
//! the latest version number and a bounded history of version entries.
use vstd::prelude::*;

use crate::assoc::{keys_distinct, lemma_push, lemma_remove, lemma_to_map_dom, lemma_to_map_len, lemma_to_map_value, lemma_update, to_map};
use crate::clock::current_timestamp_secs;
use crate::text::{bytes_eq, str_eq};

verus! {

/// Number of version entries a pointer keeps; older entries are dropped.
pub const VERSION_HISTORY_LIMIT: usize = 100;

/// Represents a specific version of a manifest.
#[derive(Debug, Clone)]
pub struct VersionEntry {
    pub version: u64,
    pub content_hash: String,
    pub created_at: u64,
    pub changelog: Option<String>,
}

/// Mathematical value of a [`VersionEntry`].
pub struct VersionEntryView {
    pub version: u64,
    pub content_hash: Seq<char>,
    pub created_at: u64,
    pub changelog: Option<Seq<char>>,
}

/// View of an optional string.
pub open spec fn opt_str_view(o: Option<String>) -> Option<Seq<char>> {
    match o {
        Some(s) => Some(s@),
        None => None,
    }
}

impl View for VersionEntry {
    type V = VersionEntryView;

    open spec fn view(&self) -> VersionEntryView {
        VersionEntryView {
            version: self.version,
            content_hash: self.content_hash@,
            created_at: self.created_at,
            changelog: opt_str_view(self.changelog),
        }
    }
}

/// Represents a pointer to a manifest with versioning information.
#[derive(Debug, Clone)]
pub struct ManifestPointer {
    pub manifest_id: String,
    pub owner_pubkey: Vec<u8>,
    pub latest_version: u64,
    pub version_history: Vec<VersionEntry>,
    pub created_at: u64,
    pub updated_at: u64,
}

/// Mathematical value of a [`ManifestPointer`].
pub struct PointerView {
    pub manifest_id: Seq<char>,
    pub owner_pubkey: Seq<u8>,
    pub latest_version: u64,
    pub version_history: Seq<VersionEntryView>,
    pub created_at: u64,
    pub updated_at: u64,
}

pub open spec fn history_view(h: Seq<VersionEntry>) -> Seq<VersionEntryView> {
    h.map_values(|e: VersionEntry| e@)
}

impl View for ManifestPointer {
    type V = PointerView;

    open spec fn view(&self) -> PointerView {
        PointerView {
            manifest_id: self.manifest_id@,
            owner_pubkey: self.owner_pubkey@,
            latest_version: self.latest_version,
            version_history: history_view(self.version_history@),
            created_at: self.created_at,
            updated_at: self.updated_at,
        }
    }
}

/// The error text returned when someone other than the owner updates a manifest.
pub open spec fn not_owner_message() -> Seq<char> {
    "Only the manifest owner can update it"@
}

/// The entry recorded for a new version.
pub open spec fn version_entry_view(
    version: u64,
    content_hash: Seq<char>,
    now: u64,
    changelog: Option<Seq<char>>,
) -> VersionEntryView {
    VersionEntryView { version, content_hash, created_at: now, changelog }
}

/// A history keeps only its last [`VERSION_HISTORY_LIMIT`] entries.
pub open spec fn capped_history(h: Seq<VersionEntryView>) -> Seq<VersionEntryView> {
    if h.len() > VERSION_HISTORY_LIMIT {
        h.subrange(h.len() - VERSION_HISTORY_LIMIT, h.len() as int)
    } else {
        h
    }
}

/// The pointer of a manifest that is recorded for the first time.
pub open spec fn fresh_pointer(
    manifest_id: Seq<char>,
    content_hash: Seq<char>,
    owner_pubkey: Seq<u8>,
    changelog: Option<Seq<char>>,
    now: u64,
) -> PointerView {
    PointerView {
        manifest_id,
        owner_pubkey,
        latest_version: 1,
        version_history: seq![version_entry_view(1, content_hash, now, changelog)],
        created_at: now,
        updated_at: now,
    }
}

/// The pointer after its owner publishes the next version.
pub open spec fn bumped_pointer(
    p: PointerView,
    content_hash: Seq<char>,
    changelog: Option<Seq<char>>,
    now: u64,
) -> PointerView {
    let v = (p.latest_version + 1) as u64;
    PointerView {
        latest_version: v,
        updated_at: now,
        version_history: capped_history(
            p.version_history.push(version_entry_view(v, content_hash, now, changelog)),
        ),
        ..p
    }
}

/// A pointer's history is well formed: it holds between one and
/// [`VERSION_HISTORY_LIMIT`] entries, their versions are consecutive, and
/// the last one is the latest version.
pub open spec fn history_ok(p: PointerView) -> bool {
    let h = p.version_history;
    &&& 1 <= h.len() <= VERSION_HISTORY_LIMIT
    &&& h.last().version == p.latest_version
    &&& forall|i: int| 0 <= i < h.len() - 1 ==> #[trigger] h[i + 1].version == h[i].version + 1
}

/// Storage for manifest versioning information.
#[derive(Debug)]
pub struct VersionStore {
    pointers: Vec<ManifestPointer>,
}

impl View for VersionStore {
    type V = Map<Seq<char>, PointerView>;

    closed spec fn view(&self) -> Map<Seq<char>, PointerView> {
        to_map(self.pairs())
    }
}

impl VersionStore {
    /// The stored pointers as (manifest id, pointer) pairs.
    pub closed spec fn pairs(&self) -> Seq<(Seq<char>, PointerView)> {
        self.pointers@.map_values(|p: ManifestPointer| (p.manifest_id@, p@))
    }

    /// Each manifest id has at most one pointer, and each pointer's history
    /// is well formed.
    pub closed spec fn wf(&self) -> bool {
        &&& keys_distinct(self.pairs())
        &&& forall|i: int| 0 <= i < self.pairs().len() ==> history_ok(#[trigger] self.pairs()[i].1)
    }

    /// Create a new, empty version store.
    pub fn new() -> (s: Self)
        ensures
            s.wf(),
            s@ == Map::<Seq<char>, PointerView>::empty(),
    {
        let s = VersionStore { pointers: Vec::new() };
        assert(s.pairs() =~= Seq::<(Seq<char>, PointerView)>::empty());
        assert(s@ =~= Map::<Seq<char>, PointerView>::empty());
        s
    }

    /// Position of the pointer for `manifest_id`, if any.
    fn find(&self, manifest_id: &str) -> (r: Option<usize>)
        requires
            self.wf(),
        ensures
            match r {
                Some(i) => {
                    &&& i < self.pointers@.len()
                    &&& self.pointers@[i as int].manifest_id@ == manifest_id@
                    &&& self@.contains_key(manifest_id@)
                    &&& self@[manifest_id@] == self.pointers@[i as int]@
                },
                None => !self@.contains_key(manifest_id@),
            },
    {
        let mut i: usize = 0;
        while i < self.pointers.len()
            invariant
                self.wf(),
                i <= self.pointers@.len(),
                forall|j: int| 0 <= j < i ==> self.pointers@[j].manifest_id@ != manifest_id@,
            decreases self.pointers@.len() - i,
        {
            if str_eq(self.pointers[i].manifest_id.as_str(), manifest_id) {
                proof {
                    assert(self.pairs()[i as int].0 == manifest_id@);
                    lemma_to_map_value(self.pairs(), i as int);
                }
                return Some(i);
            }
            i = i + 1;
        }
        proof {
            lemma_to_map_dom(self.pairs(), manifest_id@);
            if self@.contains_key(manifest_id@) {
                let j = choose|j: int|
                    0 <= j < self.pairs().len() && #[trigger] self.pairs()[j].0 == manifest_id@;
                assert(self.pointers@[j].manifest_id@ == manifest_id@);
            }
        }
        None
    }

    /// Create a new manifest or update an existing one with a new version,
    /// stamping the change with the time `now` (seconds since the Unix epoch).
    ///
    /// A manifest that is not yet known gets version 1 and `owner_pubkey` as
    /// its owner. A known manifest is updated only by its owner: the version
    /// number goes up by one, the entry is appended to the history, and the
    /// history keeps only its last 100 entries.
    pub fn create_or_update_manifest_at(
        &mut self,
        manifest_id: String,
        content_hash: String,
        owner_pubkey: Vec<u8>,
        changelog: Option<String>,
        now: u64,
    ) -> (r: Result<u64, String>)
        requires
            old(self).wf(),
            old(self)@.contains_key(manifest_id@) && old(self)@[manifest_id@].owner_pubkey
                == owner_pubkey@ ==> old(self)@[manifest_id@].latest_version < u64::MAX,
        ensures
            final(self).wf(),
            old(self)@.contains_key(manifest_id@) ==> {
                let p = old(self)@[manifest_id@];
                if p.owner_pubkey != owner_pubkey@ {
                    &&& r matches Err(e) && e@ == not_owner_message()
                    &&& final(self)@ == old(self)@
                } else {
                    &&& r == Ok::<u64, String>((p.latest_version + 1) as u64)
                    &&& final(self)@ == old(self)@.insert(
                        manifest_id@,
                        bumped_pointer(p, content_hash@, opt_str_view(changelog), now),
                    )
                }
            },
            !old(self)@.contains_key(manifest_id@) ==> {
                &&& r == Ok::<u64, String>(1)
                &&& final(self)@ == old(self)@.insert(
                    manifest_id@,
                    fresh_pointer(
                        manifest_id@,
                        content_hash@,
                        owner_pubkey@,
                        opt_str_view(changelog),
                        now,
                    ),
                )
            },
    {
        let ghost old_pairs = self.pairs();
        match self.find(manifest_id.as_str()) {
            Some(i) => {
                if !bytes_eq(self.pointers[i].owner_pubkey.as_slice(), owner_pubkey.as_slice()) {
                    return Err(String::from_str("Only the manifest owner can update it"));
                }
                let mut p = self.pointers.remove(i);
                let ghost old_p = p@;
                let new_version = p.latest_version + 1;
                let entry = VersionEntry {
                    version: new_version,
                    content_hash,
                    created_at: now,
                    changelog,
                };
                p.latest_version = new_version;
                p.updated_at = now;
                p.version_history.push(entry);
                let ghost pushed = p.version_history@;
                if p.version_history.len() > VERSION_HISTORY_LIMIT {
                    let cut = p.version_history.len() - VERSION_HISTORY_LIMIT;
                    let kept = p.version_history.split_off(cut);
                    p.version_history = kept;
                }
                proof {
                    assert(history_view(pushed) =~= old_p.version_history.push(
                        version_entry_view(
                            new_version,
                            content_hash@,
                            now,
                            opt_str_view(changelog),
                        ),
                    ));
                    assert(history_view(p.version_history@) =~= capped_history(
                        history_view(pushed),
                    ));
                }
                self.pointers.insert(i, p);
                proof {
                    assert(self.pairs() =~= old_pairs.update(i as int, (old_pairs[i as int].0, p@)));
                    lemma_update(old_pairs, i as int, p@);
                    assert(history_ok(old_pairs[i as int].1));
                    lemma_bump_history_ok(old_p, content_hash@, opt_str_view(changelog), now);
                    assert(p@ == bumped_pointer(
                        old_p,
                        content_hash@,
                        opt_str_view(changelog),
                        now,
                    ));
                }
                Ok(new_version)
            },
            None => {
                let ghost id = manifest_id@;
                let ghost hash = content_hash@;
                let ghost cl = opt_str_view(changelog);
                let entry = VersionEntry { version: 1, content_hash, created_at: now, changelog };
                let mut history = Vec::new();
                history.push(entry);
                let p = ManifestPointer {
                    manifest_id,
                    owner_pubkey,
                    latest_version: 1,
                    version_history: history,
                    created_at: now,
                    updated_at: now,
                };
                proof {
                    assert(history_view(p.version_history@) =~= seq![
                        version_entry_view(1, hash, now, cl),
                    ]);
                }
                self.pointers.push(p);
                proof {
                    assert(self.pairs() =~= old_pairs.push((id, p@)));
                    lemma_push(old_pairs, id, p@);
                    assert(history_ok(p@));
                }
                Ok(1)
            },
        }
    }

    /// Create a new manifest or update an existing one with a new version,
    /// stamped with the current time. The outcome and the new pointer are
    /// those of [`VersionStore::create_or_update_manifest_at`] for some time
    /// stamp that the clock supplied.
    pub fn create_or_update_manifest(
        &mut self,
        manifest_id: String,
        content_hash: String,
        owner_pubkey: Vec<u8>,
        changelog: Option<String>,
    ) -> (r: Result<u64, String>)
        requires
            old(self).wf(),
            old(self)@.contains_key(manifest_id@) && old(self)@[manifest_id@].owner_pubkey
                == owner_pubkey@ ==> old(self)@[manifest_id@].latest_version < u64::MAX,
        ensures
            final(self).wf(),
            old(self)@.contains_key(manifest_id@) ==> {
                let p = old(self)@[manifest_id@];
                if p.owner_pubkey != owner_pubkey@ {
                    &&& r matches Err(e) && e@ == not_owner_message()
                    &&& final(self)@ == old(self)@
                } else {
                    &&& r == Ok::<u64, String>((p.latest_version + 1) as u64)
                    &&& exists|now: u64|
                        final(self)@ == old(self)@.insert(
                            manifest_id@,
                            #[trigger] bumped_pointer(p, content_hash@, opt_str_view(changelog), now),
                        )
                }
            },
            !old(self)@.contains_key(manifest_id@) ==> {
                &&& r == Ok::<u64, String>(1)
                &&& exists|now: u64|
                    final(self)@ == old(self)@.insert(
                        manifest_id@,
                        #[trigger] fresh_pointer(
                            manifest_id@,
                            content_hash@,
                            owner_pubkey@,
                            opt_str_view(changelog),
                            now,
                        ),
                    )
            },
    {
        let now = current_timestamp_secs();
        self.create_or_update_manifest_at(manifest_id, content_hash, owner_pubkey, changelog, now)
    }

    /// Get the latest version number for a manifest.
    pub fn get_latest_version(&self, manifest_id: &str) -> (r: Option<u64>)
        requires
            self.wf(),
        ensures
            r == (if self@.contains_key(manifest_id@) {
                Some(self@[manifest_id@].latest_version)
            } else {
                None::<u64>
            }),
    {
        match self.find(manifest_id) {
            Some(i) => Some(self.pointers[i].latest_version),
            None => None,
        }
    }

    /// Verify that a given pubkey owns a manifest.
    pub fn verify_owner(&self, manifest_id: &str, owner_pubkey: &[u8]) -> (r: bool)
        requires
            self.wf(),
        ensures
            r == (self@.contains_key(manifest_id@) && self@[manifest_id@].owner_pubkey
                == owner_pubkey@),
    {
        match self.find(manifest_id) {
            Some(i) => bytes_eq(self.pointers[i].owner_pubkey.as_slice(), owner_pubkey),
            None => false,
        }
    }

    /// Get the manifest pointer for a given manifest ID.
    pub fn get_manifest_pointer(&self, manifest_id: &str) -> (r: Option<&ManifestPointer>)
        requires
            self.wf(),
        ensures
            match r {
                Some(p) => self@.contains_key(manifest_id@) && p@ == self@[manifest_id@],
                None => !self@.contains_key(manifest_id@),
            },
    {
        match self.find(manifest_id) {
            Some(i) => Some(&self.pointers[i]),
            None => None,
        }
    }

    /// Get a specific version entry: the first entry of the manifest's
    /// history with that version number.
    pub fn get_version_entry(&self, manifest_id: &str, version: u64) -> (r: Option<&VersionEntry>)
        requires
            self.wf(),
        ensures
            match r {
                Some(e) => {
                    &&& self@.contains_key(manifest_id@)
                    &&& is_first_with_version(
                        self@[manifest_id@].version_history,
                        version,
                        e@,
                    )
                },
                None => !self@.contains_key(manifest_id@) || forall|k: int|
                    0 <= k < self@[manifest_id@].version_history.len()
                        ==> #[trigger] self@[manifest_id@].version_history[k].version != version,
            },
    {
        match self.find(manifest_id) {
            Some(i) => {
                let p = &self.pointers[i];
                let mut k: usize = 0;
                while k < p.version_history.len()
                    invariant
                        self@.contains_key(manifest_id@),
                        self@[manifest_id@] == p@,
                        k <= p.version_history@.len(),
                        forall|j: int|
                            0 <= j < k ==> #[trigger] p.version_history@[j].version != version,
                    decreases p.version_history@.len() - k,
                {
                    if p.version_history[k].version == version {
                        proof {
                            assert(history_view(p.version_history@)[k as int]
                                == p.version_history@[k as int]@);
                            assert forall|j: int| 0 <= j < k implies #[trigger] history_view(
                                p.version_history@,
                            )[j].version != version by {
                                assert(history_view(p.version_history@)[j]
                                    == p.version_history@[j]@);
                            }
                            assert(self@[manifest_id@].version_history == history_view(
                                p.version_history@,
                            ));
                            assert(is_first_with_version(
                                history_view(p.version_history@),
                                version,
                                p.version_history@[k as int]@,
                            ));
                        }
                        return Some(&p.version_history[k]);
                    }
                    k = k + 1;
                }
                proof {
                    assert forall|j: int|
                        0 <= j < self@[manifest_id@].version_history.len() implies #[trigger] self@[manifest_id@].version_history[j].version
                        != version by {
                        assert(history_view(p.version_history@)[j] == p.version_history@[j]@);
                    }
                }
                None
            },
            None => None,
        }
    }

    /// Get all version numbers of a manifest, in history order.
    pub fn get_all_versions(&self, manifest_id: &str) -> (r: Vec<u64>)
        requires
            self.wf(),
        ensures
            r@ == (if self@.contains_key(manifest_id@) {
                self@[manifest_id@].version_history.map_values(|e: VersionEntryView| e.version)
            } else {
                Seq::<u64>::empty()
            }),
    {
        let mut out: Vec<u64> = Vec::new();
        match self.find(manifest_id) {
            Some(i) => {
                let p = &self.pointers[i];
                let mut k: usize = 0;
                while k < p.version_history.len()
                    invariant
                        k <= p.version_history@.len(),
                        out@ == history_view(p.version_history@).take(k as int).map_values(
                            |e: VersionEntryView| e.version,
                        ),
                    decreases p.version_history@.len() - k,
                {
                    out.push(p.version_history[k].version);
                    proof {
                        assert(history_view(p.version_history@).take(k + 1) =~= history_view(
                            p.version_history@,
                        ).take(k as int).push(p.version_history@[k as int]@));
                    }
                    k = k + 1;
                    proof {
                        assert(out@ =~= history_view(p.version_history@).take(
                            k as int,
                        ).map_values(|e: VersionEntryView| e.version));
                    }
                }
                proof {
                    assert(history_view(p.version_history@).take(k as int) =~= history_view(
                        p.version_history@,
                    ));
                }
                out
            },
            None => {
                assert(out@ =~= Seq::<u64>::empty());
                out
            },
        }
    }

    /// Get the content hash recorded for a specific version.
    pub fn get_content_hash(&self, manifest_id: &str, version: u64) -> (r: Option<String>)
        requires
            self.wf(),
        ensures
            match r {
                Some(h) => self@.contains_key(manifest_id@) && exists|e: VersionEntryView|
                    is_first_with_version(self@[manifest_id@].version_history, version, e)
                        && #[trigger] e.content_hash == h@,
                None => !self@.contains_key(manifest_id@) || forall|k: int|
                    0 <= k < self@[manifest_id@].version_history.len()
                        ==> #[trigger] self@[manifest_id@].version_history[k].version != version,
            },
    {
        match self.get_version_entry(manifest_id, version) {
            Some(e) => {
                let h = e.content_hash.clone();
                proof {
                    assert(is_first_with_version(self@[manifest_id@].version_history, version, e@)
                        && e@.content_hash == h@);
                }
                Some(h)
            },
            None => None,
        }
    }

    /// Get the total number of manifests tracked.
    pub fn len(&self) -> (r: usize)
        requires
            self.wf(),
        ensures
            r == self@.len(),
    {
        proof {
            lemma_to_map_len(self.pairs());
        }
        self.pointers.len()
    }

    /// Check if the store is empty.
    pub fn is_empty(&self) -> (r: bool)
        requires
            self.wf(),
        ensures
            r == (self@.len() == 0),
    {
        self.len() == 0
    }

    /// Remove a manifest completely (all versions).
    pub fn remove_manifest(&mut self, manifest_id: &str) -> (r: Option<ManifestPointer>)
        requires
            old(self).wf(),
        ensures
            final(self).wf(),
            final(self)@ == old(self)@.remove(manifest_id@),
            match r {
                Some(p) => old(self)@.contains_key(manifest_id@) && p@ == old(self)@[manifest_id@],
                None => !old(self)@.contains_key(manifest_id@),
            },
    {
        let ghost old_pairs = self.pairs();
        match self.find(manifest_id) {
            Some(i) => {
                let p = self.pointers.remove(i);
                proof {
                    assert(self.pairs() =~= old_pairs.remove(i as int));
                    lemma_remove(old_pairs, i as int);
                    assert forall|j: int| 0 <= j < self.pairs().len() implies history_ok(
                        #[trigger] self.pairs()[j].1,
                    ) by {
                        if j < i {
                            assert(self.pairs()[j] == old_pairs[j]);
                        } else {
                            assert(self.pairs()[j] == old_pairs[j + 1]);
                        }
                    }
                }
                Some(p)
            },
            None => {
                assert(self@ =~= old(self)@.remove(manifest_id@));
                None
            },
        }
    }

    /// Get all manifest IDs, each once, in no particular order.
    pub fn get_all_manifest_ids(&self) -> (r: Vec<String>)
        requires
            self.wf(),
        ensures
            r@.len() == self@.len(),
            forall|i: int, j: int|
                0 <= i < r@.len() && 0 <= j < r@.len() && i != j ==> r@[i]@ != r@[j]@,
            forall|k: Seq<char>|
                self@.contains_key(k) <==> exists|i: int| 0 <= i < r@.len() && #[trigger] r@[i]@ == k,
    {
        let mut out: Vec<String> = Vec::new();
        let mut i: usize = 0;
        while i < self.pointers.len()
            invariant
                i <= self.pointers@.len(),
                out@.len() == i,
                forall|j: int| 0 <= j < i ==> #[trigger] out@[j]@ == self.pairs()[j].0,
            decreases self.pointers@.len() - i,
        {
            out.push(self.pointers[i].manifest_id.clone());
            i = i + 1;
        }
        proof {
            lemma_to_map_len(self.pairs());
            assert forall|k: Seq<char>| self@.contains_key(k) <==> exists|i: int|
                0 <= i < out@.len() && #[trigger] out@[i]@ == k by {
                lemma_to_map_dom(self.pairs(), k);
                if self@.contains_key(k) {
                    let j = choose|j: int| 0 <= j < self.pairs().len() && #[trigger] self.pairs()[j].0 == k;
                    assert(out@[j]@ == k);
                }
                if exists|i: int| 0 <= i < out@.len() && #[trigger] out@[i]@ == k {
                    let j = choose|i: int| 0 <= i < out@.len() && #[trigger] out@[i]@ == k;
                    assert(self.pairs()[j].0 == k);
                }
            }
        }
        out
    }
}

/// Publishing the next version raises the latest version by one, records
/// the new entry last, keeps the owner and creation time, and keeps a
/// history within [`VERSION_HISTORY_LIMIT`] entries within it.
pub proof fn lemma_bump_keeps_history_bounded(
    p: PointerView,
    content_hash: Seq<char>,
    changelog: Option<Seq<char>>,
    now: u64,
)
    requires
        p.version_history.len() <= VERSION_HISTORY_LIMIT,
        p.latest_version < u64::MAX,
    ensures
        ({
            let q = bumped_pointer(p, content_hash, changelog, now);
            &&& q.latest_version == p.latest_version + 1
            &&& q.version_history.len() <= VERSION_HISTORY_LIMIT
            &&& q.version_history.len() > 0
            &&& q.version_history.last() == version_entry_view(
                q.latest_version,
                content_hash,
                now,
                changelog,
            )
            &&& q.owner_pubkey == p.owner_pubkey
            &&& q.created_at == p.created_at
            &&& q.updated_at == now
        }),
{
    let h = p.version_history.push(
        version_entry_view((p.latest_version + 1) as u64, content_hash, now, changelog),
    );
    if h.len() > VERSION_HISTORY_LIMIT {
        assert(capped_history(h).last() == h.last());
    }
}

/// A manifest recorded for the first time starts at version 1 with a
/// one-entry history.
pub proof fn lemma_fresh_pointer_starts_at_one(
    manifest_id: Seq<char>,
    content_hash: Seq<char>,
    owner_pubkey: Seq<u8>,
    changelog: Option<Seq<char>>,
    now: u64,
)
    ensures
        ({
            let p = fresh_pointer(manifest_id, content_hash, owner_pubkey, changelog, now);
            &&& p.latest_version == 1
            &&& p.version_history.len() == 1
            &&& p.version_history[0].version == 1
            &&& p.owner_pubkey == owner_pubkey
        }),
{
}

/// `e` is the first entry of `h` whose version is `version`.
pub open spec fn is_first_with_version(
    h: Seq<VersionEntryView>,
    version: u64,
    e: VersionEntryView,
) -> bool {
    exists|k: int|
        0 <= k < h.len() && #[trigger] h[k] == e && e.version == version && forall|j: int|
            0 <= j < k ==> #[trigger] h[j].version != version
}

} // verus!

verus! {

/// Helper function to get the current timestamp (seconds since the Unix epoch).
pub fn current_timestamp() -> u64 {
    current_timestamp_secs()
}

/// Generate a deterministic content hash from manifest data: the 64-bit
/// hash of the bytes as 16 lower-case hex digits.
pub fn generate_content_hash(data: &[u8]) -> (s: String)
    ensures
        s@ == crate::text::hex_chars(crate::digest::spec_hash_bytes(data@) as nat, 16),
        s@.len() == 16,
{
    let h = crate::digest::hash_bytes(data);
    let s = crate::text::u64_to_hex(h, 16);
    proof {
        crate::text::lemma_hex_chars_len(h as nat, 16);
    }
    s
}

/// Publishing the next version keeps a well-formed history well formed.
proof fn lemma_bump_history_ok(
    p: PointerView,
    content_hash: Seq<char>,
    changelog: Option<Seq<char>>,
    now: u64,
)
    requires
        history_ok(p),
        p.latest_version < u64::MAX,
    ensures
        history_ok(bumped_pointer(p, content_hash, changelog, now)),
{
    let v = (p.latest_version + 1) as u64;
    let h = p.version_history.push(version_entry_view(v, content_hash, now, changelog));
    assert forall|i: int| 0 <= i < h.len() - 1 implies #[trigger] h[i + 1].version == h[i].version + 1 by {
        if i < h.len() - 2 {
            assert(h[i + 1] == p.version_history[i + 1]);
            assert(h[i] == p.version_history[i]);
        } else {
            assert(h[i] == p.version_history.last());
        }
    }
    let c = capped_history(h);
    if h.len() > VERSION_HISTORY_LIMIT {
        let off = h.len() - VERSION_HISTORY_LIMIT;
        assert forall|i: int| 0 <= i < c.len() - 1 implies #[trigger] c[i + 1].version == c[i].version + 1 by {
            assert(c[i + 1] == h[off + i + 1]);
            assert(c[i] == h[off + i]);
            assert(h[(off + i) + 1].version == h[off + i].version + 1);
        }
        assert(c.last() == h.last());
    }
}

/// Every pointer of a well-formed store (and every store the operations
/// reach from an empty one is well formed) is stored under its own manifest
/// id and has a well-formed history: one to [`VERSION_HISTORY_LIMIT`]
/// entries, consecutive versions, the last one the latest version. The
/// store holds finitely many pointers.
pub proof fn lemma_stored_pointers_well_formed(s: VersionStore, manifest_id: Seq<char>)
    requires
        s.wf(),
    ensures
        s@.dom().finite(),
        s@.contains_key(manifest_id) ==> history_ok(s@[manifest_id]),
        s@.contains_key(manifest_id) ==> s@[manifest_id].manifest_id == manifest_id,
{
    lemma_to_map_dom(s.pairs(), manifest_id);
    if s@.contains_key(manifest_id) {
        let j = choose|j: int| 0 <= j < s.pairs().len() && #[trigger] s.pairs()[j].0 == manifest_id;
        lemma_to_map_value(s.pairs(), j);
    }
}

} // verus!
