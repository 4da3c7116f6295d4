//! The provider manager: the manifests this node provides, and the remote
//! providers it has learned of per manifest, with their expiry and the cap
//! on how many are tracked per manifest. Times are seconds since the Unix
//! epoch; the DHT traffic itself is the caller's part.
use vstd::prelude::*;

use crate::assoc::{
    keys_distinct, lemma_push, lemma_remove, lemma_to_map_dom, lemma_to_map_len, lemma_to_map_value,
    lemma_update, to_map,
};
use crate::discovery::{
    providers_view, ProviderConfig, ProviderError, ProviderInfo, ProviderStats, ProviderView,
};
use crate::provider::{expired_at, metadata_pairs, Metadata};
use crate::text::{bytes_eq, str_eq};

verus! {

/// The record of a provider first heard of at `now`.
pub open spec fn new_provider(peer: Seq<u8>, manifest_id: Seq<char>, now: u64, ttl: u64) -> ProviderView {
    ProviderView {
        peer_id: peer,
        manifest_id,
        announced_at: now,
        last_seen: now,
        ttl_seconds: ttl,
        metadata: Seq::empty(),
    }
}

/// Some record of `s` is of peer `p`.
pub open spec fn has_provider(s: Seq<ProviderView>, p: Seq<u8>) -> bool {
    exists|i: int| 0 <= i < s.len() && #[trigger] s[i].peer_id == p
}

/// `i` is the first index of a record of peer `p`.
pub open spec fn is_first_of_peer(s: Seq<ProviderView>, p: Seq<u8>, i: int) -> bool {
    &&& 0 <= i < s.len()
    &&& s[i].peer_id == p
    &&& forall|j: int| 0 <= j < i ==> #[trigger] s[j].peer_id != p
}

/// `i` is the first index of a record seen least recently.
pub open spec fn is_first_oldest(s: Seq<ProviderView>, i: int) -> bool {
    &&& 0 <= i < s.len()
    &&& forall|j: int| 0 <= j < s.len() ==> s[i].last_seen <= #[trigger] s[j].last_seen
    &&& forall|j: int| 0 <= j < i ==> #[trigger] s[j].last_seen > s[i].last_seen
}

/// A manifest's provider list after peer `p` was found at `now`: a known
/// peer's first record is marked seen; otherwise a fresh record is
/// appended, after the least recently seen record is dropped when the list
/// is at the cap.
pub open spec fn after_found(
    s: Seq<ProviderView>,
    p: Seq<u8>,
    manifest_id: Seq<char>,
    now: u64,
    ttl: u64,
    max: nat,
) -> Seq<ProviderView> {
    if has_provider(s, p) {
        let i = choose|i: int| is_first_of_peer(s, p, i);
        s.update(i, ProviderView { last_seen: now, ..s[i] })
    } else {
        let t = if s.len() >= max && s.len() > 0 {
            s.remove(choose|i: int| is_first_oldest(s, i))
        } else {
            s
        };
        t.push(new_provider(p, manifest_id, now, ttl))
    }
}

/// A provider list after expired records are dropped at `now`.
pub open spec fn live_at(s: Seq<ProviderView>, now: u64) -> Seq<ProviderView> {
    s.filter(|v: ProviderView| !expired_at(v.announced_at, v.ttl_seconds, now))
}

/// The remote providers after cleanup at `now`: expired records dropped,
/// manifests left without providers removed.
pub open spec fn cleaned(m: Map<Seq<char>, Seq<ProviderView>>, now: u64) -> Map<
    Seq<char>,
    Seq<ProviderView>,
> {
    Map::new(|k: Seq<char>| m.contains_key(k) && live_at(m[k], now).len() > 0, |k: Seq<char>| live_at(m[k], now))
}

/// Sum of the lengths of the lists.
pub open spec fn total_len(s: Seq<(Seq<char>, Seq<ProviderView>)>) -> nat
    decreases s.len(),
{
    if s.len() == 0 {
        0
    } else {
        total_len(s.drop_last()) + s.last().1.len()
    }
}

/// The (manifest id, providers) entries as mathematical values.
pub open spec fn entries_view(s: Seq<(String, Vec<ProviderInfo>)>) -> Seq<(Seq<char>, Seq<ProviderView>)> {
    s.map_values(|e: (String, Vec<ProviderInfo>)| (e.0@, providers_view(e.1@)))
}

/// Manager for provider announcements and discovery.
pub struct ProviderManager {
    local_providers: Vec<(String, ProviderInfo)>,
    remote_providers: Vec<(String, Vec<ProviderInfo>)>,
    config: ProviderConfig,
}

impl ProviderManager {
    pub closed spec fn local_pairs(&self) -> Seq<(Seq<char>, ProviderView)> {
        self.local_providers@.map_values(|e: (String, ProviderInfo)| (e.0@, e.1@))
    }

    pub closed spec fn remote_pairs(&self) -> Seq<(Seq<char>, Seq<ProviderView>)> {
        entries_view(self.remote_providers@)
    }

    /// The manifests this node provides, with their records.
    pub open spec fn local(&self) -> Map<Seq<char>, ProviderView> {
        to_map(self.local_pairs())
    }

    /// The remote providers known per manifest.
    pub open spec fn remote(&self) -> Map<Seq<char>, Seq<ProviderView>> {
        to_map(self.remote_pairs())
    }

    /// The configuration.
    pub closed spec fn spec_config(&self) -> ProviderConfig {
        self.config
    }

    /// Each manifest occurs once in each table.
    pub closed spec fn wf(&self) -> bool {
        keys_distinct(self.local_pairs()) && keys_distinct(self.remote_pairs())
    }

    /// Create a new provider manager.
    pub fn new(config: ProviderConfig) -> (m: Self)
        ensures
            m.wf(),
            m.local() == Map::<Seq<char>, ProviderView>::empty(),
            m.remote() == Map::<Seq<char>, Seq<ProviderView>>::empty(),
            m.spec_config() == config,
    {
        let m = ProviderManager {
            local_providers: Vec::new(),
            remote_providers: Vec::new(),
            config,
        };
        assert(m.local_pairs() =~= Seq::<(Seq<char>, ProviderView)>::empty());
        assert(m.remote_pairs() =~= Seq::<(Seq<char>, Seq<ProviderView>)>::empty());
        assert(m.local() =~= Map::<Seq<char>, ProviderView>::empty());
        assert(m.remote() =~= Map::<Seq<char>, Seq<ProviderView>>::empty());
        m
    }

    /// Create a provider manager with default configuration.
    pub fn new_default() -> (m: Self)
        ensures
            m.wf(),
            m.local() == Map::<Seq<char>, ProviderView>::empty(),
            m.remote() == Map::<Seq<char>, Seq<ProviderView>>::empty(),
            m.spec_config().default_ttl_seconds == 3600,
            m.spec_config().reannounce_interval_seconds == 1800,
            m.spec_config().cleanup_interval_seconds == 300,
            m.spec_config().max_providers_per_manifest == 50,
            m.spec_config().discovery_timeout_seconds == 30,
    {
        Self::new(ProviderConfig::default())
    }

    fn find_local(&self, manifest_id: &str) -> (r: Option<usize>)
        requires
            self.wf(),
        ensures
            match r {
                Some(i) => i < self.local_providers@.len() && self.local_pairs()[i as int].0
                    == manifest_id@,
                None => !self.local().contains_key(manifest_id@),
            },
    {
        let mut i: usize = 0;
        while i < self.local_providers.len()
            invariant
                i <= self.local_providers@.len(),
                forall|j: int| 0 <= j < i ==> self.local_pairs()[j].0 != manifest_id@,
            decreases self.local_providers@.len() - i,
        {
            if str_eq(self.local_providers[i].0.as_str(), manifest_id) {
                return Some(i);
            }
            i = i + 1;
        }
        proof {
            lemma_to_map_dom(self.local_pairs(), manifest_id@);
        }
        None
    }

    fn find_remote(&self, manifest_id: &str) -> (r: Option<usize>)
        requires
            self.wf(),
        ensures
            match r {
                Some(i) => i < self.remote_providers@.len() && self.remote_pairs()[i as int].0
                    == manifest_id@ && self.remote().contains_key(manifest_id@)
                    && self.remote()[manifest_id@] == self.remote_pairs()[i as int].1,
                None => !self.remote().contains_key(manifest_id@),
            },
    {
        let mut i: usize = 0;
        while i < self.remote_providers.len()
            invariant
                self.wf(),
                i <= self.remote_providers@.len(),
                forall|j: int| 0 <= j < i ==> self.remote_pairs()[j].0 != manifest_id@,
            decreases self.remote_providers@.len() - i,
        {
            if str_eq(self.remote_providers[i].0.as_str(), manifest_id) {
                proof {
                    lemma_to_map_value(self.remote_pairs(), i as int);
                }
                return Some(i);
            }
            i = i + 1;
        }
        proof {
            lemma_to_map_dom(self.remote_pairs(), manifest_id@);
        }
        None
    }

    /// Record that this node provides `manifest_id` from `now` on, as peer
    /// `local_peer_id`, with the configured TTL; the caller then announces
    /// it in the DHT.
    pub fn announce_provider_at(
        &mut self,
        local_peer_id: Vec<u8>,
        manifest_id: &str,
        metadata: Metadata,
        now: u64,
    )
        requires
            old(self).wf(),
        ensures
            final(self).wf(),
            final(self).spec_config() == old(self).spec_config(),
            final(self).remote() == old(self).remote(),
            final(self).local() == old(self).local().insert(
                manifest_id@,
                ProviderView {
                    peer_id: local_peer_id@,
                    manifest_id: manifest_id@,
                    announced_at: now,
                    last_seen: now,
                    ttl_seconds: old(self).spec_config().default_ttl_seconds,
                    metadata: metadata_pairs(metadata@),
                },
            ),
    {
        let info = ProviderInfo {
            peer_id: local_peer_id,
            manifest_id: manifest_id.to_owned(),
            announced_at: now,
            last_seen: now,
            ttl_seconds: self.config.default_ttl_seconds,
            metadata,
        };
        let ghost old_pairs = self.local_pairs();
        let ghost v = info@;
        match self.find_local(manifest_id) {
            Some(i) => {
                self.local_providers.set(i, (manifest_id.to_owned(), info));
                proof {
                    assert(self.local_pairs() =~= old_pairs.update(i as int, (old_pairs[i as int].0, v)));
                    lemma_update(old_pairs, i as int, v);
                }
            },
            None => {
                self.local_providers.push((manifest_id.to_owned(), info));
                proof {
                    assert(self.local_pairs() =~= old_pairs.push((manifest_id@, v)));
                    lemma_push(old_pairs, manifest_id@, v);
                }
            },
        }
    }

    /// Stop providing a manifest; fails when it was not provided.
    pub fn stop_providing(&mut self, manifest_id: &str) -> (r: Result<(), ProviderError>)
        requires
            old(self).wf(),
        ensures
            final(self).wf(),
            final(self).spec_config() == old(self).spec_config(),
            final(self).remote() == old(self).remote(),
            final(self).local() == old(self).local().remove(manifest_id@),
            old(self).local().contains_key(manifest_id@) <==> r is Ok,
            r matches Err(e) ==> e matches ProviderError::ProviderNotFound(d) && d@ == manifest_id@,
    {
        let ghost old_pairs = self.local_pairs();
        match self.find_local(manifest_id) {
            Some(i) => {
                proof {
                    lemma_to_map_value(old_pairs, i as int);
                }
                self.local_providers.remove(i);
                proof {
                    assert(self.local_pairs() =~= old_pairs.remove(i as int));
                    lemma_remove(old_pairs, i as int);
                }
                Ok(())
            },
            None => {
                assert(self.local() =~= old(self).local().remove(manifest_id@));
                Err(ProviderError::ProviderNotFound(manifest_id.to_owned()))
            },
        }
    }

    /// All manifests this node is providing, as their records.
    pub fn get_local_providers(&self) -> (r: Vec<ProviderInfo>)
        ensures
            providers_view(r@) == self.local_pairs().map_values(
                |e: (Seq<char>, ProviderView)| e.1,
            ),
    {
        let ghost all = self.local_pairs().map_values(|e: (Seq<char>, ProviderView)| e.1);
        let mut out: Vec<ProviderInfo> = Vec::new();
        let mut i: usize = 0;
        while i < self.local_providers.len()
            invariant
                i <= self.local_providers@.len(),
                all == self.local_pairs().map_values(|e: (Seq<char>, ProviderView)| e.1),
                providers_view(out@) == all.take(i as int),
            decreases self.local_providers@.len() - i,
        {
            let ghost before = providers_view(out@);
            out.push(self.local_providers[i].1.duplicate());
            proof {
                assert(providers_view(out@) =~= before.push(all[i as int]));
                assert(all.take(i + 1) =~= all.take(i as int).push(all[i as int]));
            }
            i = i + 1;
        }
        assert(all.take(i as int) =~= all);
        out
    }

    /// The ids of the manifests this node provides (to re-announce them).
    pub fn local_manifest_ids(&self) -> (r: Vec<String>)
        ensures
            r@.map_values(|s: String| s@) == self.local_pairs().map_values(
                |e: (Seq<char>, ProviderView)| e.0,
            ),
    {
        let ghost all = self.local_pairs().map_values(|e: (Seq<char>, ProviderView)| e.0);
        let mut out: Vec<String> = Vec::new();
        let mut i: usize = 0;
        while i < self.local_providers.len()
            invariant
                i <= self.local_providers@.len(),
                all == self.local_pairs().map_values(|e: (Seq<char>, ProviderView)| e.0),
                out@.map_values(|s: String| s@) == all.take(i as int),
            decreases self.local_providers@.len() - i,
        {
            let ghost before = out@;
            out.push(self.local_providers[i].0.clone());
            proof {
                assert(out@.map_values(|s: String| s@) =~= before.map_values(|s: String| s@).push(
                    all[i as int],
                ));
                assert(all.take(i + 1) =~= all.take(i as int).push(all[i as int]));
            }
            i = i + 1;
        }
        assert(all.take(i as int) =~= all);
        out
    }

    /// Providers for a specific manifest (including expired ones).
    pub fn get_providers_for_manifest(&self, manifest_id: &str) -> (r: Vec<ProviderInfo>)
        requires
            self.wf(),
        ensures
            providers_view(r@) == if self.remote().contains_key(manifest_id@) {
                self.remote()[manifest_id@]
            } else {
                Seq::empty()
            },
    {
        match self.find_remote(manifest_id) {
            Some(i) => copy_providers(&self.remote_providers[i].1),
            None => {
                let r: Vec<ProviderInfo> = Vec::new();
                assert(providers_view(r@) =~= Seq::<ProviderView>::empty());
                r
            },
        }
    }

    /// The unexpired known providers of a manifest at `now` (what a
    /// discovery answers from the cache when there are any).
    pub fn cached_live_providers(&self, manifest_id: &str, now: u64) -> (r: Vec<ProviderInfo>)
        requires
            self.wf(),
        ensures
            providers_view(r@) == if self.remote().contains_key(manifest_id@) {
                live_at(self.remote()[manifest_id@], now)
            } else {
                Seq::empty()
            },
    {
        match self.find_remote(manifest_id) {
            Some(i) => live_providers(&self.remote_providers[i].1, now),
            None => {
                let r: Vec<ProviderInfo> = Vec::new();
                assert(providers_view(r@) =~= Seq::<ProviderView>::empty());
                r
            },
        }
    }

    /// Record the providers a DHT query returned for a manifest, replacing
    /// what was known.
    pub fn record_query_result(&mut self, manifest_id: &str, providers: Vec<ProviderInfo>)
        requires
            old(self).wf(),
        ensures
            final(self).wf(),
            final(self).spec_config() == old(self).spec_config(),
            final(self).local() == old(self).local(),
            final(self).remote() == old(self).remote().insert(manifest_id@, providers_view(providers@)),
    {
        let ghost old_pairs = self.remote_pairs();
        let ghost v = providers_view(providers@);
        match self.find_remote(manifest_id) {
            Some(i) => {
                self.remote_providers.set(i, (manifest_id.to_owned(), providers));
                proof {
                    assert(self.remote_pairs() =~= old_pairs.update(i as int, (old_pairs[i as int].0, v)));
                    lemma_update(old_pairs, i as int, v);
                }
            },
            None => {
                self.remote_providers.push((manifest_id.to_owned(), providers));
                proof {
                    assert(self.remote_pairs() =~= old_pairs.push((manifest_id@, v)));
                    lemma_push(old_pairs, manifest_id@, v);
                }
            },
        }
    }

    /// Drop expired remote providers at `now`, and the manifests left
    /// without any.
    pub fn cleanup_expired_providers(&mut self, now: u64)
        requires
            old(self).wf(),
        ensures
            final(self).wf(),
            final(self).spec_config() == old(self).spec_config(),
            final(self).local() == old(self).local(),
            final(self).remote() == cleaned(old(self).remote(), now),
    {
        let ghost old_pairs = self.remote_pairs();
        let mut kept: Vec<(String, Vec<ProviderInfo>)> = Vec::new();
        let mut i: usize = 0;
        while i < self.remote_providers.len()
            invariant
                i <= self.remote_providers@.len(),
                old_pairs == self.remote_pairs(),
                keys_distinct(old_pairs),
                keys_distinct(entries_view(kept@)),
                forall|k: Seq<char>|
                    #[trigger] to_map(
                        entries_view(kept@),
                    ).contains_key(k) <==> (exists|j: int|
                        0 <= j < i && #[trigger] old_pairs[j].0 == k && live_at(old_pairs[j].1, now).len()
                            > 0),
                forall|j: int|
                    0 <= j < i && #[trigger] live_at(old_pairs[j].1, now).len() > 0 ==> to_map(
                        entries_view(kept@),
                    )[old_pairs[j].0] == live_at(old_pairs[j].1, now),
            decreases self.remote_providers@.len() - i,
        {
            let ghost kp = entries_view(kept@);
            let live = live_providers(&self.remote_providers[i].1, now);
            if live.len() > 0 {
                proof {
                    lemma_to_map_dom(kp, old_pairs[i as int].0);
                    if to_map(kp).contains_key(old_pairs[i as int].0) {
                        let j = choose|j: int|
                            0 <= j < i && #[trigger] old_pairs[j].0 == old_pairs[i as int].0 && live_at(
                                old_pairs[j].1,
                                now,
                            ).len() > 0;
                        assert(false);
                    }
                }
                kept.push((self.remote_providers[i].0.clone(), live));
                proof {
                    let kp2 = entries_view(kept@);
                    assert(kp2 =~= kp.push((old_pairs[i as int].0, live_at(old_pairs[i as int].1, now))));
                    lemma_push(kp, old_pairs[i as int].0, live_at(old_pairs[i as int].1, now));
                    assert forall|k: Seq<char>| #[trigger] to_map(kp2).contains_key(k) <==> (exists|j: int|
                        0 <= j < i + 1 && #[trigger] old_pairs[j].0 == k && live_at(old_pairs[j].1, now).len()
                            > 0) by {
                        if k == old_pairs[i as int].0 {
                            assert(old_pairs[i as int].0 == k);
                        }
                    }
                    assert forall|j: int|
                        0 <= j < i + 1 && #[trigger] live_at(old_pairs[j].1, now).len() > 0 implies to_map(
                            kp2,
                        )[old_pairs[j].0] == live_at(old_pairs[j].1, now) by {
                        if j < i {
                            assert(old_pairs[j].0 != old_pairs[i as int].0);
                        }
                    }
                }
            } else {
                proof {
                    assert forall|k: Seq<char>| #[trigger] to_map(kp).contains_key(k) <==> (exists|j: int|
                        0 <= j < i + 1 && #[trigger] old_pairs[j].0 == k && live_at(old_pairs[j].1, now).len()
                            > 0) by {
                        if exists|j: int|
                            0 <= j < i + 1 && #[trigger] old_pairs[j].0 == k && live_at(old_pairs[j].1, now).len()
                                > 0 {
                            let j = choose|j: int|
                                0 <= j < i + 1 && #[trigger] old_pairs[j].0 == k && live_at(
                                    old_pairs[j].1,
                                    now,
                                ).len() > 0;
                            assert(j < i);
                        }
                    }
                }
            }
            i = i + 1;
        }
        let ghost kp = entries_view(kept@);
        self.remote_providers = kept;
        proof {
            assert(self.remote_pairs() == kp);
            assert forall|k: Seq<char>| #[trigger] self.remote().contains_key(k) <==> cleaned(
                old(self).remote(),
                now,
            ).contains_key(k) by {
                lemma_to_map_dom(old_pairs, k);
                if self.remote().contains_key(k) {
                    let j = choose|j: int|
                        0 <= j < i && #[trigger] old_pairs[j].0 == k && live_at(old_pairs[j].1, now).len()
                            > 0;
                    lemma_to_map_value(old_pairs, j);
                }
                if cleaned(old(self).remote(), now).contains_key(k) {
                    let j = choose|j: int| 0 <= j < old_pairs.len() && #[trigger] old_pairs[j].0 == k;
                    lemma_to_map_value(old_pairs, j);
                    assert(live_at(old_pairs[j].1, now).len() > 0);
                }
            }
            assert forall|k: Seq<char>| #[trigger] self.remote().contains_key(k) implies self.remote()[k]
                == cleaned(old(self).remote(), now)[k] by {
                let j = choose|j: int|
                    0 <= j < i && #[trigger] old_pairs[j].0 == k && live_at(old_pairs[j].1, now).len() > 0;
                lemma_to_map_value(old_pairs, j);
            }
            assert(self.remote() =~= cleaned(old(self).remote(), now));
        }
    }

    /// A provider of `manifest_id` was found in the DHT at `now`: a known
    /// peer is marked seen; a new one is added with the configured TTL,
    /// after the least recently seen provider is dropped when the manifest
    /// is at the cap.
    pub fn handle_provider_found(&mut self, manifest_id: &str, provider_peer: Vec<u8>, now: u64)
        requires
            old(self).wf(),
        ensures
            final(self).wf(),
            final(self).spec_config() == old(self).spec_config(),
            final(self).local() == old(self).local(),
            final(self).remote() == old(self).remote().insert(
                manifest_id@,
                after_found(
                    if old(self).remote().contains_key(manifest_id@) {
                        old(self).remote()[manifest_id@]
                    } else {
                        Seq::empty()
                    },
                    provider_peer@,
                    manifest_id@,
                    now,
                    old(self).spec_config().default_ttl_seconds,
                    old(self).spec_config().max_providers_per_manifest as nat,
                ),
            ),
    {
        let ttl = self.config.default_ttl_seconds;
        let max = self.config.max_providers_per_manifest;
        let ghost old_pairs = self.remote_pairs();
        match self.find_remote(manifest_id) {
            Some(i) => {
                let list = copy_providers(&self.remote_providers[i].1);
                let updated = found_update(list, &provider_peer, manifest_id, now, ttl, max);
                let ghost v = providers_view(updated@);
                self.remote_providers.set(i, (manifest_id.to_owned(), updated));
                proof {
                    assert(self.remote_pairs() =~= old_pairs.update(i as int, (old_pairs[i as int].0, v)));
                    lemma_update(old_pairs, i as int, v);
                }
            },
            None => {
                let list: Vec<ProviderInfo> = Vec::new();
                assert(providers_view(list@) =~= Seq::<ProviderView>::empty());
                let updated = found_update(list, &provider_peer, manifest_id, now, ttl, max);
                let ghost v = providers_view(updated@);
                self.remote_providers.push((manifest_id.to_owned(), updated));
                proof {
                    assert(self.remote_pairs() =~= old_pairs.push((manifest_id@, v)));
                    lemma_push(old_pairs, manifest_id@, v);
                }
            },
        }
    }

    /// Statistics about the provider manager, with the number of pending
    /// queries the caller tracks.
    pub fn get_stats(&self, pending_queries: usize) -> (s: ProviderStats)
        requires
            self.wf(),
            total_len(self.remote_pairs()) <= usize::MAX,
        ensures
            s.local_providers == self.local().len(),
            s.remote_manifests == self.remote().len(),
            s.total_remote_providers == total_len(self.remote_pairs()),
            s.pending_queries == pending_queries,
    {
        proof {
            lemma_to_map_len(self.local_pairs());
            lemma_to_map_len(self.remote_pairs());
        }
        let mut total: usize = 0;
        let mut i: usize = 0;
        while i < self.remote_providers.len()
            invariant
                i <= self.remote_providers@.len(),
                total == total_len(self.remote_pairs().take(i as int)),
                total_len(self.remote_pairs()) <= usize::MAX,
            decreases self.remote_providers@.len() - i,
        {
            proof {
                assert(self.remote_pairs().take(i + 1).drop_last() =~= self.remote_pairs().take(i as int));
                lemma_total_len_prefix(self.remote_pairs(), i + 1);
            }
            total = total + self.remote_providers[i].1.len();
            i = i + 1;
        }
        assert(self.remote_pairs().take(i as int) =~= self.remote_pairs());
        ProviderStats {
            local_providers: self.local_providers.len(),
            remote_manifests: self.remote_providers.len(),
            total_remote_providers: total,
            pending_queries,
        }
    }
}

proof fn lemma_total_len_prefix(s: Seq<(Seq<char>, Seq<ProviderView>)>, k: int)
    requires
        0 <= k <= s.len(),
    ensures
        total_len(s.take(k)) <= total_len(s),
    decreases s.len(),
{
    if k < s.len() {
        assert(s.drop_last().take(k) =~= s.take(k));
        lemma_total_len_prefix(s.drop_last(), k);
    } else {
        assert(s.take(k) =~= s);
    }
}

pub(crate) fn copy_providers(list: &Vec<ProviderInfo>) -> (r: Vec<ProviderInfo>)
    ensures
        providers_view(r@) == providers_view(list@),
{
    let mut out: Vec<ProviderInfo> = Vec::new();
    let mut i: usize = 0;
    while i < list.len()
        invariant
            i <= list@.len(),
            providers_view(out@) == providers_view(list@).take(i as int),
        decreases list@.len() - i,
    {
        let ghost before = providers_view(out@);
        out.push(list[i].duplicate());
        proof {
            assert(providers_view(out@) =~= before.push(list@[i as int]@));
            assert(providers_view(list@).take(i + 1) =~= providers_view(list@).take(i as int).push(
                list@[i as int]@,
            ));
        }
        i = i + 1;
    }
    assert(providers_view(list@).take(i as int) =~= providers_view(list@));
    out
}

fn live_providers(list: &Vec<ProviderInfo>, now: u64) -> (r: Vec<ProviderInfo>)
    ensures
        providers_view(r@) == live_at(providers_view(list@), now),
{
    let ghost all = providers_view(list@);
    let ghost keep = |v: ProviderView| !expired_at(v.announced_at, v.ttl_seconds, now);
    let mut out: Vec<ProviderInfo> = Vec::new();
    let mut i: usize = 0;
    while i < list.len()
        invariant
            i <= list@.len(),
            all == providers_view(list@),
            keep == (|v: ProviderView| !expired_at(v.announced_at, v.ttl_seconds, now)),
            providers_view(out@) == all.take(i as int).filter(keep),
        decreases list@.len() - i,
    {
        proof {
            assert(all.take(i + 1) =~= all.take(i as int).push(all[i as int]));
            all.take(i as int).lemma_filter_push(all[i as int], keep);
        }
        if !list[i].is_expired_at(now) {
            let ghost before = providers_view(out@);
            out.push(list[i].duplicate());
            proof {
                assert(providers_view(out@) =~= before.push(all[i as int]));
            }
        }
        i = i + 1;
    }
    assert(all.take(i as int) =~= all);
    out
}

fn found_update(
    list: Vec<ProviderInfo>,
    peer: &Vec<u8>,
    manifest_id: &str,
    now: u64,
    ttl: u64,
    max: usize,
) -> (r: Vec<ProviderInfo>)
    ensures
        providers_view(r@) == after_found(
            providers_view(list@),
            peer@,
            manifest_id@,
            now,
            ttl,
            max as nat,
        ),
{
    let ghost s = providers_view(list@);
    let mut list = list;
    let mut i: usize = 0;
    while i < list.len() && !bytes_eq(list[i].peer_id.as_slice(), peer.as_slice())
        invariant
            i <= list@.len(),
            s == providers_view(list@),
            forall|j: int| 0 <= j < i ==> #[trigger] s[j].peer_id != peer@,
        decreases list@.len() - i,
    {
        i = i + 1;
    }
    if i < list.len() {
        proof {
            assert(is_first_of_peer(s, peer@, i as int));
            let c = choose|c: int| is_first_of_peer(s, peer@, c);
            if c < i {
                assert(s[c].peer_id != peer@);
            }
            if c > i {
                assert(s[i as int].peer_id != peer@);
            }
        }
        let mut rec = list[i].duplicate();
        rec.last_seen = now;
        list.set(i, rec);
        proof {
            assert(providers_view(list@) =~= s.update(i as int, ProviderView { last_seen: now, ..s[i as int] }));
        }
        list
    } else {
        proof {
            assert(!has_provider(s, peer@));
        }
        let ghost t = if s.len() >= max && s.len() > 0 {
            s.remove(choose|o: int| is_first_oldest(s, o))
        } else {
            s
        };
        if list.len() >= max && list.len() > 0 {
            let mut o: usize = 0;
            let mut j: usize = 1;
            while j < list.len()
                invariant
                    0 < list@.len(),
                    s == providers_view(list@),
                    o < j <= list@.len(),
                    forall|k: int| 0 <= k < j ==> s[o as int].last_seen <= #[trigger] s[k].last_seen,
                    forall|k: int| 0 <= k < o ==> #[trigger] s[k].last_seen > s[o as int].last_seen,
                decreases list@.len() - j,
            {
                if list[j].last_seen < list[o].last_seen {
                    o = j;
                }
                j = j + 1;
            }
            proof {
                assert(is_first_oldest(s, o as int));
                let c = choose|c: int| is_first_oldest(s, c);
                if c < o {
                    assert(s[c].last_seen > s[o as int].last_seen);
                }
                if c > o {
                    assert(s[o as int].last_seen > s[c].last_seen);
                }
            }
            list.remove(o);
            proof {
                assert(providers_view(list@) =~= s.remove(o as int));
            }
        }
        let ghost tv = providers_view(list@);
        assert(tv == t);
        let fresh = ProviderInfo {
            peer_id: peer.clone(),
            manifest_id: manifest_id.to_owned(),
            announced_at: now,
            last_seen: now,
            ttl_seconds: ttl,
            metadata: Vec::new(),
        };
        proof {
            assert(fresh.metadata@ =~= Seq::<(String, String)>::empty());
            assert(metadata_pairs(fresh.metadata@) =~= Seq::<(Seq<char>, Seq<char>)>::empty());
            assert(fresh@ == new_provider(peer@, manifest_id@, now, ttl));
        }
        list.push(fresh);
        proof {
            assert(providers_view(list@) =~= t.push(new_provider(peer@, manifest_id@, now, ttl)));
        }
        list
    }
}

/// After a provider is found, the manifest's list holds a record of that
/// peer last seen at the time it was found.
pub proof fn lemma_found_provider_is_recorded(
    s: Seq<ProviderView>,
    p: Seq<u8>,
    manifest_id: Seq<char>,
    now: u64,
    ttl: u64,
    max: nat,
)
    ensures
        exists|i: int|
            0 <= i < after_found(s, p, manifest_id, now, ttl, max).len() && #[trigger] after_found(
                s,
                p,
                manifest_id,
                now,
                ttl,
                max,
            )[i].peer_id == p && after_found(s, p, manifest_id, now, ttl, max)[i].last_seen == now,
{
    let r = after_found(s, p, manifest_id, now, ttl, max);
    if has_provider(s, p) {
        let j = choose|j: int| 0 <= j < s.len() && #[trigger] s[j].peer_id == p;
        lemma_first_of_peer_exists(s, p, j);
        let i = choose|i: int| is_first_of_peer(s, p, i);
        assert(r[i].peer_id == p && r[i].last_seen == now);
    } else {
        assert(r[r.len() - 1].peer_id == p);
    }
}

proof fn lemma_first_of_peer_exists(s: Seq<ProviderView>, p: Seq<u8>, j: int)
    requires
        0 <= j < s.len(),
        s[j].peer_id == p,
    ensures
        exists|i: int| is_first_of_peer(s, p, i),
    decreases j,
{
    if exists|k: int| 0 <= k < j && #[trigger] s[k].peer_id == p {
        let k = choose|k: int| 0 <= k < j && #[trigger] s[k].peer_id == p;
        lemma_first_of_peer_exists(s, p, k);
    } else {
        assert(is_first_of_peer(s, p, j));
    }
}

/// Index of the first least recently seen record among the first `n`.
spec fn oldest_in_prefix(s: Seq<ProviderView>, n: int) -> int
    decreases n,
{
    if n <= 1 {
        0
    } else {
        let o = oldest_in_prefix(s, n - 1);
        if s[n - 1].last_seen < s[o].last_seen {
            n - 1
        } else {
            o
        }
    }
}

proof fn lemma_oldest_in_prefix(s: Seq<ProviderView>, n: int)
    requires
        0 < n <= s.len(),
    ensures
        0 <= oldest_in_prefix(s, n) < n,
        forall|k: int| 0 <= k < n ==> s[oldest_in_prefix(s, n)].last_seen <= #[trigger] s[k].last_seen,
        forall|k: int| 0 <= k < oldest_in_prefix(s, n) ==> #[trigger] s[k].last_seen > s[oldest_in_prefix(s, n)].last_seen,
    decreases n,
{
    if n > 1 {
        lemma_oldest_in_prefix(s, n - 1);
    }
}

proof fn lemma_first_oldest_exists(s: Seq<ProviderView>)
    requires
        s.len() > 0,
    ensures
        exists|i: int| is_first_oldest(s, i),
{
    lemma_oldest_in_prefix(s, s.len() as int);
    assert(is_first_oldest(s, oldest_in_prefix(s, s.len() as int)));
}

/// When a manifest's list is within the cap (and the cap admits at least
/// one provider), it stays within the cap after a provider is found.
pub proof fn lemma_found_respects_cap(
    s: Seq<ProviderView>,
    p: Seq<u8>,
    manifest_id: Seq<char>,
    now: u64,
    ttl: u64,
    max: nat,
)
    requires
        s.len() <= max,
        max >= 1,
    ensures
        after_found(s, p, manifest_id, now, ttl, max).len() <= max,
{
    if has_provider(s, p) {
        let j = choose|j: int| 0 <= j < s.len() && #[trigger] s[j].peer_id == p;
        lemma_first_of_peer_exists(s, p, j);
        let i = choose|i: int| is_first_of_peer(s, p, i);
        assert(after_found(s, p, manifest_id, now, ttl, max).len() == s.len());
    } else if s.len() >= max && s.len() > 0 {
        lemma_first_oldest_exists(s);
        let o = choose|o: int| is_first_oldest(s, o);
        assert(s.remove(o).len() == s.len() - 1);
    }
}

} // verus!
