//! The discovery manager: the provider lookups in flight, the cache of
//! recent answers, and what a lookup does next. Query and cache times are
//! milliseconds since the Unix epoch; waiting for the DHT is the caller's
//! part, which hands back what it found.
use vstd::prelude::*;

use crate::assoc::{
    keys_distinct, lemma_push, lemma_remove, lemma_to_map_dom, lemma_to_map_len, lemma_to_map_value,
    lemma_update, restrict, lemma_filter, to_map,
};
use crate::discovery::{
    filter_providers, providers_view, selected_providers, DiscoveryConfig, DiscoveryQuery,
    DiscoveryStats, ProviderError, ProviderInfo, ProviderView,
};
use crate::provider_manager::{copy_providers, new_provider};
use crate::replay::elapsed;
use crate::text::str_eq;

verus! {

/// TTL of providers learned from a lookup (seconds).
pub const FOUND_PROVIDER_TTL_SECONDS: u64 = 3600;

/// Results from a provider discovery query.
#[derive(Debug, Clone)]
pub struct DiscoveryResult {
    /// The manifest ID that was queried.
    pub manifest_id: String,
    /// List of discovered providers.
    pub providers: Vec<ProviderInfo>,
    /// Whether the query completed successfully.
    pub success: bool,
    /// Any error that occurred during discovery.
    pub error: Option<String>,
    /// How long the discovery took (ms).
    pub duration_ms: u64,
    /// Whether the query timed out.
    pub timed_out: bool,
}

/// What a lookup does next.
#[derive(Debug, Clone)]
pub enum DiscoveryStep {
    /// Answer from the cache.
    Cached(DiscoveryResult),
    /// A lookup of the manifest is in flight: wait for its answer.
    JoinExisting,
    /// Refuse: too many lookups in flight.
    Rejected(ProviderError),
    /// Start a DHT lookup (the query is now in flight).
    StartQuery,
}

/// Whether a cache entry made at `cached_at` is still fresh at `now`.
pub open spec fn cache_fresh(cached_at: u64, now: u64, ttl_seconds: u64) -> bool {
    elapsed(now, cached_at) / 1000 < ttl_seconds
}

/// One cached answer: manifest id, providers, when cached.
pub open spec fn cache_entry_view(e: (String, Vec<ProviderInfo>, u64)) -> (Seq<char>, (Seq<ProviderView>, u64)) {
    (e.0@, (providers_view(e.1@), e.2))
}

/// The records of providers found by a lookup at `now_secs`.
pub open spec fn found_records(peers: Seq<Seq<u8>>, manifest_id: Seq<char>, now_secs: u64) -> Seq<ProviderView> {
    peers.map_values(|p: Seq<u8>| new_provider(p, manifest_id, now_secs, FOUND_PROVIDER_TTL_SECONDS))
}

/// Manager for discovery operations.
pub struct DiscoveryManager {
    active_queries: Vec<DiscoveryQuery>,
    provider_cache: Vec<(String, Vec<ProviderInfo>, u64)>,
    config: DiscoveryConfig,
}

impl DiscoveryManager {
    pub closed spec fn query_pairs(&self) -> Seq<(Seq<char>, DiscoveryQuery)> {
        self.active_queries@.map_values(|q: DiscoveryQuery| (q.manifest_id@, q))
    }

    pub closed spec fn cache_pairs(&self) -> Seq<(Seq<char>, (Seq<ProviderView>, u64))> {
        self.provider_cache@.map_values(|e: (String, Vec<ProviderInfo>, u64)| cache_entry_view(e))
    }

    /// The lookups in flight, by manifest id.
    pub open spec fn active(&self) -> Map<Seq<char>, DiscoveryQuery> {
        to_map(self.query_pairs())
    }

    /// The cached answers, by manifest id: providers and when cached.
    pub open spec fn cache(&self) -> Map<Seq<char>, (Seq<ProviderView>, u64)> {
        to_map(self.cache_pairs())
    }

    pub closed spec fn spec_config(&self) -> DiscoveryConfig {
        self.config
    }

    /// Each manifest occurs once in each table.
    pub closed spec fn wf(&self) -> bool {
        keys_distinct(self.query_pairs()) && keys_distinct(self.cache_pairs())
    }

    /// Create a new discovery manager.
    pub fn new(config: DiscoveryConfig) -> (m: Self)
        ensures
            m.wf(),
            m.active() == Map::<Seq<char>, DiscoveryQuery>::empty(),
            m.cache() == Map::<Seq<char>, (Seq<ProviderView>, u64)>::empty(),
            m.spec_config() == config,
    {
        let m = DiscoveryManager { active_queries: Vec::new(), provider_cache: Vec::new(), config };
        assert(m.query_pairs() =~= Seq::<(Seq<char>, DiscoveryQuery)>::empty());
        assert(m.cache_pairs() =~= Seq::<(Seq<char>, (Seq<ProviderView>, u64))>::empty());
        assert(m.active() =~= Map::<Seq<char>, DiscoveryQuery>::empty());
        assert(m.cache() =~= Map::<Seq<char>, (Seq<ProviderView>, u64)>::empty());
        m
    }

    /// Create a discovery manager with default configuration.
    pub fn new_default() -> (m: Self)
        ensures
            m.wf(),
            m.active() == Map::<Seq<char>, DiscoveryQuery>::empty(),
            m.cache() == Map::<Seq<char>, (Seq<ProviderView>, u64)>::empty(),
            m.spec_config().cache_ttl_seconds == 300,
            m.spec_config().max_concurrent_queries == 20,
            m.spec_config().default_timeout_seconds == 30,
            m.spec_config().cache_cleanup_interval_seconds == 60,
    {
        Self::new(DiscoveryConfig::default())
    }

    fn find_query(&self, manifest_id: &str) -> (r: Option<usize>)
        requires
            self.wf(),
        ensures
            match r {
                Some(i) => i < self.active_queries@.len() && self.query_pairs()[i as int].0
                    == manifest_id@ && self.active().contains_key(manifest_id@),
                None => !self.active().contains_key(manifest_id@),
            },
    {
        let mut i: usize = 0;
        while i < self.active_queries.len()
            invariant
                self.wf(),
                i <= self.active_queries@.len(),
                forall|j: int| 0 <= j < i ==> self.query_pairs()[j].0 != manifest_id@,
            decreases self.active_queries@.len() - i,
        {
            if str_eq(self.active_queries[i].manifest_id.as_str(), manifest_id) {
                proof {
                    lemma_to_map_value(self.query_pairs(), i as int);
                }
                return Some(i);
            }
            i = i + 1;
        }
        proof {
            lemma_to_map_dom(self.query_pairs(), manifest_id@);
        }
        None
    }

    fn find_cache(&self, manifest_id: &str) -> (r: Option<usize>)
        requires
            self.wf(),
        ensures
            match r {
                Some(i) => i < self.provider_cache@.len() && self.cache_pairs()[i as int].0
                    == manifest_id@ && self.cache().contains_key(manifest_id@)
                    && self.cache()[manifest_id@] == self.cache_pairs()[i as int].1,
                None => !self.cache().contains_key(manifest_id@),
            },
    {
        let mut i: usize = 0;
        while i < self.provider_cache.len()
            invariant
                self.wf(),
                i <= self.provider_cache@.len(),
                forall|j: int| 0 <= j < i ==> self.cache_pairs()[j].0 != manifest_id@,
            decreases self.provider_cache@.len() - i,
        {
            if str_eq(self.provider_cache[i].0.as_str(), manifest_id) {
                proof {
                    lemma_to_map_value(self.cache_pairs(), i as int);
                }
                return Some(i);
            }
            i = i + 1;
        }
        proof {
            lemma_to_map_dom(self.cache_pairs(), manifest_id@);
        }
        None
    }

    /// The cached answer for a manifest when it is still fresh at `now`.
    pub fn get_cached_providers(&self, manifest_id: &str, now: u64) -> (r: Option<DiscoveryResult>)
        requires
            self.wf(),
        ensures
            match r {
                Some(res) => {
                    &&& self.cache().contains_key(manifest_id@)
                    &&& cache_fresh(self.cache()[manifest_id@].1, now, self.spec_config().cache_ttl_seconds)
                    &&& providers_view(res.providers@) == self.cache()[manifest_id@].0
                    &&& res.manifest_id@ == manifest_id@
                    &&& res.success && res.error is None && res.duration_ms == 0 && !res.timed_out
                },
                None => !self.cache().contains_key(manifest_id@) || !cache_fresh(
                    self.cache()[manifest_id@].1,
                    now,
                    self.spec_config().cache_ttl_seconds,
                ),
            },
    {
        match self.find_cache(manifest_id) {
            Some(i) => {
                let cached_at = self.provider_cache[i].2;
                let age = if now >= cached_at {
                    now - cached_at
                } else {
                    0
                };
                if age / 1000 < self.config.cache_ttl_seconds {
                    let providers = copy_providers(&self.provider_cache[i].1);
                    Some(
                        DiscoveryResult {
                            manifest_id: manifest_id.to_owned(),
                            providers,
                            success: true,
                            error: None,
                            duration_ms: 0,
                            timed_out: false,
                        },
                    )
                } else {
                    None
                }
            },
            None => None,
        }
    }

    /// Decide what a lookup for `query` does at `now`: answer from a fresh,
    /// non-empty cache entry; else join a lookup already in flight; else
    /// refuse when the limit of lookups in flight is reached; else record
    /// the query as in flight and start it.
    pub fn discover_providers(&mut self, query: DiscoveryQuery, now: u64) -> (step: DiscoveryStep)
        requires
            old(self).wf(),
        ensures
            final(self).wf(),
            final(self).cache() == old(self).cache(),
            final(self).spec_config() == old(self).spec_config(),
            ({
                let id = query.manifest_id@;
                let cached = old(self).cache().contains_key(id) && cache_fresh(
                    old(self).cache()[id].1,
                    now,
                    old(self).spec_config().cache_ttl_seconds,
                ) && old(self).cache()[id].0.len() > 0;
                if cached {
                    &&& step matches DiscoveryStep::Cached(res) && providers_view(res.providers@)
                        == old(self).cache()[id].0 && res.success
                    &&& final(self).active() == old(self).active()
                } else if old(self).active().contains_key(id) {
                    &&& step is JoinExisting
                    &&& final(self).active() == old(self).active()
                } else if old(self).active().len() >= old(self).spec_config().max_concurrent_queries {
                    &&& step matches DiscoveryStep::Rejected(ProviderError::NetworkError(d)) && d@
                        == "Too many concurrent queries"@
                    &&& final(self).active() == old(self).active()
                } else {
                    &&& step is StartQuery
                    &&& final(self).active() == old(self).active().insert(id, query)
                }
            }),
    {
        let ghost id = query.manifest_id@;
        let cached = self.get_cached_providers(query.manifest_id.as_str(), now);
        match cached {
            Some(res) => {
                if res.providers.len() > 0 {
                    return DiscoveryStep::Cached(res);
                }
            },
            None => {},
        }
        if self.find_query(query.manifest_id.as_str()).is_some() {
            return DiscoveryStep::JoinExisting;
        }
        proof {
            lemma_to_map_len(self.query_pairs());
        }
        if self.active_queries.len() >= self.config.max_concurrent_queries {
            return DiscoveryStep::Rejected(
                ProviderError::NetworkError(String::from_str("Too many concurrent queries")),
            );
        }
        let ghost old_pairs = self.query_pairs();
        self.active_queries.push(query);
        proof {
            assert(self.query_pairs() =~= old_pairs.push((id, query)));
            lemma_push(old_pairs, id, query);
        }
        DiscoveryStep::StartQuery
    }

    /// Cache providers for a manifest at `now`.
    fn cache_providers(&mut self, manifest_id: &str, providers: &Vec<ProviderInfo>, now: u64)
        requires
            old(self).wf(),
        ensures
            final(self).wf(),
            final(self).active() == old(self).active(),
            final(self).spec_config() == old(self).spec_config(),
            final(self).cache() == old(self).cache().insert(manifest_id@, (providers_view(providers@), now)),
    {
        let entry = (manifest_id.to_owned(), copy_providers(providers), now);
        let ghost v = (providers_view(providers@), now);
        let ghost old_pairs = self.cache_pairs();
        match self.find_cache(manifest_id) {
            Some(i) => {
                self.provider_cache.set(i, entry);
                proof {
                    assert(self.cache_pairs() =~= old_pairs.update(i as int, (old_pairs[i as int].0, v)));
                    lemma_update(old_pairs, i as int, v);
                }
            },
            None => {
                self.provider_cache.push(entry);
                proof {
                    assert(self.cache_pairs() =~= old_pairs.push((manifest_id@, v)));
                    lemma_push(old_pairs, manifest_id@, v);
                }
            },
        }
    }

    /// A lookup is over: forget the query.
    fn cleanup_query(&mut self, manifest_id: &str)
        requires
            old(self).wf(),
        ensures
            final(self).wf(),
            final(self).cache() == old(self).cache(),
            final(self).spec_config() == old(self).spec_config(),
            final(self).active() == old(self).active().remove(manifest_id@),
    {
        let ghost old_pairs = self.query_pairs();
        match self.find_query(manifest_id) {
            Some(i) => {
                self.active_queries.remove(i);
                proof {
                    assert(self.query_pairs() =~= old_pairs.remove(i as int));
                    lemma_remove(old_pairs, i as int);
                }
            },
            None => {
                assert(self.active() =~= old(self).active().remove(manifest_id@));
            },
        }
    }

    /// The DHT found `providers` for a manifest at `now` after
    /// `duration_ms`: nothing happens for an unknown lookup; otherwise the
    /// providers (as fresh records) are selected as the query asks, cached
    /// when there are any, the lookup is over, and the result for its
    /// waiters is returned.
    pub fn handle_providers_found(
        &mut self,
        manifest_id: &str,
        providers: Vec<Vec<u8>>,
        duration_ms: u64,
        now: u64,
    ) -> (r: Option<DiscoveryResult>)
        requires
            old(self).wf(),
        ensures
            final(self).wf(),
            final(self).spec_config() == old(self).spec_config(),
            !old(self).active().contains_key(manifest_id@) ==> r is None && final(self).active()
                == old(self).active() && final(self).cache() == old(self).cache(),
            old(self).active().contains_key(manifest_id@) ==> {
                let q = old(self).active()[manifest_id@];
                let chosen = selected_providers(
                    found_records(
                        providers@.map_values(|p: Vec<u8>| p@),
                        manifest_id@,
                        now / 1000,
                    ),
                    q.include_expired,
                    q.max_providers as nat,
                    now / 1000,
                );
                &&& r matches Some(res) && providers_view(res.providers@) == chosen && res.success
                    && res.error is None && res.duration_ms == duration_ms && !res.timed_out
                    && res.manifest_id@ == manifest_id@
                &&& final(self).active() == old(self).active().remove(manifest_id@)
                &&& final(self).cache() == if chosen.len() > 0 {
                    old(self).cache().insert(manifest_id@, (chosen, now))
                } else {
                    old(self).cache()
                }
            },
    {
        let i = match self.find_query(manifest_id) {
            Some(i) => i,
            None => return None,
        };
        proof {
            lemma_to_map_value(self.query_pairs(), i as int);
        }
        let now_secs = now / 1000;
        let mut infos: Vec<ProviderInfo> = Vec::new();
        let mut k: usize = 0;
        let ghost peers = providers@.map_values(|p: Vec<u8>| p@);
        while k < providers.len()
            invariant
                k <= providers@.len(),
                peers == providers@.map_values(|p: Vec<u8>| p@),
                providers_view(infos@) == found_records(peers, manifest_id@, now_secs).take(k as int),
            decreases providers@.len() - k,
        {
            let info = ProviderInfo {
                peer_id: providers[k].clone(),
                manifest_id: manifest_id.to_owned(),
                announced_at: now_secs,
                last_seen: now_secs,
                ttl_seconds: FOUND_PROVIDER_TTL_SECONDS,
                metadata: Vec::new(),
            };
            proof {
                assert(info.metadata@ =~= Seq::<(String, String)>::empty());
                assert(crate::provider::metadata_pairs(info.metadata@) =~= Seq::<(Seq<char>, Seq<char>)>::empty());
                assert(info@ == new_provider(peers[k as int], manifest_id@, now_secs, FOUND_PROVIDER_TTL_SECONDS));
            }
            let ghost before = providers_view(infos@);
            infos.push(info);
            proof {
                assert(providers_view(infos@) =~= before.push(found_records(peers, manifest_id@, now_secs)[k as int]));
                assert(found_records(peers, manifest_id@, now_secs).take(k + 1) =~= found_records(
                    peers,
                    manifest_id@,
                    now_secs,
                ).take(k as int).push(found_records(peers, manifest_id@, now_secs)[k as int]));
            }
            k = k + 1;
        }
        proof {
            assert(found_records(peers, manifest_id@, now_secs).take(k as int) =~= found_records(
                peers,
                manifest_id@,
                now_secs,
            ));
        }
        let filtered = filter_providers(&self.active_queries[i], infos, now_secs);
        if filtered.len() > 0 {
            self.cache_providers(manifest_id, &filtered, now);
        }
        self.cleanup_query(manifest_id);
        Some(
            DiscoveryResult {
                manifest_id: manifest_id.to_owned(),
                providers: filtered,
                success: true,
                error: None,
                duration_ms,
                timed_out: false,
            },
        )
    }

    /// A lookup failed with `error`: the lookup is over, and the failed
    /// result for its waiters is returned; `duration_ms` is how long the
    /// query ran (zero when it is unknown).
    pub fn handle_discovery_error(&mut self, manifest_id: &str, error: String, now: u64) -> (r:
        DiscoveryResult)
        requires
            old(self).wf(),
        ensures
            final(self).wf(),
            final(self).spec_config() == old(self).spec_config(),
            final(self).cache() == old(self).cache(),
            final(self).active() == old(self).active().remove(manifest_id@),
            r.manifest_id@ == manifest_id@,
            r.providers@.len() == 0,
            !r.success,
            r.error matches Some(e) && e@ == error@,
            !r.timed_out,
            r.duration_ms == if old(self).active().contains_key(manifest_id@) {
                elapsed(now, old(self).active()[manifest_id@].started_at)
            } else {
                0
            },
    {
        let duration_ms = match self.find_query(manifest_id) {
            Some(i) => {
                proof {
                    lemma_to_map_value(self.query_pairs(), i as int);
                }
                let started = self.active_queries[i].started_at;
                if now >= started {
                    now - started
                } else {
                    0
                }
            },
            None => 0,
        };
        self.cleanup_query(manifest_id);
        DiscoveryResult {
            manifest_id: manifest_id.to_owned(),
            providers: Vec::new(),
            success: false,
            error: Some(error),
            duration_ms,
            timed_out: false,
        }
    }

    /// Drop the cache entries that are no longer fresh at `now`.
    pub fn cleanup_expired_cache(&mut self, now: u64)
        requires
            old(self).wf(),
        ensures
            final(self).wf(),
            final(self).active() == old(self).active(),
            final(self).spec_config() == old(self).spec_config(),
            final(self).cache() == restrict(
                old(self).cache(),
                |e: (Seq<char>, (Seq<ProviderView>, u64))| cache_fresh(
                    e.1.1,
                    now,
                    old(self).spec_config().cache_ttl_seconds,
                ),
            ),
    {
        let ttl = self.config.cache_ttl_seconds;
        let ghost keep = |e: (Seq<char>, (Seq<ProviderView>, u64))| cache_fresh(e.1.1, now, ttl);
        let ghost old_pairs = self.cache_pairs();
        let mut kept: Vec<(String, Vec<ProviderInfo>, u64)> = Vec::new();
        let mut i: usize = 0;
        while i < self.provider_cache.len()
            invariant
                i <= self.provider_cache@.len(),
                old_pairs == self.cache_pairs(),
                keep == (|e: (Seq<char>, (Seq<ProviderView>, u64))| cache_fresh(e.1.1, now, ttl)),
                kept@.map_values(|e: (String, Vec<ProviderInfo>, u64)| cache_entry_view(e))
                    == old_pairs.take(i as int).filter(keep),
            decreases self.provider_cache@.len() - i,
        {
            proof {
                assert(old_pairs.take(i + 1) =~= old_pairs.take(i as int).push(old_pairs[i as int]));
                old_pairs.take(i as int).lemma_filter_push(old_pairs[i as int], keep);
            }
            let cached_at = self.provider_cache[i].2;
            let age = if now >= cached_at {
                now - cached_at
            } else {
                0
            };
            if age / 1000 < ttl {
                let ghost before = kept@;
                let e = &self.provider_cache[i];
                kept.push((e.0.clone(), copy_providers(&e.1), e.2));
                proof {
                    assert(kept@.map_values(|e: (String, Vec<ProviderInfo>, u64)| cache_entry_view(e))
                        =~= before.map_values(|e: (String, Vec<ProviderInfo>, u64)| cache_entry_view(e)).push(
                        old_pairs[i as int],
                    ));
                }
            }
            i = i + 1;
        }
        proof {
            assert(old_pairs.take(i as int) =~= old_pairs);
            lemma_filter(old_pairs, keep);
        }
        self.provider_cache = kept;
        proof {
            assert(self.cache_pairs() =~= old_pairs.filter(keep));
        }
    }

    /// Statistics about the discovery manager, with the number of waiting
    /// channels the caller tracks.
    pub fn get_stats(&self, pending_channels: usize) -> (s: DiscoveryStats)
        requires
            self.wf(),
        ensures
            s.active_queries == self.active().len(),
            s.cached_manifests == self.cache().len(),
            s.pending_channels == pending_channels,
    {
        proof {
            lemma_to_map_len(self.query_pairs());
            lemma_to_map_len(self.cache_pairs());
        }
        DiscoveryStats {
            active_queries: self.active_queries.len(),
            cached_manifests: self.provider_cache.len(),
            pending_channels,
        }
    }
}


/// Providers a lookup found are answered from the cache: for every moment
/// less than the cache TTL after they were found, the cache holds them as a
/// fresh, non-empty entry, which is what a new lookup answers with.
pub proof fn lemma_found_providers_answer_later_lookups(
    before: Map<Seq<char>, (Seq<ProviderView>, u64)>,
    manifest_id: Seq<char>,
    chosen: Seq<ProviderView>,
    found_at: u64,
    later: u64,
    ttl_seconds: u64,
)
    requires
        chosen.len() > 0,
        found_at <= later,
        later - found_at < ttl_seconds * 1000,
    ensures
        ({
            let after = before.insert(manifest_id, (chosen, found_at));
            &&& after.contains_key(manifest_id)
            &&& after[manifest_id].0 == chosen
            &&& after[manifest_id].0.len() > 0
            &&& cache_fresh(after[manifest_id].1, later, ttl_seconds)
        }),
{
    let d = later - found_at;
    assert(d / 1000 < ttl_seconds) by (nonlinear_arith)
        requires
            0 <= d < ttl_seconds * 1000,
    ;
}

} // verus!
