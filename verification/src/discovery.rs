//! Provider discovery: the records kept about manifest providers, the
//! queries that look them up, and the selection of the providers a query
//! returns.
use vstd::prelude::*;

use crate::assoc::to_map;
use crate::bytes::{bytes_lt, lemma_lex_order, lex_lt};
use crate::provider::{
    expired_at, metadata_map, metadata_pairs, provider_dht_key, provider_key, Metadata,
};
use crate::text::str_eq;
use crate::replay::elapsed;
use crate::text::bytes_eq;

verus! {

/// Errors that can occur during provider operations.
#[derive(Debug, Clone)]
pub enum ProviderError {
    DhtError(String),
    NetworkError(String),
    ProviderNotFound(String),
    Timeout,
}

impl ProviderError {
    /// The error text.
    pub fn message(&self) -> (s: String)
        ensures
            s@ == match self {
                ProviderError::DhtError(d) => "DHT error: "@ + d@,
                ProviderError::NetworkError(d) => "Network error: "@ + d@,
                ProviderError::ProviderNotFound(d) => "Provider not found: "@ + d@,
                ProviderError::Timeout => "Timeout waiting for providers"@,
            },
    {
        match self {
            ProviderError::DhtError(d) => String::from_str("DHT error: ").concat(d.as_str()),
            ProviderError::NetworkError(d) => String::from_str("Network error: ").concat(d.as_str()),
            ProviderError::ProviderNotFound(d) => String::from_str("Provider not found: ").concat(
                d.as_str(),
            ),
            ProviderError::Timeout => String::from_str("Timeout waiting for providers"),
        }
    }
}

/// Information about a manifest provider. Times are seconds since the
/// Unix epoch.
#[derive(Debug, Clone)]
pub struct ProviderInfo {
    /// Bytes of the provider's peer id.
    pub peer_id: Vec<u8>,
    /// The manifest ID being provided.
    pub manifest_id: String,
    /// When this provider was first announced.
    pub announced_at: u64,
    /// When this provider was last seen.
    pub last_seen: u64,
    /// TTL for this provider announcement (in seconds).
    pub ttl_seconds: u64,
    /// Additional metadata about the provider.
    pub metadata: Metadata,
}

/// Mathematical value of a [`ProviderInfo`].
pub struct ProviderView {
    pub peer_id: Seq<u8>,
    pub manifest_id: Seq<char>,
    pub announced_at: u64,
    pub last_seen: u64,
    pub ttl_seconds: u64,
    pub metadata: Seq<(Seq<char>, Seq<char>)>,
}

impl View for ProviderInfo {
    type V = ProviderView;

    open spec fn view(&self) -> ProviderView {
        ProviderView {
            peer_id: self.peer_id@,
            manifest_id: self.manifest_id@,
            announced_at: self.announced_at,
            last_seen: self.last_seen,
            ttl_seconds: self.ttl_seconds,
            metadata: metadata_pairs(self.metadata@),
        }
    }
}

pub open spec fn providers_view(s: Seq<ProviderInfo>) -> Seq<ProviderView> {
    s.map_values(|p: ProviderInfo| p@)
}

impl ProviderInfo {
    /// Check if this provider announcement has expired at time `now`.
    pub fn is_expired_at(&self, now: u64) -> (r: bool)
        ensures
            r == expired_at(self.announced_at, self.ttl_seconds, now),
    {
        if now >= self.announced_at {
            now - self.announced_at > self.ttl_seconds
        } else {
            true
        }
    }

    /// Check if this provider announcement has expired by the current time.
    pub fn is_expired(&self) -> (r: bool)
        ensures
            exists|now: u64| r == #[trigger] expired_at(self.announced_at, self.ttl_seconds, now),
    {
        let now = crate::clock::current_timestamp_secs();
        let r = self.is_expired_at(now);
        assert(r == expired_at(self.announced_at, self.ttl_seconds, now));
        r
    }

    /// Set the last-seen time to `now`.
    pub fn update_last_seen_at(&mut self, now: u64)
        ensures
            final(self)@ == (ProviderView { last_seen: now, ..old(self)@ }),
    {
        self.last_seen = now;
    }

    pub(crate) fn duplicate(&self) -> (r: ProviderInfo)
        ensures
            r@ == self@,
    {
        let mut metadata: Metadata = Vec::new();
        let mut i: usize = 0;
        while i < self.metadata.len()
            invariant
                i <= self.metadata@.len(),
                metadata_pairs(metadata@) == metadata_pairs(self.metadata@).take(i as int),
            decreases self.metadata@.len() - i,
        {
            let ghost before = metadata_pairs(metadata@);
            metadata.push((self.metadata[i].0.clone(), self.metadata[i].1.clone()));
            proof {
                assert(metadata_pairs(metadata@) =~= before.push(metadata_pairs(self.metadata@)[i as int]));
                assert(metadata_pairs(self.metadata@).take(i + 1) =~= metadata_pairs(self.metadata@).take(i as int).push(metadata_pairs(self.metadata@)[i as int]));
            }
            i = i + 1;
        }
        proof {
            assert(metadata_pairs(self.metadata@).take(i as int) =~= metadata_pairs(self.metadata@));
        }
        ProviderInfo {
            peer_id: self.peer_id.clone(),
            manifest_id: self.manifest_id.clone(),
            announced_at: self.announced_at,
            last_seen: self.last_seen,
            ttl_seconds: self.ttl_seconds,
            metadata,
        }
    }
}

/// Configuration for the provider manager.
#[derive(Debug, Clone, Copy)]
pub struct ProviderConfig {
    /// Default TTL for provider announcements (in seconds).
    pub default_ttl_seconds: u64,
    /// How often to re-announce local providers (in seconds).
    pub reannounce_interval_seconds: u64,
    /// How often to clean up expired providers (in seconds).
    pub cleanup_interval_seconds: u64,
    /// Maximum number of providers to track per manifest.
    pub max_providers_per_manifest: usize,
    /// Timeout for provider discovery queries (in seconds).
    pub discovery_timeout_seconds: u64,
}

impl Default for ProviderConfig {
    fn default() -> (c: Self)
        ensures
            c.default_ttl_seconds == 3600,
            c.reannounce_interval_seconds == 1800,
            c.cleanup_interval_seconds == 300,
            c.max_providers_per_manifest == 50,
            c.discovery_timeout_seconds == 30,
    {
        ProviderConfig {
            default_ttl_seconds: 3600,
            reannounce_interval_seconds: 1800,
            cleanup_interval_seconds: 300,
            max_providers_per_manifest: 50,
            discovery_timeout_seconds: 30,
        }
    }
}

/// Statistics about the provider manager.
#[derive(Debug, Clone, Copy)]
pub struct ProviderStats {
    /// Number of manifests this node is providing.
    pub local_providers: usize,
    /// Number of remote manifests we know providers for.
    pub remote_manifests: usize,
    /// Total number of remote providers tracked.
    pub total_remote_providers: usize,
    /// Number of pending discovery queries.
    pub pending_queries: usize,
}

/// Default time a discovery query waits for results (milliseconds).
pub const DEFAULT_QUERY_TIMEOUT_MS: u64 = 30000;

/// A discovery query for manifest providers. Times are milliseconds since
/// the Unix epoch.
#[derive(Debug, Clone)]
pub struct DiscoveryQuery {
    /// The manifest ID being queried.
    pub manifest_id: String,
    /// When the query was started.
    pub started_at: u64,
    /// Maximum time to wait for results (milliseconds).
    pub timeout: u64,
    /// Minimum number of providers to find.
    pub min_providers: usize,
    /// Maximum number of providers to return.
    pub max_providers: usize,
    /// Whether to include expired providers.
    pub include_expired: bool,
}

impl DiscoveryQuery {
    /// Create a discovery query with default settings, started at `now`.
    pub fn new_at(manifest_id: String, now: u64) -> (q: Self)
        ensures
            q.manifest_id@ == manifest_id@,
            q.started_at == now,
            q.timeout == DEFAULT_QUERY_TIMEOUT_MS,
            q.min_providers == 1,
            q.max_providers == 10,
            !q.include_expired,
    {
        DiscoveryQuery {
            manifest_id,
            started_at: now,
            timeout: DEFAULT_QUERY_TIMEOUT_MS,
            min_providers: 1,
            max_providers: 10,
            include_expired: false,
        }
    }

    /// Create a new discovery query with default settings, started now.
    pub fn new(manifest_id: String) -> (q: Self)
        ensures
            q.manifest_id@ == manifest_id@,
            q.timeout == DEFAULT_QUERY_TIMEOUT_MS,
            q.min_providers == 1,
            q.max_providers == 10,
            !q.include_expired,
    {
        let now = crate::clock::current_timestamp_millis();
        Self::new_at(manifest_id, now)
    }

    /// Set the timeout for this query (milliseconds).
    pub fn with_timeout(self, timeout: u64) -> (q: Self)
        ensures
            q == (DiscoveryQuery { timeout, ..self }),
    {
        let mut q = self;
        q.timeout = timeout;
        q
    }

    /// Set the minimum number of providers to find.
    pub fn with_min_providers(self, min_providers: usize) -> (q: Self)
        ensures
            q == (DiscoveryQuery { min_providers, ..self }),
    {
        let mut q = self;
        q.min_providers = min_providers;
        q
    }

    /// Set the maximum number of providers to return.
    pub fn with_max_providers(self, max_providers: usize) -> (q: Self)
        ensures
            q == (DiscoveryQuery { max_providers, ..self }),
    {
        let mut q = self;
        q.max_providers = max_providers;
        q
    }

    /// Include expired providers in results.
    pub fn include_expired(self, include_expired: bool) -> (q: Self)
        ensures
            q == (DiscoveryQuery { include_expired, ..self }),
    {
        let mut q = self;
        q.include_expired = include_expired;
        q
    }

    /// Check if this query has timed out at time `now` (milliseconds).
    pub fn is_timed_out_at(&self, now: u64) -> (r: bool)
        ensures
            r == (elapsed(now, self.started_at) > self.timeout),
    {
        let e = if now >= self.started_at {
            now - self.started_at
        } else {
            0
        };
        e > self.timeout
    }

    /// Check if this query has timed out by the current time.
    pub fn is_timed_out(&self) -> (r: bool)
        ensures
            exists|now: u64| r == (#[trigger] elapsed(now, self.started_at) > self.timeout),
    {
        let now = crate::clock::current_timestamp_millis();
        let r = self.is_timed_out_at(now);
        assert(r == (elapsed(now, self.started_at) > self.timeout));
        r
    }

    /// Get the DHT key for this query.
    pub fn get_dht_key(&self) -> (s: String)
        ensures
            s@ == provider_key(self.manifest_id@),
    {
        provider_dht_key(self.manifest_id.as_str())
    }
}

/// Configuration for the discovery manager.
#[derive(Debug, Clone, Copy)]
pub struct DiscoveryConfig {
    /// How long to cache discovery results (in seconds).
    pub cache_ttl_seconds: u64,
    /// Maximum number of concurrent discovery queries.
    pub max_concurrent_queries: usize,
    /// Default timeout for discovery queries.
    pub default_timeout_seconds: u64,
    /// How often to clean up expired cache entries.
    pub cache_cleanup_interval_seconds: u64,
}

impl Default for DiscoveryConfig {
    fn default() -> (c: Self)
        ensures
            c.cache_ttl_seconds == 300,
            c.max_concurrent_queries == 20,
            c.default_timeout_seconds == 30,
            c.cache_cleanup_interval_seconds == 60,
    {
        DiscoveryConfig {
            cache_ttl_seconds: 300,
            max_concurrent_queries: 20,
            default_timeout_seconds: 30,
            cache_cleanup_interval_seconds: 60,
        }
    }
}

/// Statistics about the discovery manager.
#[derive(Debug, Clone, Copy)]
pub struct DiscoveryStats {
    /// Number of active discovery queries.
    pub active_queries: usize,
    /// Number of cached manifest results.
    pub cached_manifests: usize,
    /// Number of channels waiting for results.
    pub pending_channels: usize,
}

/// Utility functions for provider discovery.
pub struct DiscoveryUtils;

impl DiscoveryUtils {
    /// Create a basic discovery query.
    pub fn create_query(manifest_id: &str) -> (q: DiscoveryQuery)
        ensures
            q.manifest_id@ == manifest_id@,
            q.timeout == DEFAULT_QUERY_TIMEOUT_MS,
            q.min_providers == 1,
            q.max_providers == 10,
            !q.include_expired,
    {
        DiscoveryQuery::new(manifest_id.to_owned())
    }

    /// Create a discovery query with custom settings. The timeout is kept
    /// in milliseconds; one too long for 64 bits saturates, which, like the
    /// longest duration, never elapses.
    pub fn create_custom_query(
        manifest_id: &str,
        timeout_seconds: u64,
        min_providers: usize,
        max_providers: usize,
    ) -> (q: DiscoveryQuery)
        ensures
            q.manifest_id@ == manifest_id@,
            q.timeout == if timeout_seconds <= u64::MAX / 1000 {
                (timeout_seconds * 1000) as u64
            } else {
                u64::MAX
            },
            q.min_providers == min_providers,
            q.max_providers == max_providers,
            !q.include_expired,
    {
        let timeout_ms = if timeout_seconds <= u64::MAX / 1000 {
            timeout_seconds * 1000
        } else {
            u64::MAX
        };
        DiscoveryQuery::new(manifest_id.to_owned()).with_timeout(timeout_ms).with_min_providers(
            min_providers,
        ).with_max_providers(max_providers)
    }
}

/// Providers whose announcement has not expired at `now`.
pub open spec fn not_expired(now: u64) -> spec_fn(ProviderView) -> bool {
    |p: ProviderView| !expired_at(p.announced_at, p.ttl_seconds, now)
}

/// Whether some record of `s` belongs to peer `p`.
pub open spec fn has_peer(s: Seq<ProviderView>, p: Seq<u8>) -> bool {
    exists|j: int| 0 <= j < s.len() && #[trigger] s[j].peer_id == p
}

/// The first record of each peer, in order.
pub open spec fn first_per_peer(s: Seq<ProviderView>) -> Seq<ProviderView>
    decreases s.len(),
{
    if s.len() == 0 {
        s
    } else {
        let rest = first_per_peer(s.drop_last());
        if has_peer(s.drop_last(), s.last().peer_id) {
            rest
        } else {
            rest.push(s.last())
        }
    }
}

proof fn lemma_has_peer_push(s: Seq<ProviderView>, x: ProviderView, p: Seq<u8>)
    ensures
        has_peer(s.push(x), p) == (has_peer(s, p) || x.peer_id == p),
{
    if has_peer(s, p) {
        let j = choose|j: int| 0 <= j < s.len() && #[trigger] s[j].peer_id == p;
        assert(s.push(x)[j].peer_id == p);
    }
    if x.peer_id == p {
        assert(s.push(x)[s.len() as int].peer_id == p);
    }
    if has_peer(s.push(x), p) {
        let j = choose|j: int| 0 <= j < s.len() + 1 && #[trigger] s.push(x)[j].peer_id == p;
        if j < s.len() {
            assert(s[j].peer_id == p);
        }
    }
}

/// Keeping the first record of each peer loses no peer.
pub proof fn lemma_first_per_peer_peers(s: Seq<ProviderView>, p: Seq<u8>)
    ensures
        has_peer(first_per_peer(s), p) == has_peer(s, p),
    decreases s.len(),
{
    if s.len() > 0 {
        let d = s.drop_last();
        lemma_first_per_peer_peers(d, p);
        assert(s =~= d.push(s.last()));
        lemma_has_peer_push(d, s.last(), p);
        if !has_peer(d, s.last().peer_id) {
            lemma_has_peer_push(first_per_peer(d), s.last(), p);
        }
    }
}

/// Inserts `x` behind every record seen at the same time or later (one
/// step of a stable sort, most recently seen first).
pub open spec fn insert_by_last_seen(s: Seq<ProviderView>, x: ProviderView) -> Seq<ProviderView>
    decreases s.len(),
{
    if s.len() == 0 {
        seq![x]
    } else if s.last().last_seen >= x.last_seen {
        s.push(x)
    } else {
        insert_by_last_seen(s.drop_last(), x).push(s.last())
    }
}

/// Records ordered by last-seen time, most recent first, equal times
/// keeping their order (the stable sort).
pub open spec fn sort_by_last_seen_desc(s: Seq<ProviderView>) -> Seq<ProviderView>
    decreases s.len(),
{
    if s.len() == 0 {
        s
    } else {
        insert_by_last_seen(sort_by_last_seen_desc(s.drop_last()), s.last())
    }
}

/// The providers a query returns: unexpired ones unless expired ones are
/// asked for, one per peer (the first), most recently seen first, at most
/// `max_providers` of them.
pub open spec fn selected_providers(
    providers: Seq<ProviderView>,
    include_expired: bool,
    max_providers: nat,
    now: u64,
) -> Seq<ProviderView> {
    let live = if include_expired {
        providers
    } else {
        providers.filter(not_expired(now))
    };
    let sorted = sort_by_last_seen_desc(first_per_peer(live));
    if sorted.len() > max_providers {
        sorted.take(max_providers as int)
    } else {
        sorted
    }
}

proof fn lemma_insert_by_last_seen_at(s: Seq<ProviderView>, x: ProviderView, pos: int)
    requires
        0 <= pos <= s.len(),
        forall|j: int| pos <= j < s.len() ==> #[trigger] s[j].last_seen < x.last_seen,
        pos == 0 || s[pos - 1].last_seen >= x.last_seen,
    ensures
        insert_by_last_seen(s, x) == s.insert(pos, x),
    decreases s.len(),
{
    if s.len() == 0 {
        assert(s.insert(pos, x) =~= seq![x]);
    } else if s.last().last_seen >= x.last_seen {
        assert(s.insert(pos, x) =~= s.push(x));
    } else {
        lemma_insert_by_last_seen_at(s.drop_last(), x, pos);
        assert(s.insert(pos, x) =~= s.drop_last().insert(pos, x).push(s.last()));
    }
}

pub proof fn lemma_insert_by_last_seen_len(s: Seq<ProviderView>, x: ProviderView)
    ensures
        insert_by_last_seen(s, x).len() == s.len() + 1,
    decreases s.len(),
{
    if s.len() > 0 && s.last().last_seen < x.last_seen {
        lemma_insert_by_last_seen_len(s.drop_last(), x);
    }
}

pub proof fn lemma_sort_by_last_seen_len(s: Seq<ProviderView>)
    ensures
        sort_by_last_seen_desc(s).len() == s.len(),
    decreases s.len(),
{
    if s.len() > 0 {
        lemma_sort_by_last_seen_len(s.drop_last());
        lemma_insert_by_last_seen_len(sort_by_last_seen_desc(s.drop_last()), s.last());
    }
}

/// No two records are of the same peer.
pub open spec fn peers_distinct(s: Seq<ProviderView>) -> bool {
    forall|i: int, j: int| 0 <= i < j < s.len() ==> #[trigger] s[i].peer_id != #[trigger] s[j].peer_id
}

proof fn lemma_push_distinct(s: Seq<ProviderView>, x: ProviderView)
    requires
        peers_distinct(s),
        !has_peer(s, x.peer_id),
    ensures
        peers_distinct(s.push(x)),
{
    let t = s.push(x);
    assert forall|i: int, j: int| 0 <= i < j < t.len() implies #[trigger] t[i].peer_id
        != #[trigger] t[j].peer_id by {
        assert(t[i] == s[i]);
        if j < s.len() {
            assert(t[j] == s[j]);
        }
    }
}

proof fn lemma_first_per_peer_distinct(s: Seq<ProviderView>)
    ensures
        peers_distinct(first_per_peer(s)),
    decreases s.len(),
{
    if s.len() > 0 {
        let d = s.drop_last();
        lemma_first_per_peer_distinct(d);
        if !has_peer(d, s.last().peer_id) {
            lemma_first_per_peer_peers(d, s.last().peer_id);
            lemma_push_distinct(first_per_peer(d), s.last());
        }
    }
}

proof fn lemma_insert_by_last_seen_peers(s: Seq<ProviderView>, x: ProviderView)
    ensures
        forall|p: Seq<u8>| #[trigger] has_peer(insert_by_last_seen(s, x), p) == (has_peer(s, p) || x.peer_id == p),
        peers_distinct(s) && !has_peer(s, x.peer_id) ==> peers_distinct(insert_by_last_seen(s, x)),
    decreases s.len(),
{
    if s.len() == 0 {
        assert forall|p: Seq<u8>| #[trigger] has_peer(insert_by_last_seen(s, x), p) == (has_peer(s, p) || x.peer_id == p) by {
            if x.peer_id == p {
                assert(seq![x][0].peer_id == p);
            }
        }
        assert(peers_distinct(seq![x]));
    } else if s.last().last_seen >= x.last_seen {
        assert forall|p: Seq<u8>| #[trigger] has_peer(insert_by_last_seen(s, x), p) == (has_peer(s, p) || x.peer_id == p) by {
            lemma_has_peer_push(s, x, p);
        }
        if peers_distinct(s) && !has_peer(s, x.peer_id) {
            lemma_push_distinct(s, x);
        }
    } else {
        let d = s.drop_last();
        let l = s.last();
        lemma_insert_by_last_seen_peers(d, x);
        let r = insert_by_last_seen(d, x);
        assert(s =~= d.push(l));
        assert forall|p: Seq<u8>| #[trigger] has_peer(insert_by_last_seen(s, x), p) == (has_peer(s, p) || x.peer_id == p) by {
            lemma_has_peer_push(r, l, p);
            lemma_has_peer_push(d, l, p);
        }
        if peers_distinct(s) && !has_peer(s, x.peer_id) {
            assert(peers_distinct(d)) by {
                assert forall|i: int, j: int| 0 <= i < j < d.len() implies #[trigger] d[i].peer_id
                    != #[trigger] d[j].peer_id by {
                    assert(d[i] == s[i] && d[j] == s[j]);
                }
            }
            lemma_has_peer_push(d, l, x.peer_id);
            assert(!has_peer(d, l.peer_id)) by {
                if has_peer(d, l.peer_id) {
                    let k = choose|k: int| 0 <= k < d.len() && #[trigger] d[k].peer_id == l.peer_id;
                    assert(s[k].peer_id == s[s.len() - 1].peer_id);
                }
            }
            assert(has_peer(r, l.peer_id) == (has_peer(d, l.peer_id) || x.peer_id == l.peer_id));
            assert(x.peer_id != l.peer_id) by {
                assert(s[s.len() - 1] == l);
            }
            lemma_push_distinct(r, l);
        }
    }
}

proof fn lemma_sort_by_last_seen_peers(s: Seq<ProviderView>)
    ensures
        forall|p: Seq<u8>| #[trigger] has_peer(sort_by_last_seen_desc(s), p) == has_peer(s, p),
        peers_distinct(s) ==> peers_distinct(sort_by_last_seen_desc(s)),
    decreases s.len(),
{
    if s.len() > 0 {
        let d = s.drop_last();
        let l = s.last();
        assert(s =~= d.push(l));
        lemma_sort_by_last_seen_peers(d);
        lemma_insert_by_last_seen_peers(sort_by_last_seen_desc(d), l);
        assert forall|p: Seq<u8>| #[trigger] has_peer(sort_by_last_seen_desc(s), p) == has_peer(s, p) by {
            lemma_has_peer_push(d, l, p);
        }
        if peers_distinct(s) {
            assert(peers_distinct(d)) by {
                assert forall|i: int, j: int| 0 <= i < j < d.len() implies #[trigger] d[i].peer_id
                    != #[trigger] d[j].peer_id by {
                    assert(d[i] == s[i] && d[j] == s[j]);
                }
            }
            assert(!has_peer(d, l.peer_id)) by {
                if has_peer(d, l.peer_id) {
                    let k = choose|k: int| 0 <= k < d.len() && #[trigger] d[k].peer_id == l.peer_id;
                    assert(s[k].peer_id == s[s.len() - 1].peer_id);
                }
            }
        }
    }
}

/// A discovery answer never names a peer twice and never holds more than
/// the query's maximum number of providers.
pub proof fn lemma_selected_providers_distinct_and_bounded(
    providers: Seq<ProviderView>,
    include_expired: bool,
    max_providers: nat,
    now: u64,
)
    ensures
        peers_distinct(selected_providers(providers, include_expired, max_providers, now)),
        selected_providers(providers, include_expired, max_providers, now).len() <= max_providers,
{
    let live = if include_expired {
        providers
    } else {
        providers.filter(not_expired(now))
    };
    lemma_first_per_peer_distinct(live);
    lemma_sort_by_last_seen_peers(first_per_peer(live));
    let sorted = sort_by_last_seen_desc(first_per_peer(live));
    if sorted.len() > max_providers {
        let t = sorted.take(max_providers as int);
        assert forall|i: int, j: int| 0 <= i < j < t.len() implies #[trigger] t[i].peer_id
            != #[trigger] t[j].peer_id by {
            assert(t[i] == sorted[i] && t[j] == sorted[j]);
        }
    }
}

/// Select the providers a query returns at time `now` (seconds since the
/// Unix epoch).
pub fn filter_providers(query: &DiscoveryQuery, providers: Vec<ProviderInfo>, now: u64) -> (r: Vec<
    ProviderInfo,
>)
    ensures
        providers_view(r@) == selected_providers(
            providers_view(providers@),
            query.include_expired,
            query.max_providers as nat,
            now,
        ),
{
    let ghost all = providers_view(providers@);
    // Expired records.
    let mut live: Vec<ProviderInfo> = Vec::new();
    let mut i: usize = 0;
    while i < providers.len()
        invariant
            i <= providers@.len(),
            all == providers_view(providers@),
            providers_view(live@) == (if query.include_expired {
                all.take(i as int)
            } else {
                all.take(i as int).filter(not_expired(now))
            }),
        decreases providers@.len() - i,
    {
        proof {
            assert(all.take(i + 1) =~= all.take(i as int).push(all[i as int]));
            all.take(i as int).lemma_filter_push(all[i as int], not_expired(now));
        }
        if query.include_expired || !providers[i].is_expired_at(now) {
            let ghost before = providers_view(live@);
            live.push(providers[i].duplicate());
            proof {
                assert(providers_view(live@) =~= before.push(all[i as int]));
            }
        }
        i = i + 1;
    }
    proof {
        assert(all.take(i as int) =~= all);
    }
    let ghost lv = providers_view(live@);
    // One record per peer.
    let mut unique: Vec<ProviderInfo> = Vec::new();
    let mut k: usize = 0;
    while k < live.len()
        invariant
            k <= live@.len(),
            lv == providers_view(live@),
            providers_view(unique@) == first_per_peer(lv.take(k as int)),
        decreases live@.len() - k,
    {
        let ghost uv = providers_view(unique@);
        let mut seen = false;
        let mut a: usize = 0;
        while a < unique.len()
            invariant
                k < live@.len(),
                lv == providers_view(live@),
                uv == providers_view(unique@),
                a <= unique@.len(),
                seen == has_peer(uv.take(a as int), lv[k as int].peer_id),
            decreases unique@.len() - a,
        {
            proof {
                assert(uv.take(a + 1) =~= uv.take(a as int).push(uv[a as int]));
                lemma_has_peer_push(uv.take(a as int), uv[a as int], lv[k as int].peer_id);
            }
            if bytes_eq(unique[a].peer_id.as_slice(), live[k].peer_id.as_slice()) {
                seen = true;
            }
            a = a + 1;
        }
        let ghost t = lv.take(k + 1);
        proof {
            assert(uv.take(a as int) =~= uv);
            assert(t.drop_last() =~= lv.take(k as int));
            lemma_first_per_peer_peers(lv.take(k as int), lv[k as int].peer_id);
        }
        if !seen {
            unique.push(live[k].duplicate());
            proof {
                assert(providers_view(unique@) =~= uv.push(lv[k as int]));
            }
        }
        k = k + 1;
    }
    proof {
        assert(lv.take(k as int) =~= lv);
    }
    // Most recently seen first.
    let ghost uv = providers_view(unique@);
    let mut sorted: Vec<ProviderInfo> = Vec::new();
    let mut m: usize = 0;
    while m < unique.len()
        invariant
            m <= unique@.len(),
            uv == providers_view(unique@),
            providers_view(sorted@) == sort_by_last_seen_desc(uv.take(m as int)),
        decreases unique@.len() - m,
    {
        let x = unique[m].duplicate();
        let mut pos: usize = sorted.len();
        while pos > 0 && sorted[pos - 1].last_seen < x.last_seen
            invariant
                pos <= sorted@.len(),
                forall|j: int| pos <= j < sorted@.len() ==> #[trigger] sorted@[j].last_seen < x.last_seen,
            decreases pos,
        {
            pos = pos - 1;
        }
        let ghost before = providers_view(sorted@);
        proof {
            assert forall|j: int| pos <= j < before.len() implies #[trigger] before[j].last_seen
                < x@.last_seen by {
                assert(before[j] == sorted@[j]@);
            }
            if pos > 0 {
                assert(before[pos - 1] == sorted@[pos - 1]@);
            }
            lemma_insert_by_last_seen_at(before, x@, pos as int);
            assert(uv.take(m + 1).drop_last() =~= uv.take(m as int));
            assert(uv.take(m + 1).last() == unique@[m as int]@);
        }
        sorted.insert(pos, x);
        proof {
            assert(providers_view(sorted@) =~= before.insert(pos as int, x@));
        }
        m = m + 1;
    }
    proof {
        assert(uv.take(m as int) =~= uv);
        lemma_sort_by_last_seen_len(uv);
    }
    if sorted.len() > query.max_providers {
        sorted.truncate(query.max_providers);
        proof {
            assert(providers_view(sorted@) =~= sort_by_last_seen_desc(uv).take(
                query.max_providers as int,
            ));
        }
    }
    sorted
}


/// The byte strings of a list of byte vectors.
pub open spec fn bytes_view(s: Seq<Vec<u8>>) -> Seq<Seq<u8>> {
    s.map_values(|v: Vec<u8>| v@)
}

/// Strictly increasing in lexicographic order (so without repetitions).
pub open spec fn strictly_sorted(s: Seq<Seq<u8>>) -> bool {
    forall|i: int, j: int| 0 <= i < j < s.len() ==> #[trigger] lex_lt(s[i], s[j])
}

/// Some provider in `s` has peer id `p`.
pub open spec fn provides_peer(s: Seq<ProviderInfo>, p: Seq<u8>) -> bool {
    exists|i: int| 0 <= i < s.len() && #[trigger] s[i].peer_id@ == p
}

/// Whether the provider's metadata holds the `i`-th (key, value) pair of
/// `criteria`.
pub open spec fn criterion_holds(p: ProviderView, criteria: Seq<(Seq<char>, Seq<char>)>, i: int) -> bool {
    let m = to_map(p.metadata);
    &&& m.contains_key(criteria[i].0)
    &&& m[criteria[i].0] == criteria[i].1
}

/// Whether a provider's metadata holds every (key, value) pair of
/// `criteria`.
pub open spec fn matches_criteria(p: ProviderView, criteria: Seq<(Seq<char>, Seq<char>)>) -> bool {
    forall|i: int| 0 <= i < criteria.len() ==> #[trigger] criterion_holds(p, criteria, i)
}

/// Whether `a` is preferred to `b`: seen more recently, else announced
/// more recently, else the smaller peer id.
pub open spec fn preferred(a: ProviderView, b: ProviderView) -> bool {
    ||| a.last_seen > b.last_seen
    ||| a.last_seen == b.last_seen && a.announced_at > b.announced_at
    ||| a.last_seen == b.last_seen && a.announced_at == b.announced_at && lex_lt(a.peer_id, b.peer_id)
}

/// Inserts `x` behind every record it is not preferred to (one step of a
/// stable sort by preference).
pub open spec fn insert_by_preference(s: Seq<ProviderView>, x: ProviderView) -> Seq<ProviderView>
    decreases s.len(),
{
    if s.len() == 0 {
        seq![x]
    } else if !preferred(x, s.last()) {
        s.push(x)
    } else {
        insert_by_preference(s.drop_last(), x).push(s.last())
    }
}

/// Records in order of preference, equally preferred ones keeping their
/// order (the stable sort).
pub open spec fn sort_by_preference_spec(s: Seq<ProviderView>) -> Seq<ProviderView>
    decreases s.len(),
{
    if s.len() == 0 {
        s
    } else {
        insert_by_preference(sort_by_preference_spec(s.drop_last()), s.last())
    }
}

proof fn lemma_insert_by_preference_at(s: Seq<ProviderView>, x: ProviderView, pos: int)
    requires
        0 <= pos <= s.len(),
        forall|j: int| pos <= j < s.len() ==> #[trigger] preferred(x, s[j]),
        pos == 0 || !preferred(x, s[pos - 1]),
    ensures
        insert_by_preference(s, x) == s.insert(pos, x),
    decreases s.len(),
{
    if s.len() == 0 {
        assert(s.insert(pos, x) =~= seq![x]);
    } else if !preferred(x, s.last()) {
        assert(s.insert(pos, x) =~= s.push(x));
    } else {
        lemma_insert_by_preference_at(s.drop_last(), x, pos);
        assert(s.insert(pos, x) =~= s.drop_last().insert(pos, x).push(s.last()));
    }
}

/// The groups of providers by manifest id, in order of first appearance.
pub open spec fn add_to_groups(g: Seq<(Seq<char>, Seq<ProviderView>)>, x: ProviderView) -> Seq<
    (Seq<char>, Seq<ProviderView>),
> {
    if exists|i: int| 0 <= i < g.len() && #[trigger] g[i].0 == x.manifest_id {
        let i = choose|i: int| 0 <= i < g.len() && #[trigger] g[i].0 == x.manifest_id;
        g.update(i, (g[i].0, g[i].1.push(x)))
    } else {
        g.push((x.manifest_id, seq![x]))
    }
}

/// Providers grouped by manifest id: one group per id, in order of first
/// appearance, each holding that id's providers in order.
pub open spec fn group_spec(s: Seq<ProviderView>) -> Seq<(Seq<char>, Seq<ProviderView>)>
    decreases s.len(),
{
    if s.len() == 0 {
        Seq::empty()
    } else {
        add_to_groups(group_spec(s.drop_last()), s.last())
    }
}

pub open spec fn groups_view(g: Seq<(String, Vec<ProviderInfo>)>) -> Seq<(Seq<char>, Seq<ProviderView>)> {
    g.map_values(|e: (String, Vec<ProviderInfo>)| (e.0@, providers_view(e.1@)))
}

/// Group ids are distinct.
pub open spec fn group_ids_distinct(g: Seq<(Seq<char>, Seq<ProviderView>)>) -> bool {
    forall|i: int, j: int| 0 <= i < j < g.len() ==> #[trigger] g[i].0 != #[trigger] g[j].0
}

pub proof fn lemma_group_ids_distinct(s: Seq<ProviderView>)
    ensures
        group_ids_distinct(group_spec(s)),
    decreases s.len(),
{
    if s.len() > 0 {
        lemma_group_ids_distinct(s.drop_last());
        let g = group_spec(s.drop_last());
        let x = s.last();
        if exists|i: int| 0 <= i < g.len() && #[trigger] g[i].0 == x.manifest_id {
            let i = choose|i: int| 0 <= i < g.len() && #[trigger] g[i].0 == x.manifest_id;
            let g2 = g.update(i, (g[i].0, g[i].1.push(x)));
            assert forall|a: int, b: int| 0 <= a < b < g2.len() implies #[trigger] g2[a].0
                != #[trigger] g2[b].0 by {
                assert(g2[a].0 == g[a].0);
                assert(g2[b].0 == g[b].0);
            }
        } else {
            let g2 = g.push((x.manifest_id, seq![x]));
            assert forall|a: int, b: int| 0 <= a < b < g2.len() implies #[trigger] g2[a].0
                != #[trigger] g2[b].0 by {
                if b == g.len() {
                    assert(g2[a].0 == g[a].0);
                } else {
                    assert(g2[a] == g[a]);
                    assert(g2[b] == g[b]);
                }
            }
        }
    }
}

/// Lookup of `key` in a metadata list: the value of its last pair.
fn metadata_get<'a>(m: &'a Metadata, key: &str) -> (r: Option<&'a String>)
    ensures
        match r {
            Some(v) => metadata_map(m@).contains_key(key@) && metadata_map(m@)[key@] == v@,
            None => !metadata_map(m@).contains_key(key@),
        },
{
    let mut i: usize = m.len();
    while i > 0
        invariant
            i <= m@.len(),
            forall|j: int| i <= j < m@.len() ==> #[trigger] metadata_pairs(m@)[j].0 != key@,
        decreases i,
    {
        if str_eq(m[i - 1].0.as_str(), key) {
            proof {
                crate::assoc::lemma_to_map_last(metadata_pairs(m@), i - 1);
            }
            return Some(&m[i - 1].1);
        }
        i = i - 1;
    }
    proof {
        crate::assoc::lemma_to_map_dom(metadata_pairs(m@), key@);
        if metadata_map(m@).contains_key(key@) {
            let j = choose|j: int|
                0 <= j < metadata_pairs(m@).len() && #[trigger] metadata_pairs(m@)[j].0 == key@;
        }
    }
    None
}

impl DiscoveryUtils {
    /// The distinct peer ids of the providers, in increasing order (the
    /// order of peer ids, which is that of their bytes).
    pub fn extract_peer_ids(providers: &[ProviderInfo]) -> (ids: Vec<Vec<u8>>)
        ensures
            strictly_sorted(bytes_view(ids@)),
            forall|p: Seq<u8>| bytes_view(ids@).contains(p) <==> provides_peer(providers@, p),
    {
        let mut out: Vec<Vec<u8>> = Vec::new();
        let mut i: usize = 0;
        while i < providers.len()
            invariant
                i <= providers@.len(),
                strictly_sorted(bytes_view(out@)),
                forall|p: Seq<u8>|
                    bytes_view(out@).contains(p) <==> provides_peer(providers@.take(i as int), p),
            decreases providers@.len() - i,
        {
            let x = &providers[i].peer_id;
            let ghost ov = bytes_view(out@);
            let mut pos: usize = 0;
            while pos < out.len() && bytes_lt(out[pos].as_slice(), x.as_slice())
                invariant
                    pos <= out@.len(),
                    ov == bytes_view(out@),
                    forall|j: int| 0 <= j < pos ==> #[trigger] lex_lt(ov[j], x@),
                decreases out@.len() - pos,
            {
                pos = pos + 1;
            }
            let dup = pos < out.len() && crate::text::bytes_eq(out[pos].as_slice(), x.as_slice());
            proof {
                assert(providers@.take(i + 1) =~= providers@.take(i as int).push(providers@[i as int]));
                assert forall|p: Seq<u8>| provides_peer(providers@.take(i + 1), p) <==> (
                provides_peer(providers@.take(i as int), p) || p == x@) by {
                    if provides_peer(providers@.take(i + 1), p) {
                        let k = choose|k: int|
                            0 <= k < i + 1 && #[trigger] providers@.take(i + 1)[k].peer_id@ == p;
                        if k < i {
                            assert(providers@.take(i as int)[k].peer_id@ == p);
                        }
                    }
                    if provides_peer(providers@.take(i as int), p) {
                        let k = choose|k: int|
                            0 <= k < i && #[trigger] providers@.take(i as int)[k].peer_id@ == p;
                        assert(providers@.take(i + 1)[k].peer_id@ == p);
                    }
                    if p == x@ {
                        assert(providers@.take(i + 1)[i as int].peer_id@ == p);
                    }
                }
                if pos < out@.len() && !dup {
                    lemma_lex_order(ov[pos as int], x@, x@);
                    lemma_lex_order(x@, ov[pos as int], x@);
                }
            }
            if !dup {
                out.insert(pos, x.clone());
                proof {
                    let nv = bytes_view(out@);
                    assert(nv =~= ov.insert(pos as int, x@));
                    assert forall|a: int, b: int| 0 <= a < b < nv.len() implies #[trigger] lex_lt(
                        nv[a],
                        nv[b],
                    ) by {
                        if b == pos {
                            assert(nv[a] == ov[a]);
                        } else if a == pos {
                            assert(nv[b] == ov[b - 1]);
                            if b - 1 > pos {
                                assert(lex_lt(ov[pos as int], ov[b - 1]));
                                lemma_lex_order(x@, ov[pos as int], ov[b - 1]);
                            }
                        } else if a < pos && b < pos {
                            assert(nv[a] == ov[a] && nv[b] == ov[b]);
                        } else if a < pos {
                            assert(nv[a] == ov[a] && nv[b] == ov[b - 1]);
                        } else {
                            assert(nv[a] == ov[a - 1] && nv[b] == ov[b - 1]);
                        }
                    }
                    assert forall|p: Seq<u8>| nv.contains(p) <==> (ov.contains(p) || p == x@) by {
                        if nv.contains(p) {
                            let k = choose|k: int| 0 <= k < nv.len() && nv[k] == p;
                            if k < pos {
                                assert(ov[k] == p);
                            } else if k > pos {
                                assert(ov[k - 1] == p);
                            }
                        }
                        if ov.contains(p) {
                            let k = choose|k: int| 0 <= k < ov.len() && ov[k] == p;
                            if k < pos {
                                assert(nv[k] == p);
                            } else {
                                assert(nv[k + 1] == p);
                            }
                        }
                        if p == x@ {
                            assert(nv[pos as int] == p);
                        }
                    }
                }
            } else {
                proof {
                    assert(ov[pos as int] == x@);
                    assert(ov.contains(x@));
                }
            }
            proof {
                assert forall|p: Seq<u8>| bytes_view(out@).contains(p) <==> provides_peer(
                    providers@.take(i + 1),
                    p,
                ) by {
                    if ov.contains(p) {
                        assert(provides_peer(providers@.take(i as int), p));
                    }
                    if provides_peer(providers@.take(i as int), p) {
                        assert(ov.contains(p));
                    }
                }
            }
            i = i + 1;
        }
        proof {
            assert(providers@.take(i as int) =~= providers@);
        }
        out
    }

    /// The providers whose metadata holds every (key, value) pair of the
    /// criteria, in their order.
    pub fn filter_by_metadata(providers: &[ProviderInfo], criteria: &Metadata) -> (r: Vec<
        ProviderInfo,
    >)
        ensures
            providers_view(r@) == providers_view(providers@).filter(
                |p: ProviderView| matches_criteria(p, metadata_pairs(criteria@)),
            ),
            forall|j: int, c: int|
                0 <= j < r@.len() && 0 <= c < criteria@.len() ==> metadata_map(
                    #[trigger] r@[j].metadata@,
                ).contains_key(#[trigger] criteria@[c].0@) && metadata_map(r@[j].metadata@)[criteria@[c].0@]
                    == criteria@[c].1@,
            forall|i: int|
                0 <= i < providers@.len() && (forall|c: int|
                    0 <= c < criteria@.len() ==> metadata_map(providers@[i].metadata@).contains_key(
                        #[trigger] criteria@[c].0@,
                    ) && metadata_map(providers@[i].metadata@)[criteria@[c].0@] == criteria@[c].1@)
                    ==> #[trigger] providers_view(r@).contains(providers@[i]@),
            criteria@.len() == 0 ==> providers_view(r@) == providers_view(providers@),
    {
        let ghost all = providers_view(providers@);
        let ghost crit = metadata_pairs(criteria@);
        let ghost keep = |p: ProviderView| matches_criteria(p, crit);
        let mut out: Vec<ProviderInfo> = Vec::new();
        let mut i: usize = 0;
        while i < providers.len()
            invariant
                i <= providers@.len(),
                all == providers_view(providers@),
                crit == metadata_pairs(criteria@),
                keep == (|p: ProviderView| matches_criteria(p, crit)),
                providers_view(out@) == all.take(i as int).filter(keep),
            decreases providers@.len() - i,
        {
            let p = &providers[i];
            let mut ok = true;
            let mut k: usize = 0;
            while k < criteria.len()
                invariant
                    k <= criteria@.len(),
                    i < providers@.len(),
                    p == providers@[i as int],
                    crit == metadata_pairs(criteria@),
                    ok == (forall|c: int| 0 <= c < k ==> #[trigger] criterion_holds(p@, crit, c)),
                decreases criteria@.len() - k,
            {
                let ghost before_ok = ok;
                match metadata_get(&p.metadata, criteria[k].0.as_str()) {
                    Some(v) => {
                        if !str_eq(v.as_str(), criteria[k].1.as_str()) {
                            ok = false;
                        }
                    },
                    None => {
                        ok = false;
                    },
                }
                proof {
                    assert(ok == (before_ok && criterion_holds(p@, crit, k as int)));
                    assert((forall|c: int| 0 <= c < k + 1 ==> #[trigger] criterion_holds(p@, crit, c)) == (
                    (forall|c: int| 0 <= c < k ==> #[trigger] criterion_holds(p@, crit, c))
                        && criterion_holds(p@, crit, k as int)));
                }
                k = k + 1;
            }
            proof {
                assert(ok == matches_criteria(p@, crit));
                assert(all.take(i + 1) =~= all.take(i as int).push(all[i as int]));
                all.take(i as int).lemma_filter_push(all[i as int], keep);
                assert(all[i as int] == p@);
            }
            if ok {
                let ghost before = providers_view(out@);
                out.push(p.duplicate());
                proof {
                    assert(providers_view(out@) =~= before.push(all[i as int]));
                }
            }
            i = i + 1;
        }
        proof {
            assert(all.take(i as int) =~= all);
            lemma_metadata_filter_exact(all, crit, providers_view(out@));
            assert forall|j: int, c: int|
                0 <= j < out@.len() && 0 <= c < criteria@.len() implies metadata_map(
                    #[trigger] out@[j].metadata@,
                ).contains_key(#[trigger] criteria@[c].0@) && metadata_map(out@[j].metadata@)[criteria@[c].0@]
                    == criteria@[c].1@ by {
                assert(providers_view(out@)[j] == out@[j]@);
                assert(crit[c] == (criteria@[c].0@, criteria@[c].1@));
                assert(to_map(providers_view(out@)[j].metadata).contains_key(crit[c].0));
                assert(to_map(providers_view(out@)[j].metadata)[crit[c].0] == crit[c].1);
                assert(providers_view(out@)[j].metadata == metadata_pairs(out@[j].metadata@));
            }
            assert forall|i: int|
                0 <= i < providers@.len() && (forall|c: int|
                    0 <= c < criteria@.len() ==> metadata_map(providers@[i].metadata@).contains_key(
                        #[trigger] criteria@[c].0@,
                    ) && metadata_map(providers@[i].metadata@)[criteria@[c].0@] == criteria@[c].1@)
                    implies #[trigger] providers_view(out@).contains(providers@[i]@) by {
                assert(all[i] == providers@[i]@);
                assert forall|c: int| 0 <= c < crit.len() implies (to_map(all[i].metadata).contains_key(
                    #[trigger] crit[c].0,
                ) && to_map(all[i].metadata)[crit[c].0] == crit[c].1) by {
                    assert(crit[c] == (criteria@[c].0@, criteria@[c].1@));
                    assert(criteria@[c].0@ == crit[c].0);
                }
            }
        }
        out
    }

    /// The providers in order of preference: most recently seen first, then
    /// most recently announced, then by peer id; equally preferred ones keep
    /// their order.
    pub fn sort_by_preference(providers: Vec<ProviderInfo>) -> (r: Vec<ProviderInfo>)
        ensures
            providers_view(r@) == sort_by_preference_spec(providers_view(providers@)),
    {
        let ghost all = providers_view(providers@);
        let mut sorted: Vec<ProviderInfo> = Vec::new();
        let mut m: usize = 0;
        while m < providers.len()
            invariant
                m <= providers@.len(),
                all == providers_view(providers@),
                providers_view(sorted@) == sort_by_preference_spec(all.take(m as int)),
            decreases providers@.len() - m,
        {
            let x = providers[m].duplicate();
            let mut pos: usize = sorted.len();
            while pos > 0 && Self::is_preferred(&x, &sorted[pos - 1])
                invariant
                    pos <= sorted@.len(),
                    forall|j: int| pos <= j < sorted@.len() ==> #[trigger] preferred(x@, sorted@[j]@),
                decreases pos,
            {
                pos = pos - 1;
            }
            let ghost before = providers_view(sorted@);
            proof {
                assert forall|j: int| pos <= j < before.len() implies #[trigger] preferred(
                    x@,
                    before[j],
                ) by {
                    assert(before[j] == sorted@[j]@);
                }
                if pos > 0 {
                    assert(before[pos - 1] == sorted@[pos - 1]@);
                }
                lemma_insert_by_preference_at(before, x@, pos as int);
                assert(all.take(m + 1).drop_last() =~= all.take(m as int));
                assert(all.take(m + 1).last() == providers@[m as int]@);
            }
            sorted.insert(pos, x);
            proof {
                assert(providers_view(sorted@) =~= before.insert(pos as int, x@));
            }
            m = m + 1;
        }
        proof {
            assert(all.take(m as int) =~= all);
        }
        sorted
    }

    fn is_preferred(a: &ProviderInfo, b: &ProviderInfo) -> (r: bool)
        ensures
            r == preferred(a@, b@),
    {
        if a.last_seen != b.last_seen {
            a.last_seen > b.last_seen
        } else if a.announced_at != b.announced_at {
            a.announced_at > b.announced_at
        } else {
            bytes_lt(a.peer_id.as_slice(), b.peer_id.as_slice())
        }
    }

    /// The providers grouped by manifest id, one group per id in order of
    /// first appearance, each with that id's providers in order.
    pub fn group_by_manifest(providers: &[ProviderInfo]) -> (groups: Vec<(String, Vec<ProviderInfo>)>)
        ensures
            groups_view(groups@) == group_spec(providers_view(providers@)),
    {
        let ghost all = providers_view(providers@);
        let mut groups: Vec<(String, Vec<ProviderInfo>)> = Vec::new();
        let mut i: usize = 0;
        while i < providers.len()
            invariant
                i <= providers@.len(),
                all == providers_view(providers@),
                groups_view(groups@) == group_spec(all.take(i as int)),
            decreases providers@.len() - i,
        {
            let p = &providers[i];
            let ghost gv = groups_view(groups@);
            proof {
                lemma_group_ids_distinct(all.take(i as int));
                assert(all.take(i + 1).drop_last() =~= all.take(i as int));
                assert(all.take(i + 1).last() == p@);
            }
            let mut g: usize = 0;
            while g < groups.len() && !str_eq(groups[g].0.as_str(), p.manifest_id.as_str())
                invariant
                    g <= groups@.len(),
                    gv == groups_view(groups@),
                    forall|j: int| 0 <= j < g ==> #[trigger] gv[j].0 != p@.manifest_id,
                decreases groups@.len() - g,
            {
                g = g + 1;
            }
            let found = g < groups.len();
            if found {
                proof {
                    assert(gv[g as int].0 == p@.manifest_id);
                    let c = choose|c: int| 0 <= c < gv.len() && #[trigger] gv[c].0 == p@.manifest_id;
                    if c != g {
                        if c < g {
                            assert(gv[c].0 != p@.manifest_id);
                        } else {
                            assert(gv[g as int].0 != gv[c].0);
                        }
                    }
                }
                let ghost before = groups@;
                let mut entry = groups.remove(g);
                let ghost members_before = entry.1@;
                assert(entry == before[g as int]);
                entry.1.push(p.duplicate());
                proof {
                    assert(providers_view(entry.1@) =~= providers_view(members_before).push(p@));
                }
                groups.insert(g, entry);
                proof {
                    assert(groups@ =~= before.update(g as int, entry));
                    assert(groups_view(groups@) =~= gv.update(
                        g as int,
                        (gv[g as int].0, gv[g as int].1.push(p@)),
                    ));
                }
            } else {
                let mut members: Vec<ProviderInfo> = Vec::new();
                members.push(p.duplicate());
                groups.push((p.manifest_id.clone(), members));
                proof {
                    assert(providers_view(members@) =~= seq![p@]);
                    assert(groups_view(groups@) =~= gv.push((p@.manifest_id, seq![p@])));
                    assert(!exists|c: int| 0 <= c < gv.len() && #[trigger] gv[c].0 == p@.manifest_id);
                }
            }
            i = i + 1;
        }
        proof {
            assert(all.take(i as int) =~= all);
        }
        groups
    }
}

/// Filtering providers by metadata criteria keeps exactly the providers
/// whose metadata maps every criterion's key to its value: each kept
/// provider is one of the given ones and holds every criterion, each given
/// provider that holds every criterion is kept, and with no criteria every
/// provider is kept.
pub proof fn lemma_metadata_filter_exact(
    providers: Seq<ProviderView>,
    criteria: Seq<(Seq<char>, Seq<char>)>,
    kept: Seq<ProviderView>,
)
    requires
        kept == providers.filter(|p: ProviderView| matches_criteria(p, criteria)),
    ensures
        forall|j: int, c: int|
            0 <= j < kept.len() && 0 <= c < criteria.len() ==> to_map(#[trigger] kept[j].metadata).contains_key(
                #[trigger] criteria[c].0,
            ) && to_map(kept[j].metadata)[criteria[c].0] == criteria[c].1,
        forall|j: int| 0 <= j < kept.len() ==> providers.contains(#[trigger] kept[j]),
        forall|i: int|
            0 <= i < providers.len() && (forall|c: int|
                0 <= c < criteria.len() ==> to_map(providers[i].metadata).contains_key(#[trigger] criteria[c].0)
                    && to_map(providers[i].metadata)[criteria[c].0] == criteria[c].1) ==> #[trigger] kept.contains(
                providers[i],
            ),
        criteria.len() == 0 ==> kept == providers,
    decreases providers.len(),
{
    let keep = |p: ProviderView| matches_criteria(p, criteria);
    assert forall|j: int, c: int|
        0 <= j < kept.len() && 0 <= c < criteria.len() implies to_map(#[trigger] kept[j].metadata).contains_key(
            #[trigger] criteria[c].0,
        ) && to_map(kept[j].metadata)[criteria[c].0] == criteria[c].1 by {
        providers.lemma_filter_pred(keep, j);
        assert(criterion_holds(kept[j], criteria, c));
    }
    assert forall|j: int| 0 <= j < kept.len() implies providers.contains(#[trigger] kept[j]) by {
        assert(kept.contains(kept[j]));
        providers.lemma_filter_contains_rev(keep, kept[j]);
    }
    assert forall|i: int|
        0 <= i < providers.len() && (forall|c: int|
            0 <= c < criteria.len() ==> to_map(providers[i].metadata).contains_key(#[trigger] criteria[c].0)
                && to_map(providers[i].metadata)[criteria[c].0] == criteria[c].1) implies #[trigger] kept.contains(
        providers[i],
    ) by {
        assert forall|c: int| 0 <= c < criteria.len() implies #[trigger] criterion_holds(
            providers[i],
            criteria,
            c,
        ) by {
            assert(to_map(providers[i].metadata).contains_key(criteria[c].0));
        }
        providers.lemma_filter_contains(keep, i);
    }
    if criteria.len() == 0 && providers.len() > 0 {
        lemma_metadata_filter_exact(providers.drop_last(), criteria, providers.drop_last().filter(keep));
        assert(providers =~= providers.drop_last().push(providers.last()));
        providers.drop_last().lemma_filter_push(providers.last(), keep);
    }
}

} // verus!
