//! Bookkeeping of which peers hold which manifest versions, and the
//! answers to holder queries.
use vstd::prelude::*;

use crate::assoc::{
    keys_distinct, lemma_push, lemma_to_map_dom, lemma_to_map_value, lemma_update, to_map,
};
use crate::clock::current_timestamp_secs;
use crate::text::str_eq;

verus! {

/// Largest number of holders kept per manifest before the list is pruned.
pub const HOLDER_LIST_LIMIT: usize = 100;

/// Number of holders left after pruning.
pub const HOLDER_LIST_PRUNED_LEN: usize = 50;

/// Announcement that a peer holds a specific manifest version.
#[derive(Debug, Clone)]
pub struct ManifestAnnouncement {
    pub manifest_id: String,
    pub version: u64,
    pub holder_peer_id: String,
    pub timestamp: u64,
    pub signature: Vec<u8>,
}

/// Query to find holders of a specific manifest (`None` asks for every version).
#[derive(Debug, Clone)]
pub struct ManifestHolderQuery {
    pub manifest_id: String,
    pub version: Option<u64>,
}

/// Response containing the peers that hold the manifest.
#[derive(Debug, Clone)]
pub struct ManifestHolderResponse {
    pub holders: Vec<ManifestHolderInfo>,
    pub latest_version: Option<u64>,
}

/// Information about a peer that holds a manifest.
#[derive(Debug, Clone, PartialEq, Eq, Hash)]
pub struct ManifestHolderInfo {
    pub peer_id: String,
    pub version: u64,
    pub timestamp: u64,
}

/// Mathematical value of a [`ManifestHolderInfo`].
pub struct HolderView {
    pub peer_id: Seq<char>,
    pub version: u64,
    pub timestamp: u64,
}

impl View for ManifestHolderInfo {
    type V = HolderView;

    open spec fn view(&self) -> HolderView {
        HolderView { peer_id: self.peer_id@, version: self.version, timestamp: self.timestamp }
    }
}

pub open spec fn holders_view(s: Seq<ManifestHolderInfo>) -> Seq<HolderView> {
    s.map_values(|h: ManifestHolderInfo| h@)
}

/// The holder record this node writes for itself.
pub open spec fn local_holder(version: u64, now: u64) -> HolderView {
    HolderView { peer_id: "local"@, version, timestamp: now }
}

/// Inserts `x` behind every element whose time stamp is not later than its
/// own, scanning from the end (one step of a stable insertion sort).
pub open spec fn insert_by_timestamp(s: Seq<HolderView>, x: HolderView) -> Seq<HolderView>
    decreases s.len(),
{
    if s.len() == 0 {
        seq![x]
    } else if s.last().timestamp <= x.timestamp {
        s.push(x)
    } else {
        insert_by_timestamp(s.drop_last(), x).push(s.last())
    }
}

/// The holders ordered by time stamp, equal time stamps keeping their
/// order (the stable sort by time stamp).
pub open spec fn sort_by_timestamp(s: Seq<HolderView>) -> Seq<HolderView>
    decreases s.len(),
{
    if s.len() == 0 {
        s
    } else {
        insert_by_timestamp(sort_by_timestamp(s.drop_last()), s.last())
    }
}

/// Holder records of peers other than `peer_id`.
pub open spec fn other_peer(peer_id: Seq<char>) -> spec_fn(HolderView) -> bool {
    |h: HolderView| h.peer_id != peer_id
}

/// Holder records of version `v`.
pub open spec fn at_version(v: u64) -> spec_fn(HolderView) -> bool {
    |h: HolderView| h.version == v
}

/// The records a list holds once `holder` reports in, before pruning:
/// older records of its peer are dropped and the new record is appended.
pub open spec fn reported_list(list: Seq<HolderView>, holder: HolderView) -> Seq<HolderView> {
    list.filter(other_peer(holder.peer_id)).push(holder)
}

/// The holder list after `holder` reports in: the reported list, and when
/// that grows past the limit, its 50 most recent records (by time stamp,
/// oldest first; among equal time stamps the later reported is the more
/// recent).
pub open spec fn list_after_update(list: Seq<HolderView>, holder: HolderView) -> Seq<HolderView> {
    let kept = reported_list(list, holder);
    if kept.len() > HOLDER_LIST_LIMIT {
        let sorted = sort_by_timestamp(kept);
        sorted.subrange(sorted.len() - HOLDER_LIST_PRUNED_LEN, sorted.len() as int)
    } else {
        kept
    }
}

/// The holders that a query selects.
pub open spec fn selected_holders(list: Seq<HolderView>, version: Option<u64>) -> Seq<HolderView> {
    match version {
        Some(v) => list.filter(at_version(v)),
        None => list,
    }
}

/// The highest version among holders, if there are any.
pub open spec fn max_version(s: Seq<HolderView>) -> Option<u64>
    decreases s.len(),
{
    if s.len() == 0 {
        None
    } else {
        match max_version(s.drop_last()) {
            Some(m) => Some(if s.last().version > m { s.last().version } else { m }),
            None => Some(s.last().version),
        }
    }
}

/// The holder list of a manifest (empty when unknown).
pub open spec fn list_of(m: Map<Seq<char>, Seq<HolderView>>, manifest_id: Seq<char>) -> Seq<
    HolderView,
> {
    if m.contains_key(manifest_id) {
        m[manifest_id]
    } else {
        Seq::empty()
    }
}

/// Storage for manifest holder information.
#[derive(Debug)]
pub struct ManifestHolderStore {
    lists: Vec<HolderListEntry>,
}

/// One manifest's holder list inside a [`ManifestHolderStore`].
#[derive(Debug)]
pub struct HolderListEntry {
    manifest_id: String,
    holders: Vec<ManifestHolderInfo>,
}

impl View for ManifestHolderStore {
    type V = Map<Seq<char>, Seq<HolderView>>;

    closed spec fn view(&self) -> Map<Seq<char>, Seq<HolderView>> {
        to_map(self.pairs())
    }
}

fn copy_holder(h: &ManifestHolderInfo) -> (r: ManifestHolderInfo)
    ensures
        r@ == h@,
{
    ManifestHolderInfo { peer_id: h.peer_id.clone(), version: h.version, timestamp: h.timestamp }
}

fn copy_holders(s: &Vec<ManifestHolderInfo>) -> (r: Vec<ManifestHolderInfo>)
    ensures
        holders_view(r@) == holders_view(s@),
{
    let mut out: Vec<ManifestHolderInfo> = Vec::new();
    let mut i: usize = 0;
    while i < s.len()
        invariant
            i <= s@.len(),
            holders_view(out@) =~= holders_view(s@).take(i as int),
        decreases s@.len() - i,
    {
        let ghost before = holders_view(out@);
        out.push(copy_holder(&s[i]));
        proof {
            assert(holders_view(out@) =~= before.push(s@[i as int]@));
            assert(holders_view(s@).take(i + 1) =~= holders_view(s@).take(i as int).push(s@[i as int]@));
        }
        i = i + 1;
    }
    proof {
        assert(holders_view(s@).take(i as int) =~= holders_view(s@));
    }
    out
}

proof fn lemma_insert_by_timestamp_at(s: Seq<HolderView>, x: HolderView, pos: int)
    requires
        0 <= pos <= s.len(),
        forall|j: int| pos <= j < s.len() ==> #[trigger] s[j].timestamp > x.timestamp,
        pos == 0 || s[pos - 1].timestamp <= x.timestamp,
    ensures
        insert_by_timestamp(s, x) == s.insert(pos, x),
    decreases s.len(),
{
    if s.len() == 0 {
        assert(s.insert(pos, x) =~= seq![x]);
    } else if s.last().timestamp <= x.timestamp {
        assert(pos == s.len());
        assert(s.insert(pos, x) =~= s.push(x));
    } else {
        assert(pos < s.len());
        lemma_insert_by_timestamp_at(s.drop_last(), x, pos);
        assert(s.insert(pos, x) =~= s.drop_last().insert(pos, x).push(s.last()));
    }
}

/// Sorts holders by time stamp, keeping the order of equal time stamps.
fn sort_holders_by_timestamp(s: &Vec<ManifestHolderInfo>) -> (r: Vec<ManifestHolderInfo>)
    ensures
        holders_view(r@) == sort_by_timestamp(holders_view(s@)),
{
    let mut out: Vec<ManifestHolderInfo> = Vec::new();
    let mut i: usize = 0;
    while i < s.len()
        invariant
            i <= s@.len(),
            holders_view(out@) == sort_by_timestamp(holders_view(s@).take(i as int)),
        decreases s@.len() - i,
    {
        let x = copy_holder(&s[i]);
        let mut pos: usize = out.len();
        while pos > 0 && out[pos - 1].timestamp > x.timestamp
            invariant
                pos <= out@.len(),
                forall|j: int| pos <= j < out@.len() ==> #[trigger] out@[j].timestamp > x.timestamp,
            decreases pos,
        {
            pos = pos - 1;
        }
        let ghost before = holders_view(out@);
        proof {
            assert forall|j: int| pos <= j < before.len() implies #[trigger] before[j].timestamp
                > x@.timestamp by {
                assert(before[j] == out@[j]@);
            }
            if pos > 0 {
                assert(before[pos - 1] == out@[pos - 1]@);
            }
            lemma_insert_by_timestamp_at(before, x@, pos as int);
            assert(holders_view(s@).take(i + 1).drop_last() =~= holders_view(s@).take(i as int));
            assert(holders_view(s@).take(i + 1).last() == s@[i as int]@);
        }
        out.insert(pos, x);
        proof {
            assert(holders_view(out@) =~= before.insert(pos as int, x@));
        }
        i = i + 1;
    }
    proof {
        assert(holders_view(s@).take(i as int) =~= holders_view(s@));
    }
    out
}

impl ManifestHolderStore {
    pub closed spec fn pairs(&self) -> Seq<(Seq<char>, Seq<HolderView>)> {
        self.lists@.map_values(|e: HolderListEntry| (e.manifest_id@, holders_view(e.holders@)))
    }

    /// Each manifest id has one holder list.
    pub closed spec fn wf(&self) -> bool {
        keys_distinct(self.pairs())
    }

    /// Create a new manifest holder store.
    pub fn new() -> (s: Self)
        ensures
            s.wf(),
            s@ == Map::<Seq<char>, Seq<HolderView>>::empty(),
    {
        let s = ManifestHolderStore { lists: Vec::new() };
        assert(s.pairs() =~= Seq::<(Seq<char>, Seq<HolderView>)>::empty());
        assert(s@ =~= Map::<Seq<char>, Seq<HolderView>>::empty());
        s
    }

    fn find(&self, manifest_id: &str) -> (r: Option<usize>)
        requires
            self.wf(),
        ensures
            match r {
                Some(i) => {
                    &&& i < self.lists@.len()
                    &&& self.pairs()[i as int].0 == manifest_id@
                    &&& self@.contains_key(manifest_id@)
                    &&& self@[manifest_id@] == holders_view(self.lists@[i as int].holders@)
                },
                None => !self@.contains_key(manifest_id@),
            },
    {
        let mut i: usize = 0;
        while i < self.lists.len()
            invariant
                self.wf(),
                i <= self.lists@.len(),
                forall|j: int| 0 <= j < i ==> self.pairs()[j].0 != manifest_id@,
            decreases self.lists@.len() - i,
        {
            if str_eq(self.lists[i].manifest_id.as_str(), manifest_id) {
                proof {
                    lemma_to_map_value(self.pairs(), i as int);
                }
                return Some(i);
            }
            i = i + 1;
        }
        proof {
            lemma_to_map_dom(self.pairs(), manifest_id@);
        }
        None
    }

    /// Replaces the holder list of `manifest_id` with `holders`.
    fn set_list(&mut self, manifest_id: String, holders: Vec<ManifestHolderInfo>)
        requires
            old(self).wf(),
        ensures
            final(self).wf(),
            final(self)@ == old(self)@.insert(manifest_id@, holders_view(holders@)),
    {
        let ghost old_pairs = self.pairs();
        let ghost id = manifest_id@;
        let ghost hv = holders_view(holders@);
        match self.find(manifest_id.as_str()) {
            Some(i) => {
                self.lists.set(i, HolderListEntry { manifest_id, holders });
                proof {
                    assert(self.pairs() =~= old_pairs.update(i as int, (old_pairs[i as int].0, hv)));
                    lemma_update(old_pairs, i as int, hv);
                }
            },
            None => {
                self.lists.push(HolderListEntry { manifest_id, holders });
                proof {
                    assert(self.pairs() =~= old_pairs.push((id, hv)));
                    lemma_push(old_pairs, id, hv);
                }
            },
        }
    }

    /// Record that this node holds `version` of a manifest, at time `now`.
    pub fn announce_manifest_holder_at(&mut self, manifest_id: String, version: u64, now: u64)
        requires
            old(self).wf(),
        ensures
            final(self).wf(),
            final(self)@ == old(self)@.insert(
                manifest_id@,
                list_of(old(self)@, manifest_id@).push(local_holder(version, now)),
            ),
    {
        let mut holders = self.get_manifest_holders(manifest_id.as_str());
        let local = ManifestHolderInfo { peer_id: String::from_str("local"), version, timestamp: now };
        let ghost before = holders_view(holders@);
        holders.push(local);
        proof {
            assert(holders_view(holders@) =~= before.push(local_holder(version, now)));
        }
        self.set_list(manifest_id, holders);
    }

    /// Record that this node holds `version` of a manifest, stamped with the
    /// current time.
    pub fn announce_manifest_holder(&mut self, manifest_id: String, version: u64)
        requires
            old(self).wf(),
        ensures
            final(self).wf(),
            exists|now: u64|
                final(self)@ == old(self)@.insert(
                    manifest_id@,
                    list_of(old(self)@, manifest_id@).push(#[trigger] local_holder(version, now)),
                ),
    {
        let now = current_timestamp_secs();
        self.announce_manifest_holder_at(manifest_id, version, now);
    }

    /// Get known holders for a manifest.
    pub fn get_manifest_holders(&self, manifest_id: &str) -> (r: Vec<ManifestHolderInfo>)
        requires
            self.wf(),
        ensures
            holders_view(r@) == list_of(self@, manifest_id@),
    {
        match self.find(manifest_id) {
            Some(i) => copy_holders(&self.lists[i].holders),
            None => {
                let r: Vec<ManifestHolderInfo> = Vec::new();
                assert(holders_view(r@) =~= Seq::<HolderView>::empty());
                r
            },
        }
    }

    /// Update holder information from a network announcement: the peer's
    /// older records for the manifest are replaced by `holder`, and a list
    /// that grows past 100 records is cut to its 50 most recent records.
    pub fn update_holder_info(&mut self, manifest_id: String, holder: ManifestHolderInfo)
        requires
            old(self).wf(),
        ensures
            final(self).wf(),
            final(self)@ == old(self)@.insert(
                manifest_id@,
                list_after_update(list_of(old(self)@, manifest_id@), holder@),
            ),
    {
        let current = self.get_manifest_holders(manifest_id.as_str());
        let ghost cv = holders_view(current@);
        let ghost hv = holder@;
        let mut kept: Vec<ManifestHolderInfo> = Vec::new();
        let mut i: usize = 0;
        while i < current.len()
            invariant
                i <= current@.len(),
                cv == holders_view(current@),
                hv == holder@,
                holders_view(kept@) == cv.take(i as int).filter(other_peer(hv.peer_id)),
            decreases current@.len() - i,
        {
            proof {
                assert(cv.take(i + 1) =~= cv.take(i as int).push(current@[i as int]@));
                cv.take(i as int).lemma_filter_push(current@[i as int]@, other_peer(hv.peer_id));
            }
            if !str_eq(current[i].peer_id.as_str(), holder.peer_id.as_str()) {
                let ghost before = holders_view(kept@);
                kept.push(copy_holder(&current[i]));
                proof {
                    assert(holders_view(kept@) =~= before.push(current@[i as int]@));
                }
            }
            i = i + 1;
        }
        proof {
            assert(cv.take(i as int) =~= cv);
        }
        let ghost filtered = holders_view(kept@);
        kept.push(holder);
        proof {
            assert(holders_view(kept@) =~= filtered.push(hv));
        }
        if kept.len() > HOLDER_LIST_LIMIT {
            let mut sorted = sort_holders_by_timestamp(&kept);
            proof {
                lemma_sort_by_timestamp_len(holders_view(kept@));
            }
            let cut = sorted.len() - HOLDER_LIST_PRUNED_LEN;
            let newest = sorted.split_off(cut);
            proof {
                let sv = sort_by_timestamp(holders_view(kept@));
                assert(holders_view(newest@) =~= sv.subrange(
                    sv.len() - HOLDER_LIST_PRUNED_LEN,
                    sv.len() as int,
                ));
            }
            self.set_list(manifest_id, newest);
        } else {
            self.set_list(manifest_id, kept);
        }
    }

    /// Process an incoming query and generate the response: the holders of
    /// the requested version (or all holders) and the highest version among
    /// them.
    pub fn handle_holder_query(&self, query: &ManifestHolderQuery) -> (r: ManifestHolderResponse)
        requires
            self.wf(),
        ensures
            holders_view(r.holders@) == selected_holders(
                list_of(self@, query.manifest_id@),
                query.version,
            ),
            r.latest_version == max_version(holders_view(r.holders@)),
            query.version matches Some(v) ==> forall|j: int|
                0 <= j < r.holders@.len() ==> #[trigger] r.holders@[j].version == v,
            query.version matches Some(v) ==> forall|i: int|
                0 <= i < list_of(self@, query.manifest_id@).len() && #[trigger] list_of(
                    self@,
                    query.manifest_id@,
                )[i].version == v ==> holders_view(r.holders@).contains(
                    list_of(self@, query.manifest_id@)[i],
                ),
            query.version is None ==> holders_view(r.holders@) == list_of(self@, query.manifest_id@),
    {
        let holders = self.get_manifest_holders(query.manifest_id.as_str());
        let ghost all = holders_view(holders@);
        let filtered = match query.version {
            Some(version) => {
                let mut out: Vec<ManifestHolderInfo> = Vec::new();
                let mut i: usize = 0;
                while i < holders.len()
                    invariant
                        i <= holders@.len(),
                        all == holders_view(holders@),
                        holders_view(out@) == all.take(i as int).filter(at_version(version)),
                    decreases holders@.len() - i,
                {
                    proof {
                        assert(all.take(i + 1) =~= all.take(i as int).push(holders@[i as int]@));
                        all.take(i as int).lemma_filter_push(holders@[i as int]@, at_version(version));
                    }
                    if holders[i].version == version {
                        let ghost before = holders_view(out@);
                        out.push(copy_holder(&holders[i]));
                        proof {
                            assert(holders_view(out@) =~= before.push(holders@[i as int]@));
                        }
                    }
                    i = i + 1;
                }
                proof {
                    assert(all.take(i as int) =~= all);
                }
                out
            },
            None => holders,
        };
        let mut latest: Option<u64> = None;
        let mut k: usize = 0;
        while k < filtered.len()
            invariant
                k <= filtered@.len(),
                latest == max_version(holders_view(filtered@).take(k as int)),
            decreases filtered@.len() - k,
        {
            proof {
                assert(holders_view(filtered@).take(k + 1).drop_last() =~= holders_view(
                    filtered@,
                ).take(k as int));
                assert(holders_view(filtered@).take(k + 1).last() == filtered@[k as int]@);
            }
            let v = filtered[k].version;
            latest =
            match latest {
                Some(m) => Some(
                    if v > m {
                        v
                    } else {
                        m
                    },
                ),
                None => Some(v),
            };
            k = k + 1;
        }
        proof {
            assert(holders_view(filtered@).take(k as int) =~= holders_view(filtered@));
        }
        proof {
            if let Some(v) = query.version {
                lemma_version_query_selects_exactly(all, v, holders_view(filtered@));
                assert forall|j: int| 0 <= j < filtered@.len() implies #[trigger] filtered@[j].version
                    == v by {
                    assert(holders_view(filtered@)[j] == filtered@[j]@);
                }
            }
        }
        ManifestHolderResponse { holders: filtered, latest_version: latest }
    }
}

pub proof fn lemma_insert_by_timestamp_len(s: Seq<HolderView>, x: HolderView)
    ensures
        insert_by_timestamp(s, x).len() == s.len() + 1,
    decreases s.len(),
{
    if s.len() > 0 && s.last().timestamp > x.timestamp {
        lemma_insert_by_timestamp_len(s.drop_last(), x);
    }
}

pub proof fn lemma_sort_by_timestamp_len(s: Seq<HolderView>)
    ensures
        sort_by_timestamp(s).len() == s.len(),
    decreases s.len(),
{
    if s.len() > 0 {
        lemma_sort_by_timestamp_len(s.drop_last());
        lemma_insert_by_timestamp_len(sort_by_timestamp(s.drop_last()), s.last());
    }
}


/// A holder list never grows past [`HOLDER_LIST_LIMIT`] records when a
/// holder reports in.
pub proof fn lemma_update_respects_limit(list: Seq<HolderView>, holder: HolderView)
    ensures
        list_after_update(list, holder).len() <= HOLDER_LIST_LIMIT,
{
    let kept = reported_list(list, holder);
    if kept.len() > HOLDER_LIST_LIMIT {
        lemma_sort_by_timestamp_len(kept);
    }
}

/// Whether the holders are ordered by time stamp.
pub open spec fn ordered_by_timestamp(s: Seq<HolderView>) -> bool {
    forall|i: int, j: int| 0 <= i < j < s.len() ==> s[i].timestamp <= s[j].timestamp
}

proof fn lemma_insert_keeps_order(s: Seq<HolderView>, x: HolderView)
    requires
        ordered_by_timestamp(s),
    ensures
        ordered_by_timestamp(insert_by_timestamp(s, x)),
        insert_by_timestamp(s, x).to_multiset() == s.to_multiset().insert(x),
    decreases s.len(),
{
    broadcast use vstd::seq_lib::group_seq_properties;
    broadcast use vstd::multiset::group_multiset_axioms;
    if s.len() == 0 {
        assert(seq![x] =~= Seq::<HolderView>::empty().push(x));
    } else if s.last().timestamp <= x.timestamp {
    } else {
        let d = s.drop_last();
        lemma_insert_keeps_order(d, x);
        let t = insert_by_timestamp(d, x);
        lemma_insert_by_timestamp_len(d, x);
        lemma_insert_bounded(d, x, s.last().timestamp);
        assert(s =~= d.push(s.last()));
        assert(ordered_by_timestamp(t.push(s.last()))) by {
            assert forall|i: int, j: int| 0 <= i < j < t.len() + 1 implies t.push(s.last())[i].timestamp
                <= t.push(s.last())[j].timestamp by {
                if j == t.len() {
                    assert(t[i].timestamp <= s.last().timestamp);
                }
            }
        }
        assert(s.to_multiset() =~= d.to_multiset().insert(s.last()));
        assert(t.push(s.last()).to_multiset() =~= t.to_multiset().insert(s.last()));
    }
}

/// Inserting a record no later than `bound` into records no later than
/// `bound` leaves every record no later than `bound`.
proof fn lemma_insert_bounded(s: Seq<HolderView>, x: HolderView, bound: u64)
    requires
        x.timestamp <= bound,
        forall|i: int| 0 <= i < s.len() ==> #[trigger] s[i].timestamp <= bound,
    ensures
        forall|i: int|
            0 <= i < insert_by_timestamp(s, x).len() ==> #[trigger] insert_by_timestamp(s, x)[i].timestamp
                <= bound,
    decreases s.len(),
{
    if s.len() > 0 && s.last().timestamp > x.timestamp {
        lemma_insert_bounded(s.drop_last(), x, bound);
        lemma_insert_by_timestamp_len(s.drop_last(), x);
    }
}

/// The stable sort orders by time stamp and keeps exactly the records it is
/// given.
pub proof fn lemma_sort_orders(s: Seq<HolderView>)
    ensures
        ordered_by_timestamp(sort_by_timestamp(s)),
        sort_by_timestamp(s).to_multiset() == s.to_multiset(),
        sort_by_timestamp(s).len() == s.len(),
    decreases s.len(),
{
    broadcast use vstd::seq_lib::group_seq_properties;
    lemma_sort_by_timestamp_len(s);
    if s.len() == 0 {
    } else {
        lemma_sort_orders(s.drop_last());
        lemma_insert_keeps_order(sort_by_timestamp(s.drop_last()), s.last());
        assert(s =~= s.drop_last().push(s.last()));
    }
}

/// A list that outgrows the limit keeps its most recent records: every
/// record it drops is no more recent than every record it keeps, and every
/// kept record is one of the reported ones. A reporting holder at least as
/// recent as every other record is always kept.
pub proof fn lemma_update_keeps_most_recent(list: Seq<HolderView>, holder: HolderView)
    ensures
        ({
            let kept = reported_list(list, holder);
            let r = list_after_update(list, holder);
            let sorted = sort_by_timestamp(kept);
            &&& kept.len() > HOLDER_LIST_LIMIT ==> {
                &&& forall|a: int, b: int|
                    0 <= a < sorted.len() - HOLDER_LIST_PRUNED_LEN && 0 <= b < r.len()
                        ==> #[trigger] sorted[a].timestamp <= #[trigger] r[b].timestamp
                &&& r.to_multiset().subset_of(kept.to_multiset())
            }
            &&& (forall|i: int| 0 <= i < list.len() ==> #[trigger] list[i].timestamp <= holder.timestamp)
                ==> r.contains(holder)
        }),
{
    broadcast use vstd::seq_lib::group_seq_properties;
    let kept = reported_list(list, holder);
    let r = list_after_update(list, holder);
    let f = list.filter(other_peer(holder.peer_id));
    if kept.len() > HOLDER_LIST_LIMIT {
        lemma_sort_orders(kept);
        let sorted = sort_by_timestamp(kept);
        let off = sorted.len() - HOLDER_LIST_PRUNED_LEN;
        assert forall|a: int, b: int|
            0 <= a < off && 0 <= b < r.len() implies #[trigger] sorted[a].timestamp <= #[trigger] r[b].timestamp by {
            assert(r[b] == sorted[off + b]);
        }
        assert(sorted =~= sorted.subrange(0, off) + r);
        vstd::seq_lib::lemma_multiset_commutative(sorted.subrange(0, off), r);
        assert(r.to_multiset().subset_of(kept.to_multiset()));
        if forall|i: int| 0 <= i < list.len() ==> #[trigger] list[i].timestamp <= holder.timestamp {
            // The stable sort puts the reporting holder last.
            assert forall|i: int| 0 <= i < f.len() implies #[trigger] f[i].timestamp <= holder.timestamp by {
                assert(f.contains(f[i]));
                list.lemma_filter_contains_rev(other_peer(holder.peer_id), f[i]);
                let j = choose|j: int| 0 <= j < list.len() && list[j] == f[i];
                assert(list[j].timestamp <= holder.timestamp);
            }
            lemma_sort_orders(f);
            let sf = sort_by_timestamp(f);
            assert(kept.drop_last() =~= f);
            assert(sf.to_multiset() == f.to_multiset());
            if sf.len() > 0 {
                assert(sf.contains(sf[sf.len() - 1]));
                sf.to_multiset_ensures();
                f.to_multiset_ensures();
                assert(sf.to_multiset().count(sf.last()) > 0);
                assert(f.to_multiset().count(sf.last()) > 0);
                assert(f.contains(sf.last()));
                let k = choose|k: int| 0 <= k < f.len() && f[k] == sf.last();
                assert(sf.last().timestamp <= holder.timestamp);
            }
            assert(sorted == sf.push(holder));
            assert(r[r.len() - 1] == holder);
        }
    } else {
        if forall|i: int| 0 <= i < list.len() ==> #[trigger] list[i].timestamp <= holder.timestamp {
            assert(r[r.len() - 1] == holder);
        }
    }
}

/// When no pruning happens, the reporting peer has exactly one record
/// afterwards, the new one, at the end of the list.
pub proof fn lemma_update_single_record(list: Seq<HolderView>, holder: HolderView)
    requires
        list.filter(other_peer(holder.peer_id)).len() < HOLDER_LIST_LIMIT,
    ensures
        ({
            let r = list_after_update(list, holder);
            &&& r.last() == holder
            &&& forall|i: int| 0 <= i < r.len() - 1 ==> #[trigger] r[i].peer_id != holder.peer_id
        }),
{
    let f = list.filter(other_peer(holder.peer_id));
    let r = f.push(holder);
    assert forall|i: int| 0 <= i < r.len() - 1 implies #[trigger] r[i].peer_id != holder.peer_id by {
        assert(r[i] == f[i]);
        list.lemma_filter_pred(other_peer(holder.peer_id), i);
    }
}

/// The latest version reported to a query is the highest version among
/// the selected holders, and there is one exactly when some holder was
/// selected.
pub proof fn lemma_max_version_is_max(s: Seq<HolderView>)
    ensures
        max_version(s) is None <==> s.len() == 0,
        max_version(s) matches Some(m) ==> (exists|i: int| 0 <= i < s.len() && #[trigger] s[i].version == m)
            && forall|i: int| 0 <= i < s.len() ==> #[trigger] s[i].version <= m,
    decreases s.len(),
{
    if s.len() > 0 {
        let d = s.drop_last();
        lemma_max_version_is_max(d);
        match max_version(d) {
            Some(m) => {
                let j = choose|i: int| 0 <= i < d.len() && #[trigger] d[i].version == m;
                assert(s[j] == d[j]);
                assert forall|i: int| 0 <= i < s.len() implies #[trigger] s[i].version <= max_version(
                    s,
                )->0 by {
                    if i < d.len() {
                        assert(s[i] == d[i]);
                    }
                }
                if s.last().version > m {
                    assert(s[s.len() - 1].version == s.last().version);
                }
            },
            None => {
                assert(s[s.len() - 1].version == s.last().version);
            },
        }
    }
}

/// A query for version `v` answers exactly the holders of `v`: every
/// holder in the answer is a stored holder whose version is `v`, and every
/// stored holder whose version is `v` is in the answer. A query without a
/// version answers every stored holder.
pub proof fn lemma_version_query_selects_exactly(stored: Seq<HolderView>, v: u64, answer: Seq<HolderView>)
    requires
        answer == selected_holders(stored, Some(v)),
    ensures
        forall|j: int| 0 <= j < answer.len() ==> #[trigger] answer[j].version == v && stored.contains(answer[j]),
        forall|i: int| 0 <= i < stored.len() && #[trigger] stored[i].version == v ==> answer.contains(stored[i]),
        selected_holders(stored, None) == stored,
{
    assert forall|j: int| 0 <= j < answer.len() implies #[trigger] answer[j].version == v && stored.contains(
        answer[j],
    ) by {
        stored.lemma_filter_pred(at_version(v), j);
        assert(answer.contains(answer[j]));
        stored.lemma_filter_contains_rev(at_version(v), answer[j]);
    }
    assert forall|i: int| 0 <= i < stored.len() && #[trigger] stored[i].version == v implies answer.contains(
        stored[i],
    ) by {
        stored.lemma_filter_contains(at_version(v), i);
    }
}

} // verus!
