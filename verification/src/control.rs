//! Bookkeeping of the control loop: the provider records this node keeps
//! announcing and when each is due again, and the manifest requests that
//! wait for an answer. Times are milliseconds on the node's clock; the
//! announcing and the replies themselves are done by the caller.
use vstd::prelude::*;

use crate::assoc::{
    index_of_key, keys_distinct, lemma_index_of_key, lemma_push, lemma_remove, lemma_to_map_dom,
    lemma_to_map_value, lemma_update, to_map,
};
use crate::replay::elapsed;
use crate::text::str_eq;

verus! {

/// Renewal for an announcement that does not expire (an hour, in ms).
pub const NEVER_RENEW_MS: u64 = 3600000;

/// The shortest delay between two renewals (ms).
pub const MIN_RENEWAL_MS: u64 = 2000;

/// A pending manifest request is answered with a timeout after this long (ms).
pub const MANIFEST_REQUEST_TIMEOUT_MS: u64 = 5000;

/// Delay before a record with the given TTL is announced again: a third
/// of the TTL, at least two seconds.
pub open spec fn renewal_delay(ttl_ms: u64) -> int {
    if ttl_ms / 3 > MIN_RENEWAL_MS {
        (ttl_ms / 3) as int
    } else {
        MIN_RENEWAL_MS as int
    }
}

/// When a record announced at `now` is next due.
pub open spec fn first_due(ttl_ms: u64, now: u64) -> int {
    if ttl_ms == 0 {
        now + NEVER_RENEW_MS
    } else {
        now + renewal_delay(ttl_ms)
    }
}

/// Whether a record is renewed at `now`: it has a TTL and is due.
pub open spec fn is_due(e: (u64, u64), now: u64) -> bool {
    e.0 != 0 && e.1 <= now
}

/// The record after the renewal pass at `now`.
pub open spec fn after_renewal(e: (u64, u64), now: u64) -> (u64, u64) {
    if is_due(e, now) {
        (e.0, (now + renewal_delay(e.0)) as u64)
    } else {
        e
    }
}

/// Entry for active announce tracking.
#[derive(Debug, Clone, Copy)]
pub struct AnnounceEntry {
    /// TTL of the provider record (ms); zero means it is not renewed.
    pub ttl_ms: u64,
    /// When the record is next announced again (ms).
    pub next_due: u64,
}

/// The provider records this node announces, by CID.
#[derive(Debug)]
pub struct ActiveAnnounces {
    entries: Vec<(String, AnnounceEntry)>,
}

impl View for ActiveAnnounces {
    /// CID to (TTL, next due time).
    type V = Map<Seq<char>, (u64, u64)>;

    closed spec fn view(&self) -> Map<Seq<char>, (u64, u64)> {
        to_map(self.pairs())
    }
}

impl ActiveAnnounces {
    /// The entries as (CID, (TTL, next due)) pairs, in table order.
    pub closed spec fn pairs(&self) -> Seq<(Seq<char>, (u64, u64))> {
        self.entries@.map_values(|e: (String, AnnounceEntry)| (e.0@, (e.1.ttl_ms, e.1.next_due)))
    }

    /// The CIDs in table order.
    pub closed spec fn cids(&self) -> Seq<Seq<char>> {
        self.pairs().map_values(|p: (Seq<char>, (u64, u64))| p.0)
    }

    /// Each CID occurs once.
    pub closed spec fn wf(&self) -> bool {
        keys_distinct(self.pairs())
    }

    /// An empty table.
    pub fn new() -> (s: Self)
        ensures
            s.wf(),
            s@ == Map::<Seq<char>, (u64, u64)>::empty(),
    {
        let s = ActiveAnnounces { entries: Vec::new() };
        assert(s.pairs() =~= Seq::<(Seq<char>, (u64, u64))>::empty());
        assert(s@ =~= Map::<Seq<char>, (u64, u64)>::empty());
        s
    }

    fn find(&self, cid: &str) -> (r: Option<usize>)
        requires
            self.wf(),
        ensures
            match r {
                Some(i) => i < self.entries@.len() && self.pairs()[i as int].0 == cid@
                    && self@.contains_key(cid@),
                None => !self@.contains_key(cid@),
            },
    {
        let mut i: usize = 0;
        while i < self.entries.len()
            invariant
                i <= self.entries@.len(),
                forall|j: int| 0 <= j < i ==> self.pairs()[j].0 != cid@,
            decreases self.entries@.len() - i,
        {
            if str_eq(self.entries[i].0.as_str(), cid) {
                proof {
                    lemma_to_map_dom(self.pairs(), cid@);
                    assert(self.pairs()[i as int].0 == cid@);
                }
                return Some(i);
            }
            i = i + 1;
        }
        proof {
            lemma_to_map_dom(self.pairs(), cid@);
        }
        None
    }

    /// Whether a record announced at `now` with this TTL can be scheduled
    /// (its next due time fits in 64 bits).
    pub fn can_schedule(ttl_ms: u64, now: u64) -> (r: bool)
        ensures
            r == (first_due(ttl_ms, now) <= u64::MAX),
    {
        let delay = if ttl_ms == 0 {
            NEVER_RENEW_MS
        } else if ttl_ms / 3 > MIN_RENEWAL_MS {
            ttl_ms / 3
        } else {
            MIN_RENEWAL_MS
        };
        delay <= u64::MAX - now
    }

    /// Whether the renewal pass can run at `now` (every renewal time fits in
    /// 64 bits).
    pub fn can_renew(&self, now: u64) -> (r: bool)
        requires
            self.wf(),
        ensures
            r == (forall|k: Seq<char>|
                #[trigger] self@.contains_key(k) && self@[k].0 != 0 ==> now + renewal_delay(self@[k].0)
                    <= u64::MAX),
    {
        let mut i: usize = 0;
        while i < self.entries.len()
            invariant
                self.wf(),
                i <= self.entries@.len(),
                forall|j: int|
                    0 <= j < i ==> #[trigger] self.pairs()[j].1.0 != 0 ==> now + renewal_delay(
                        self.pairs()[j].1.0,
                    ) <= u64::MAX,
            decreases self.entries@.len() - i,
        {
            let ttl = self.entries[i].1.ttl_ms;
            if ttl != 0 {
                let delay = if ttl / 3 > MIN_RENEWAL_MS {
                    ttl / 3
                } else {
                    MIN_RENEWAL_MS
                };
                if delay > u64::MAX - now {
                    proof {
                        lemma_to_map_value(self.pairs(), i as int);
                        assert(self@.contains_key(self.pairs()[i as int].0));
                    }
                    return false;
                }
            }
            i = i + 1;
        }
        proof {
            assert forall|k: Seq<char>|
                #[trigger] self@.contains_key(k) && self@[k].0 != 0 implies now + renewal_delay(self@[k].0)
                    <= u64::MAX by {
                lemma_to_map_dom(self.pairs(), k);
                let j = choose|j: int| 0 <= j < self.pairs().len() && #[trigger] self.pairs()[j].0 == k;
                lemma_to_map_value(self.pairs(), j);
            }
        }
        true
    }

    /// Record a successful announcement of `cid` at `now`: the record is
    /// next due after a third of its TTL (at least two seconds), or in an
    /// hour when it has no TTL. An earlier entry for the CID is replaced.
    pub fn record_announced(&mut self, cid: String, ttl_ms: u64, now: u64)
        requires
            old(self).wf(),
            first_due(ttl_ms, now) <= u64::MAX,
        ensures
            final(self).wf(),
            final(self)@ == old(self)@.insert(cid@, (ttl_ms, first_due(ttl_ms, now) as u64)),
    {
        let delay = if ttl_ms == 0 {
            NEVER_RENEW_MS
        } else if ttl_ms / 3 > MIN_RENEWAL_MS {
            ttl_ms / 3
        } else {
            MIN_RENEWAL_MS
        };
        let entry = AnnounceEntry { ttl_ms, next_due: now + delay };
        let ghost old_pairs = self.pairs();
        match self.find(cid.as_str()) {
            Some(i) => {
                let ghost key = cid@;
                self.entries.set(i, (cid, entry));
                proof {
                    assert(self.pairs() =~= old_pairs.update(
                        i as int,
                        (old_pairs[i as int].0, (ttl_ms, (now + delay) as u64)),
                    ));
                    lemma_update(old_pairs, i as int, (ttl_ms, (now + delay) as u64));
                }
            },
            None => {
                let ghost key = cid@;
                self.entries.push((cid, entry));
                proof {
                    assert(self.pairs() =~= old_pairs.push((key, (ttl_ms, (now + delay) as u64))));
                    lemma_push(old_pairs, key, (ttl_ms, (now + delay) as u64));
                }
            },
        }
    }

    /// Stop tracking `cid` (the record is withdrawn by the caller).
    pub fn withdraw(&mut self, cid: &str)
        requires
            old(self).wf(),
        ensures
            final(self).wf(),
            final(self)@ == old(self)@.remove(cid@),
    {
        let ghost old_pairs = self.pairs();
        match self.find(cid) {
            Some(i) => {
                self.entries.remove(i);
                proof {
                    assert(self.pairs() =~= old_pairs.remove(i as int));
                    lemma_remove(old_pairs, i as int);
                }
            },
            None => {
                assert(self@ =~= old(self)@.remove(cid@));
            },
        }
    }

    /// The renewal pass at `now`: every record with a TTL that is due is
    /// rescheduled a third of its TTL (at least two seconds) after `now`,
    /// and its CID is returned, in table order, for the caller to announce.
    pub fn renew_due(&mut self, now: u64) -> (due: Vec<String>)
        requires
            old(self).wf(),
            forall|k: Seq<char>|
                #[trigger] old(self)@.contains_key(k) && old(self)@[k].0 != 0 ==> now
                    + renewal_delay(old(self)@[k].0) <= u64::MAX,
        ensures
            final(self).wf(),
            final(self)@.dom() == old(self)@.dom(),
            forall|k: Seq<char>|
                #[trigger] final(self)@.contains_key(k) ==> final(self)@[k] == after_renewal(
                    old(self)@[k],
                    now,
                ),
            due@.map_values(|s: String| s@) == old(self).pairs().filter(
                |p: (Seq<char>, (u64, u64))| is_due(p.1, now),
            ).map_values(|p: (Seq<char>, (u64, u64))| p.0),
    {
        let ghost old_pairs = self.pairs();
        let ghost pick = |p: (Seq<char>, (u64, u64))| is_due(p.1, now);
        let ghost key_of = |p: (Seq<char>, (u64, u64))| p.0;
        let mut due: Vec<String> = Vec::new();
        let mut i: usize = 0;
        while i < self.entries.len()
            invariant
                i <= self.entries@.len(),
                self.entries@.len() == old_pairs.len(),
                keys_distinct(old_pairs),
                old(self)@ == to_map(old_pairs),
                forall|k: Seq<char>|
                    #[trigger] old(self)@.contains_key(k) && old(self)@[k].0 != 0 ==> now
                        + renewal_delay(old(self)@[k].0) <= u64::MAX,
                forall|j: int|
                    0 <= j < i ==> #[trigger] self.pairs()[j] == (
                        old_pairs[j].0,
                        after_renewal(old_pairs[j].1, now),
                    ),
                forall|j: int| i <= j < old_pairs.len() ==> #[trigger] self.pairs()[j] == old_pairs[j],
                due@.map_values(|s: String| s@) == old_pairs.take(i as int).filter(pick).map_values(
                    key_of,
                ),
                pick == (|p: (Seq<char>, (u64, u64))| is_due(p.1, now)),
                key_of == (|p: (Seq<char>, (u64, u64))| p.0),
            decreases self.entries@.len() - i,
        {
            proof {
                assert(old_pairs.take(i + 1) =~= old_pairs.take(i as int).push(old_pairs[i as int]));
                old_pairs.take(i as int).lemma_filter_push(old_pairs[i as int], pick);
                assert(self.pairs()[i as int] == old_pairs[i as int]);
            }
            let e = self.entries[i].1;
            if e.ttl_ms != 0 && e.next_due <= now {
                proof {
                    lemma_to_map_value(old_pairs, i as int);
                    assert(old(self)@.contains_key(old_pairs[i as int].0));
                }
                let delay = if e.ttl_ms / 3 > MIN_RENEWAL_MS {
                    e.ttl_ms / 3
                } else {
                    MIN_RENEWAL_MS
                };
                let ghost before_due = due@;
                let cid = self.entries[i].0.clone();
                due.push(cid);
                let ghost before = self.pairs();
                let key = self.entries[i].0.clone();
                self.entries.set(i, (key, AnnounceEntry { ttl_ms: e.ttl_ms, next_due: now + delay }));
                proof {
                    assert(self.pairs() =~= before.update(
                        i as int,
                        (old_pairs[i as int].0, after_renewal(old_pairs[i as int].1, now)),
                    ));
                    assert(due@.map_values(|s: String| s@) =~= before_due.map_values(
                        |s: String| s@,
                    ).push(old_pairs[i as int].0));
                }
            } else {
                proof {
                    assert(after_renewal(old_pairs[i as int].1, now) == old_pairs[i as int].1);
                }
            }
            i = i + 1;
        }
        proof {
            assert(old_pairs.take(i as int) =~= old_pairs);
            assert(self.pairs() =~= old_pairs.map_values(
                |p: (Seq<char>, (u64, u64))| (p.0, after_renewal(p.1, now)),
            ));
            assert forall|a: int, b: int|
                0 <= a < self.pairs().len() && 0 <= b < self.pairs().len() && a != b implies
                self.pairs()[a].0 != self.pairs()[b].0 by {
                assert(self.pairs()[a].0 == old_pairs[a].0);
                assert(self.pairs()[b].0 == old_pairs[b].0);
            }
            assert forall|k: Seq<char>| #[trigger] self@.contains_key(k) <==> old(self)@.contains_key(k) by {
                lemma_to_map_dom(self.pairs(), k);
                lemma_to_map_dom(old_pairs, k);
                if self@.contains_key(k) {
                    let j = choose|j: int| 0 <= j < self.pairs().len() && #[trigger] self.pairs()[j].0 == k;
                    assert(old_pairs[j].0 == k);
                }
                if old(self)@.contains_key(k) {
                    let j = choose|j: int| 0 <= j < old_pairs.len() && #[trigger] old_pairs[j].0 == k;
                    assert(self.pairs()[j].0 == k);
                }
            }
            assert(self@.dom() =~= old(self)@.dom());
            assert forall|k: Seq<char>| #[trigger] self@.contains_key(k) implies self@[k]
                == after_renewal(old(self)@[k], now) by {
                lemma_index_of_key(self.pairs(), k);
                let j = index_of_key(self.pairs(), k);
                lemma_to_map_value(self.pairs(), j);
                lemma_to_map_value(old_pairs, j);
            }
        }
        due
    }

    /// Stop tracking every record and return their CIDs, in table order,
    /// for the caller to withdraw.
    pub fn withdraw_all(&mut self) -> (cids: Vec<String>)
        requires
            old(self).wf(),
        ensures
            final(self).wf(),
            final(self)@ == Map::<Seq<char>, (u64, u64)>::empty(),
            cids@.map_values(|s: String| s@) == old(self).cids(),
    {
        let cids = self.list_active_announces();
        self.entries = Vec::new();
        assert(self.pairs() =~= Seq::<(Seq<char>, (u64, u64))>::empty());
        assert(self@ =~= Map::<Seq<char>, (u64, u64)>::empty());
        cids
    }

    /// A snapshot of the active announce CIDs, in table order.
    pub fn list_active_announces(&self) -> (cids: Vec<String>)
        ensures
            cids@.map_values(|s: String| s@) == self.cids(),
    {
        let mut out: Vec<String> = Vec::new();
        let mut i: usize = 0;
        while i < self.entries.len()
            invariant
                i <= self.entries@.len(),
                out@.map_values(|s: String| s@) == self.cids().take(i as int),
            decreases self.entries@.len() - i,
        {
            let ghost before = out@;
            out.push(self.entries[i].0.clone());
            proof {
                assert(out@.map_values(|s: String| s@) =~= before.map_values(|s: String| s@).push(
                    self.cids()[i as int],
                ));
                assert(self.cids().take(i + 1) =~= self.cids().take(i as int).push(
                    self.cids()[i as int],
                ));
            }
            i = i + 1;
        }
        assert(self.cids().take(i as int) =~= self.cids());
        out
    }
}

/// Whether a request started at `started` has waited too long at `now`.
pub open spec fn request_timed_out(started: u64, now: u64) -> bool {
    elapsed(now, started) > MANIFEST_REQUEST_TIMEOUT_MS
}

/// The message a timed-out manifest request is answered with.
pub fn request_timeout_message() -> (s: String)
    ensures
        s@ == "Request timeout"@,
{
    String::from_str("Request timeout")
}

/// Remove the pending manifest requests (request id, start time) that have
/// waited more than five seconds at `now`, and return their ids in order;
/// the caller answers each with [`request_timeout_message`].
pub fn cleanup_timed_out_manifest_requests(pending: &mut Vec<(u64, u64)>, now: u64) -> (timed_out:
    Vec<u64>)
    ensures
        final(pending)@ == old(pending)@.filter(|r: (u64, u64)| !request_timed_out(r.1, now)),
        timed_out@ == old(pending)@.filter(|r: (u64, u64)| request_timed_out(r.1, now)).map_values(
            |r: (u64, u64)| r.0,
        ),
{
    let ghost all = pending@;
    let ghost keep = |r: (u64, u64)| !request_timed_out(r.1, now);
    let ghost drop = |r: (u64, u64)| request_timed_out(r.1, now);
    let ghost id_of = |r: (u64, u64)| r.0;
    let mut kept: Vec<(u64, u64)> = Vec::new();
    let mut out: Vec<u64> = Vec::new();
    let mut i: usize = 0;
    while i < pending.len()
        invariant
            i <= pending@.len(),
            pending@ == all,
            kept@ == all.take(i as int).filter(keep),
            out@ == all.take(i as int).filter(drop).map_values(id_of),
            keep == (|r: (u64, u64)| !request_timed_out(r.1, now)),
            drop == (|r: (u64, u64)| request_timed_out(r.1, now)),
            id_of == (|r: (u64, u64)| r.0),
        decreases pending@.len() - i,
    {
        let r = pending[i];
        proof {
            assert(all.take(i + 1) =~= all.take(i as int).push(r));
            all.take(i as int).lemma_filter_push(r, keep);
            all.take(i as int).lemma_filter_push(r, drop);
        }
        let waited = if now >= r.1 {
            now - r.1
        } else {
            0
        };
        if waited > MANIFEST_REQUEST_TIMEOUT_MS {
            let ghost before = out@;
            out.push(r.0);
            proof {
                assert(out@ =~= before.push(r.0));
                assert(all.take(i as int).filter(drop).push(r).map_values(id_of) =~= all.take(
                    i as int,
                ).filter(drop).map_values(id_of).push(r.0));
            }
        } else {
            kept.push(r);
        }
        i = i + 1;
    }
    proof {
        assert(all.take(i as int) =~= all);
    }
    *pending = kept;
    out
}


/// A record that is not tracked (for instance once withdrawn) is never
/// among those the renewal pass announces again.
pub proof fn lemma_untracked_not_renewed(a: ActiveAnnounces, cid: Seq<char>, now: u64)
    requires
        a.wf(),
        !a@.contains_key(cid),
    ensures
        !a.pairs().filter(|p: (Seq<char>, (u64, u64))| is_due(p.1, now)).map_values(
            |p: (Seq<char>, (u64, u64))| p.0,
        ).contains(cid),
{
    let pick = |p: (Seq<char>, (u64, u64))| is_due(p.1, now);
    let due = a.pairs().filter(pick);
    let keys = due.map_values(|p: (Seq<char>, (u64, u64))| p.0);
    lemma_to_map_dom(a.pairs(), cid);
    if keys.contains(cid) {
        let j = choose|j: int| 0 <= j < keys.len() && #[trigger] keys[j] == cid;
        assert(due[j].0 == cid);
        assert(due.contains(due[j]));
        a.pairs().lemma_filter_contains_rev(pick, due[j]);
        let k = choose|k: int| 0 <= k < a.pairs().len() && a.pairs()[k] == due[j];
        assert(a.pairs()[k].0 == cid);
    }
}

/// Attempts made to announce a provider record before giving up.
pub const ANNOUNCE_ATTEMPTS: u32 = 3;

/// Pause between two attempts to announce a provider record (ms).
pub const ANNOUNCE_RETRY_MS: u64 = 100;

/// A provider record can only be announced with some peer connected.
pub fn announce_precheck(connected_peers: usize) -> (r: Result<(), String>)
    ensures
        connected_peers == 0 ==> (r matches Err(e) && e@ == "No connected peers for DHT announcement"@),
        connected_peers > 0 ==> r is Ok,
{
    if connected_peers == 0 {
        Err(String::from_str("No connected peers for DHT announcement"))
    } else {
        Ok(())
    }
}

/// What follows an attempt to announce a provider record.
#[derive(Debug, Clone, Copy, PartialEq, Eq, Structural)]
pub enum AnnounceStep {
    /// The record is announced.
    Done,
    /// Try again after this pause (ms).
    RetryAfter(u64),
    /// Every attempt failed.
    GiveUp,
}

/// The step after attempt number `attempt` (counted from one): done when it
/// succeeded, another attempt after a pause while fewer than three were
/// made, else give up.
pub fn announce_attempt_step(attempt: u32, succeeded: bool) -> (s: AnnounceStep)
    ensures
        succeeded ==> s == AnnounceStep::Done,
        !succeeded && attempt < ANNOUNCE_ATTEMPTS ==> s == AnnounceStep::RetryAfter(ANNOUNCE_RETRY_MS),
        !succeeded && attempt >= ANNOUNCE_ATTEMPTS ==> s == AnnounceStep::GiveUp,
{
    if succeeded {
        AnnounceStep::Done
    } else if attempt < ANNOUNCE_ATTEMPTS {
        AnnounceStep::RetryAfter(ANNOUNCE_RETRY_MS)
    } else {
        AnnounceStep::GiveUp
    }
}

/// The answer when every attempt to announce failed.
pub fn announce_failure_message() -> (s: String)
    ensures
        s@ == "All provider announcement attempts failed"@,
{
    String::from_str("All provider announcement attempts failed")
}

/// The DHT key under which the holders of a manifest are looked up:
/// `provider:<manifest id>`.
pub fn provider_record_key(manifest_id: &str) -> (s: String)
    ensures
        s@ == "provider:"@ + manifest_id@,
{
    String::from_str("provider:").concat(manifest_id)
}

/// Whether a new connection is followed by a DHT bootstrap: once two or
/// more peers are connected.
pub fn bootstrap_due(connected_peers: usize) -> (b: bool)
    ensures
        b == (connected_peers >= 2),
{
    connected_peers >= 2
}

} // verus!
