//! Replay protection for signed envelopes: each peer's nonces are
//! remembered for a time window, and a nonce seen again within the window
//! is rejected.
use vstd::prelude::*;

use crate::assoc::{keys_distinct, lemma_filter, lemma_push, lemma_to_map_dom, restrict, to_map};
use crate::text::str_eq;

verus! {

/// Peer name under which nonces are recorded when no peer is given.
pub open spec fn global_peer() -> Seq<char> {
    "global"@
}

/// Why a nonce was refused.
#[derive(Debug, Clone, Copy, PartialEq, Eq, Structural)]
pub enum NonceError {
    /// The nonce is the empty string.
    EmptyNonce,
    /// The nonce was already seen for this peer within the window.
    Replay,
}

impl NonceError {
    /// The error text.
    pub fn message(&self) -> (s: String)
        ensures
            s@ == match self {
                NonceError::EmptyNonce => "nonce cannot be empty"@,
                NonceError::Replay => "replay detected: nonce already seen"@,
            },
    {
        match self {
            NonceError::EmptyNonce => String::from_str("nonce cannot be empty"),
            NonceError::Replay => String::from_str("replay detected: nonce already seen"),
        }
    }
}

/// Time from `then` to `now`, zero when `then` is later (a monotonic clock
/// difference that saturates).
pub open spec fn elapsed(now: u64, then: u64) -> u64 {
    if now >= then {
        (now - then) as u64
    } else {
        0
    }
}

/// Records that survive pruning: those of other peers, and those of `peer`
/// not older than the window.
pub open spec fn survives_pruning(peer: Seq<char>, window: u64, now: u64) -> spec_fn(
    ((Seq<char>, Seq<char>), u64),
) -> bool {
    |r: ((Seq<char>, Seq<char>), u64)| !(r.0.0 == peer && elapsed(now, r.1) > window)
}

/// The records after `peer`'s expired nonces are pruned.
pub open spec fn pruned(
    m: Map<(Seq<char>, Seq<char>), u64>,
    peer: Seq<char>,
    window: u64,
    now: u64,
) -> Map<(Seq<char>, Seq<char>), u64> {
    restrict(m, survives_pruning(peer, window, now))
}

/// Outcome of checking `nonce` for `peer` at time `now`: the new records
/// and the verdict.
pub open spec fn check_outcome(
    m: Map<(Seq<char>, Seq<char>), u64>,
    nonce: Seq<char>,
    window: u64,
    peer: Seq<char>,
    now: u64,
) -> (Map<(Seq<char>, Seq<char>), u64>, Result<(), NonceError>) {
    if nonce.len() == 0 {
        (m, Err(NonceError::EmptyNonce))
    } else {
        let p = pruned(m, peer, window, now);
        if p.contains_key((peer, nonce)) {
            (p, Err(NonceError::Replay))
        } else {
            (p.insert((peer, nonce), now), Ok(()))
        }
    }
}

/// One remembered nonce.
#[derive(Debug)]
pub struct NonceRecord {
    peer_id: String,
    nonce: String,
    seen_at: u64,
}

/// The nonces seen recently, per peer, with the time each was seen.
#[derive(Debug)]
pub struct NonceStore {
    records: Vec<NonceRecord>,
}

impl View for NonceStore {
    type V = Map<(Seq<char>, Seq<char>), u64>;

    closed spec fn view(&self) -> Map<(Seq<char>, Seq<char>), u64> {
        to_map(record_pairs(self.records@))
    }
}

pub closed spec fn record_pairs(s: Seq<NonceRecord>) -> Seq<((Seq<char>, Seq<char>), u64)> {
    s.map_values(|r: NonceRecord| ((r.peer_id@, r.nonce@), r.seen_at))
}

impl NonceStore {
    /// Each (peer, nonce) pair is recorded once.
    pub closed spec fn wf(&self) -> bool {
        keys_distinct(record_pairs(self.records@))
    }

    /// An empty store.
    pub fn new() -> (s: Self)
        ensures
            s.wf(),
            s@ == Map::<(Seq<char>, Seq<char>), u64>::empty(),
    {
        let s = NonceStore { records: Vec::new() };
        assert(record_pairs(s.records@) =~= Seq::<((Seq<char>, Seq<char>), u64)>::empty());
        assert(s@ =~= Map::<(Seq<char>, Seq<char>), u64>::empty());
        s
    }

    /// Drops `peer_id`'s records older than the window.
    fn prune(&mut self, peer_id: &str, window: u64, now: u64)
        requires
            old(self).wf(),
        ensures
            final(self).wf(),
            final(self)@ == pruned(old(self)@, peer_id@, window, now),
    {
        let ghost keep = survives_pruning(peer_id@, window, now);
        let ghost all = record_pairs(self.records@);
        let mut kept: Vec<NonceRecord> = Vec::new();
        let mut i: usize = 0;
        while i < self.records.len()
            invariant
                i <= self.records@.len(),
                all == record_pairs(self.records@),
                keep == survives_pruning(peer_id@, window, now),
                record_pairs(kept@) == all.take(i as int).filter(keep),
            decreases self.records@.len() - i,
        {
            proof {
                assert(all.take(i + 1) =~= all.take(i as int).push(all[i as int]));
                all.take(i as int).lemma_filter_push(all[i as int], keep);
            }
            let r = &self.records[i];
            let aged = if now >= r.seen_at {
                now - r.seen_at > window
            } else {
                false
            };
            if !(aged && str_eq(r.peer_id.as_str(), peer_id)) {
                let ghost before = record_pairs(kept@);
                kept.push(
                    NonceRecord {
                        peer_id: r.peer_id.clone(),
                        nonce: r.nonce.clone(),
                        seen_at: r.seen_at,
                    },
                );
                proof {
                    assert(record_pairs(kept@) =~= before.push(all[i as int]));
                }
            }
            i = i + 1;
        }
        proof {
            assert(all.take(i as int) =~= all);
            lemma_filter(all, keep);
        }
        self.records = kept;
    }

    /// Whether `(peer_id, nonce)` is recorded.
    fn contains(&self, peer_id: &str, nonce: &str) -> (r: bool)
        requires
            self.wf(),
        ensures
            r == self@.contains_key((peer_id@, nonce@)),
    {
        let ghost all = record_pairs(self.records@);
        let mut i: usize = 0;
        while i < self.records.len()
            invariant
                i <= self.records@.len(),
                all == record_pairs(self.records@),
                forall|j: int| 0 <= j < i ==> all[j].0 != (peer_id@, nonce@),
            decreases self.records@.len() - i,
        {
            if str_eq(self.records[i].peer_id.as_str(), peer_id) && str_eq(
                self.records[i].nonce.as_str(),
                nonce,
            ) {
                proof {
                    lemma_to_map_dom(all, (peer_id@, nonce@));
                    assert(all[i as int].0 == (peer_id@, nonce@));
                }
                return true;
            }
            i = i + 1;
        }
        proof {
            lemma_to_map_dom(all, (peer_id@, nonce@));
        }
        false
    }

    /// Check replay protection for a specific peer at time `now`
    /// (milliseconds): the peer's nonces older than `nonce_window` are
    /// forgotten, then the nonce is refused if it is empty or still
    /// remembered, and remembered otherwise.
    pub fn check_and_insert_nonce_for_peer(
        &mut self,
        nonce_str: &str,
        nonce_window: u64,
        peer_id: &str,
        now: u64,
    ) -> (r: Result<(), NonceError>)
        requires
            old(self).wf(),
        ensures
            final(self).wf(),
            (final(self)@, r) == check_outcome(old(self)@, nonce_str@, nonce_window, peer_id@, now),
    {
        if nonce_str.is_empty() {
            return Err(NonceError::EmptyNonce);
        }
        self.prune(peer_id, nonce_window, now);
        if self.contains(peer_id, nonce_str) {
            return Err(NonceError::Replay);
        }
        let ghost before = record_pairs(self.records@);
        let rec = NonceRecord {
            peer_id: peer_id.to_owned(),
            nonce: nonce_str.to_owned(),
            seen_at: now,
        };
        self.records.push(rec);
        proof {
            assert(record_pairs(self.records@) =~= before.push(((peer_id@, nonce_str@), now)));
            lemma_push(before, (peer_id@, nonce_str@), now);
        }
        Ok(())
    }

    /// Check replay protection for nonces recorded under the peer name `global`.
    pub fn check_and_insert_nonce(&mut self, nonce_str: &str, nonce_window: u64, now: u64) -> (r:
        Result<(), NonceError>)
        requires
            old(self).wf(),
        ensures
            final(self).wf(),
            (final(self)@, r) == check_outcome(
                old(self)@,
                nonce_str@,
                nonce_window,
                global_peer(),
                now,
            ),
    {
        self.check_and_insert_nonce_for_peer(nonce_str, nonce_window, "global", now)
    }
}

/// Replay protection: once a nonce has been accepted for a peer, the same
/// nonce from that peer is refused at any time within the window, whatever
/// other nonces were checked in between.
pub proof fn lemma_replay_within_window_rejected(
    m: Map<(Seq<char>, Seq<char>), u64>,
    nonce: Seq<char>,
    window: u64,
    peer: Seq<char>,
    t: u64,
    t2: u64,
)
    requires
        check_outcome(m, nonce, window, peer, t).1 is Ok,
        t <= t2,
        t2 - t <= window,
    ensures
        check_outcome(check_outcome(m, nonce, window, peer, t).0, nonce, window, peer, t2).1
            == Err::<(), NonceError>(NonceError::Replay),
{
    let m1 = check_outcome(m, nonce, window, peer, t).0;
    assert(m1.contains_key((peer, nonce)) && m1[(peer, nonce)] == t);
    let p = pruned(m1, peer, window, t2);
    assert(survives_pruning(peer, window, t2)(((peer, nonce), t)));
    assert(p.contains_key((peer, nonce)));
}

/// A remembered nonce that is still within the window survives the check of
/// any nonce, for any peer, at that time.
pub proof fn lemma_fresh_record_survives(
    m: Map<(Seq<char>, Seq<char>), u64>,
    key: (Seq<char>, Seq<char>),
    nonce: Seq<char>,
    window: u64,
    peer: Seq<char>,
    now: u64,
)
    requires
        m.contains_key(key),
        elapsed(now, m[key]) <= window,
    ensures
        check_outcome(m, nonce, window, peer, now).0.contains_key(key),
        check_outcome(m, nonce, window, peer, now).0[key] == m[key]
            || (key == (peer, nonce) && check_outcome(m, nonce, window, peer, now).1 is Ok),
{
    assert(survives_pruning(peer, window, now)((key, m[key])));
}

/// Nonces are tracked per peer: a non-empty nonce that a peer has not sent
/// is accepted, whatever other peers sent.
pub proof fn lemma_unseen_nonce_accepted(
    m: Map<(Seq<char>, Seq<char>), u64>,
    nonce: Seq<char>,
    window: u64,
    peer: Seq<char>,
    now: u64,
)
    requires
        nonce.len() > 0,
        !m.contains_key((peer, nonce)),
    ensures
        check_outcome(m, nonce, window, peer, now).1 is Ok,
        check_outcome(m, nonce, window, peer, now).0.contains_key((peer, nonce)),
{
}

} // verus!
