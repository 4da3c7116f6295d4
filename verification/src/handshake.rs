//! Handshakes with discovered peers: each peer is tried until it answers,
//! every two seconds, and dropped after three unanswered attempts. Times
//! are milliseconds on the node's clock; sending the requests and dropping
//! peers from the mesh are the caller's part.
use vstd::prelude::*;

use crate::assoc::{
    keys_distinct, lemma_filter, lemma_push, lemma_to_map_dom, lemma_to_map_value, lemma_update,
    restrict, to_map,
};
use crate::text::{bytes_eq, decimal_chars, u64_to_decimal};

verus! {

/// Unanswered attempts after which a peer is dropped.
pub const MAX_HANDSHAKE_ATTEMPTS: u8 = 3;

/// Delay between two attempts (ms).
pub const HANDSHAKE_RETRY_MS: u64 = 2000;

/// How long before its discovery a new peer counts as last tried (ms), so
/// that it is tried at once.
pub const FIRST_ATTEMPT_BACKDATE_MS: u64 = 3000;

/// The handshake state of one peer.
#[derive(Debug, Clone, Copy, PartialEq, Eq, Structural)]
pub struct HandshakeState {
    pub attempts: u8,
    pub last_attempt: u64,
    pub confirmed: bool,
}

/// The state of a peer that was just discovered at `now`.
pub open spec fn fresh_state(now: u64) -> HandshakeState {
    HandshakeState { attempts: 0, last_attempt: (now - FIRST_ATTEMPT_BACKDATE_MS) as u64, confirmed: false }
}

/// A peer that never answered and was tried the most times.
pub open spec fn exhausted(s: HandshakeState) -> bool {
    !s.confirmed && s.attempts >= MAX_HANDSHAKE_ATTEMPTS
}

/// A peer that is tried again at `now`.
pub open spec fn retry_due(s: HandshakeState, now: u64) -> bool {
    !s.confirmed && s.attempts < MAX_HANDSHAKE_ATTEMPTS && now >= s.last_attempt + HANDSHAKE_RETRY_MS
}

/// The handshake states of the known peers, by peer id bytes.
#[derive(Debug)]
pub struct HandshakeTable {
    entries: Vec<(Vec<u8>, HandshakeState)>,
}

impl View for HandshakeTable {
    type V = Map<Seq<u8>, HandshakeState>;

    closed spec fn view(&self) -> Map<Seq<u8>, HandshakeState> {
        to_map(self.pairs())
    }
}

/// The peers of the pairs that satisfy `keep`, in order.
pub open spec fn peers_where(
    pairs: Seq<(Seq<u8>, HandshakeState)>,
    keep: spec_fn((Seq<u8>, HandshakeState)) -> bool,
) -> Seq<Seq<u8>> {
    pairs.filter(keep).map_values(|p: (Seq<u8>, HandshakeState)| p.0)
}

impl HandshakeTable {
    /// The entries as (peer, state) pairs, in table order.
    pub closed spec fn pairs(&self) -> Seq<(Seq<u8>, HandshakeState)> {
        self.entries@.map_values(|e: (Vec<u8>, HandshakeState)| (e.0@, e.1))
    }

    /// Each peer occurs once.
    pub closed spec fn wf(&self) -> bool {
        keys_distinct(self.pairs())
    }

    /// An empty table.
    pub fn new() -> (t: Self)
        ensures
            t.wf(),
            t@ == Map::<Seq<u8>, HandshakeState>::empty(),
    {
        let t = HandshakeTable { entries: Vec::new() };
        assert(t.pairs() =~= Seq::<(Seq<u8>, HandshakeState)>::empty());
        assert(t@ =~= Map::<Seq<u8>, HandshakeState>::empty());
        t
    }

    fn find(&self, peer: &[u8]) -> (r: Option<usize>)
        requires
            self.wf(),
        ensures
            match r {
                Some(i) => i < self.entries@.len() && self.pairs()[i as int].0 == peer@
                    && self@.contains_key(peer@) && self@[peer@] == self.pairs()[i as int].1,
                None => !self@.contains_key(peer@),
            },
    {
        let mut i: usize = 0;
        while i < self.entries.len()
            invariant
                self.wf(),
                i <= self.entries@.len(),
                forall|j: int| 0 <= j < i ==> self.pairs()[j].0 != peer@,
            decreases self.entries@.len() - i,
        {
            if bytes_eq(self.entries[i].0.as_slice(), peer) {
                proof {
                    assert(self.pairs()[i as int].0 == peer@);
                    lemma_to_map_value(self.pairs(), i as int);
                }
                return Some(i);
            }
            i = i + 1;
        }
        proof {
            lemma_to_map_dom(self.pairs(), peer@);
        }
        None
    }

    /// The state of `peer`, if it is known.
    pub fn get(&self, peer: &[u8]) -> (r: Option<HandshakeState>)
        requires
            self.wf(),
        ensures
            match r {
                Some(s) => self@.contains_key(peer@) && self@[peer@] == s,
                None => !self@.contains_key(peer@),
            },
    {
        match self.find(peer) {
            Some(i) => Some(self.entries[i].1),
            None => None,
        }
    }

    /// A peer was discovered at `now`: an unknown peer is added, not
    /// confirmed, with no attempts, and counts as last tried three seconds
    /// ago; a known peer is left as it is.
    pub fn discover(&mut self, peer: &[u8], now: u64)
        requires
            old(self).wf(),
            now >= FIRST_ATTEMPT_BACKDATE_MS,
        ensures
            final(self).wf(),
            final(self)@ == if old(self)@.contains_key(peer@) {
                old(self)@
            } else {
                old(self)@.insert(peer@, fresh_state(now))
            },
    {
        let ghost old_pairs = self.pairs();
        match self.find(peer) {
            Some(_) => {},
            None => {
                let key = crate::bytes::copy_range(peer, 0, peer.len());
                assert(key@ =~= peer@);
                let st = HandshakeState {
                    attempts: 0,
                    last_attempt: now - FIRST_ATTEMPT_BACKDATE_MS,
                    confirmed: false,
                };
                self.entries.push((key, st));
                proof {
                    assert(self.pairs() =~= old_pairs.push((peer@, st)));
                    lemma_push(old_pairs, peer@, st);
                }
            },
        }
    }

    /// A peer answered a handshake, or sent a valid one, at `now`: it is
    /// confirmed (added first when unknown).
    pub fn confirm(&mut self, peer: &[u8], now: u64)
        requires
            old(self).wf(),
            now >= FIRST_ATTEMPT_BACKDATE_MS,
        ensures
            final(self).wf(),
            final(self)@ == old(self)@.insert(
                peer@,
                HandshakeState {
                    confirmed: true,
                    ..(if old(self)@.contains_key(peer@) {
                        old(self)@[peer@]
                    } else {
                        fresh_state(now)
                    })
                },
            ),
    {
        let ghost old_pairs = self.pairs();
        match self.find(peer) {
            Some(i) => {
                let (key, st) = self.entries.remove(i);
                let new_st = HandshakeState { confirmed: true, ..st };
                self.entries.insert(i, (key, new_st));
                proof {
                    assert(self.pairs() =~= old_pairs.update(i as int, (old_pairs[i as int].0, new_st)));
                    lemma_update(old_pairs, i as int, new_st);
                }
            },
            None => {
                let key = crate::bytes::copy_range(peer, 0, peer.len());
                assert(key@ =~= peer@);
                let st = HandshakeState {
                    attempts: 0,
                    last_attempt: now - FIRST_ATTEMPT_BACKDATE_MS,
                    confirmed: true,
                };
                self.entries.push((key, st));
                proof {
                    assert(self.pairs() =~= old_pairs.push((peer@, st)));
                    lemma_push(old_pairs, peer@, st);
                }
            },
        }
    }

    /// A handshake request was sent to `peer` at `now`: one more attempt,
    /// made now.
    pub fn record_attempt(&mut self, peer: &[u8], now: u64)
        requires
            old(self).wf(),
            old(self)@.contains_key(peer@),
            old(self)@[peer@].attempts < 255,
        ensures
            final(self).wf(),
            final(self)@ == old(self)@.insert(
                peer@,
                HandshakeState {
                    attempts: (old(self)@[peer@].attempts + 1) as u8,
                    last_attempt: now,
                    confirmed: old(self)@[peer@].confirmed,
                },
            ),
    {
        let ghost old_pairs = self.pairs();
        match self.find(peer) {
            Some(i) => {
                let (key, st) = self.entries.remove(i);
                let new_st = HandshakeState {
                    attempts: st.attempts + 1,
                    last_attempt: now,
                    confirmed: st.confirmed,
                };
                self.entries.insert(i, (key, new_st));
                proof {
                    assert(self.pairs() =~= old_pairs.update(i as int, (old_pairs[i as int].0, new_st)));
                    lemma_update(old_pairs, i as int, new_st);
                }
            },
            None => {},
        }
    }

    /// The periodic pass at `now`: peers that never answered and were
    /// tried three times are dropped and returned first; of the others, the
    /// unconfirmed ones last tried two seconds ago or earlier are returned
    /// second, to be tried again. Both lists keep table order.
    pub fn tick(&mut self, now: u64) -> (r: (Vec<Vec<u8>>, Vec<Vec<u8>>))
        requires
            old(self).wf(),
        ensures
            final(self).wf(),
            final(self)@ == restrict(old(self)@, |p: (Seq<u8>, HandshakeState)| !exhausted(p.1)),
            r.0@.map_values(|v: Vec<u8>| v@) == peers_where(
                old(self).pairs(),
                |p: (Seq<u8>, HandshakeState)| exhausted(p.1),
            ),
            r.1@.map_values(|v: Vec<u8>| v@) == peers_where(
                old(self).pairs(),
                |p: (Seq<u8>, HandshakeState)| retry_due(p.1, now),
            ),
    {
        let ghost old_pairs = self.pairs();
        let ghost keep = |p: (Seq<u8>, HandshakeState)| !exhausted(p.1);
        let ghost drop = |p: (Seq<u8>, HandshakeState)| exhausted(p.1);
        let ghost due = |p: (Seq<u8>, HandshakeState)| retry_due(p.1, now);
        let ghost key_of = |p: (Seq<u8>, HandshakeState)| p.0;
        let mut kept: Vec<(Vec<u8>, HandshakeState)> = Vec::new();
        let mut dropped: Vec<Vec<u8>> = Vec::new();
        let mut retry: Vec<Vec<u8>> = Vec::new();
        let mut i: usize = 0;
        while i < self.entries.len()
            invariant
                i <= self.entries@.len(),
                old_pairs == self.pairs(),
                kept@.map_values(|e: (Vec<u8>, HandshakeState)| (e.0@, e.1)) == old_pairs.take(
                    i as int,
                ).filter(keep),
                dropped@.map_values(|v: Vec<u8>| v@) == old_pairs.take(i as int).filter(drop).map_values(
                    key_of,
                ),
                retry@.map_values(|v: Vec<u8>| v@) == old_pairs.take(i as int).filter(due).map_values(
                    key_of,
                ),
                keep == (|p: (Seq<u8>, HandshakeState)| !exhausted(p.1)),
                drop == (|p: (Seq<u8>, HandshakeState)| exhausted(p.1)),
                due == (|p: (Seq<u8>, HandshakeState)| retry_due(p.1, now)),
                key_of == (|p: (Seq<u8>, HandshakeState)| p.0),
            decreases self.entries@.len() - i,
        {
            let ghost p = old_pairs[i as int];
            proof {
                assert(old_pairs.take(i + 1) =~= old_pairs.take(i as int).push(p));
                old_pairs.take(i as int).lemma_filter_push(p, keep);
                old_pairs.take(i as int).lemma_filter_push(p, drop);
                old_pairs.take(i as int).lemma_filter_push(p, due);
            }
            let st = self.entries[i].1;
            let key = self.entries[i].0.clone();
            assert(key@ == p.0);
            if !st.confirmed && st.attempts >= MAX_HANDSHAKE_ATTEMPTS {
                let ghost before = dropped@.map_values(|v: Vec<u8>| v@);
                dropped.push(key);
                proof {
                    assert(dropped@.map_values(|v: Vec<u8>| v@) =~= before.push(p.0));
                }
            } else {
                if !st.confirmed && now >= st.last_attempt && now - st.last_attempt >= HANDSHAKE_RETRY_MS {
                    let ghost before = retry@.map_values(|v: Vec<u8>| v@);
                    let k2 = key.clone();
                    retry.push(k2);
                    proof {
                        assert(retry@.map_values(|v: Vec<u8>| v@) =~= before.push(p.0));
                    }
                }
                let ghost before = kept@.map_values(|e: (Vec<u8>, HandshakeState)| (e.0@, e.1));
                kept.push((key, st));
                proof {
                    assert(kept@.map_values(|e: (Vec<u8>, HandshakeState)| (e.0@, e.1)) =~= before.push(
                        p,
                    ));
                }
            }
            i = i + 1;
        }
        proof {
            assert(old_pairs.take(i as int) =~= old_pairs);
            lemma_filter(old_pairs, keep);
        }
        self.entries = kept;
        (dropped, retry)
    }
}

/// A confirmed peer is never dropped by the periodic pass, and every peer
/// that stays keeps its state; a peer that is dropped had been tried three
/// times without an answer.
pub proof fn lemma_tick_keeps_answering_peers(before: Map<Seq<u8>, HandshakeState>, peer: Seq<u8>)
    requires
        before.contains_key(peer),
    ensures
        ({
            let after = restrict(before, |p: (Seq<u8>, HandshakeState)| !exhausted(p.1));
            &&& before[peer].confirmed ==> after.contains_key(peer) && after[peer] == before[peer]
            &&& !after.contains_key(peer) ==> !before[peer].confirmed && before[peer].attempts
                >= MAX_HANDSHAKE_ATTEMPTS
            &&& after.contains_key(peer) ==> after[peer] == before[peer]
        }),
{
}

/// A peer discovered and never answering is tried at once, and is dropped
/// by the pass after its third attempt: three recorded attempts make it
/// exhausted, and two do not.
pub proof fn lemma_three_attempts_exhaust(now: u64, t2: u64, t3: u64)
    requires
        now >= FIRST_ATTEMPT_BACKDATE_MS,
    ensures
        retry_due(fresh_state(now), now),
        !exhausted(HandshakeState { attempts: 2, last_attempt: t2, confirmed: false }),
        exhausted(HandshakeState { attempts: 3, last_attempt: t3, confirmed: false }),
        !exhausted(HandshakeState { attempts: 3, last_attempt: t3, confirmed: true }),
{
}

/// One component of a peer address announced over mDNS, as far as the
/// address book cares.
#[derive(Debug, Clone, Copy, PartialEq, Eq, Structural)]
pub enum AddrPart {
    /// An IPv4 address.
    Ip4(u8, u8, u8, u8),
    /// A TCP port.
    Tcp(u16),
    /// Anything else.
    Other,
}

/// An IPv4 address other than a loopback (127/8) or the unspecified one.
pub open spec fn external_ip4(p: AddrPart) -> bool {
    match p {
        AddrPart::Ip4(a, b, c, d) => a != 127 && !(a == 0 && b == 0 && c == 0 && d == 0),
        _ => false,
    }
}

/// The last TCP port among the parts, if any.
pub open spec fn last_tcp_port(parts: Seq<AddrPart>) -> Option<u16>
    decreases parts.len(),
{
    if parts.len() == 0 {
        None
    } else {
        match parts.last() {
            AddrPart::Tcp(port) => Some(port),
            _ => last_tcp_port(parts.drop_last()),
        }
    }
}

/// For a peer discovered at an external IPv4 address with a TCP port, the
/// loopback address with that port is added too, so that nodes of one
/// process reach each other: `/ip4/127.0.0.1/tcp/<port>/p2p/<peer>`.
pub fn loopback_dial_address(parts: &Vec<AddrPart>, peer_id: &str) -> (r: Option<String>)
    ensures
        r is Some <==> ((exists|i: int| 0 <= i < parts@.len() && external_ip4(#[trigger] parts@[i]))
            && last_tcp_port(parts@) is Some),
        r matches Some(a) ==> a@ == "/ip4/127.0.0.1/tcp/"@ + decimal_chars(
            last_tcp_port(parts@)->0 as nat,
        ) + "/p2p/"@ + peer_id@,
{
    let mut external = false;
    let mut port: Option<u16> = None;
    let mut i: usize = 0;
    while i < parts.len()
        invariant
            i <= parts@.len(),
            external == (exists|j: int| 0 <= j < i && external_ip4(#[trigger] parts@[j])),
            port == last_tcp_port(parts@.take(i as int)),
        decreases parts@.len() - i,
    {
        proof {
            assert(parts@.take(i + 1).drop_last() =~= parts@.take(i as int));
            assert(parts@.take(i + 1).last() == parts@[i as int]);
        }
        match parts[i] {
            AddrPart::Ip4(a, b, c, d) => {
                if a != 127 && !(a == 0 && b == 0 && c == 0 && d == 0) {
                    external = true;
                }
            },
            AddrPart::Tcp(p) => {
                port = Some(p);
            },
            AddrPart::Other => {},
        }
        i = i + 1;
    }
    proof {
        assert(parts@.take(i as int) =~= parts@);
    }
    match port {
        Some(p) => {
            if external {
                let s = String::from_str("/ip4/127.0.0.1/tcp/").concat(
                    u64_to_decimal(p as u64).as_str(),
                ).concat("/p2p/").concat(peer_id);
                Some(s)
            } else {
                None
            }
        },
        None => None,
    }
}

} // verus!
