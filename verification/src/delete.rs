//! Deciding a delete request: whether the requester owns the manifest on
//! this node, whether the delete may go ahead, and what is answered once
//! the workloads were removed; and, for a task deleted through this node,
//! which providers are asked and what the requester is answered (removing
//! workloads and sending requests are the caller's part).
use vstd::prelude::*;

use crate::bytes::copy_range;
use crate::text::{bytes_eq, decimal_chars, u64_to_decimal};

verus! {

/// How the requester relates to the manifest's recorded owner.
#[derive(Debug, Clone, Copy, PartialEq, Eq, Structural)]
pub enum OwnershipStatus {
    /// The requester's key is the recorded owner key.
    Match,
    /// Another key is recorded as owner.
    Mismatch,
    /// No owner (or an empty key) is recorded on this node.
    Unknown,
}

/// The ownership status of a request signed with `envelope_pubkey` when
/// `stored_owner` is recorded for the manifest.
pub open spec fn spec_ownership(stored_owner: Option<Seq<u8>>, envelope_pubkey: Seq<u8>) -> OwnershipStatus {
    match stored_owner {
        None => OwnershipStatus::Unknown,
        Some(o) => if o.len() == 0 {
            OwnershipStatus::Unknown
        } else if o == envelope_pubkey {
            OwnershipStatus::Match
        } else {
            OwnershipStatus::Mismatch
        },
    }
}

/// Compare the requester's key with the recorded owner of the manifest.
pub fn verify_delete_ownership(stored_owner: Option<&[u8]>, envelope_pubkey: &[u8]) -> (s:
    OwnershipStatus)
    ensures
        s == spec_ownership(
            match stored_owner {
                Some(o) => Some(o@),
                None => None,
            },
            envelope_pubkey@,
        ),
{
    match stored_owner {
        None => OwnershipStatus::Unknown,
        Some(o) => {
            if o.len() == 0 {
                OwnershipStatus::Unknown
            } else if bytes_eq(o, envelope_pubkey) {
                OwnershipStatus::Match
            } else {
                OwnershipStatus::Mismatch
            }
        },
    }
}

/// Whether a delete may go ahead: with a matching owner, or with a
/// mismatching one when forced. Otherwise the reason it is denied.
pub fn delete_permission(status: OwnershipStatus, force: bool) -> (r: Result<(), String>)
    ensures
        match status {
            OwnershipStatus::Match => r is Ok,
            OwnershipStatus::Mismatch => if force {
                r is Ok
            } else {
                r matches Err(m) && m@ == "ownership verification failed"@
            },
            OwnershipStatus::Unknown => r matches Err(m) && m@
                == "ownership unknown for manifest on this node"@,
        },
{
    match status {
        OwnershipStatus::Match => Ok(()),
        OwnershipStatus::Mismatch => {
            if force {
                Ok(())
            } else {
                Err(String::from_str("ownership verification failed"))
            }
        },
        OwnershipStatus::Unknown => Err(String::from_str("ownership unknown for manifest on this node")),
    }
}

/// The answer to a delete once the workloads were removed, or removing
/// them failed: (ok, message, removed workload ids).
pub fn delete_outcome(removed: Result<Vec<String>, String>) -> (r: (bool, String, Vec<String>))
    ensures
        match removed {
            Ok(w) => r.0 && r.2@ == w@ && r.1@ == if w@.len() == 0 {
                "no workloads found for manifest"@
            } else {
                "removed "@ + decimal_chars(w@.len()) + " workloads"@
            },
            Err(e) => !r.0 && r.2@.len() == 0 && r.1@ == "failed to remove workloads: "@ + e@,
        },
{
    match removed {
        Ok(w) => {
            if w.len() == 0 {
                (true, String::from_str("no workloads found for manifest"), w)
            } else {
                let n = u64_to_decimal(w.len() as u64);
                let msg = String::from_str("removed ").concat(n.as_str()).concat(" workloads");
                (true, msg, w)
            }
        },
        Err(e) => (false, String::from_str("failed to remove workloads: ").concat(e.as_str()), Vec::new()),
    }
}


/// The peer id bytes a text names (base58), when it names one.
pub uninterp spec fn spec_peer_id_from_text(text: Seq<char>) -> Option<Seq<u8>>;

/// `text.parse::<libp2p::PeerId>()`, the peer id then taken as its bytes;
/// the result is named `spec_peer_id_from_text` of the text.
#[verifier::external_body]
fn peer_id_from_text(text: &str) -> (r: Option<Vec<u8>>)
    ensures
        match r {
            Some(b) => spec_peer_id_from_text(text@) == Some(b@),
            None => spec_peer_id_from_text(text@) is None,
        },
{
    text.parse::<libp2p::PeerId>().ok().map(|p| p.to_bytes())
}

/// The Debug text of a list of strings (`["a", "b"]`).
pub uninterp spec fn spec_debug_text_list(items: Seq<Seq<char>>) -> Seq<char>;

/// `format!("{:?}", items)`; the result is named `spec_debug_text_list` of
/// the strings.
#[verifier::external_body]
fn debug_text_list(items: &Vec<String>) -> (s: String)
    ensures
        s@ == spec_debug_text_list(items@.map_values(|x: String| x@)),
{
    format!("{:?}", items)
}

/// The operation id of a task deletion requested at `now_ms`:
/// `delete-<task id>-<now_ms>`.
pub fn delete_operation_id(task_id: &str, now_ms: u64) -> (s: String)
    ensures
        s@ == "delete-"@ + task_id@ + "-"@ + decimal_chars(now_ms as nat),
{
    String::from_str("delete-").concat(task_id).concat("-").concat(u64_to_decimal(now_ms).as_str())
}

/// Whether `needle` occurs in `hay`.
pub open spec fn bytes_contain(hay: Seq<u8>, needle: Seq<u8>) -> bool {
    exists|i: int| 0 <= i && i + needle.len() <= hay.len() && #[trigger] hay.subrange(i, i + needle.len()) == needle
}

/// The bytes of `force=true`.
pub open spec fn force_flag() -> Seq<u8> {
    seq![102u8, 111, 114, 99, 101, 61, 116, 114, 117, 101]
}

/// Whether a delete request body asks for a forced delete: it contains
/// `force=true`.
pub fn delete_forced(body: &[u8]) -> (r: bool)
    ensures
        r == bytes_contain(body@, force_flag()),
{
    let needle: [u8; 10] = [102u8, 111, 114, 99, 101, 61, 116, 114, 117, 101];
    assert(needle@ =~= force_flag());
    let n = body.len();
    if n < 10 {
        return false;
    }
    let mut i: usize = 0;
    while i <= n - 10
        invariant
            n == body@.len(),
            n >= 10,
            i <= n - 9,
            needle@ == force_flag(),
            forall|j: int| 0 <= j < i ==> #[trigger] body@.subrange(j, j + 10) != force_flag(),
        decreases n - 9 - i,
    {
        let window = copy_range(body, i, 10);
        if bytes_eq(window.as_slice(), &needle) {
            assert(body@.subrange(i as int, i + force_flag().len()) == force_flag());
            return true;
        }
        i = i + 1;
    }
    proof {
        assert forall|j: int|
            0 <= j && j + force_flag().len() <= body@.len() implies #[trigger] body@.subrange(
            j,
            j + force_flag().len(),
        ) != force_flag() by {
            assert(j < i);
        }
    }
    false
}

/// A provider of a task to delete, as this node treats it.
#[derive(Debug, Clone, PartialEq, Eq)]
pub enum DeleteTarget {
    /// The text is not a peer id.
    InvalidPeer(String),
    /// This node itself: its workloads are removed here.
    Local(String),
    /// Another node: a delete request is sent to it.
    Remote(String),
}

/// How a provider text is treated when this node is `local_peer`.
pub open spec fn target_of(provider: Seq<char>, local_peer: Seq<u8>) -> (int, Seq<char>) {
    match spec_peer_id_from_text(provider) {
        None => (0, provider),
        Some(b) => if b == local_peer {
            (1, provider)
        } else {
            (2, provider)
        },
    }
}

/// The kind and text of a target: 0 invalid, 1 local, 2 remote.
pub open spec fn target_view(t: DeleteTarget) -> (int, Seq<char>) {
    match t {
        DeleteTarget::InvalidPeer(p) => (0, p@),
        DeleteTarget::Local(p) => (1, p@),
        DeleteTarget::Remote(p) => (2, p@),
    }
}

/// The providers of a task to delete, each as invalid, this node, or
/// another node, in their order.
pub fn classify_delete_targets(providers: &Vec<String>, local_peer: &[u8]) -> (r: Vec<DeleteTarget>)
    ensures
        r@.len() == providers@.len(),
        forall|i: int|
            0 <= i < r@.len() ==> #[trigger] target_view(r@[i]) == target_of(providers@[i]@, local_peer@),
{
    let mut out: Vec<DeleteTarget> = Vec::new();
    let mut i: usize = 0;
    while i < providers.len()
        invariant
            i <= providers@.len(),
            out@.len() == i,
            forall|j: int|
                0 <= j < i ==> #[trigger] target_view(out@[j]) == target_of(providers@[j]@, local_peer@),
        decreases providers@.len() - i,
    {
        let p = providers[i].clone();
        let t = match peer_id_from_text(p.as_str()) {
            None => DeleteTarget::InvalidPeer(p),
            Some(b) => {
                if bytes_eq(b.as_slice(), local_peer) {
                    DeleteTarget::Local(p)
                } else {
                    DeleteTarget::Remote(p)
                }
            },
        };
        out.push(t);
        i = i + 1;
    }
    out
}

/// What came of one provider of a task to delete.
#[derive(Debug, Clone, PartialEq, Eq)]
pub enum TargetOutcome {
    /// The provider text is not a peer id.
    InvalidPeer,
    /// The workloads here were removed.
    LocalRemoved(Vec<String>),
    /// Removing the workloads here failed.
    LocalFailed(String),
    /// The delete request was sent.
    RemoteSent,
    /// Sending the delete request failed.
    RemoteFailed(String),
}

/// The result of removing this node's workloads for a task to delete.
pub fn local_delete_result(removed: Result<Vec<String>, String>) -> (r: Result<Vec<String>, String>)
    ensures
        match removed {
            Ok(w) => r matches Ok(v) && v@ == w@,
            Err(e) => r matches Err(m) && m@ == "local deletion failed: "@ + e@,
        },
{
    match removed {
        Ok(w) => Ok(w),
        Err(e) => Err(String::from_str("local deletion failed: ").concat(e.as_str())),
    }
}

/// The providers that were reached, the failures (`<peer>:<reason>`) and
/// the workloads removed here, as a task deletion goes on.
#[derive(Debug, Clone)]
pub struct DeleteTally {
    pub successful: Vec<String>,
    pub failed: Vec<String>,
    pub removed_workloads: Vec<String>,
}

/// The failure entry of a provider, if the outcome is a failure.
pub open spec fn failure_entry(peer: Seq<char>, o: TargetOutcome) -> Option<Seq<char>> {
    match o {
        TargetOutcome::InvalidPeer => Some(peer + ":invalid_peer_id"@),
        TargetOutcome::LocalFailed(e) => Some(peer + ":self_delete_failed:"@ + e@),
        TargetOutcome::RemoteFailed(e) => Some(peer + ":"@ + e@),
        _ => None,
    }
}

/// Whether a provider was reached.
pub open spec fn reached(o: TargetOutcome) -> bool {
    match o {
        TargetOutcome::LocalRemoved(_) => true,
        TargetOutcome::RemoteSent => true,
        _ => false,
    }
}

/// The workloads an outcome removed here.
pub open spec fn removed_by(o: TargetOutcome) -> Seq<Seq<char>> {
    match o {
        TargetOutcome::LocalRemoved(w) => texts(w@),
        _ => Seq::empty(),
    }
}

pub open spec fn texts(v: Seq<String>) -> Seq<Seq<char>> {
    v.map_values(|x: String| x@)
}

impl DeleteTally {
    /// Nothing reached yet.
    pub fn new() -> (t: Self)
        ensures
            t.successful@.len() == 0,
            t.failed@.len() == 0,
            t.removed_workloads@.len() == 0,
    {
        DeleteTally { successful: Vec::new(), failed: Vec::new(), removed_workloads: Vec::new() }
    }

    /// Add what came of the provider `peer`: a reached provider is counted,
    /// a failure recorded as `<peer>:<reason>`, and the workloads removed
    /// here added.
    pub fn record(&mut self, peer: String, outcome: TargetOutcome)
        ensures
            texts(final(self).successful@) == if reached(outcome) {
                texts(old(self).successful@).push(peer@)
            } else {
                texts(old(self).successful@)
            },
            texts(final(self).failed@) == match failure_entry(peer@, outcome) {
                Some(f) => texts(old(self).failed@).push(f),
                None => texts(old(self).failed@),
            },
            texts(final(self).removed_workloads@) == texts(old(self).removed_workloads@) + removed_by(
                outcome,
            ),
    {
        let ghost s0 = texts(self.successful@);
        let ghost f0 = texts(self.failed@);
        let ghost w0 = texts(self.removed_workloads@);
        let ghost pv = peer@;
        match outcome {
            TargetOutcome::InvalidPeer => {
                self.failed.push(peer.concat(":invalid_peer_id"));
                assert(texts(self.failed@) =~= f0.push(peer@ + ":invalid_peer_id"@));
                assert(texts(self.removed_workloads@) =~= w0 + Seq::<Seq<char>>::empty());
            },
            TargetOutcome::LocalRemoved(w) => {
                let ghost wv = texts(w@);
                self.successful.push(peer);
                assert(texts(self.successful@) =~= s0.push(peer@));
                let mut i: usize = 0;
                while i < w.len()
                    invariant
                        i <= w@.len(),
                        wv == texts(w@),
                        texts(self.removed_workloads@) == w0 + wv.take(i as int),
                        texts(self.successful@) == s0.push(pv),
                        texts(self.failed@) == f0,
                    decreases w@.len() - i,
                {
                    let ghost before = texts(self.removed_workloads@);
                    let item = w[i].clone();
                    assert(item@ == wv[i as int]);
                    self.removed_workloads.push(item);
                    assert(texts(self.removed_workloads@) =~= before.push(wv[i as int]));
                    assert(wv.take(i + 1) =~= wv.take(i as int).push(wv[i as int]));
                    assert(w0 + wv.take(i + 1) =~= (w0 + wv.take(i as int)).push(wv[i as int]));
                    i = i + 1;
                }
                assert(wv.take(i as int) =~= wv);
            },
            TargetOutcome::LocalFailed(e) => {
                self.failed.push(peer.concat(":self_delete_failed:").concat(e.as_str()));
                assert(texts(self.failed@) =~= f0.push(peer@ + ":self_delete_failed:"@ + e@));
                assert(texts(self.removed_workloads@) =~= w0 + Seq::<Seq<char>>::empty());
            },
            TargetOutcome::RemoteSent => {
                self.successful.push(peer);
                assert(texts(self.successful@) =~= s0.push(peer@));
                assert(texts(self.removed_workloads@) =~= w0 + Seq::<Seq<char>>::empty());
            },
            TargetOutcome::RemoteFailed(e) => {
                self.failed.push(peer.concat(":").concat(e.as_str()));
                assert(texts(self.failed@) =~= f0.push(peer@ + ":"@ + e@));
                assert(texts(self.removed_workloads@) =~= w0 + Seq::<Seq<char>>::empty());
            },
        }
    }

    /// The answer to the deletion: it succeeded when some provider was
    /// reached, with a message counting the providers reached and listing
    /// the failures.
    pub fn summary(&self) -> (r: (bool, String))
        requires
            self.successful@.len() + self.failed@.len() <= u64::MAX,
        ensures
            r.0 == (self.successful@.len() > 0),
            r.1@ == if self.successful@.len() > 0 {
                if self.failed@.len() == 0 {
                    "Delete requests sent to "@ + decimal_chars(self.successful@.len()) + " providers"@
                } else {
                    "Delete requests sent to "@ + decimal_chars(self.successful@.len()) + "/"@
                        + decimal_chars((self.successful@.len() + self.failed@.len()) as nat)
                        + " providers. Failures: "@ + spec_debug_text_list(texts(self.failed@))
                }
            } else {
                "Failed to send delete requests to any providers: "@ + spec_debug_text_list(
                    texts(self.failed@),
                )
            },
    {
        let ns = self.successful.len();
        let nf = self.failed.len();
        if ns > 0 {
            if nf == 0 {
                let msg = String::from_str("Delete requests sent to ").concat(
                    u64_to_decimal(ns as u64).as_str(),
                ).concat(" providers");
                (true, msg)
            } else {
                let total = (ns as u64) + (nf as u64);
                let msg = String::from_str("Delete requests sent to ").concat(
                    u64_to_decimal(ns as u64).as_str(),
                ).concat("/").concat(u64_to_decimal(total).as_str()).concat(
                    " providers. Failures: ",
                ).concat(debug_text_list(&self.failed).as_str());
                (true, msg)
            }
        } else {
            let msg = String::from_str("Failed to send delete requests to any providers: ").concat(
                debug_text_list(&self.failed).as_str(),
            );
            (false, msg)
        }
    }
}

/// The answer to a deletion that found no provider.
pub fn no_providers_reply() -> (r: (bool, String))
    ensures
        r.0,
        r.1@ == "No providers found for task"@,
{
    (true, String::from_str("No providers found for task"))
}

} // verus!
