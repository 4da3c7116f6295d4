//! The error messages of the control plane, built in one place.
use vstd::prelude::*;

use crate::text::{decimal_chars, u64_to_decimal};

verus! {

fn usize_to_decimal(n: usize) -> (s: String)
    ensures
        s@ == decimal_chars(n as nat),
{
    u64_to_decimal(n as u64)
}

/// The control sender has not been set up.
pub fn control_sender_unavailable() -> (s: String)
    ensures
        s@ == "control sender not available"@,
{
    String::from_str("control sender not available")
}

/// Sending the control message `op` failed with `e`.
pub fn wrap_send_error(op: &str, e: &str) -> (s: String)
    ensures
        s@ == "failed to send "@ + op@ + " control message: "@ + e@,
{
    String::from_str("failed to send ").concat(op).concat(" control message: ").concat(e)
}

/// Too few key shares were gathered from the network.
pub fn insufficient_key_shares(have: usize, need: usize) -> (s: String)
    ensures
        s@ == "insufficient key shares after distributed retrieval: have "@ + decimal_chars(
            have as nat,
        ) + " need "@ + decimal_chars(need as nat),
{
    let h = usize_to_decimal(have);
    let n = usize_to_decimal(need);
    String::from_str("insufficient key shares after distributed retrieval: have ").concat(
        h.as_str(),
    ).concat(" need ").concat(n.as_str())
}

/// Too few key shares are held locally.
pub fn not_enough_local_key_shares(more_needed: usize) -> (s: String)
    ensures
        s@ == "not enough local key shares - need "@ + decimal_chars(more_needed as nat) + " more"@,
{
    let m = usize_to_decimal(more_needed);
    String::from_str("not enough local key shares - need ").concat(m.as_str()).concat(" more")
}

} // verus!
