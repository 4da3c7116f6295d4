//! Hash values computed with std's `DefaultHasher` (SipHash with the fixed
//! keys that `DefaultHasher::new` uses). Each hash is named as a function of
//! the hashed values; the same values give the same hash in every process
//! built with the same standard library. std does not promise the same hash
//! across Rust releases or platforms, so these values are not meant to be
//! compared between builds.
use std::hash::{Hash, Hasher};
use vstd::prelude::*;

verus! {

/// Hash of a byte slice.
pub uninterp spec fn spec_hash_bytes(data: Seq<u8>) -> u64;

/// Hash of a string followed by a byte slice.
pub uninterp spec fn spec_hash_str_then_bytes(text: Seq<char>, data: Seq<u8>) -> u64;

/// Hash of a string.
pub uninterp spec fn spec_hash_str(text: Seq<char>) -> u64;

/// Hash of a byte slice followed by a string.
pub uninterp spec fn spec_hash_bytes_then_str(data: Seq<u8>, text: Seq<char>) -> u64;

/// Hash of three strings in order.
pub uninterp spec fn spec_hash_three_strs(a: Seq<char>, b: Seq<char>, c: Seq<char>) -> u64;

/// `DefaultHasher::new()`, then `data.hash(..)`, then `finish()`; the result
/// is `spec_hash_bytes` of the bytes.
#[verifier::external_body]
pub(crate) fn hash_bytes(data: &[u8]) -> (h: u64)
    ensures
        h == spec_hash_bytes(data@),
{
    let mut hasher = std::collections::hash_map::DefaultHasher::new();
    data.hash(&mut hasher);
    hasher.finish()
}

/// `DefaultHasher::new()`, then `text.hash(..)` and `data.hash(..)`, then
/// `finish()`; the result is `spec_hash_str_then_bytes` of the values.
#[verifier::external_body]
pub(crate) fn hash_str_then_bytes(text: &String, data: &[u8]) -> (h: u64)
    ensures
        h == spec_hash_str_then_bytes(text@, data@),
{
    let mut hasher = std::collections::hash_map::DefaultHasher::new();
    text.hash(&mut hasher);
    data.hash(&mut hasher);
    hasher.finish()
}

/// `DefaultHasher::new()`, then `text.hash(..)`, then `finish()`; the
/// result is `spec_hash_str` of the string.
#[verifier::external_body]
pub(crate) fn hash_str(text: &str) -> (h: u64)
    ensures
        h == spec_hash_str(text@),
{
    let mut hasher = std::collections::hash_map::DefaultHasher::new();
    text.hash(&mut hasher);
    hasher.finish()
}

/// `DefaultHasher::new()`, then `data.hash(..)` and `text.hash(..)`, then
/// `finish()`; the result is `spec_hash_bytes_then_str` of the values.
#[verifier::external_body]
pub(crate) fn hash_bytes_then_str(data: &[u8], text: &str) -> (h: u64)
    ensures
        h == spec_hash_bytes_then_str(data@, text@),
{
    let mut hasher = std::collections::hash_map::DefaultHasher::new();
    data.hash(&mut hasher);
    text.hash(&mut hasher);
    hasher.finish()
}

/// `DefaultHasher::new()`, then `a.hash(..)`, `b.hash(..)`, `c.hash(..)`,
/// then `finish()`; the result is `spec_hash_three_strs` of the strings.
#[verifier::external_body]
pub(crate) fn hash_three_strs(a: &str, b: &str, c: &str) -> (h: u64)
    ensures
        h == spec_hash_three_strs(a@, b@, c@),
{
    let mut hasher = std::collections::hash_map::DefaultHasher::new();
    a.hash(&mut hasher);
    b.hash(&mut hasher);
    c.hash(&mut hasher);
    hasher.finish()
}

} // verus!
