//! Signed envelopes as a node produces them: the nonce and timestamp that
//! go into an envelope, and the record of a signed envelope.
use vstd::prelude::*;

use crate::text::{decimal_chars, hex_chars, u64_to_decimal, u64_to_hex};

verus! {

/// `rand::random::<u64>()`. Nothing is stated of the value.
#[verifier::external_body]
fn random_u64() -> u64 {
    rand::random::<u64>()
}

/// `rand::thread_rng().gen::<u32>()`. Nothing is stated of the value.
#[verifier::external_body]
fn random_u32() -> u32 {
    rand::Rng::gen::<u32>(&mut rand::thread_rng())
}

/// Result of signing a payload into a protocol envelope.
#[derive(Clone, Debug)]
pub struct SignedEnvelope {
    bytes: Vec<u8>,
    nonce: String,
    timestamp_ms: u64,
    signature_b64: String,
    public_key_b64: String,
}

impl SignedEnvelope {
    /// Record a signed envelope and what went into it.
    pub fn new(
        bytes: Vec<u8>,
        nonce: String,
        timestamp_ms: u64,
        signature_b64: String,
        public_key_b64: String,
    ) -> (e: Self)
        ensures
            e.spec_bytes() == bytes@,
            e.spec_nonce() == nonce@,
            e.spec_timestamp_ms() == timestamp_ms,
            e.spec_signature_b64() == signature_b64@,
            e.spec_public_key_b64() == public_key_b64@,
    {
        SignedEnvelope { bytes, nonce, timestamp_ms, signature_b64, public_key_b64 }
    }

    pub closed spec fn spec_bytes(&self) -> Seq<u8> {
        self.bytes@
    }

    pub closed spec fn spec_nonce(&self) -> Seq<char> {
        self.nonce@
    }

    pub closed spec fn spec_timestamp_ms(&self) -> u64 {
        self.timestamp_ms
    }

    pub closed spec fn spec_signature_b64(&self) -> Seq<char> {
        self.signature_b64@
    }

    pub closed spec fn spec_public_key_b64(&self) -> Seq<char> {
        self.public_key_b64@
    }

    /// Borrow the serialized envelope bytes.
    pub fn bytes(&self) -> (b: &[u8])
        ensures
            b@ == self.spec_bytes(),
    {
        self.bytes.as_slice()
    }

    /// Consume the struct and return the serialized envelope bytes.
    pub fn into_bytes(self) -> (b: Vec<u8>)
        ensures
            b@ == self.spec_bytes(),
    {
        self.bytes
    }

    /// Nonce associated with the envelope.
    pub fn nonce(&self) -> (n: &str)
        ensures
            n@ == self.spec_nonce(),
    {
        self.nonce.as_str()
    }

    /// Millisecond timestamp embedded in the envelope.
    pub fn timestamp_ms(&self) -> (t: u64)
        ensures
            t == self.spec_timestamp_ms(),
    {
        self.timestamp_ms
    }

    /// Base64 signature included in the envelope.
    pub fn signature_b64(&self) -> (s: &str)
        ensures
            s@ == self.spec_signature_b64(),
    {
        self.signature_b64.as_str()
    }

    /// Base64 public key included in the envelope.
    pub fn public_key_b64(&self) -> (s: &str)
        ensures
            s@ == self.spec_public_key_b64(),
    {
        self.public_key_b64.as_str()
    }
}

/// The nonce of an envelope: the payload type, a hyphen, and a 64-bit
/// random number in 16 lower-case hex digits.
pub fn envelope_nonce(payload_type: &str, random: u64) -> (n: String)
    ensures
        n@ == payload_type@ + "-"@ + hex_chars(random as nat, 16),
{
    let hex = u64_to_hex(random, 16);
    String::from_str(payload_type).concat("-").concat(hex.as_str())
}

/// A fresh envelope nonce for `payload_type`.
pub fn fresh_envelope_nonce(payload_type: &str) -> (n: String)
    ensures
        exists|r: u64| n@ == payload_type@ + "-"@ + #[trigger] hex_chars(r as nat, 16),
{
    let r = random_u64();
    envelope_nonce(payload_type, r)
}

/// A request nonce: `<prefix>_<n>`, or `nonce_<n>` without a prefix, for
/// a 32-bit number `n` in decimal.
pub fn request_nonce(prefix: Option<&str>, random: u32) -> (n: String)
    ensures
        n@ == match prefix {
            Some(p) => p@,
            None => "nonce"@,
        } + "_"@ + decimal_chars(random as nat),
{
    let digits = u64_to_decimal(random as u64);
    let head = match prefix {
        Some(p) => String::from_str(p),
        None => String::from_str("nonce"),
    };
    head.concat("_").concat(digits.as_str())
}

/// A fresh request nonce with a random 32-bit number.
pub fn make_nonce(prefix: Option<&str>) -> (n: String)
    ensures
        exists|r: u32| n@ == match prefix {
            Some(p) => p@,
            None => "nonce"@,
        } + "_"@ + #[trigger] decimal_chars(r as nat),
{
    let r = random_u32();
    request_nonce(prefix, r)
}

/// The current time in milliseconds since the Unix epoch (zero before the
/// epoch). Nothing is stated of the value.
pub fn make_timestamp_ms() -> u64 {
    crate::clock::current_timestamp_millis()
}

} // verus!
