//! Checking a signed envelope received from a peer: its base64 signature
//! and public key are decoded, its nonce is checked against replays, and
//! its signature over the canonical bytes is verified.
use vstd::prelude::*;

use crate::crypto::{
    base64_decode, has_colon, normalize_and_decode_signature, signature_b64_part, spec_base64_decode,
    spec_mldsa65_verify, verify_envelope,
};
use crate::replay::{check_outcome, global_peer, pruned, NonceError, NonceStore};

verus! {

/// How long a nonce is remembered when envelopes are checked (ms).
pub const ENVELOPE_NONCE_WINDOW_MS: u64 = 300000;

/// The fields of a received envelope.
#[derive(Debug, Clone)]
pub struct EnvelopeFields {
    /// The signed payload.
    pub payload: Vec<u8>,
    /// The kind of payload.
    pub payload_type: String,
    /// The sender's nonce (may be empty).
    pub nonce: String,
    /// The sender's timestamp (ms).
    pub ts: u64,
    /// The signature algorithm.
    pub alg: String,
    /// The signature, base64, possibly behind an algorithm prefix.
    pub sig: String,
    /// The sender's public key, base64.
    pub pubkey: String,
}

/// Why an envelope was refused.
#[derive(Debug, Clone, PartialEq, Eq, Structural)]
pub enum EnvelopeError {
    /// The signature is not valid base64.
    SignatureEncoding,
    /// The public key is not valid base64.
    PublicKeyEncoding,
    /// The nonce was seen before within the window.
    Nonce(NonceError),
    /// The signature does not verify.
    SignatureInvalid,
}

impl EnvelopeError {
    /// The error text.
    pub fn message(&self) -> (s: String)
        ensures
            s@ == envelope_error_text(*self),
    {
        match self {
            EnvelopeError::SignatureEncoding => String::from_str("failed to base64-decode signature"),
            EnvelopeError::PublicKeyEncoding => String::from_str("failed to base64-decode pubkey"),
            EnvelopeError::Nonce(e) => e.message(),
            EnvelopeError::SignatureInvalid => String::from_str(
                "flatbuffer signature verification failed",
            ),
        }
    }
}

/// The outcome of checking an envelope whose canonical bytes are
/// `canonical`: the new nonce records and either (payload, public key,
/// signature) or the first check that failed.
pub open spec fn envelope_outcome(
    m: Map<(Seq<char>, Seq<char>), u64>,
    fields: EnvelopeFields,
    canonical: Seq<u8>,
    window: u64,
    peer: Seq<char>,
    now: u64,
) -> (Map<(Seq<char>, Seq<char>), u64>, Result<(Seq<u8>, Seq<u8>, Seq<u8>), EnvelopeError>) {
    match spec_base64_decode(signature_b64_part(fields.sig@)) {
        Err(_) => (m, Err(EnvelopeError::SignatureEncoding)),
        Ok(sig) => match spec_base64_decode(fields.pubkey@) {
            Err(_) => (m, Err(EnvelopeError::PublicKeyEncoding)),
            Ok(pk) => {
                let (m2, nonce_ok) = if fields.nonce@.len() == 0 {
                    (m, Ok(()))
                } else {
                    check_outcome(m, fields.nonce@, window, peer, now)
                };
                match nonce_ok {
                    Err(e) => (m2, Err(EnvelopeError::Nonce(e))),
                    Ok(_) => if spec_mldsa65_verify(pk, canonical, sig) == Some(true) {
                        (m2, Ok((fields.payload@, pk, sig)))
                    } else {
                        (m2, Err(EnvelopeError::SignatureInvalid))
                    },
                }
            },
        },
    }
}

/// Check an envelope received from `peer` at `now`, with `canonical` the
/// canonical bytes its signature covers. A non-empty nonce must not have
/// been seen from the peer within `nonce_window`; it is remembered. Returns
/// (payload, public key, signature).
pub fn verify_flatbuffer_envelope_for_peer(
    store: &mut NonceStore,
    fields: &EnvelopeFields,
    canonical: &[u8],
    nonce_window: u64,
    peer_id: &str,
    now: u64,
) -> (r: Result<(Vec<u8>, Vec<u8>, Vec<u8>), EnvelopeError>)
    requires
        old(store).wf(),
    ensures
        final(store).wf(),
        ({
            let (m2, out) = envelope_outcome(
                old(store)@,
                *fields,
                canonical@,
                nonce_window,
                peer_id@,
                now,
            );
            &&& final(store)@ == m2
            &&& match out {
                Ok((p, k, s)) => r matches Ok((p2, k2, s2)) && p2@ == p && k2@ == k && s2@ == s,
                Err(e) => r == Err::<(Vec<u8>, Vec<u8>, Vec<u8>), _>(e),
            }
        }),
{
    let sig_bytes = match normalize_and_decode_signature(Some(fields.sig.as_str())) {
        Ok(s) => s,
        Err(_) => return Err(EnvelopeError::SignatureEncoding),
    };
    let pub_bytes = match base64_decode(fields.pubkey.as_str()) {
        Ok(p) => p,
        Err(_) => return Err(EnvelopeError::PublicKeyEncoding),
    };
    if !fields.nonce.as_str().is_empty() {
        match store.check_and_insert_nonce_for_peer(fields.nonce.as_str(), nonce_window, peer_id, now) {
            Ok(()) => {},
            Err(e) => return Err(EnvelopeError::Nonce(e)),
        }
    } else {
        assert(fields.nonce@.len() == 0);
    }
    match verify_envelope(pub_bytes.as_slice(), canonical, sig_bytes.as_slice()) {
        Ok(()) => Ok((fields.payload.clone(), pub_bytes, sig_bytes)),
        Err(_) => Err(EnvelopeError::SignatureInvalid),
    }
}

/// [`verify_flatbuffer_envelope_for_peer`] with nonces kept under the
/// shared `global` peer.
pub fn verify_flatbuffer_envelope(
    store: &mut NonceStore,
    fields: &EnvelopeFields,
    canonical: &[u8],
    nonce_window: u64,
    now: u64,
) -> (r: Result<(Vec<u8>, Vec<u8>, Vec<u8>), EnvelopeError>)
    requires
        old(store).wf(),
    ensures
        final(store).wf(),
        ({
            let (m2, out) = envelope_outcome(
                old(store)@,
                *fields,
                canonical@,
                nonce_window,
                global_peer(),
                now,
            );
            &&& final(store)@ == m2
            &&& match out {
                Ok((p, k, s)) => r matches Ok((p2, k2, s2)) && p2@ == p && k2@ == k && s2@ == s,
                Err(e) => r == Err::<(Vec<u8>, Vec<u8>, Vec<u8>), _>(e),
            }
        }),
{
    let global = "global";
    proof {
        reveal_strlit("global");
    }
    verify_flatbuffer_envelope_for_peer(store, fields, canonical, nonce_window, global, now)
}

/// What checking an envelope gives when its nonce is not checked: either
/// (payload, public key, signature) or the first check that failed.
pub open spec fn envelope_outcome_without_nonce(fields: EnvelopeFields, canonical: Seq<u8>) -> Result<
    (Seq<u8>, Seq<u8>, Seq<u8>),
    EnvelopeError,
> {
    match spec_base64_decode(signature_b64_part(fields.sig@)) {
        Err(_) => Err(EnvelopeError::SignatureEncoding),
        Ok(sig) => match spec_base64_decode(fields.pubkey@) {
            Err(_) => Err(EnvelopeError::PublicKeyEncoding),
            Ok(pk) => if spec_mldsa65_verify(pk, canonical, sig) == Some(true) {
                Ok((fields.payload@, pk, sig))
            } else {
                Err(EnvelopeError::SignatureInvalid)
            },
        },
    }
}

/// Check an envelope's signature without the replay check (for envelopes
/// that are legitimately processed more than once, such as tokens being
/// re-signed).
pub fn verify_flatbuffer_envelope_skip_nonce_check(fields: &EnvelopeFields, canonical: &[u8]) -> (r:
    Result<(Vec<u8>, Vec<u8>, Vec<u8>), EnvelopeError>)
    ensures
        match envelope_outcome_without_nonce(*fields, canonical@) {
            Ok((p, k, s)) => r matches Ok((p2, k2, s2)) && p2@ == p && k2@ == k && s2@ == s,
            Err(e) => r == Err::<(Vec<u8>, Vec<u8>, Vec<u8>), _>(e),
        },
{
    let sig_bytes = match normalize_and_decode_signature(Some(fields.sig.as_str())) {
        Ok(s) => s,
        Err(_) => return Err(EnvelopeError::SignatureEncoding),
    };
    let pub_bytes = match base64_decode(fields.pubkey.as_str()) {
        Ok(p) => p,
        Err(_) => return Err(EnvelopeError::PublicKeyEncoding),
    };
    match verify_envelope(pub_bytes.as_slice(), canonical, sig_bytes.as_slice()) {
        Ok(()) => Ok((fields.payload.clone(), pub_bytes, sig_bytes)),
        Err(_) => Err(EnvelopeError::SignatureInvalid),
    }
}

/// An accepted envelope with a nonce cannot be replayed: checking the same
/// envelope again from the same peer within the nonce window is refused as
/// a replay.
pub proof fn lemma_envelope_replay_rejected(
    m: Map<(Seq<char>, Seq<char>), u64>,
    fields: EnvelopeFields,
    canonical: Seq<u8>,
    window: u64,
    peer: Seq<char>,
    t: u64,
    t2: u64,
)
    requires
        envelope_outcome(m, fields, canonical, window, peer, t).1 is Ok,
        fields.nonce@.len() > 0,
        t <= t2,
        t2 - t <= window,
    ensures
        envelope_outcome(
            envelope_outcome(m, fields, canonical, window, peer, t).0,
            fields,
            canonical,
            window,
            peer,
            t2,
        ).1 == Err::<(Seq<u8>, Seq<u8>, Seq<u8>), _>(EnvelopeError::Nonce(NonceError::Replay)),
{
    crate::replay::lemma_replay_within_window_rejected(m, fields.nonce@, window, peer, t, t2);
}

/// An envelope that passed verification.
#[derive(Debug)]
pub struct VerifiedEnvelope {
    pub payload: Vec<u8>,
    pub pubkey: Vec<u8>,
    pub signature: Vec<u8>,
}

/// Signature enforcement failure when signed messages are required.
#[derive(Debug)]
pub enum EnvelopeRejection {
    SignatureRequired(EnvelopeError),
}

/// The text of an envelope error.
pub open spec fn envelope_error_text(e: EnvelopeError) -> Seq<char> {
    match e {
        EnvelopeError::SignatureEncoding => "failed to base64-decode signature"@,
        EnvelopeError::PublicKeyEncoding => "failed to base64-decode pubkey"@,
        EnvelopeError::Nonce(NonceError::EmptyNonce) => "nonce cannot be empty"@,
        EnvelopeError::Nonce(NonceError::Replay) => "replay detected: nonce already seen"@,
        EnvelopeError::SignatureInvalid => "flatbuffer signature verification failed"@,
    }
}

impl EnvelopeRejection {
    /// The error text: `signed message required: <reason>`.
    pub fn message(&self) -> (s: String)
        ensures
            match self {
                EnvelopeRejection::SignatureRequired(e) => s@ == "signed message required: "@
                    + envelope_error_text(*e),
            },
    {
        match self {
            EnvelopeRejection::SignatureRequired(e) => {
                let reason = e.message();
                String::from_str("signed message required: ").concat(reason.as_str())
            },
        }
    }
}

/// Check an envelope from `peer` with a five-minute nonce window.
pub fn verify_envelope_and_check_nonce_for_peer(
    store: &mut NonceStore,
    fields: &EnvelopeFields,
    canonical: &[u8],
    peer_id: &str,
    now: u64,
) -> (r: Result<(Vec<u8>, Vec<u8>, Vec<u8>), EnvelopeError>)
    requires
        old(store).wf(),
    ensures
        final(store).wf(),
        ({
            let (m2, out) = envelope_outcome(
                old(store)@,
                *fields,
                canonical@,
                ENVELOPE_NONCE_WINDOW_MS,
                peer_id@,
                now,
            );
            &&& final(store)@ == m2
            &&& match out {
                Ok((p, k, s)) => r matches Ok((p2, k2, s2)) && p2@ == p && k2@ == k && s2@ == s,
                Err(e) => r == Err::<(Vec<u8>, Vec<u8>, Vec<u8>), _>(e),
            }
        }),
{
    verify_flatbuffer_envelope_for_peer(store, fields, canonical, ENVELOPE_NONCE_WINDOW_MS, peer_id, now)
}

/// Check an envelope with a five-minute nonce window, nonces kept under
/// the shared `global` peer.
pub fn verify_envelope_and_check_nonce(
    store: &mut NonceStore,
    fields: &EnvelopeFields,
    canonical: &[u8],
    now: u64,
) -> (r: Result<(Vec<u8>, Vec<u8>, Vec<u8>), EnvelopeError>)
    requires
        old(store).wf(),
    ensures
        final(store).wf(),
        ({
            let (m2, out) = envelope_outcome(
                old(store)@,
                *fields,
                canonical@,
                ENVELOPE_NONCE_WINDOW_MS,
                global_peer(),
                now,
            );
            &&& final(store)@ == m2
            &&& match out {
                Ok((p, k, s)) => r matches Ok((p2, k2, s2)) && p2@ == p && k2@ == k && s2@ == s,
                Err(e) => r == Err::<(Vec<u8>, Vec<u8>, Vec<u8>), _>(e),
            }
        }),
{
    verify_flatbuffer_envelope(store, fields, canonical, ENVELOPE_NONCE_WINDOW_MS, now)
}

/// Check an envelope from `peer`; a failure is a rejection of the message.
pub fn verify_signed_payload_for_peer(
    store: &mut NonceStore,
    fields: &EnvelopeFields,
    canonical: &[u8],
    peer_id: &str,
    now: u64,
) -> (r: Result<VerifiedEnvelope, EnvelopeRejection>)
    requires
        old(store).wf(),
    ensures
        final(store).wf(),
        ({
            let (m2, out) = envelope_outcome(
                old(store)@,
                *fields,
                canonical@,
                ENVELOPE_NONCE_WINDOW_MS,
                peer_id@,
                now,
            );
            &&& final(store)@ == m2
            &&& match out {
                Ok((p, k, s)) => r matches Ok(v) && v.payload@ == p && v.pubkey@ == k
                    && v.signature@ == s,
                Err(e) => r matches Err(EnvelopeRejection::SignatureRequired(e2)) && e2 == e,
            }
        }),
{
    match verify_envelope_and_check_nonce_for_peer(store, fields, canonical, peer_id, now) {
        Ok((payload, pubkey, signature)) => Ok(VerifiedEnvelope { payload, pubkey, signature }),
        Err(e) => Err(EnvelopeRejection::SignatureRequired(e)),
    }
}

/// An envelope signed as `sign_envelope` signs is accepted: when its
/// signature text is the base64 of a signature (without an algorithm
/// prefix) that verifies over the canonical bytes under the public key its
/// key text decodes to, and its nonce is empty or not yet seen from the
/// peer, the check gives back (payload, public key, signature).
pub proof fn lemma_signed_envelope_accepted(
    m: Map<(Seq<char>, Seq<char>), u64>,
    fields: EnvelopeFields,
    canonical: Seq<u8>,
    window: u64,
    peer: Seq<char>,
    now: u64,
    public_key: Seq<u8>,
    signature: Seq<u8>,
)
    requires
        spec_base64_decode(fields.sig@) == Ok::<Seq<u8>, Seq<char>>(signature),
        !has_colon(fields.sig@),
        spec_base64_decode(fields.pubkey@) == Ok::<Seq<u8>, Seq<char>>(public_key),
        spec_mldsa65_verify(public_key, canonical, signature) == Some(true),
        fields.nonce@.len() > 0 ==> !pruned(m, peer, window, now).contains_key((peer, fields.nonce@)),
    ensures
        envelope_outcome(m, fields, canonical, window, peer, now).1 == Ok::<_, EnvelopeError>(
            (fields.payload@, public_key, signature),
        ),
{
    let s = fields.sig@;
    if s.len() > 0 {
        assert(s[0] != ':');
        assert(!has_colon(s.drop_first())) by {
            if has_colon(s.drop_first()) {
                let i = choose|i: int| 0 <= i < s.drop_first().len() && s.drop_first()[i] == ':';
                assert(s[i + 1] == ':');
            }
        }
    }
    assert(signature_b64_part(s) == s);
}

} // verus!
