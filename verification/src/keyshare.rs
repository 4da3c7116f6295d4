//! Key shares and capabilities exchanged between nodes: the answers to a
//! key-share request, the capability a share fetch must present, how a
//! received payload is kept in the keystore (whole, or split into its
//! shares), and what is announced once it is kept. Reading envelopes,
//! keystore writes and announcements are the caller's part.
use vstd::prelude::*;
use vstd::utf8::{decode_utf8, valid_utf8};

use crate::bytes::copy_range;
use crate::capacity::starts_with;
use crate::crypto::{base64_decode, base64_encode, spec_base64_decode, spec_base64_encode};
use crate::provider::utf8_to_string;
use crate::recipient_blob::RECIPIENT_BLOB_VERSION;
use crate::text::str_eq;

verus! {

/// The answer to a key-share request.
#[derive(Debug, Clone, PartialEq, Eq)]
pub enum KeyshareReply {
    /// The requested share, in base64.
    FetchFound(String),
    /// No share is stored for the manifest.
    FetchNotFound,
    /// The fetch carries no capability.
    MissingCapability,
    /// The fetch carries a capability that is not a valid envelope.
    InvalidCapability,
    /// A signed share envelope was stored.
    StoredSimpleShare,
    /// The payload could not be encrypted for the keystore.
    StorageEncryptionFailed,
    /// An uploaded share was decapsulated, stored and announced.
    Decapsulated,
    /// An uploaded share could not be decapsulated.
    DecapsulationFailed,
    /// The node's KEM key could not be had.
    KemKeyUnavailable,
    /// The uploaded share's envelope does not verify.
    EnvelopeVerificationFailed,
    /// The request is neither an envelope nor a key-share request.
    UnsupportedPayloadFormat,
    /// The request is a recipient blob that could not be opened.
    InvalidRecipientBlob,
}

/// Whether a reply reports success.
pub open spec fn reply_ok(r: KeyshareReply) -> bool {
    match r {
        KeyshareReply::FetchFound(_) | KeyshareReply::StoredSimpleShare | KeyshareReply::Decapsulated => true,
        _ => false,
    }
}

/// Whether a reply answers a fetch (else an upload).
pub open spec fn reply_is_fetch(r: KeyshareReply) -> bool {
    match r {
        KeyshareReply::FetchFound(_) | KeyshareReply::FetchNotFound | KeyshareReply::MissingCapability
        | KeyshareReply::InvalidCapability => true,
        _ => false,
    }
}

/// The message of a reply.
pub open spec fn reply_message(r: KeyshareReply) -> Seq<char> {
    match r {
        KeyshareReply::FetchFound(b64) => b64@,
        KeyshareReply::FetchNotFound => "not_found"@,
        KeyshareReply::MissingCapability => "missing_capability"@,
        KeyshareReply::InvalidCapability => "invalid_capability"@,
        KeyshareReply::StoredSimpleShare => "stored simple share"@,
        KeyshareReply::StorageEncryptionFailed => "encryption for storage failed"@,
        KeyshareReply::Decapsulated => "decapsulated, stored and announced"@,
        KeyshareReply::DecapsulationFailed => "decapsulation failed"@,
        KeyshareReply::KemKeyUnavailable => "server kem key unavailable"@,
        KeyshareReply::EnvelopeVerificationFailed => "envelope verification failed"@,
        KeyshareReply::UnsupportedPayloadFormat => "unsupported_payload_format"@,
        KeyshareReply::InvalidRecipientBlob => "invalid recipient blob"@,
    }
}

impl KeyshareReply {
    /// Whether the reply reports success.
    pub fn ok(&self) -> (b: bool)
        ensures
            b == reply_ok(*self),
    {
        match self {
            KeyshareReply::FetchFound(_) | KeyshareReply::StoredSimpleShare | KeyshareReply::Decapsulated => true,
            _ => false,
        }
    }

    /// The operation the reply answers: `fetch` or `keyshare_op`.
    pub fn operation(&self) -> (s: String)
        ensures
            s@ == if reply_is_fetch(*self) {
                "fetch"@
            } else {
                "keyshare_op"@
            },
    {
        match self {
            KeyshareReply::FetchFound(_) | KeyshareReply::FetchNotFound | KeyshareReply::MissingCapability
            | KeyshareReply::InvalidCapability => String::from_str("fetch"),
            _ => String::from_str("keyshare_op"),
        }
    }

    /// The message of the reply.
    pub fn message(&self) -> (s: String)
        ensures
            s@ == reply_message(*self),
    {
        match self {
            KeyshareReply::FetchFound(b64) => b64.clone(),
            KeyshareReply::FetchNotFound => String::from_str("not_found"),
            KeyshareReply::MissingCapability => String::from_str("missing_capability"),
            KeyshareReply::InvalidCapability => String::from_str("invalid_capability"),
            KeyshareReply::StoredSimpleShare => String::from_str("stored simple share"),
            KeyshareReply::StorageEncryptionFailed => String::from_str("encryption for storage failed"),
            KeyshareReply::Decapsulated => String::from_str("decapsulated, stored and announced"),
            KeyshareReply::DecapsulationFailed => String::from_str("decapsulation failed"),
            KeyshareReply::KemKeyUnavailable => String::from_str("server kem key unavailable"),
            KeyshareReply::EnvelopeVerificationFailed => String::from_str("envelope verification failed"),
            KeyshareReply::UnsupportedPayloadFormat => String::from_str("unsupported_payload_format"),
            KeyshareReply::InvalidRecipientBlob => String::from_str("invalid recipient blob"),
        }
    }
}

/// The capability envelope a share fetch presents, decoded from base64; a
/// fetch without one, or with one that is not base64, is refused.
pub fn fetch_capability_bytes(capability: Option<&str>) -> (r: Result<Vec<u8>, KeyshareReply>)
    ensures
        match capability {
            None => r == Err::<Vec<u8>, _>(KeyshareReply::MissingCapability),
            Some(c) => match spec_base64_decode(c@) {
                Ok(b) => r matches Ok(v) && v@ == b,
                Err(_) => r == Err::<Vec<u8>, _>(KeyshareReply::InvalidCapability),
            },
        },
{
    match capability {
        None => Err(KeyshareReply::MissingCapability),
        Some(c) => match base64_decode(c) {
            Ok(b) => Ok(b),
            Err(_) => Err(KeyshareReply::InvalidCapability),
        },
    }
}

/// The answer to a share fetch, given the share found for the manifest.
pub fn fetch_reply(share: Option<&[u8]>) -> (r: KeyshareReply)
    ensures
        match share {
            Some(s) => r matches KeyshareReply::FetchFound(b64) && b64@ == spec_base64_encode(s@),
            None => r == KeyshareReply::FetchNotFound,
        },
{
    match share {
        Some(s) => KeyshareReply::FetchFound(base64_encode(s)),
        None => KeyshareReply::FetchNotFound,
    }
}

/// The keystore metadata of a capability for a manifest:
/// `capability:<manifest id>`.
pub fn capability_metadata(manifest_id: &str) -> (s: String)
    ensures
        s@ == "capability:"@ + manifest_id@,
{
    String::from_str("capability:").concat(manifest_id)
}

/// The provider key announced for the holders of a manifest's capability:
/// `manifest:<manifest id>`.
pub fn manifest_provider_cid(manifest_id: &str) -> (s: String)
    ensures
        s@ == "manifest:"@ + manifest_id@,
{
    String::from_str("manifest:").concat(manifest_id)
}

/// Whether a request is a recipient blob (its first byte is the blob
/// version).
pub fn is_recipient_blob(request: &[u8]) -> (b: bool)
    ensures
        b == (request@.len() > 0 && request@[0] == RECIPIENT_BLOB_VERSION),
{
    request.len() > 0 && request[0] == RECIPIENT_BLOB_VERSION
}

/// How a received share payload is kept.
#[derive(Debug, Clone, PartialEq, Eq)]
pub enum SharePlan {
    /// Keep the payload whole, with this metadata (or none), and announce
    /// its CID.
    Whole(Option<String>),
    /// Split the payload into its shares and keep each one.
    Split,
}

/// How a received share payload of type `payload_type` is kept. A
/// capability is kept whole under `capability:<task id>` when its task id
/// could be read (`capability_task_id`), key shares are split, and anything
/// else is kept whole with its type as metadata (none when empty).
pub fn received_share_plan(payload_type: &str, capability_task_id: Option<&str>) -> (p: SharePlan)
    ensures
        payload_type@ == "capability"@ ==> match capability_task_id {
            Some(t) => p matches SharePlan::Whole(Some(m)) && m@ == "capability:"@ + t@,
            None => p == SharePlan::Whole(None),
        },
        payload_type@ == "keyshare"@ ==> p == SharePlan::Split,
        payload_type@ != "capability"@ && payload_type@ != "keyshare"@ ==> if payload_type@.len() == 0 {
            p == SharePlan::Whole(None)
        } else {
            p matches SharePlan::Whole(Some(m)) && m@ == payload_type@
        },
{
    proof {
        reveal_strlit("capability");
        reveal_strlit("keyshare");
        assert("capability"@.len() != "keyshare"@.len());
    }
    if str_eq(payload_type, "capability") {
        match capability_task_id {
            Some(t) => SharePlan::Whole(Some(capability_metadata(t))),
            None => SharePlan::Whole(None),
        }
    } else if str_eq(payload_type, "keyshare") {
        SharePlan::Split
    } else if payload_type.unicode_len() == 0 {
        SharePlan::Whole(None)
    } else {
        SharePlan::Whole(Some(payload_type.to_owned()))
    }
}

/// The bytes of a base64 text, when the payload is UTF-8 text that decodes.
pub open spec fn decoded_text(payload: Seq<u8>) -> Option<Seq<u8>> {
    if valid_utf8(payload) {
        match spec_base64_decode(decode_utf8(payload)) {
            Ok(b) => Some(b),
            Err(_) => None,
        }
    } else {
        None
    }
}

fn decode_text_payload(payload: &[u8]) -> (r: Option<Vec<u8>>)
    ensures
        match decoded_text(payload@) {
            Some(b) => r matches Some(v) && v@ == b,
            None => r is None,
        },
{
    let raw = copy_range(payload, 0, payload.len());
    assert(raw@ =~= payload@);
    match utf8_to_string(raw) {
        Some(text) => match base64_decode(text.as_str()) {
            Ok(b) => Some(b),
            Err(_) => None,
        },
        None => None,
    }
}

/// The key-shares bytes in a received `keyshare` payload: the payload
/// decoded when it is base64 text, else the payload itself.
pub fn received_keyshares_bytes(payload: &[u8]) -> (r: Vec<u8>)
    ensures
        r@ == match decoded_text(payload@) {
            Some(b) => b,
            None => payload@,
        },
{
    match decode_text_payload(payload) {
        Some(b) => b,
        None => {
            let b = copy_range(payload, 0, payload.len());
            assert(b@ =~= payload@);
            b
        },
    }
}

/// The key-shares bytes in a key-share payload a node sends itself: none
/// when the payload is not UTF-8, the payload decoded when it is base64
/// text, else the payload itself.
pub fn own_keyshares_bytes(payload: &[u8]) -> (r: Option<Vec<u8>>)
    ensures
        !valid_utf8(payload@) ==> r is None,
        valid_utf8(payload@) ==> (r matches Some(v) && v@ == match decoded_text(payload@) {
            Some(b) => b,
            None => payload@,
        }),
{
    let raw = copy_range(payload, 0, payload.len());
    assert(raw@ =~= payload@);
    match utf8_to_string(raw) {
        None => None,
        Some(_) => Some(received_keyshares_bytes(payload)),
    }
}

/// The shares of a key-shares record that decode from base64, decoded, in
/// their order; the others are left out.
pub open spec fn decoded_shares(shares_b64: Seq<Seq<char>>) -> Seq<Seq<u8>>
    decreases shares_b64.len(),
{
    if shares_b64.len() == 0 {
        Seq::empty()
    } else {
        let rest = decoded_shares(shares_b64.drop_last());
        match spec_base64_decode(shares_b64.last()) {
            Ok(b) => rest.push(b),
            Err(_) => rest,
        }
    }
}

/// Decode the base64 shares of a key-shares record, leaving out those that
/// do not decode.
pub fn decode_shares(shares_b64: &Vec<String>) -> (r: Vec<Vec<u8>>)
    ensures
        r@.map_values(|v: Vec<u8>| v@) == decoded_shares(shares_b64@.map_values(|s: String| s@)),
{
    let ghost all = shares_b64@.map_values(|s: String| s@);
    let mut out: Vec<Vec<u8>> = Vec::new();
    let mut i: usize = 0;
    while i < shares_b64.len()
        invariant
            i <= shares_b64@.len(),
            all == shares_b64@.map_values(|s: String| s@),
            out@.map_values(|v: Vec<u8>| v@) == decoded_shares(all.take(i as int)),
        decreases shares_b64@.len() - i,
    {
        proof {
            assert(all.take(i + 1).drop_last() =~= all.take(i as int));
            assert(all.take(i + 1).last() == shares_b64@[i as int]@);
        }
        match base64_decode(shares_b64[i].as_str()) {
            Ok(b) => {
                let ghost before = out@.map_values(|v: Vec<u8>| v@);
                out.push(b);
                proof {
                    assert(out@.map_values(|v: Vec<u8>| v@) =~= before.push(out@[out@.len() - 1]@));
                }
            },
            Err(_) => {},
        }
        i = i + 1;
    }
    proof {
        assert(all.take(i as int) =~= all);
    }
    out
}

/// What is announced once an uploaded share was stored under `cid` with
/// `metadata`: for a capability (`capability:<id>`) first the provider key
/// of its manifest, then, always, the CID itself.
pub fn announcements_after_store(cid: &str, metadata: Option<&str>) -> (r: Vec<String>)
    ensures
        match metadata {
            Some(m) => if m@.len() >= 11 && m@.subrange(0, 11) == "capability:"@ {
                r@.len() == 2 && r@[0]@ == "manifest:"@ + m@.subrange(11, m@.len() as int)
                    && r@[1]@ == cid@
            } else {
                r@.len() == 1 && r@[0]@ == cid@
            },
            None => r@.len() == 1 && r@[0]@ == cid@,
        },
{
    let mut out: Vec<String> = Vec::new();
    match metadata {
        Some(m) => {
            proof {
                reveal_strlit("capability:");
            }
            if starts_with(m, "capability:") {
                let n = m.unicode_len();
                let rest = m.substring_char(11, n);
                out.push(manifest_provider_cid(rest));
            }
        },
        None => {},
    }
    out.push(cid.to_owned());
    out
}

/// The bytes a node keeps when it sends itself a share envelope: the whole
/// envelope for a capability, else its payload.
pub fn own_share_bytes_to_store(payload_type: &str, envelope: &[u8], payload: &[u8]) -> (r: Vec<u8>)
    ensures
        r@ == if payload_type@ == "capability"@ {
            envelope@
        } else {
            payload@
        },
{
    if str_eq(payload_type, "capability") {
        let b = copy_range(envelope, 0, envelope.len());
        assert(b@ =~= envelope@);
        b
    } else {
        let b = copy_range(payload, 0, payload.len());
        assert(b@ =~= payload@);
        b
    }
}

} // verus!
