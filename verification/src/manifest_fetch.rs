//! Manifest transfer between nodes: storing a manifest pushed by a peer as
//! `manifest_id:base64`, answering a peer's request for a stored manifest,
//! and reading the answer to a manifest sent to a peer.
use vstd::prelude::*;
use vstd::string::StrSliceExecFns;
use vstd::utf8::{decode_utf8, encode_utf8, valid_utf8};

use crate::bytes::copy_range;
use crate::capacity::{
    after_first, find_char, first_field, index_of_char, lemma_index_of_char, lemma_index_of_char_at,
};
use crate::crypto::{base64_decode, base64_encode, spec_base64_decode, spec_base64_encode};
use crate::manifest_store::{LocalManifestStore, ManifestEntry, ManifestEntryView};
use crate::provider::utf8_to_string;
use crate::text::str_eq;

verus! {

/// The (manifest id, base64 data) of a pushed manifest: UTF-8 text split
/// at its first colon.
pub open spec fn store_request_of(request: Seq<u8>) -> Option<(Seq<char>, Seq<char>)> {
    if valid_utf8(request) {
        let text = decode_utf8(request);
        match after_first(text, ':') {
            Some(data) => Some((first_field(text, ':'), data)),
            None => None,
        }
    } else {
        None
    }
}

/// The entry stored for a pushed manifest: version 1, no access tokens,
/// no owner.
pub open spec fn pushed_entry(manifest_id: Seq<char>, data: Seq<u8>, now: u64) -> ManifestEntryView {
    ManifestEntryView {
        manifest_id,
        version: 1,
        encrypted_data: data,
        stored_at: now,
        access_tokens: Seq::empty(),
        owner_pubkey: Seq::empty(),
    }
}

fn text_bytes(s: &str) -> (b: Vec<u8>)
    ensures
        b@ == encode_utf8(s@),
{
    let bytes = s.as_bytes();
    copy_range(bytes, 0, bytes.len())
}

/// Store a manifest pushed as `manifest_id:base64` at `now` and give the
/// reply; nothing happens (and there is no reply) when the request is not
/// such text, which is then a fetch request.
pub fn handle_manifest_store_request(store: &mut LocalManifestStore, request: &[u8], now: u64) -> (r:
    Option<Vec<u8>>)
    requires
        old(store).wf(),
    ensures
        final(store).wf(),
        match store_request_of(request@) {
            None => r is None && final(store)@ == old(store)@,
            Some((id, b64)) => match spec_base64_decode(b64) {
                Ok(data) => r matches Some(reply) && reply@ == encode_utf8(
                    "Manifest stored successfully"@,
                ) && final(store)@ == old(store)@.insert((id, 1u64), pushed_entry(id, data, now)),
                Err(e) => r matches Some(reply) && reply@ == encode_utf8(
                    "Failed to decode manifest: "@ + e,
                ) && final(store)@ == old(store)@,
            },
        },
{
    let raw = copy_range(request, 0, request.len());
    assert(raw@ =~= request@);
    let text = match utf8_to_string(raw) {
        Some(t) => t,
        None => return None,
    };
    let n = text.as_str().unicode_len();
    let i = find_char(text.as_str(), ':', 0);
    proof {
        assert(text@.subrange(0, text@.len() as int) =~= text@);
        lemma_index_of_char(text@, ':');
    }
    if i >= n {
        return None;
    }
    let id = text.as_str().substring_char(0, i);
    let data_b64 = text.as_str().substring_char(i + 1, n);
    proof {
        assert(id@ =~= first_field(text@, ':'));
    }
    match base64_decode(data_b64) {
        Ok(data) => {
            let entry = ManifestEntry {
                manifest_id: id.to_owned(),
                version: 1,
                encrypted_data: data,
                stored_at: now,
                access_tokens: Vec::new(),
                owner_pubkey: Vec::new(),
            };
            proof {
                assert(entry@.access_tokens =~= Seq::<Seq<char>>::empty());
                assert(entry@ == pushed_entry(id@, entry.encrypted_data@, now));
            }
            let _ = store.store_manifest(entry);
            Some(text_bytes("Manifest stored successfully"))
        },
        Err(e) => {
            let reply = String::from_str("Failed to decode manifest: ").concat(e.as_str());
            Some(text_bytes(reply.as_str()))
        },
    }
}

/// The request that pushes a manifest to a peer: the UTF-8 text
/// `manifest_id:base64`. When the id has no colon, it is read back as this
/// id and base64 text, and the base64 text decodes to the payload, so the
/// peer stores exactly the payload under the id.
pub fn manifest_push_request(manifest_id: &str, payload: &[u8]) -> (r: Vec<u8>)
    ensures
        r@ == encode_utf8(manifest_id@ + ":"@ + spec_base64_encode(payload@)),
        spec_base64_decode(spec_base64_encode(payload@)) == Ok::<Seq<u8>, Seq<char>>(payload@),
        !manifest_id@.contains(':') ==> store_request_of(r@) == Some(
            (manifest_id@, spec_base64_encode(payload@)),
        ),
{
    let b64 = base64_encode(payload);
    let text = manifest_id.to_owned().concat(":").concat(b64.as_str());
    proof {
        reveal_strlit(":");
        let t = manifest_id@ + ":"@ + b64@;
        assert(text@ == t);
        broadcast use vstd::utf8::encode_utf8_decode_utf8, vstd::utf8::encode_utf8_valid_utf8;
        assert(decode_utf8(encode_utf8(t)) == t);
        if !manifest_id@.contains(':') {
            assert forall|j: int| 0 <= j < manifest_id@.len() implies #[trigger] t[j] != ':' by {
                assert(t[j] == manifest_id@[j]);
                if t[j] == ':' {
                    assert(manifest_id@.contains(':'));
                }
            }
            assert(t[manifest_id@.len() as int] == ':');
            lemma_index_of_char_at(t, ':', manifest_id@.len() as int);
            assert(t.subrange(0, manifest_id@.len() as int) =~= manifest_id@);
            assert(t.subrange(manifest_id@.len() as int + 1, t.len() as int) =~= b64@);
        }
    }
    text_bytes(text.as_str())
}

/// Store a manifest a node sends itself: an envelope with a non-empty
/// `manifest` payload is stored as version 1 of `manifest_id` at `now`;
/// anything else leaves the store as it is. Gives whether it was stored.
pub fn store_own_manifest(
    store: &mut LocalManifestStore,
    manifest_id: &str,
    payload_type: &str,
    payload: &[u8],
    now: u64,
) -> (stored: bool)
    requires
        old(store).wf(),
    ensures
        final(store).wf(),
        stored == (payload@.len() > 0 && payload_type@ == "manifest"@),
        stored ==> final(store)@ == old(store)@.insert(
            (manifest_id@, 1u64),
            pushed_entry(manifest_id@, payload@, now),
        ),
        !stored ==> final(store)@ == old(store)@,
{
    if payload.len() == 0 || !str_eq(payload_type, "manifest") {
        return false;
    }
    let data = copy_range(payload, 0, payload.len());
    assert(data@ =~= payload@);
    let entry = ManifestEntry {
        manifest_id: manifest_id.to_owned(),
        version: 1,
        encrypted_data: data,
        stored_at: now,
        access_tokens: Vec::new(),
        owner_pubkey: Vec::new(),
    };
    proof {
        assert(entry@.access_tokens =~= Seq::<Seq<char>>::empty());
        assert(entry@ == pushed_entry(manifest_id@, payload@, now));
    }
    let _ = store.store_manifest(entry);
    true
}

/// Why a manifest is not served.
#[derive(Debug, Clone, Copy, PartialEq, Eq, Structural)]
pub enum FetchRefusal {
    /// The token is valid but not one of the manifest's access tokens.
    InsufficientPermissions,
    /// No such manifest version is stored.
    NotFound,
    /// The capability token does not grant the manifest to the peer.
    InvalidToken,
    /// The capability token could not be checked.
    VerificationFailed,
}

impl FetchRefusal {
    /// The error text of the reply.
    pub fn message(&self) -> (s: String)
        ensures
            s@ == match self {
                FetchRefusal::InsufficientPermissions => "Insufficient permissions"@,
                FetchRefusal::NotFound => "Manifest not found"@,
                FetchRefusal::InvalidToken => "Invalid capability token"@,
                FetchRefusal::VerificationFailed => "Token verification failed"@,
            },
    {
        match self {
            FetchRefusal::InsufficientPermissions => String::from_str("Insufficient permissions"),
            FetchRefusal::NotFound => String::from_str("Manifest not found"),
            FetchRefusal::InvalidToken => String::from_str("Invalid capability token"),
            FetchRefusal::VerificationFailed => String::from_str("Token verification failed"),
        }
    }
}

/// The answer to a manifest fetch request.
#[derive(Debug)]
pub enum FetchReply {
    /// Serve the stored data of this version.
    Serve { data: Vec<u8>, version: u64 },
    /// Refuse.
    Refuse(FetchRefusal),
}

/// Answer a request for version `version` of `manifest_id` that carries
/// `capability_token`, given whether that token grants the manifest to the
/// requesting peer: a stored version is served when the token is one of
/// its access tokens or the debug token.
pub fn manifest_fetch_reply(
    store: &LocalManifestStore,
    manifest_id: &str,
    version: u64,
    capability_token: &str,
    token_verdict: Result<bool, String>,
) -> (r: FetchReply)
    requires
        store.wf(),
    ensures
        match token_verdict {
            Err(_) => r == FetchReply::Refuse(FetchRefusal::VerificationFailed),
            Ok(false) => r == FetchReply::Refuse(FetchRefusal::InvalidToken),
            Ok(true) => if !store@.contains_key((manifest_id@, version)) {
                r == FetchReply::Refuse(FetchRefusal::NotFound)
            } else {
                let e = store@[(manifest_id@, version)];
                if e.access_tokens.contains(capability_token@) || capability_token@ == "debug"@ {
                    r matches FetchReply::Serve { data, version: v } && data@ == e.encrypted_data
                        && v == e.version
                } else {
                    r == FetchReply::Refuse(FetchRefusal::InsufficientPermissions)
                }
            },
        },
{
    match token_verdict {
        Err(_) => FetchReply::Refuse(FetchRefusal::VerificationFailed),
        Ok(false) => FetchReply::Refuse(FetchRefusal::InvalidToken),
        Ok(true) => {
            let allowed = store.has_access_token(manifest_id, version, capability_token) || str_eq(
                capability_token,
                "debug",
            );
            match store.get_manifest(manifest_id, version) {
                Some(entry) => {
                    if allowed {
                        FetchReply::Serve { data: entry.encrypted_data.clone(), version: entry.version }
                    } else {
                        FetchReply::Refuse(FetchRefusal::InsufficientPermissions)
                    }
                },
                None => FetchReply::Refuse(FetchRefusal::NotFound),
            }
        },
    }
}

/// Whether `needle` occurs in `hay`.
pub open spec fn text_contains(hay: Seq<char>, needle: Seq<char>) -> bool {
    exists|i: int| 0 <= i && i + needle.len() <= hay.len() && #[trigger] hay.subrange(i, i + needle.len()) == needle
}

fn contains(hay: &str, needle: &str) -> (r: bool)
    ensures
        r == text_contains(hay@, needle@),
{
    let n = hay.unicode_len();
    let m = needle.unicode_len();
    if m > n {
        return false;
    }
    let last = n - m;
    let mut i: usize = 0;
    while i < last
        invariant
            n == hay@.len(),
            m == needle@.len(),
            last == n - m,
            i <= last,
            forall|j: int| 0 <= j < i ==> #[trigger] hay@.subrange(j, j + m) != needle@,
        decreases last - i,
    {
        if str_eq(hay.substring_char(i, i + m), needle) {
            return true;
        }
        i = i + 1;
    }
    let found = str_eq(hay.substring_char(last, n), needle);
    proof {
        if found {
            assert(hay@.subrange(last as int, last + needle@.len()) == needle@);
        } else {
            assert forall|j: int|
                0 <= j && j + needle@.len() <= hay@.len() implies #[trigger] hay@.subrange(
                j,
                j + needle@.len(),
            ) != needle@ by {
                if j < i {
                } else {
                    assert(j == last);
                }
            }
        }
    }
    found
}

/// The result of sending a manifest to a peer, read from the peer's answer:
/// it succeeded when the answer is text that mentions `success` or
/// `stored`.
pub fn manifest_distribution_result(response: &[u8]) -> (r: Result<(), String>)
    ensures
        r is Ok <==> (valid_utf8(response@) && (text_contains(decode_utf8(response@), "success"@)
            || text_contains(decode_utf8(response@), "stored"@))),
        r matches Err(e) ==> e@ == "Manifest storage failed"@,
{
    let raw = copy_range(response, 0, response.len());
    assert(raw@ =~= response@);
    let ok = match utf8_to_string(raw) {
        Some(text) => contains(text.as_str(), "success") || contains(text.as_str(), "stored"),
        None => false,
    };
    if ok {
        Ok(())
    } else {
        Err(String::from_str("Manifest storage failed"))
    }
}


/// A caveat of a capability token: its condition type and its value, each
/// where the token has one.
#[derive(Debug, Clone)]
pub struct CaveatFields {
    pub condition_type: Option<String>,
    pub value: Option<Vec<u8>>,
}

/// What a manifest fetch reads of a capability token: the manifest id of
/// its root capability (`None` inside when the root capability names
/// none), or no root capability at all, and its caveats.
#[derive(Debug, Clone)]
pub struct CapabilityTokenFields {
    pub root_capability: Option<Option<String>>,
    pub caveats: Vec<CaveatFields>,
}

/// The text of some bytes when they are UTF-8, else the empty text.
pub open spec fn text_or_empty(b: Seq<u8>) -> Seq<char> {
    if valid_utf8(b) {
        decode_utf8(b)
    } else {
        Seq::empty()
    }
}

/// Whether a caveat names `peer` as the authorized peer.
pub open spec fn caveat_authorizes(c: CaveatFields, peer: Seq<char>) -> bool {
    &&& c.condition_type matches Some(t) && t@ == "authorized_peer"@
    &&& c.value matches Some(v) && text_or_empty(v@) == peer
}

/// Whether a token grants `manifest_id` to `peer`: its root capability is
/// for that manifest (an absent id reads as empty) and one of its caveats
/// authorizes the peer.
pub open spec fn token_grants(t: CapabilityTokenFields, manifest_id: Seq<char>, peer: Seq<char>) -> bool {
    &&& root_is_for(t, manifest_id)
    &&& exists|i: int| 0 <= i < t.caveats@.len() && caveat_authorizes(#[trigger] t.caveats@[i], peer)
}

/// Whether a token has a root capability for `manifest_id` (an absent id
/// reads as empty).
pub open spec fn root_is_for(t: CapabilityTokenFields, manifest_id: Seq<char>) -> bool {
    match t.root_capability {
        None => false,
        Some(id) => match id {
            Some(s) => s@ == manifest_id,
            None => manifest_id == Seq::<char>::empty(),
        },
    }
}

/// The bytes of a base64 capability token that still have to be read, or
/// `None` when the token is accepted as it stands (the debug token and the
/// empty token); a token that is not base64 is an error.
pub fn capability_token_bytes(token_b64: &str) -> (r: Result<Option<Vec<u8>>, String>)
    ensures
        token_b64@ == "debug"@ || token_b64@.len() == 0 ==> r == Ok::<Option<Vec<u8>>, String>(None),
        !(token_b64@ == "debug"@ || token_b64@.len() == 0) ==> match spec_base64_decode(token_b64@) {
            Ok(bytes) => r matches Ok(Some(b)) && b@ == bytes,
            Err(e) => r matches Err(msg) && msg@ == "Failed to decode token: "@ + e,
        },
{
    if str_eq(token_b64, "debug") || token_b64.unicode_len() == 0 {
        return Ok(None);
    }
    match base64_decode(token_b64) {
        Ok(bytes) => Ok(Some(bytes)),
        Err(e) => Err(String::from_str("Failed to decode token: ").concat(e.as_str())),
    }
}

fn caveat_authorizes_peer(c: &CaveatFields, peer_id: &str) -> (r: bool)
    ensures
        r == caveat_authorizes(*c, peer_id@),
{
    let is_peer_caveat = match &c.condition_type {
        Some(t) => str_eq(t.as_str(), "authorized_peer"),
        None => false,
    };
    if !is_peer_caveat {
        return false;
    }
    match &c.value {
        Some(v) => {
            let raw = copy_range(v.as_slice(), 0, v.len());
            assert(raw@ =~= v@);
            match utf8_to_string(raw) {
                Some(text) => str_eq(text.as_str(), peer_id),
                None => {
                    let empty = peer_id.unicode_len() == 0;
                    proof {
                        if empty {
                            assert(peer_id@ =~= Seq::<char>::empty());
                        }
                    }
                    empty
                },
            }
        },
        None => false,
    }
}

/// Whether a read capability token grants `manifest_id` to the peer
/// `peer_id`.
pub fn capability_token_grants(token: &CapabilityTokenFields, manifest_id: &str, peer_id: &str) -> (r: bool)
    ensures
        r == token_grants(*token, manifest_id@, peer_id@),
{
    let id_matches = match &token.root_capability {
        None => return false,
        Some(Some(id)) => str_eq(id.as_str(), manifest_id),
        Some(None) => {
            let empty = manifest_id.unicode_len() == 0;
            proof {
                if empty {
                    assert(manifest_id@ =~= Seq::<char>::empty());
                }
            }
            empty
        },
    };
    if !id_matches {
        return false;
    }
    let mut i: usize = 0;
    while i < token.caveats.len()
        invariant
            i <= token.caveats@.len(),
            root_is_for(*token, manifest_id@),
            forall|j: int| 0 <= j < i ==> !caveat_authorizes(#[trigger] token.caveats@[j], peer_id@),
        decreases token.caveats@.len() - i,
    {
        if caveat_authorizes_peer(&token.caveats[i], peer_id) {
            assert(caveat_authorizes(token.caveats@[i as int], peer_id@));
            return true;
        }
        i = i + 1;
    }
    false
}

/// The verdict on a capability token from the outcome of reading its bytes:
/// a token that could not be read is an error, a read one grants the
/// manifest to the peer or not.
pub fn capability_token_verdict(
    parsed: Result<CapabilityTokenFields, String>,
    manifest_id: &str,
    peer_id: &str,
) -> (r: Result<bool, String>)
    ensures
        match parsed {
            Ok(t) => r == Ok::<bool, String>(token_grants(t, manifest_id@, peer_id@)),
            Err(e) => r matches Err(msg) && msg@ == "Failed to parse token: "@ + e@,
        },
{
    match parsed {
        Ok(t) => Ok(capability_token_grants(&t, manifest_id, peer_id)),
        Err(e) => Err(String::from_str("Failed to parse token: ").concat(e.as_str())),
    }
}

} // verus!
