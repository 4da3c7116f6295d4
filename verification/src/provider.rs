//! Provider announcements: the record a node publishes in the DHT to say
//! that it hosts a manifest, its binary encoding, and the metadata that
//! travels with it.
use vstd::prelude::*;
use vstd::utf8::{decode_utf8, encode_utf8, valid_utf8};

use crate::assoc::{keys_distinct, lemma_push, lemma_to_map_dom, lemma_update, to_map};
use crate::bytes::{
    be_u32_at, be_u64_at, copy_range, push_bytes, push_u32_be, push_u64_be, read_u32_be,
    read_u64_be, u32_be_bytes, u64_be_bytes,
};
use crate::text::{decimal_chars, str_eq, u64_to_decimal};

verus! {

/// Metadata as a list of (key, value) pairs.
pub type Metadata = Vec<(String, String)>;

/// The pairs of a metadata list as mathematical strings.
pub open spec fn metadata_pairs(m: Seq<(String, String)>) -> Seq<(Seq<char>, Seq<char>)> {
    m.map_values(|p: (String, String)| (p.0@, p.1@))
}

/// The map a metadata list denotes.
pub open spec fn metadata_map(m: Seq<(String, String)>) -> Map<Seq<char>, Seq<char>> {
    to_map(metadata_pairs(m))
}

/// JSON text of a metadata map (an object of string values, keys in order).
pub uninterp spec fn spec_metadata_json(m: Seq<(Seq<char>, Seq<char>)>) -> Seq<char>;

/// Metadata pairs read from JSON text, when the text is an object whose
/// values are all strings.
pub uninterp spec fn spec_parse_metadata(json: Seq<char>) -> Option<Seq<(Seq<char>, Seq<char>)>>;

/// Whether bytes are a valid libp2p peer id.
pub uninterp spec fn spec_peer_id_valid(bytes: Seq<u8>) -> bool;

/// `serde_json::to_string` of the metadata collected into a
/// `serde_json::Map` (later pairs win for a repeated key); the result is
/// `spec_metadata_json` of the pairs. The text is a JSON object whose
/// values are the metadata strings (escaped by serde_json's string
/// writer), so reading it back into a `BTreeMap<String, String>` gives the
/// same map.
#[verifier::external_body]
fn metadata_to_json(m: &Metadata) -> (s: String)
    ensures
        s@ == spec_metadata_json(metadata_pairs(m@)),
        spec_parse_metadata(s@) is Some,
        to_map(spec_parse_metadata(s@)->0) == metadata_map(m@),
{
    let mut map = serde_json::Map::new();
    for (k, v) in m.iter() {
        map.insert(k.clone(), serde_json::Value::String(v.clone()));
    }
    serde_json::Value::Object(map).to_string()
}

/// `serde_json::from_str` into a `BTreeMap<String, String>`, with its pairs
/// listed; the result is `spec_parse_metadata` of the text.
#[verifier::external_body]
fn parse_metadata_json(json: &str) -> (r: Option<Metadata>)
    ensures
        match r {
            Some(m) => spec_parse_metadata(json@) == Some(metadata_pairs(m@)),
            None => spec_parse_metadata(json@) is None,
        },
{
    serde_json::from_str::<std::collections::BTreeMap<String, String>>(json).ok().map(
        |m| m.into_iter().collect(),
    )
}

/// `libp2p::PeerId::from_bytes(bytes).is_ok()`; the result is
/// `spec_peer_id_valid` of the bytes.
#[verifier::external_body]
fn peer_id_bytes_valid(bytes: &[u8]) -> (r: bool)
    ensures
        r == spec_peer_id_valid(bytes@),
{
    libp2p::PeerId::from_bytes(bytes).is_ok()
}

/// `String::from_utf8`: the bytes as a string when they are valid UTF-8.
#[verifier::external_body]
pub(crate) fn utf8_to_string(bytes: Vec<u8>) -> (r: Option<String>)
    ensures
        r is Some <==> valid_utf8(bytes@),
        r matches Some(s) ==> s@ == decode_utf8(bytes@),
{
    String::from_utf8(bytes).ok()
}

/// Why bytes could not be read as a provider announcement.
#[derive(Debug, Clone, Copy, PartialEq, Eq, Structural)]
pub enum AnnouncementError {
    MissingPeerIdLength,
    PeerIdTooShort,
    InvalidPeerId,
    MissingManifestIdLength,
    ManifestIdTooShort,
    InvalidUtf8,
    MissingTimestamp,
    MissingTtl,
    MissingMetadataLength,
    MetadataTooShort,
    InvalidMetadata,
    MissingSignatureFlag,
    MissingSignatureLength,
    SignatureTooShort,
}

/// The text of an announcement decoding error.
pub open spec fn announcement_error_text(e: AnnouncementError) -> Seq<char> {
    match e {
        AnnouncementError::MissingPeerIdLength => "Invalid data: missing peer ID length"@,
        AnnouncementError::PeerIdTooShort => "Invalid data: peer ID too short"@,
        AnnouncementError::InvalidPeerId => "Invalid data: invalid peer ID"@,
        AnnouncementError::MissingManifestIdLength => "Invalid data: missing manifest ID length"@,
        AnnouncementError::ManifestIdTooShort => "Invalid data: manifest ID too short"@,
        AnnouncementError::InvalidUtf8 => "Invalid data: invalid UTF-8"@,
        AnnouncementError::MissingTimestamp => "Invalid data: missing timestamp"@,
        AnnouncementError::MissingTtl => "Invalid data: missing TTL"@,
        AnnouncementError::MissingMetadataLength => "Invalid data: missing metadata length"@,
        AnnouncementError::MetadataTooShort => "Invalid data: metadata too short"@,
        AnnouncementError::InvalidMetadata => "Invalid data: invalid metadata"@,
        AnnouncementError::MissingSignatureFlag => "Invalid data: missing signature flag"@,
        AnnouncementError::MissingSignatureLength => "Invalid data: missing signature length"@,
        AnnouncementError::SignatureTooShort => "Invalid data: signature too short"@,
    }
}

impl AnnouncementError {
    /// The error text.
    pub fn message(&self) -> (s: String)
        ensures
            s@ == announcement_error_text(*self),
    {
        match self {
            AnnouncementError::MissingPeerIdLength => String::from_str(
                "Invalid data: missing peer ID length",
            ),
            AnnouncementError::PeerIdTooShort => String::from_str("Invalid data: peer ID too short"),
            AnnouncementError::InvalidPeerId => String::from_str("Invalid data: invalid peer ID"),
            AnnouncementError::MissingManifestIdLength => String::from_str(
                "Invalid data: missing manifest ID length",
            ),
            AnnouncementError::ManifestIdTooShort => String::from_str(
                "Invalid data: manifest ID too short",
            ),
            AnnouncementError::InvalidUtf8 => String::from_str("Invalid data: invalid UTF-8"),
            AnnouncementError::MissingTimestamp => String::from_str(
                "Invalid data: missing timestamp",
            ),
            AnnouncementError::MissingTtl => String::from_str("Invalid data: missing TTL"),
            AnnouncementError::MissingMetadataLength => String::from_str(
                "Invalid data: missing metadata length",
            ),
            AnnouncementError::MetadataTooShort => String::from_str(
                "Invalid data: metadata too short",
            ),
            AnnouncementError::InvalidMetadata => String::from_str("Invalid data: invalid metadata"),
            AnnouncementError::MissingSignatureFlag => String::from_str(
                "Invalid data: missing signature flag",
            ),
            AnnouncementError::MissingSignatureLength => String::from_str(
                "Invalid data: missing signature length",
            ),
            AnnouncementError::SignatureTooShort => String::from_str(
                "Invalid data: signature too short",
            ),
        }
    }
}

/// The fields between the peer id and the signature flag.
pub struct BodyFields {
    pub manifest_id: String,
    pub timestamp: u64,
    pub ttl_seconds: u64,
    pub metadata_json: String,
    pub next: usize,
}

/// Mathematical value of [`BodyFields`].
pub struct BodyView {
    pub manifest_id: Seq<char>,
    pub timestamp: u64,
    pub ttl_seconds: u64,
    pub metadata_json: Seq<char>,
    pub next: int,
}

impl View for BodyFields {
    type V = BodyView;

    open spec fn view(&self) -> BodyView {
        BodyView {
            manifest_id: self.manifest_id@,
            timestamp: self.timestamp,
            ttl_seconds: self.ttl_seconds,
            metadata_json: self.metadata_json@,
            next: self.next as int,
        }
    }
}

/// Reading the length-prefixed peer id at the start of the bytes: the peer
/// id bytes and the offset after them.
pub open spec fn spec_read_peer_field(d: Seq<u8>) -> Result<(Seq<u8>, int), AnnouncementError> {
    if d.len() < 4 {
        Err(AnnouncementError::MissingPeerIdLength)
    } else {
        let n = be_u32_at(d, 0) as int;
        if d.len() < 4 + n {
            Err(AnnouncementError::PeerIdTooShort)
        } else {
            Ok((d.subrange(4, 4 + n), 4 + n))
        }
    }
}

/// Reading the manifest id, time stamp, TTL and metadata text at `off`.
pub open spec fn spec_read_body(d: Seq<u8>, off: int) -> Result<BodyView, AnnouncementError> {
    if d.len() < off + 4 {
        Err(AnnouncementError::MissingManifestIdLength)
    } else {
        let n = be_u32_at(d, off) as int;
        let o1 = off + 4;
        if d.len() < o1 + n {
            Err(AnnouncementError::ManifestIdTooShort)
        } else if !valid_utf8(d.subrange(o1, o1 + n)) {
            Err(AnnouncementError::InvalidUtf8)
        } else {
            let o2 = o1 + n;
            if d.len() < o2 + 8 {
                Err(AnnouncementError::MissingTimestamp)
            } else {
                let o3 = o2 + 8;
                if d.len() < o3 + 8 {
                    Err(AnnouncementError::MissingTtl)
                } else {
                    let o4 = o3 + 8;
                    if d.len() < o4 + 4 {
                        Err(AnnouncementError::MissingMetadataLength)
                    } else {
                        let m = be_u32_at(d, o4) as int;
                        let o5 = o4 + 4;
                        if d.len() < o5 + m {
                            Err(AnnouncementError::MetadataTooShort)
                        } else if !valid_utf8(d.subrange(o5, o5 + m)) {
                            Err(AnnouncementError::InvalidUtf8)
                        } else {
                            Ok(
                                BodyView {
                                    manifest_id: decode_utf8(d.subrange(o1, o1 + n)),
                                    timestamp: be_u64_at(d, o2),
                                    ttl_seconds: be_u64_at(d, o3),
                                    metadata_json: decode_utf8(d.subrange(o5, o5 + m)),
                                    next: o5 + m,
                                },
                            )
                        }
                    }
                }
            }
        }
    }
}

/// Reading the signature flag and, when it is 1, the length-prefixed
/// signature at `off`. Any other flag value means no signature.
pub open spec fn spec_read_signature(d: Seq<u8>, off: int) -> Result<
    Option<Seq<u8>>,
    AnnouncementError,
> {
    if d.len() < off + 1 {
        Err(AnnouncementError::MissingSignatureFlag)
    } else if d[off] != 1 {
        Ok(None)
    } else {
        let o = off + 1;
        if d.len() < o + 4 {
            Err(AnnouncementError::MissingSignatureLength)
        } else {
            let n = be_u32_at(d, o) as int;
            if d.len() < o + 4 + n {
                Err(AnnouncementError::SignatureTooShort)
            } else {
                Ok(Some(d.subrange(o + 4, o + 4 + n)))
            }
        }
    }
}

/// Reads the length-prefixed peer id at the start of `data`.
pub fn read_peer_field(data: &[u8]) -> (r: Result<(Vec<u8>, usize), AnnouncementError>)
    ensures
        match r {
            Ok((p, next)) => spec_read_peer_field(data@) == Ok::<_, AnnouncementError>(
                (p@, next as int),
            ),
            Err(e) => spec_read_peer_field(data@) == Err::<(Seq<u8>, int), _>(e),
        },
{
    let len = data.len();
    if len < 4 {
        return Err(AnnouncementError::MissingPeerIdLength);
    }
    let n = read_u32_be(data, 0) as usize;
    if len - 4 < n {
        return Err(AnnouncementError::PeerIdTooShort);
    }
    let p = copy_range(data, 4, n);
    Ok((p, 4 + n))
}

/// Reads the manifest id, time stamp, TTL and metadata text at `off`.
pub fn read_body_fields(data: &[u8], off: usize) -> (r: Result<BodyFields, AnnouncementError>)
    requires
        off <= data@.len(),
    ensures
        match r {
            Ok(b) => spec_read_body(data@, off as int) == Ok::<_, AnnouncementError>(b@),
            Err(e) => spec_read_body(data@, off as int) == Err::<BodyView, _>(e),
        },
{
    let len = data.len();
    if len - off < 4 {
        return Err(AnnouncementError::MissingManifestIdLength);
    }
    let n = read_u32_be(data, off) as usize;
    let o1 = off + 4;
    if len - o1 < n {
        return Err(AnnouncementError::ManifestIdTooShort);
    }
    let manifest_id = match utf8_to_string(copy_range(data, o1, n)) {
        Some(s) => s,
        None => return Err(AnnouncementError::InvalidUtf8),
    };
    let o2 = o1 + n;
    if len - o2 < 8 {
        return Err(AnnouncementError::MissingTimestamp);
    }
    let timestamp = read_u64_be(data, o2);
    let o3 = o2 + 8;
    if len - o3 < 8 {
        return Err(AnnouncementError::MissingTtl);
    }
    let ttl_seconds = read_u64_be(data, o3);
    let o4 = o3 + 8;
    if len - o4 < 4 {
        return Err(AnnouncementError::MissingMetadataLength);
    }
    let m = read_u32_be(data, o4) as usize;
    let o5 = o4 + 4;
    if len - o5 < m {
        return Err(AnnouncementError::MetadataTooShort);
    }
    let metadata_json = match utf8_to_string(copy_range(data, o5, m)) {
        Some(s) => s,
        None => return Err(AnnouncementError::InvalidUtf8),
    };
    Ok(BodyFields { manifest_id, timestamp, ttl_seconds, metadata_json, next: o5 + m })
}

/// Reads the signature flag and signature at `off`.
pub fn read_signature_field(data: &[u8], off: usize) -> (r: Result<
    Option<Vec<u8>>,
    AnnouncementError,
>)
    requires
        off <= data@.len(),
    ensures
        match r {
            Ok(Some(s)) => spec_read_signature(data@, off as int) == Ok::<_, AnnouncementError>(
                Some(s@),
            ),
            Ok(None) => spec_read_signature(data@, off as int) == Ok::<_, AnnouncementError>(
                None::<Seq<u8>>,
            ),
            Err(e) => spec_read_signature(data@, off as int) == Err::<Option<Seq<u8>>, _>(e),
        },
{
    let len = data.len();
    if len - off < 1 {
        return Err(AnnouncementError::MissingSignatureFlag);
    }
    if data[off] != 1 {
        return Ok(None);
    }
    let o = off + 1;
    if len - o < 4 {
        return Err(AnnouncementError::MissingSignatureLength);
    }
    let n = read_u32_be(data, o) as usize;
    if len - o - 4 < n {
        return Err(AnnouncementError::SignatureTooShort);
    }
    Ok(Some(copy_range(data, o + 4, n)))
}

/// Announcement data for a manifest provider.
#[derive(Debug, Clone)]
pub struct ProviderAnnouncement {
    /// Bytes of the announcing peer's id.
    pub peer_id: Vec<u8>,
    /// The manifest ID being provided.
    pub manifest_id: String,
    /// When the announcement was created (seconds since the Unix epoch).
    pub timestamp: u64,
    /// TTL for this announcement (in seconds).
    pub ttl_seconds: u64,
    /// Additional metadata about the provider.
    pub metadata: Metadata,
    /// Signature of the announcement.
    pub signature: Option<Vec<u8>>,
}

/// Mathematical value of a [`ProviderAnnouncement`].
pub struct AnnouncementView {
    pub peer_id: Seq<u8>,
    pub manifest_id: Seq<char>,
    pub timestamp: u64,
    pub ttl_seconds: u64,
    pub metadata: Seq<(Seq<char>, Seq<char>)>,
    pub signature: Option<Seq<u8>>,
}

pub open spec fn opt_bytes_view(o: Option<Vec<u8>>) -> Option<Seq<u8>> {
    match o {
        Some(v) => Some(v@),
        None => None,
    }
}

impl View for ProviderAnnouncement {
    type V = AnnouncementView;

    open spec fn view(&self) -> AnnouncementView {
        AnnouncementView {
            peer_id: self.peer_id@,
            manifest_id: self.manifest_id@,
            timestamp: self.timestamp,
            ttl_seconds: self.ttl_seconds,
            metadata: metadata_pairs(self.metadata@),
            signature: opt_bytes_view(self.signature),
        }
    }
}

/// The encoding of an announcement:
/// `[u32 peer id length][peer id][u32 manifest id length][manifest id]
/// [u64 time stamp][u64 TTL][u32 metadata length][metadata JSON]` followed by
/// `[1][u32 signature length][signature]` or `[0]`, integers big-endian.
pub open spec fn encode_announcement(
    peer: Seq<u8>,
    manifest_id: Seq<char>,
    timestamp: u64,
    ttl: u64,
    metadata_json: Seq<char>,
    signature: Option<Seq<u8>>,
) -> Seq<u8> {
    u32_be_bytes(peer.len() as u32) + peer + u32_be_bytes(encode_utf8(manifest_id).len() as u32)
        + encode_utf8(manifest_id) + u64_be_bytes(timestamp) + u64_be_bytes(ttl) + u32_be_bytes(
        encode_utf8(metadata_json).len() as u32,
    ) + encode_utf8(metadata_json) + match signature {
        Some(s) => seq![1u8] + u32_be_bytes(s.len() as u32) + s,
        None => seq![0u8],
    }
}

/// Every length field of the announcement's encoding holds its length.
pub open spec fn lengths_fit(a: ProviderAnnouncement) -> bool {
    &&& a.peer_id@.len() <= u32::MAX
    &&& encode_utf8(a.manifest_id@).len() <= u32::MAX
    &&& encode_utf8(spec_metadata_json(metadata_pairs(a.metadata@))).len() <= u32::MAX
    &&& a.signature matches Some(sig) ==> sig@.len() <= u32::MAX
}

/// Two announcements agree in every field, the metadata as a map.
pub open spec fn same_announcement(a: AnnouncementView, b: AnnouncementView) -> bool {
    &&& a.peer_id == b.peer_id
    &&& a.manifest_id == b.manifest_id
    &&& a.timestamp == b.timestamp
    &&& a.ttl_seconds == b.ttl_seconds
    &&& to_map(a.metadata) == to_map(b.metadata)
    &&& a.signature == b.signature
}

/// Reading an announcement from bytes: the three field groups in order,
/// with the peer id checked after it is read and the metadata parsed after
/// its text is read.
pub open spec fn spec_decode_announcement(d: Seq<u8>) -> Result<AnnouncementView, AnnouncementError> {
    match spec_read_peer_field(d) {
        Err(e) => Err(e),
        Ok((peer, off)) => if !spec_peer_id_valid(peer) {
            Err(AnnouncementError::InvalidPeerId)
        } else {
            match spec_read_body(d, off) {
                Err(e) => Err(e),
                Ok(b) => match spec_parse_metadata(b.metadata_json) {
                    None => Err(AnnouncementError::InvalidMetadata),
                    Some(meta) => match spec_read_signature(d, b.next) {
                        Err(e) => Err(e),
                        Ok(sig) => Ok(
                            AnnouncementView {
                                peer_id: peer,
                                manifest_id: b.manifest_id,
                                timestamp: b.timestamp,
                                ttl_seconds: b.ttl_seconds,
                                metadata: meta,
                                signature: sig,
                            },
                        ),
                    },
                },
            }
        },
    }
}

/// Whether an announcement made at `timestamp` with `ttl` has expired at
/// `now`; one dated in the future counts as expired.
pub open spec fn expired_at(timestamp: u64, ttl: u64, now: u64) -> bool {
    if now >= timestamp {
        now - timestamp > ttl
    } else {
        true
    }
}

/// The DHT key under which a manifest's providers are found.
pub open spec fn provider_key(manifest_id: Seq<char>) -> Seq<char> {
    "provider:"@ + manifest_id
}

/// Builds `provider:<manifest id>`.
pub fn provider_dht_key(manifest_id: &str) -> (s: String)
    ensures
        s@ == provider_key(manifest_id@),
{
    let s = String::from_str("provider:");
    s.concat(manifest_id)
}

impl ProviderAnnouncement {
    /// Create a new provider announcement made at time `now`.
    pub fn new_at(
        peer_id: Vec<u8>,
        manifest_id: String,
        ttl_seconds: u64,
        metadata: Metadata,
        now: u64,
    ) -> (a: Self)
        ensures
            a.peer_id@ == peer_id@,
            a.manifest_id@ == manifest_id@,
            a.timestamp == now,
            a.ttl_seconds == ttl_seconds,
            a.metadata@ == metadata@,
            a.signature is None,
    {
        ProviderAnnouncement {
            peer_id,
            manifest_id,
            timestamp: now,
            ttl_seconds,
            metadata,
            signature: None,
        }
    }

    /// Create a new provider announcement stamped with the current time.
    pub fn new(peer_id: Vec<u8>, manifest_id: String, ttl_seconds: u64, metadata: Metadata) -> (a:
        Self)
        ensures
            a.peer_id@ == peer_id@,
            a.manifest_id@ == manifest_id@,
            a.ttl_seconds == ttl_seconds,
            a.metadata@ == metadata@,
            a.signature is None,
    {
        let now = crate::clock::current_timestamp_secs();
        Self::new_at(peer_id, manifest_id, ttl_seconds, metadata, now)
    }

    /// Create a provider announcement with signature, made at time `now`.
    pub fn new_signed_at(
        peer_id: Vec<u8>,
        manifest_id: String,
        ttl_seconds: u64,
        metadata: Metadata,
        signature: Vec<u8>,
        now: u64,
    ) -> (a: Self)
        ensures
            a.peer_id@ == peer_id@,
            a.manifest_id@ == manifest_id@,
            a.timestamp == now,
            a.ttl_seconds == ttl_seconds,
            a.metadata@ == metadata@,
            a.signature matches Some(s) && s@ == signature@,
    {
        ProviderAnnouncement {
            peer_id,
            manifest_id,
            timestamp: now,
            ttl_seconds,
            metadata,
            signature: Some(signature),
        }
    }

    /// Create a provider announcement with signature, stamped with the
    /// current time.
    pub fn new_signed(
        peer_id: Vec<u8>,
        manifest_id: String,
        ttl_seconds: u64,
        metadata: Metadata,
        signature: Vec<u8>,
    ) -> (a: Self)
        ensures
            a.peer_id@ == peer_id@,
            a.manifest_id@ == manifest_id@,
            a.ttl_seconds == ttl_seconds,
            a.metadata@ == metadata@,
            a.signature matches Some(s) && s@ == signature@,
    {
        let now = crate::clock::current_timestamp_secs();
        Self::new_signed_at(peer_id, manifest_id, ttl_seconds, metadata, signature, now)
    }

    /// Check if this announcement has expired at time `now`.
    pub fn is_expired_at(&self, now: u64) -> (r: bool)
        ensures
            r == expired_at(self.timestamp, self.ttl_seconds, now),
    {
        if now >= self.timestamp {
            now - self.timestamp > self.ttl_seconds
        } else {
            true
        }
    }

    /// Check if this announcement has expired, by the current time.
    pub fn is_expired(&self) -> (r: bool)
        ensures
            exists|now: u64| r == expired_at(self.timestamp, self.ttl_seconds, now),
    {
        let now = crate::clock::current_timestamp_secs();
        self.is_expired_at(now)
    }

    /// Get the DHT key for this announcement.
    pub fn get_dht_key(&self) -> (s: String)
        ensures
            s@ == provider_key(self.manifest_id@),
    {
        provider_dht_key(self.manifest_id.as_str())
    }

    /// Serialize the announcement to bytes for DHT storage.
    /// Each length field holds its length truncated to 32 bits. When every
    /// length fits, reading the bytes back gives every field again (the
    /// metadata as the same map), or reports an invalid peer id, and no
    /// proper prefix of the bytes reads as an announcement.
    pub fn to_bytes(&self) -> (r: Vec<u8>)
        ensures
            r@ == encode_announcement(
                self.peer_id@,
                self.manifest_id@,
                self.timestamp,
                self.ttl_seconds,
                spec_metadata_json(metadata_pairs(self.metadata@)),
                opt_bytes_view(self.signature),
            ),
            lengths_fit(*self) ==> {
                &&& !spec_peer_id_valid(self.peer_id@) ==> spec_decode_announcement(r@) == Err::<
                    AnnouncementView,
                    _,
                >(AnnouncementError::InvalidPeerId)
                &&& spec_peer_id_valid(self.peer_id@) ==> (spec_decode_announcement(r@) matches Ok(
                    a,
                ) && same_announcement(a, self@))
                &&& forall|k: int|
                    0 <= k < r@.len() ==> #[trigger] spec_decode_announcement(r@.take(k)) is Err
            },
    {
        let mut data: Vec<u8> = Vec::new();
        push_u32_be(&mut data, self.peer_id.len() as u32);
        push_bytes(&mut data, self.peer_id.as_slice());
        let id_bytes = self.manifest_id.as_str().as_bytes();
        push_u32_be(&mut data, id_bytes.len() as u32);
        push_bytes(&mut data, id_bytes);
        push_u64_be(&mut data, self.timestamp);
        push_u64_be(&mut data, self.ttl_seconds);
        let json = metadata_to_json(&self.metadata);
        let json_bytes = json.as_str().as_bytes();
        push_u32_be(&mut data, json_bytes.len() as u32);
        push_bytes(&mut data, json_bytes);
        match &self.signature {
            Some(sig) => {
                data.push(1u8);
                push_u32_be(&mut data, sig.len() as u32);
                push_bytes(&mut data, sig.as_slice());
            },
            None => {
                data.push(0u8);
            },
        }
        proof {
            let e = encode_announcement(
                self.peer_id@,
                self.manifest_id@,
                self.timestamp,
                self.ttl_seconds,
                spec_metadata_json(metadata_pairs(self.metadata@)),
                opt_bytes_view(self.signature),
            );
            assert(data@ =~= e);
            if lengths_fit(*self) {
                assert forall|k: int| 0 <= k < data@.len() implies #[trigger] spec_decode_announcement(
                    data@.take(k),
                ) is Err by {
                    lemma_announcement_prefix_rejected(
                        self.peer_id@,
                        self.manifest_id@,
                        self.timestamp,
                        self.ttl_seconds,
                        spec_metadata_json(metadata_pairs(self.metadata@)),
                        opt_bytes_view(self.signature),
                        k,
                    );
                }
                lemma_announcement_roundtrip(
                    self.peer_id@,
                    self.manifest_id@,
                    self.timestamp,
                    self.ttl_seconds,
                    spec_metadata_json(metadata_pairs(self.metadata@)),
                    opt_bytes_view(self.signature),
                );
            }
        }
        data
    }

    /// Deserialize an announcement from bytes.
    pub fn from_bytes(data: &[u8]) -> (r: Result<Self, AnnouncementError>)
        ensures
            match r {
                Ok(a) => spec_decode_announcement(data@) == Ok::<_, AnnouncementError>(a@),
                Err(e) => spec_decode_announcement(data@) == Err::<AnnouncementView, _>(e),
            },
    {
        let (peer_id, off) = match read_peer_field(data) {
            Ok(p) => p,
            Err(e) => return Err(e),
        };
        if !peer_id_bytes_valid(peer_id.as_slice()) {
            return Err(AnnouncementError::InvalidPeerId);
        }
        let body = match read_body_fields(data, off) {
            Ok(b) => b,
            Err(e) => return Err(e),
        };
        let metadata = match parse_metadata_json(body.metadata_json.as_str()) {
            Some(m) => m,
            None => return Err(AnnouncementError::InvalidMetadata),
        };
        let signature = match read_signature_field(data, body.next) {
            Ok(s) => s,
            Err(e) => return Err(e),
        };
        Ok(
            ProviderAnnouncement {
                peer_id,
                manifest_id: body.manifest_id,
                timestamp: body.timestamp,
                ttl_seconds: body.ttl_seconds,
                metadata,
                signature,
            },
        )
    }
}

proof fn lemma_be_u32_in(s: Seq<u8>, at: int, x: u32)
    requires
        0 <= at,
        at + 4 <= s.len(),
        s.subrange(at, at + 4) == u32_be_bytes(x),
    ensures
        be_u32_at(s, at) == x,
{
    crate::bytes::lemma_u32_roundtrip(x);
    let t = s.subrange(at, at + 4);
    assert(s[at] == t[0] && s[at + 1] == t[1] && s[at + 2] == t[2] && s[at + 3] == t[3]);
}

proof fn lemma_be_u64_in(s: Seq<u8>, at: int, x: u64)
    requires
        0 <= at,
        at + 8 <= s.len(),
        s.subrange(at, at + 8) == u64_be_bytes(x),
    ensures
        be_u64_at(s, at) == x,
{
    crate::bytes::lemma_u64_roundtrip(x);
    let t = s.subrange(at, at + 8);
    assert(s[at] == t[0] && s[at + 1] == t[1] && s[at + 2] == t[2] && s[at + 3] == t[3]);
    assert(s[at + 4] == t[4] && s[at + 5] == t[5] && s[at + 6] == t[6] && s[at + 7] == t[7]);
}

proof fn lemma_read_peer_of(peer: Seq<u8>, rest: Seq<u8>)
    requires
        peer.len() <= u32::MAX,
    ensures
        spec_read_peer_field(u32_be_bytes(peer.len() as u32) + peer + rest) == Ok::<
            _,
            AnnouncementError,
        >((peer, (4 + peer.len()) as int)),
{
    let d = u32_be_bytes(peer.len() as u32) + peer + rest;
    assert(d.subrange(0, 4) =~= u32_be_bytes(peer.len() as u32));
    lemma_be_u32_in(d, 0, peer.len() as u32);
    assert(d.subrange(4, (4 + peer.len()) as int) =~= peer);
}

/// The signature tail of an encoded announcement.
pub open spec fn signature_tail(signature: Option<Seq<u8>>) -> Seq<u8> {
    match signature {
        Some(s) => seq![1u8] + u32_be_bytes(s.len() as u32) + s,
        None => seq![0u8],
    }
}

/// The bytes between the peer id and the signature tail.
pub open spec fn body_bytes(
    manifest_id: Seq<char>,
    timestamp: u64,
    ttl: u64,
    metadata_json: Seq<char>,
) -> Seq<u8> {
    u32_be_bytes(encode_utf8(manifest_id).len() as u32) + encode_utf8(manifest_id) + u64_be_bytes(
        timestamp,
    ) + u64_be_bytes(ttl) + u32_be_bytes(encode_utf8(metadata_json).len() as u32) + encode_utf8(
        metadata_json,
    )
}

#[verifier::rlimit(40)]
proof fn lemma_read_body_of(
    pre: Seq<u8>,
    manifest_id: Seq<char>,
    timestamp: u64,
    ttl: u64,
    metadata_json: Seq<char>,
    rest: Seq<u8>,
)
    requires
        encode_utf8(manifest_id).len() <= u32::MAX,
        encode_utf8(metadata_json).len() <= u32::MAX,
    ensures
        spec_read_body(pre + body_bytes(manifest_id, timestamp, ttl, metadata_json) + rest, pre.len() as int)
            == Ok::<_, AnnouncementError>(
            BodyView {
                manifest_id,
                timestamp,
                ttl_seconds: ttl,
                metadata_json,
                next: (pre.len() + body_bytes(manifest_id, timestamp, ttl, metadata_json).len()) as int,
            },
        ),
{
    broadcast use vstd::utf8::encode_utf8_valid_utf8, vstd::utf8::encode_utf8_decode_utf8;

    let ib = encode_utf8(manifest_id);
    let mb = encode_utf8(metadata_json);
    let d = pre + body_bytes(manifest_id, timestamp, ttl, metadata_json) + rest;
    let off = pre.len() as int;
    let n = ib.len() as int;
    let m = mb.len() as int;
    let o1 = off + 4;
    let o2 = o1 + n;
    let o3 = o2 + 8;
    let o4 = o3 + 8;
    let o5 = o4 + 4;
    assert(body_bytes(manifest_id, timestamp, ttl, metadata_json).len() == 24 + n + m);
    assert(d.subrange(off, o1) =~= u32_be_bytes(n as u32));
    lemma_be_u32_in(d, off, n as u32);
    assert(d.subrange(o1, o2) =~= ib);
    assert(d.subrange(o2, o3) =~= u64_be_bytes(timestamp));
    lemma_be_u64_in(d, o2, timestamp);
    assert(d.subrange(o3, o4) =~= u64_be_bytes(ttl));
    lemma_be_u64_in(d, o3, ttl);
    assert(d.subrange(o4, o5) =~= u32_be_bytes(m as u32));
    lemma_be_u32_in(d, o4, m as u32);
    assert(d.subrange(o5, o5 + m) =~= mb);
}

proof fn lemma_read_signature_of(pre: Seq<u8>, signature: Option<Seq<u8>>)
    requires
        signature matches Some(sig) ==> sig.len() <= u32::MAX,
    ensures
        spec_read_signature(pre + signature_tail(signature), pre.len() as int) == Ok::<
            _,
            AnnouncementError,
        >(signature),
{
    let d = pre + signature_tail(signature);
    let off = pre.len() as int;
    match signature {
        Some(sg) => {
            assert(d[off] == 1u8);
            assert(d.subrange(off + 1, off + 5) =~= u32_be_bytes(sg.len() as u32));
            lemma_be_u32_in(d, off + 1, sg.len() as u32);
            assert(d.subrange(off + 5, off + 5 + sg.len()) =~= sg);
        },
        None => {
            assert(d[off] == 0u8);
        },
    }
}

/// Encoding round trip: decoding an encoded announcement gives back every
/// field whenever its peer id is valid and its metadata text parses; an
/// invalid peer id or metadata text is reported as such.
#[verifier::rlimit(50)]
#[verifier::spinoff_prover]
pub proof fn lemma_announcement_roundtrip(
    peer: Seq<u8>,
    manifest_id: Seq<char>,
    timestamp: u64,
    ttl: u64,
    metadata_json: Seq<char>,
    signature: Option<Seq<u8>>,
)
    requires
        peer.len() <= u32::MAX,
        encode_utf8(manifest_id).len() <= u32::MAX,
        encode_utf8(metadata_json).len() <= u32::MAX,
        signature matches Some(sig) ==> sig.len() <= u32::MAX,
    ensures
        ({
            let d = encode_announcement(peer, manifest_id, timestamp, ttl, metadata_json, signature);
            &&& !spec_peer_id_valid(peer) ==> spec_decode_announcement(d) == Err::<
                AnnouncementView,
                _,
            >(AnnouncementError::InvalidPeerId)
            &&& spec_peer_id_valid(peer) && spec_parse_metadata(metadata_json) is None
                ==> spec_decode_announcement(d) == Err::<AnnouncementView, _>(
                AnnouncementError::InvalidMetadata,
            )
            &&& (spec_peer_id_valid(peer) && spec_parse_metadata(metadata_json) is Some) ==>
                spec_decode_announcement(d) == Ok::<_, AnnouncementError>(
                    AnnouncementView {
                        peer_id: peer,
                        manifest_id,
                        timestamp,
                        ttl_seconds: ttl,
                        metadata: spec_parse_metadata(metadata_json).unwrap(),
                        signature,
                    },
                )
        }),
{
    let d = encode_announcement(peer, manifest_id, timestamp, ttl, metadata_json, signature);
    let head = u32_be_bytes(peer.len() as u32) + peer;
    let body = body_bytes(manifest_id, timestamp, ttl, metadata_json);
    let tail = signature_tail(signature);
    assert(d =~= head + (body + tail));
    lemma_read_peer_of(peer, body + tail);
    assert(d =~= head + body + tail);
    lemma_read_body_of(head, manifest_id, timestamp, ttl, metadata_json, tail);
    assert(d =~= (head + body) + tail);
    lemma_read_signature_of(head + body, signature);
}

/// A big-endian 32-bit read sees only its four bytes.
proof fn lemma_prefix_read_u32(d: Seq<u8>, k: int, at: int)
    requires
        0 <= at,
        at + 4 <= k <= d.len(),
    ensures
        be_u32_at(d.take(k), at) == be_u32_at(d, at),
{
    let p = d.take(k);
    assert(p[at] == d[at] && p[at + 1] == d[at + 1] && p[at + 2] == d[at + 2] && p[at + 3] == d[at + 3]);
}

/// No proper prefix of an encoded announcement reads as an announcement:
/// a truncated record is always refused.
#[verifier::rlimit(100)]
#[verifier::spinoff_prover]
pub proof fn lemma_announcement_prefix_rejected(
    peer: Seq<u8>,
    manifest_id: Seq<char>,
    timestamp: u64,
    ttl: u64,
    metadata_json: Seq<char>,
    signature: Option<Seq<u8>>,
    k: int,
)
    requires
        peer.len() <= u32::MAX,
        encode_utf8(manifest_id).len() <= u32::MAX,
        encode_utf8(metadata_json).len() <= u32::MAX,
        signature matches Some(sig) ==> sig.len() <= u32::MAX,
        0 <= k < encode_announcement(peer, manifest_id, timestamp, ttl, metadata_json, signature).len(),
    ensures
        spec_decode_announcement(
            encode_announcement(peer, manifest_id, timestamp, ttl, metadata_json, signature).take(k),
        ) is Err,
{
    let d = encode_announcement(peer, manifest_id, timestamp, ttl, metadata_json, signature);
    let head = u32_be_bytes(peer.len() as u32) + peer;
    let body = body_bytes(manifest_id, timestamp, ttl, metadata_json);
    let tail = signature_tail(signature);
    assert(d =~= head + (body + tail));
    lemma_read_peer_of(peer, body + tail);
    assert(d =~= head + body + tail);
    lemma_read_body_of(head, manifest_id, timestamp, ttl, metadata_json, tail);
    assert(d =~= (head + body) + tail);
    lemma_read_signature_of(head + body, signature);
    let p = d.take(k);
    if spec_decode_announcement(p) is Ok {
        // The peer field of the prefix is the peer field of the whole.
        assert(p.len() >= 4);
        lemma_prefix_read_u32(d, k, 0);
        let off = 4 + peer.len();
        assert(spec_read_peer_field(p) matches Ok((_, o)) && o == off);
        // The body fields of the prefix are those of the whole.
        let n = encode_utf8(manifest_id).len() as int;
        let m = encode_utf8(metadata_json).len() as int;
        let o1 = off + 4;
        let o2 = o1 + n;
        let o3 = o2 + 8;
        let o4 = o3 + 8;
        let o5 = o4 + 4;
        assert(spec_read_body(d, off as int) matches Ok(b) && b.next == o5 + m);
        assert(p.len() >= o1);
        lemma_prefix_read_u32(d, k, off as int);
        assert(p.len() >= o5);
        lemma_prefix_read_u32(d, k, o4);
        let next = o5 + m;
        assert(spec_read_body(p, off as int) matches Ok(b) && b.next == next);
        assert(next == head.len() + body.len());
        // The signature tail of the prefix ends where the whole ends.
        assert(p.len() >= next + 1);
        assert(p[next] == d[next]);
        match signature {
            Some(sg) => {
                assert(d[next] == 1u8);
                assert(p.len() >= next + 5);
                lemma_prefix_read_u32(d, k, next + 1);
                assert(p.len() >= next + 5 + sg.len());
                assert(false);
            },
            None => {
                assert(d.len() == next + 1);
                assert(false);
            },
        }
    }
}

/// The strings of a sequence as mathematical strings.
pub open spec fn strings_view(s: Seq<String>) -> Seq<Seq<char>> {
    s.map_values(|x: String| x@)
}

/// The pairs of optional metadata.
pub open spec fn opt_metadata_pairs(o: Option<&Metadata>) -> Option<Seq<(Seq<char>, Seq<char>)>> {
    match o {
        Some(r) => Some(metadata_pairs(r@)),
        None => None,
    }
}

/// Capability names joined with commas.
pub open spec fn join_comma(s: Seq<Seq<char>>) -> Seq<char>
    decreases s.len(),
{
    if s.len() == 0 {
        Seq::empty()
    } else if s.len() == 1 {
        s[0]
    } else {
        join_comma(s.drop_last()) + seq![','] + s.last()
    }
}

/// `m` with each pair of `pairs` inserted in order, keys prefixed.
pub open spec fn insert_prefixed(
    m: Map<Seq<char>, Seq<char>>,
    pairs: Seq<(Seq<char>, Seq<char>)>,
    prefix: Seq<char>,
) -> Map<Seq<char>, Seq<char>>
    decreases pairs.len(),
{
    if pairs.len() == 0 {
        m
    } else {
        insert_prefixed(m, pairs.drop_last(), prefix).insert(prefix + pairs.last().0, pairs.last().1)
    }
}

/// The metadata of a provider announcement: the capabilities joined with
/// commas (when there are any), each resource entry under `resource.<key>`,
/// the custom fields, and the announcement time `now`.
pub open spec fn spec_create_metadata(
    capabilities: Seq<Seq<char>>,
    resources: Option<Seq<(Seq<char>, Seq<char>)>>,
    custom: Seq<(Seq<char>, Seq<char>)>,
    now: u64,
) -> Map<Seq<char>, Seq<char>> {
    let m1 = if capabilities.len() == 0 {
        Map::empty()
    } else {
        Map::empty().insert("capabilities"@, join_comma(capabilities))
    };
    let m2 = match resources {
        Some(r) => insert_prefixed(m1, r, "resource."@),
        None => m1,
    };
    insert_prefixed(m2, custom, Seq::empty()).insert("announced_at"@, decimal_chars(now as nat))
}

/// Sets `key` to `value` in a metadata list whose keys are distinct.
pub fn metadata_insert(m: &mut Metadata, key: String, value: String)
    requires
        keys_distinct(metadata_pairs(old(m)@)),
    ensures
        keys_distinct(metadata_pairs(final(m)@)),
        metadata_map(final(m)@) == metadata_map(old(m)@).insert(key@, value@),
{
    let ghost old_pairs = metadata_pairs(m@);
    let ghost kv = (key@, value@);
    let mut i: usize = 0;
    while i < m.len()
        invariant
            i <= m@.len(),
            old_pairs == metadata_pairs(m@),
            m@ == old(m)@,
            keys_distinct(old_pairs),
            kv == (key@, value@),
            forall|j: int| 0 <= j < i ==> old_pairs[j].0 != key@,
        decreases m@.len() - i,
    {
        if str_eq(m[i].0.as_str(), key.as_str()) {
            assert(old_pairs[i as int].0 == key@);
            m.set(i, (key, value));
            proof {
                assert(metadata_pairs(m@) =~= old_pairs.update(i as int, (old_pairs[i as int].0, kv.1)));
                lemma_update(old_pairs, i as int, kv.1);
            }
            return;
        }
        i = i + 1;
    }
    proof {
        lemma_to_map_dom(old_pairs, key@);
    }
    m.push((key, value));
    proof {
        assert(metadata_pairs(m@) =~= old_pairs.push(kv));
        lemma_push(old_pairs, kv.0, kv.1);
    }
}

/// Joins strings with commas.
fn join_with_commas(items: &[String]) -> (s: String)
    ensures
        s@ == join_comma(strings_view(items@)),
{
    let ghost views = strings_view(items@);
    let mut s = String::new();
    let mut i: usize = 0;
    while i < items.len()
        invariant
            i <= items@.len(),
            views == strings_view(items@),
            s@ == join_comma(views.take(i as int)),
        decreases items@.len() - i,
    {
        proof {
            assert(views.take(i + 1).drop_last() =~= views.take(i as int));
        }
        if i > 0 {
            crate::text::push_char(&mut s, ',');
        }
        s.append(items[i].as_str());
        i = i + 1;
    }
    proof {
        assert(views.take(i as int) =~= views);
    }
    s
}

/// Inserts every pair of `pairs` into `m`, keys prefixed with `prefix`.
fn insert_all_prefixed(m: &mut Metadata, pairs: &Metadata, prefix: &str)
    requires
        keys_distinct(metadata_pairs(old(m)@)),
    ensures
        keys_distinct(metadata_pairs(final(m)@)),
        metadata_map(final(m)@) == insert_prefixed(
            metadata_map(old(m)@),
            metadata_pairs(pairs@),
            prefix@,
        ),
{
    let ghost start = metadata_map(m@);
    let ghost ps = metadata_pairs(pairs@);
    let mut i: usize = 0;
    while i < pairs.len()
        invariant
            i <= pairs@.len(),
            ps == metadata_pairs(pairs@),
            keys_distinct(metadata_pairs(m@)),
            metadata_map(m@) == insert_prefixed(start, ps.take(i as int), prefix@),
        decreases pairs@.len() - i,
    {
        proof {
            assert(ps.take(i + 1).drop_last() =~= ps.take(i as int));
        }
        let k = String::from_str(prefix).concat(pairs[i].0.as_str());
        metadata_insert(m, k, pairs[i].1.clone());
        i = i + 1;
    }
    proof {
        assert(ps.take(i as int) =~= ps);
    }
}

/// An announcement is valid at `now` when it has not expired and names a
/// manifest.
pub open spec fn announcement_valid_at(a: ProviderAnnouncement, now: u64) -> bool {
    !expired_at(a.timestamp, a.ttl_seconds, now) && a.manifest_id@.len() > 0
}

/// Utility functions for managing provider announcements.
pub struct AnnouncementManager;

impl AnnouncementManager {
    /// Create metadata for a provider announcement made at time `now`.
    pub fn create_metadata_at(
        node_capabilities: &[String],
        resource_info: Option<&Metadata>,
        custom_fields: &Metadata,
        now: u64,
    ) -> (m: Metadata)
        ensures
            keys_distinct(metadata_pairs(m@)),
            metadata_map(m@) == spec_create_metadata(
                strings_view(node_capabilities@),
                opt_metadata_pairs(resource_info),
                metadata_pairs(custom_fields@),
                now,
            ),
    {
        let mut m: Metadata = Vec::new();
        proof {
            assert(metadata_pairs(m@) =~= Seq::<(Seq<char>, Seq<char>)>::empty());
            assert(metadata_map(m@) =~= Map::<Seq<char>, Seq<char>>::empty());
        }
        if node_capabilities.len() > 0 {
            metadata_insert(&mut m, String::from_str("capabilities"), join_with_commas(node_capabilities));
        }
        match resource_info {
            Some(resources) => {
                insert_all_prefixed(&mut m, resources, "resource.");
            },
            None => {},
        }
        insert_all_prefixed(&mut m, custom_fields, "");
        proof {
            reveal_strlit("");
            assert(""@ =~= Seq::<char>::empty());
        }
        metadata_insert(&mut m, String::from_str("announced_at"), u64_to_decimal(now));
        m
    }

    /// Create metadata for a provider announcement made now.
    pub fn create_metadata(
        node_capabilities: &[String],
        resource_info: Option<&Metadata>,
        custom_fields: &Metadata,
    ) -> (m: Metadata)
        ensures
            keys_distinct(metadata_pairs(m@)),
            exists|now: u64|
                metadata_map(m@) == #[trigger] spec_create_metadata(
                    strings_view(node_capabilities@),
                    opt_metadata_pairs(resource_info),
                    metadata_pairs(custom_fields@),
                    now,
                ),
    {
        let now = crate::clock::current_timestamp_secs();
        Self::create_metadata_at(node_capabilities, resource_info, custom_fields, now)
    }

    /// Validate a provider announcement at time `now`: it must not have
    /// expired and must name a manifest.
    pub fn validate_announcement_at(announcement: &ProviderAnnouncement, now: u64) -> (r: bool)
        ensures
            r == announcement_valid_at(*announcement, now),
    {
        if announcement.is_expired_at(now) {
            return false;
        }
        if announcement.manifest_id.as_str().is_empty() {
            return false;
        }
        true
    }

    /// Validate a provider announcement against the current time.
    pub fn validate_announcement(announcement: &ProviderAnnouncement) -> (r: bool)
        ensures
            exists|now: u64| r == #[trigger] announcement_valid_at(*announcement, now),
    {
        let now = crate::clock::current_timestamp_secs();
        let r = Self::validate_announcement_at(announcement, now);
        assert(r == announcement_valid_at(*announcement, now));
        r
    }
}

} // verus!
