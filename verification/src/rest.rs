//! Records of the REST side: the envelope handler's keys, the metadata of
//! an accepted envelope, the CLI's envelope builder, and the identifiers of
//! Kubernetes-style resources.
use vstd::prelude::*;

use crate::crypto::{
    base64_decode, decrypt_payload_from_recipient_blob, spec_aes256gcm_decrypt, spec_base64_decode,
    spec_mlkem512_decapsulate, BlobDecryptError, AES_GCM_NONCE_LEN,
};
use crate::digest::{hash_three_strs, spec_hash_three_strs};
use crate::envelope::{
    envelope_outcome, verify_flatbuffer_envelope_for_peer, EnvelopeError, EnvelopeFields,
    ENVELOPE_NONCE_WINDOW_MS,
};
use crate::recipient_blob::parse_blob;
use crate::replay::NonceStore;
use crate::text::{hex_chars, str_eq, u64_to_hex};

verus! {

/// Secure envelope metadata stored in request extensions.
#[derive(Clone, Debug)]
pub struct EnvelopeMetadata {
    pub signing_pubkey: Vec<u8>,
    pub kem_pubkey: Vec<u8>,
    pub peer_id: Option<String>,
}

/// The bytes of a base64 text, or none when it is absent or not base64.
pub open spec fn decoded_or_empty(text: Option<Seq<char>>) -> Seq<u8> {
    match text {
        Some(t) => match spec_base64_decode(t) {
            Ok(b) => b,
            Err(_) => Seq::empty(),
        },
        None => Seq::empty(),
    }
}

fn decode_or_empty(text: Option<&str>) -> (r: Vec<u8>)
    ensures
        r@ == decoded_or_empty(
            match text {
                Some(t) => Some(t@),
                None => None,
            },
        ),
{
    match text {
        Some(t) => match base64_decode(t) {
            Ok(b) => b,
            Err(_) => Vec::new(),
        },
        None => Vec::new(),
    }
}

impl EnvelopeMetadata {
    /// The metadata of an envelope with these base64 signing and KEM public
    /// keys and this peer id; a key that is absent or not base64 is empty.
    pub fn from_envelope(pubkey_b64: Option<&str>, kem_pubkey_b64: Option<&str>, peer_id: Option<&str>) -> (m:
        Self)
        ensures
            m.signing_pubkey@ == decoded_or_empty(
                match pubkey_b64 {
                    Some(t) => Some(t@),
                    None => None,
                },
            ),
            m.kem_pubkey@ == decoded_or_empty(
                match kem_pubkey_b64 {
                    Some(t) => Some(t@),
                    None => None,
                },
            ),
            match peer_id {
                Some(p) => m.peer_id matches Some(q) && q@ == p@,
                None => m.peer_id is None,
            },
    {
        EnvelopeMetadata {
            signing_pubkey: decode_or_empty(pubkey_b64),
            kem_pubkey: decode_or_empty(kem_pubkey_b64),
            peer_id: match peer_id {
                Some(p) => Some(p.to_owned()),
                None => None,
            },
        }
    }

    /// The metadata of a request that is not an envelope.
    pub fn empty() -> (m: Self)
        ensures
            m.signing_pubkey@.len() == 0,
            m.kem_pubkey@.len() == 0,
            m.peer_id is None,
    {
        EnvelopeMetadata { signing_pubkey: Vec::new(), kem_pubkey: Vec::new(), peer_id: None }
    }

    /// Whether the answer to the request is encrypted for its sender: the
    /// sender gave a KEM key and a peer id.
    pub fn answer_encrypted(&self) -> (b: bool)
        ensures
            b == (self.kem_pubkey@.len() > 0 && self.peer_id is Some),
    {
        self.kem_pubkey.len() > 0 && self.peer_id.is_some()
    }
}

/// The peer id of a request: the `x-peer-id` header when it is readable
/// text, else the envelope's.
pub fn extract_peer_id(header: Option<Option<&str>>, envelope_peer_id: Option<&str>) -> (r: Option<String>)
    ensures
        match header {
            Some(Some(h)) => r matches Some(p) && p@ == h@,
            _ => match envelope_peer_id {
                Some(e) => r matches Some(p) && p@ == e@,
                None => r is None,
            },
        },
{
    match header {
        Some(Some(h)) => Some(h.to_owned()),
        _ => match envelope_peer_id {
            Some(e) => Some(e.to_owned()),
            None => None,
        },
    }
}

/// The content type of requests that carry an envelope.
pub open spec fn envelope_content_type() -> Seq<char> {
    "application/octet-stream"@
}

/// What the envelope layer in front of the REST handlers does with a
/// request: only bodies sent as `application/octet-stream` are looked at;
/// an unreadable body is a bad request (400), a body that is not an
/// envelope goes on as it is (with empty envelope metadata), and an
/// envelope that cannot be opened is refused as unauthorized (401).
/// `None` means the request goes on to its handler.
pub fn envelope_layer_status(
    content_type: &str,
    body_read: bool,
    is_envelope: bool,
    opened: bool,
) -> (r: Option<u16>)
    ensures
        content_type@ != envelope_content_type() ==> r is None,
        content_type@ == envelope_content_type() ==> r == (if !body_read {
            Some(400u16)
        } else if is_envelope && !opened {
            Some(401u16)
        } else {
            None::<u16>
        }),
{
    proof {
        reveal_strlit("application/octet-stream");
    }
    if !str_eq(content_type, "application/octet-stream") {
        return None;
    }
    if !body_read {
        Some(400)
    } else if is_envelope && !opened {
        Some(401)
    } else {
        None
    }
}

/// Why a request envelope could not be opened.
#[derive(Debug, Clone, PartialEq, Eq)]
pub enum RequestEnvelopeError {
    /// The envelope does not verify.
    Verification(EnvelopeError),
    /// The payload could not be decrypted.
    Decryption(BlobDecryptError),
}

/// Encrypted envelope handler for REST API communication.
pub struct EnvelopeHandler {
    /// Node's KEM private key for decryption.
    kem_private_key: Vec<u8>,
    /// Optional node signing private key (used to sign responses).
    signing_private_key: Option<Vec<u8>>,
    /// Node's public (signing) key for responses (base64 string).
    public_key: String,
}

impl EnvelopeHandler {
    /// A handler with the given keys.
    pub fn with_keys(kem_private_key: Vec<u8>, signing_private_key: Option<Vec<u8>>, public_key: String) -> (h:
        Self)
        ensures
            h.spec_kem_private_key() == kem_private_key@,
            h.spec_signing_private_key() == match signing_private_key {
                Some(k) => Some(k@),
                None => None,
            },
            h.spec_public_key() == public_key@,
    {
        EnvelopeHandler { kem_private_key, signing_private_key, public_key }
    }

    pub closed spec fn spec_kem_private_key(&self) -> Seq<u8> {
        self.kem_private_key@
    }

    pub closed spec fn spec_signing_private_key(&self) -> Option<Seq<u8>> {
        match self.signing_private_key {
            Some(k) => Some(k@),
            None => None,
        }
    }

    pub closed spec fn spec_public_key(&self) -> Seq<char> {
        self.public_key@
    }

    /// A handler with the node's KEM private key and base64 signing public
    /// key. Responses are signed with the node's in-memory key pair when
    /// there is one, else with the private key on disk when it could be
    /// loaded (`disk_private_key`), else not at all.
    pub fn new(
        kem_private_key: Vec<u8>,
        public_key: String,
        node_keypair: Option<(Vec<u8>, Vec<u8>)>,
        disk_private_key: Option<Vec<u8>>,
    ) -> (h: Self)
        ensures
            h.spec_kem_private_key() == kem_private_key@,
            h.spec_public_key() == public_key@,
            h.spec_signing_private_key() == match node_keypair {
                Some((_, sk)) => Some(sk@),
                None => match disk_private_key {
                    Some(sk) => Some(sk@),
                    None => None,
                },
            },
    {
        let signing_private_key = match node_keypair {
            Some((_, sk)) => Some(sk),
            None => disk_private_key,
        };
        EnvelopeHandler { kem_private_key, signing_private_key, public_key }
    }

    /// Open a request envelope received at `now`: it is verified as sent by
    /// its peer (`global` when it names none), nonces kept for five minutes,
    /// and its payload decrypted with the node's KEM key.
    pub fn decrypt_request_envelope(
        &self,
        store: &mut NonceStore,
        fields: &EnvelopeFields,
        canonical: &[u8],
        envelope_peer_id: Option<&str>,
        now: u64,
    ) -> (r: Result<Vec<u8>, RequestEnvelopeError>)
        requires
            old(store).wf(),
            parse_blob(fields.payload@) matches Ok((_, nonce, _)) ==> nonce.len() == AES_GCM_NONCE_LEN,
        ensures
            final(store).wf(),
            ({
                let peer = match envelope_peer_id {
                    Some(p) => p@,
                    None => "global"@,
                };
                let (m2, out) = envelope_outcome(
                    old(store)@,
                    *fields,
                    canonical@,
                    ENVELOPE_NONCE_WINDOW_MS,
                    peer,
                    now,
                );
                &&& final(store)@ == m2
                &&& match out {
                    Err(e) => r == Err::<Vec<u8>, _>(RequestEnvelopeError::Verification(e)),
                    Ok(_) => match parse_blob(fields.payload@) {
                        Err(e) => r == Err::<Vec<u8>, _>(
                            RequestEnvelopeError::Decryption(BlobDecryptError::Malformed(e)),
                        ),
                        Ok((wrapped, nonce, ct)) => match spec_mlkem512_decapsulate(
                            self.spec_kem_private_key(),
                            wrapped,
                        ) {
                            None => r == Err::<Vec<u8>, _>(
                                RequestEnvelopeError::Decryption(BlobDecryptError::Decapsulation),
                            ),
                            Some(key) => match spec_aes256gcm_decrypt(key, nonce, ct) {
                                None => r == Err::<Vec<u8>, _>(
                                    RequestEnvelopeError::Decryption(BlobDecryptError::Decryption),
                                ),
                                Some(p) => r matches Ok(v) && v@ == p,
                            },
                        },
                    },
                }
            }),
    {
        let peer: &str = match envelope_peer_id {
            Some(p) => p,
            None => "global",
        };
        match verify_flatbuffer_envelope_for_peer(
            store,
            fields,
            canonical,
            ENVELOPE_NONCE_WINDOW_MS,
            peer,
            now,
        ) {
            Err(e) => return Err(RequestEnvelopeError::Verification(e)),
            Ok(_) => {},
        }
        match decrypt_payload_from_recipient_blob(fields.payload.as_slice(), self.kem_private_key.as_slice()) {
            Ok(p) => Ok(p),
            Err(e) => Err(RequestEnvelopeError::Decryption(e)),
        }
    }

    /// Whether a response to `peer_id` can be encrypted and signed: a KEM
    /// key must be given and the node must have a signing key.
    pub fn response_precheck(&self, peer_id: &str, kem_pubkey: &[u8]) -> (r: Result<(), String>)
        ensures
            kem_pubkey@.len() == 0 ==> (r matches Err(e) && e@ == "No KEM public key provided for peer: "@
                + peer_id@),
            kem_pubkey@.len() > 0 && self.spec_signing_private_key() is None ==> (r matches Err(e)
                && e@ == "No signing private key available for peer: "@ + peer_id@),
            kem_pubkey@.len() > 0 && self.spec_signing_private_key() is Some ==> r is Ok,
    {
        if kem_pubkey.len() == 0 {
            return Err(String::from_str("No KEM public key provided for peer: ").concat(peer_id));
        }
        if self.signing_private_key.is_none() {
            return Err(String::from_str("No signing private key available for peer: ").concat(peer_id));
        }
        Ok(())
    }

    /// Get the machine's public key.
    pub fn get_public_key(&self) -> (k: &str)
        ensures
            k@ == self.spec_public_key(),
    {
        self.public_key.as_str()
    }

    /// The KEM private key that request envelopes are decrypted with.
    pub fn kem_private_key(&self) -> (k: &[u8])
        ensures
            k@ == self.spec_kem_private_key(),
    {
        self.kem_private_key.as_slice()
    }

    /// The signing key responses are signed with, if the node has one.
    pub fn signing_private_key(&self) -> (k: Option<&[u8]>)
        ensures
            match k {
                Some(b) => self.spec_signing_private_key() == Some(b@),
                None => self.spec_signing_private_key() is None,
            },
    {
        match &self.signing_private_key {
            Some(v) => Some(v.as_slice()),
            None => None,
        }
    }
}

/// Helper for building envelopes on the CLI side: the peer they are for
/// and the public key they carry.
pub struct FlatbufferEnvelopeBuilder {
    peer_id: String,
    public_key: String,
}

impl FlatbufferEnvelopeBuilder {
    /// A builder for `peer_id` carrying `public_key`.
    pub fn with_keys(peer_id: String, public_key: String) -> (b: Self)
        ensures
            b.spec_peer_id() == peer_id@,
            b.spec_public_key() == public_key@,
    {
        FlatbufferEnvelopeBuilder { peer_id, public_key }
    }

    pub closed spec fn spec_peer_id(&self) -> Seq<char> {
        self.peer_id@
    }

    pub closed spec fn spec_public_key(&self) -> Seq<char> {
        self.public_key@
    }

    /// The peer the envelopes are for.
    pub fn peer_id(&self) -> (p: &str)
        ensures
            p@ == self.spec_peer_id(),
    {
        self.peer_id.as_str()
    }

    /// The public key the envelopes carry.
    pub fn public_key(&self) -> (k: &str)
        ensures
            k@ == self.spec_public_key(),
    {
        self.public_key.as_str()
    }
}

/// The manifest id of a resource: the hash of its namespace, name and kind
/// in 16 lower-case hex digits.
pub fn compute_manifest_id(namespace: &str, name: &str, kind: &str) -> (id: String)
    ensures
        id@ == hex_chars(spec_hash_three_strs(namespace@, name@, kind@) as nat, 16),
{
    let h = hash_three_strs(namespace, name, kind);
    u64_to_hex(h, 16)
}

} // verus!
