//! Cryptographic operations of a node: ML-DSA-65 signatures over envelope
//! bytes, ML-KEM-512 key encapsulation, AES-256-GCM payload encryption,
//! Shamir splitting of symmetric keys, and the base64 text forms of keys
//! and signatures. The primitives are those of the `saorsa-pqc`,
//! `aes-gcm`, `blahaj` and `base64` crates; what each promises is stated at
//! its wrapper, and what the node builds on top of them is proved here.
use vstd::prelude::*;
use vstd::string::StrSliceExecFns;

use aes_gcm::aead::{Aead, KeyInit};
use base64::Engine;
use rand::RngCore;
use saorsa_pqc::api::kem::{MlKemCiphertext, MlKemPublicKey, MlKemSecretKey, MlKemVariant};
use saorsa_pqc::api::sig::{MlDsaPublicKey, MlDsaSecretKey, MlDsaVariant};

use crate::recipient_blob::{
    encode_blob, encode_recipient_blob, lemma_recipient_blob_roundtrip, parse_blob, parse_recipient_blob,
};

verus! {

// ----- base64 (standard alphabet, padded) -----

/// The base64 text of some bytes.
pub uninterp spec fn spec_base64_encode(data: Seq<u8>) -> Seq<char>;

/// The bytes a base64 text decodes to, or the text of the decoding error.
pub uninterp spec fn spec_base64_decode(text: Seq<char>) -> Result<Seq<u8>, Seq<char>>;

/// Whether a base64 text decodes to the bytes.
pub open spec fn base64_decodes_to(text: Seq<char>, data: Seq<u8>) -> bool {
    spec_base64_decode(text) == Ok::<Seq<u8>, Seq<char>>(data)
}

/// `general_purpose::STANDARD.encode(data)`; the text is named
/// `spec_base64_encode` of the bytes, and the same engine decodes it back
/// to the bytes (the crate's documented and tested round trip). The
/// standard alphabet (letters, digits, `+`, `/`, and `=` padding) holds no
/// colon.
#[verifier::external_body]
pub(crate) fn base64_encode(data: &[u8]) -> (s: String)
    ensures
        s@ == spec_base64_encode(data@),
        base64_decodes_to(s@, data@),
        !has_colon(s@),
{
    base64::engine::general_purpose::STANDARD.encode(data)
}

/// `general_purpose::STANDARD.decode(text)`, the error turned into its
/// display text; the result is named `spec_base64_decode` of the text.
#[verifier::external_body]
pub(crate) fn base64_decode(text: &str) -> (r: Result<Vec<u8>, String>)
    ensures
        match r {
            Ok(v) => spec_base64_decode(text@) == Ok::<Seq<u8>, Seq<char>>(v@),
            Err(e) => spec_base64_decode(text@) == Err::<Seq<u8>, Seq<char>>(e@),
        },
{
    base64::engine::general_purpose::STANDARD.decode(text).map_err(|e| e.to_string())
}

// ----- randomness -----

/// `n` bytes from the operating system's random source
/// (`OsRng.fill_bytes`). Only the length is stated.
#[verifier::external_body]
fn random_bytes(n: usize) -> (r: Vec<u8>)
    ensures
        r@.len() == n,
{
    let mut buf = vec![0u8; n];
    rand::rngs::OsRng.fill_bytes(&mut buf);
    buf
}

// ----- ML-DSA-65 -----

/// Public key length of ML-DSA-65.
pub const MLDSA65_PUBLIC_KEY_LEN: usize = 1952;

/// Secret key length of ML-DSA-65.
pub const MLDSA65_SECRET_KEY_LEN: usize = 4032;

/// Signature length of ML-DSA-65.
pub const MLDSA65_SIGNATURE_LEN: usize = 3309;

/// Whether ML-DSA-65 verification of `sig` over `msg` under `public_key`
/// accepts (`Some(true)`), rejects (`Some(false)`) or cannot be carried out
/// (`None`).
pub uninterp spec fn spec_mldsa65_verify(public_key: Seq<u8>, msg: Seq<u8>, sig: Seq<u8>) -> Option<
    bool,
>;

/// The ML-DSA-65 key pair, (public key, secret key), that
/// `ml_dsa_65().generate_keypair_from_seed(seed)` (fips204's
/// `keygen_from_seed`, `ML-DSA.KeyGen_internal`) derives from a 32-byte
/// seed.
pub uninterp spec fn spec_mldsa65_keygen(seed: Seq<u8>) -> (Seq<u8>, Seq<u8>);

/// Whether `(public_key, secret_key)` is an ML-DSA-65 key pair: the pair
/// key generation derives from some 32-byte seed.
pub open spec fn mldsa65_key_pair(public_key: Seq<u8>, secret_key: Seq<u8>) -> bool {
    exists|seed: Seq<u8>| seed.len() == 32 && #[trigger] spec_mldsa65_keygen(seed) == (public_key, secret_key)
}

/// `MlDsaSecretKey::from_bytes(MlDsa65, sk)`, then `ml_dsa_65().sign(..)`
/// (hedged signing with an empty context), then `to_bytes()`. Signing
/// draws randomness, so the signature itself is not named; stated is what
/// holds of every outcome: a key of the wrong length is refused, a
/// signature has the ML-DSA-65 length, and it verifies over `msg` under the
/// public key of any key pair whose secret key is `secret_key` (FIPS 204
/// correctness, which the crate documents as `verify(&pk, msg, &sign(&sk,
/// msg)?)` being true; `verify` uses the same empty context).
#[verifier::external_body]
fn mldsa65_sign(secret_key: &[u8], msg: &[u8]) -> (r: Result<Vec<u8>, String>)
    ensures
        secret_key@.len() != MLDSA65_SECRET_KEY_LEN ==> r is Err,
        r matches Ok(sig) ==> sig@.len() == MLDSA65_SIGNATURE_LEN,
        r matches Ok(sig) ==> forall|pk: Seq<u8>|
            #[trigger] mldsa65_key_pair(pk, secret_key@) ==> spec_mldsa65_verify(pk, msg@, sig@)
                == Some(true),
{
    let sk = MlDsaSecretKey::from_bytes(MlDsaVariant::MlDsa65, secret_key).map_err(|e| format!("{:?}", e))?;
    let sig = saorsa_pqc::api::sig::ml_dsa_65().sign(&sk, msg).map_err(|e| format!("{:?}", e))?;
    Ok(sig.to_bytes())
}

/// `MlDsaPublicKey::from_bytes(MlDsa65, pk)`, then `to_bytes()`: the key
/// bytes come back unchanged when they are accepted, and a key of the wrong
/// length is refused. Which keys of the right length are accepted is not
/// stated.
#[verifier::external_body]
fn mldsa65_public_key(public_key: &[u8]) -> (r: Result<Vec<u8>, String>)
    ensures
        public_key@.len() != MLDSA65_PUBLIC_KEY_LEN ==> r is Err,
        r matches Ok(k) ==> k@ == public_key@,
{
    let pk = MlDsaPublicKey::from_bytes(MlDsaVariant::MlDsa65, public_key).map_err(|e| format!("{:?}", e))?;
    Ok(pk.to_bytes())
}

/// `MlDsaPublicKey::from_bytes` and `ApiMlDsaSignature::from_bytes` (both
/// ML-DSA-65), then `ml_dsa_65().verify(..)`; `None` when any step errs.
/// The outcome is named `spec_mldsa65_verify` of the three byte strings;
/// a key or signature of the wrong length gives `None`.
#[verifier::external_body]
fn mldsa65_verify(public_key: &[u8], msg: &[u8], sig: &[u8]) -> (r: Option<bool>)
    ensures
        r == spec_mldsa65_verify(public_key@, msg@, sig@),
        public_key@.len() != MLDSA65_PUBLIC_KEY_LEN || sig@.len() != MLDSA65_SIGNATURE_LEN ==> r
            is None,
{
    let pk = MlDsaPublicKey::from_bytes(MlDsaVariant::MlDsa65, public_key).ok()?;
    let s = saorsa_pqc::ApiMlDsaSignature::from_bytes(MlDsaVariant::MlDsa65, sig).ok()?;
    saorsa_pqc::api::sig::ml_dsa_65().verify(&pk, msg, &s).ok()
}

/// `ml_dsa_65().generate_keypair()`, with both keys turned into bytes
/// (public key first). fips204's `try_keygen_with_rng` draws a 32-byte seed
/// and runs `key_gen_internal` on it, exactly as `keygen_from_seed` does,
/// so the keys are a key pair for a random seed; stated are that and their
/// ML-DSA-65 lengths.
#[verifier::external_body]
fn mldsa65_generate_keypair() -> (r: Result<(Vec<u8>, Vec<u8>), String>)
    ensures
        r matches Ok((pk, sk)) ==> pk@.len() == MLDSA65_PUBLIC_KEY_LEN && sk@.len()
            == MLDSA65_SECRET_KEY_LEN,
        r matches Ok((pk, sk)) ==> exists|seed: Seq<u8>|
            seed.len() == 32 && #[trigger] spec_mldsa65_keygen(seed) == (pk@, sk@),
{
    let (pk, sk) = saorsa_pqc::api::sig::ml_dsa_65().generate_keypair().map_err(|e| format!("{:?}", e))?;
    Ok((pk.to_bytes(), sk.to_bytes()))
}

/// A fresh ML-DSA-65 key pair, (public key, secret key), kept in memory.
pub fn ensure_keypair_ephemeral() -> (r: Result<(Vec<u8>, Vec<u8>), String>)
    ensures
        r matches Ok((pk, sk)) ==> pk@.len() == MLDSA65_PUBLIC_KEY_LEN && sk@.len()
            == MLDSA65_SECRET_KEY_LEN,
        r matches Ok((pk, sk)) ==> mldsa65_key_pair(pk@, sk@),
{
    mldsa65_generate_keypair()
}

/// Sign `envelope_bytes` with an ML-DSA-65 key pair and return the base64
/// signature and base64 public key. Fails when either key is malformed.
/// The signature is made over `envelope_bytes` with `sk_bytes`: when
/// `(pk_bytes, sk_bytes)` is a key pair, it verifies over `envelope_bytes`
/// under `pk_bytes`.
pub fn sign_envelope(sk_bytes: &[u8], pk_bytes: &[u8], envelope_bytes: &[u8]) -> (r: Result<
    (String, String),
    String,
>)
    ensures
        sk_bytes@.len() != MLDSA65_SECRET_KEY_LEN ==> r is Err,
        pk_bytes@.len() != MLDSA65_PUBLIC_KEY_LEN ==> r is Err,
        r matches Ok((sig_b64, pub_b64)) ==> {
            &&& pub_b64@ == spec_base64_encode(pk_bytes@)
            &&& base64_decodes_to(pub_b64@, pk_bytes@)
            &&& exists|sig: Seq<u8>|
                {
                    &&& sig.len() == MLDSA65_SIGNATURE_LEN
                    &&& sig_b64@ == #[trigger] spec_base64_encode(sig)
                    &&& base64_decodes_to(sig_b64@, sig)
                    &&& !has_colon(sig_b64@)
                    &&& mldsa65_key_pair(pk_bytes@, sk_bytes@) ==> spec_mldsa65_verify(
                        pk_bytes@,
                        envelope_bytes@,
                        sig,
                    ) == Some(true)
                }
        },
{
    let sig = match mldsa65_sign(sk_bytes, envelope_bytes) {
        Ok(s) => s,
        Err(e) => return Err(e),
    };
    let pk = match mldsa65_public_key(pk_bytes) {
        Ok(k) => k,
        Err(e) => return Err(e),
    };
    let sig_b64 = base64_encode(sig.as_slice());
    let pub_b64 = base64_encode(pk.as_slice());
    Ok((sig_b64, pub_b64))
}

/// Check an ML-DSA-65 signature over `envelope_bytes`.
pub fn verify_envelope(pub_bytes: &[u8], envelope_bytes: &[u8], sig_bytes: &[u8]) -> (r: Result<
    (),
    String,
>)
    ensures
        r is Ok <==> spec_mldsa65_verify(pub_bytes@, envelope_bytes@, sig_bytes@) == Some(true),
        spec_mldsa65_verify(pub_bytes@, envelope_bytes@, sig_bytes@) == Some(false) ==> (r matches Err(
            e,
        ) && e@ == "signature verification failed: invalid signature"@),
{
    match mldsa65_verify(pub_bytes, envelope_bytes, sig_bytes) {
        Some(true) => Ok(()),
        Some(false) => Err(String::from_str("signature verification failed: invalid signature")),
        None => Err(String::from_str("signature verification error")),
    }
}

// ----- ML-KEM-512 -----

/// Public key length of ML-KEM-512.
pub const MLKEM512_PUBLIC_KEY_LEN: usize = 800;

/// Secret key length of ML-KEM-512.
pub const MLKEM512_SECRET_KEY_LEN: usize = 1632;

/// Ciphertext length of ML-KEM-512.
pub const MLKEM512_CIPHERTEXT_LEN: usize = 768;

/// Length of a KEM shared secret.
pub const SHARED_SECRET_LEN: usize = 32;

/// The shared secret that decapsulating `ciphertext` with `secret_key`
/// gives, if decapsulation can be carried out.
pub uninterp spec fn spec_mlkem512_decapsulate(secret_key: Seq<u8>, ciphertext: Seq<u8>) -> Option<
    Seq<u8>,
>;

/// The (ciphertext, shared secret) that ML-KEM-512 encapsulation to the
/// public key gives for the 32-byte message `seed` (fips203's
/// `EncapsKey::encaps_from_seed`, `ML-KEM.Encaps_internal`).
pub uninterp spec fn spec_mlkem512_encaps(public_key: Seq<u8>, seed: Seq<u8>) -> (Seq<u8>, Seq<u8>);

/// Whether (ciphertext, shared secret) is what encapsulation to
/// `public_key` gives for some 32-byte message.
pub open spec fn mlkem512_encapsulated(public_key: Seq<u8>, ciphertext: Seq<u8>, shared: Seq<u8>) -> bool {
    exists|seed: Seq<u8>|
        seed.len() == 32 && #[trigger] spec_mlkem512_encaps(public_key, seed) == (ciphertext, shared)
}

/// `MlKemPublicKey::from_bytes(MlKem512, pk)`, then
/// `ml_kem_512().encapsulate(..)`; returns (ciphertext, shared secret).
/// fips203's `try_encaps_with_rng` draws a 32-byte message and runs
/// `ml_kem_encaps_internal` on it and the key, as `encaps_from_seed` does,
/// so the result is the encapsulation to this key for a random message.
/// Stated are that, that a key of the wrong length is refused, and the
/// ML-KEM-512 lengths of the parts.
#[verifier::external_body]
fn mlkem512_encapsulate(public_key: &[u8]) -> (r: Result<(Vec<u8>, Vec<u8>), String>)
    ensures
        public_key@.len() != MLKEM512_PUBLIC_KEY_LEN ==> r is Err,
        r matches Ok((ct, ss)) ==> ct@.len() == MLKEM512_CIPHERTEXT_LEN && ss@.len()
            == SHARED_SECRET_LEN,
        r matches Ok((ct, ss)) ==> exists|seed: Seq<u8>|
            seed.len() == 32 && #[trigger] spec_mlkem512_encaps(public_key@, seed) == (ct@, ss@),
{
    let pk = MlKemPublicKey::from_bytes(MlKemVariant::MlKem512, public_key).map_err(|e| format!("{:?}", e))?;
    let (ss, ct) = saorsa_pqc::api::kem::ml_kem_512().encapsulate(&pk).map_err(|e| format!("{:?}", e))?;
    Ok((ct.to_bytes(), ss.to_bytes().to_vec()))
}

/// `MlKemSecretKey::from_bytes` and `MlKemCiphertext::from_bytes` (both
/// ML-KEM-512), then `ml_kem_512().decapsulate(..)`; `None` when any step
/// errs. The result is named `spec_mlkem512_decapsulate` of the two byte
/// strings; a key or ciphertext of the wrong length gives `None`, and a
/// shared secret has 32 bytes.
#[verifier::external_body]
fn mlkem512_decapsulate(secret_key: &[u8], ciphertext: &[u8]) -> (r: Option<Vec<u8>>)
    ensures
        match r {
            Some(ss) => spec_mlkem512_decapsulate(secret_key@, ciphertext@) == Some(ss@),
            None => spec_mlkem512_decapsulate(secret_key@, ciphertext@) is None,
        },
        secret_key@.len() != MLKEM512_SECRET_KEY_LEN || ciphertext@.len()
            != MLKEM512_CIPHERTEXT_LEN ==> r is None,
        r matches Some(ss) ==> ss@.len() == SHARED_SECRET_LEN,
{
    let sk = MlKemSecretKey::from_bytes(MlKemVariant::MlKem512, secret_key).ok()?;
    let ct = MlKemCiphertext::from_bytes(MlKemVariant::MlKem512, ciphertext).ok()?;
    let ss = saorsa_pqc::api::kem::ml_kem_512().decapsulate(&sk, &ct).ok()?;
    Some(ss.to_bytes().to_vec())
}

/// Encapsulate to a recipient KEM public key. Returns (ciphertext,
/// shared secret) of an encapsulation to that key.
pub fn encapsulate_to_pubkey(pub_bytes: &[u8]) -> (r: Result<(Vec<u8>, Vec<u8>), String>)
    ensures
        pub_bytes@.len() != MLKEM512_PUBLIC_KEY_LEN ==> r is Err,
        r matches Ok((ct, ss)) ==> ct@.len() == MLKEM512_CIPHERTEXT_LEN && ss@.len()
            == SHARED_SECRET_LEN,
        r matches Ok((ct, ss)) ==> mlkem512_encapsulated(pub_bytes@, ct@, ss@),
{
    mlkem512_encapsulate(pub_bytes)
}

/// Decapsulate a KEM ciphertext with the given private key; returns the
/// shared secret.
pub fn decapsulate_share(priv_bytes: &[u8], ciphertext: &[u8]) -> (r: Result<Vec<u8>, String>)
    ensures
        match r {
            Ok(ss) => spec_mlkem512_decapsulate(priv_bytes@, ciphertext@) == Some(ss@),
            Err(_) => spec_mlkem512_decapsulate(priv_bytes@, ciphertext@) is None,
        },
{
    match mlkem512_decapsulate(priv_bytes, ciphertext) {
        Some(ss) => Ok(ss),
        None => Err(String::from_str("kem decapsulation failed")),
    }
}

// ----- AES-256-GCM -----

/// Length of an AES-GCM nonce.
pub const AES_GCM_NONCE_LEN: usize = 12;

/// Length of an AES-256 key.
pub const AES256_KEY_LEN: usize = 32;

/// The longest plaintext AES-GCM encrypts (2^36 bytes).
pub const AES_GCM_MAX_PLAINTEXT: u64 = 68719476736;

/// The AES-256-GCM ciphertext (with its 16-byte tag) of `plaintext` under
/// `key` and `nonce`, if encryption can be carried out.
pub uninterp spec fn spec_aes256gcm_encrypt(key: Seq<u8>, nonce: Seq<u8>, plaintext: Seq<u8>) -> Option<
    Seq<u8>,
>;

/// The plaintext of an AES-256-GCM ciphertext under `key` and `nonce`, if
/// it authenticates.
pub uninterp spec fn spec_aes256gcm_decrypt(key: Seq<u8>, nonce: Seq<u8>, ciphertext: Seq<u8>) -> Option<
    Seq<u8>,
>;

/// `Aes256Gcm::new_from_slice(key)`, then `encrypt(Nonce::from_slice(nonce),
/// plaintext)`; `None` when either errs. The result is named
/// `spec_aes256gcm_encrypt`; a key that is not 32 bytes gives `None`, and a
/// ciphertext is the plaintext's length plus the 16-byte tag. With a 32-byte
/// key, encryption fails exactly when the plaintext is longer than 2^36
/// bytes (`new_from_slice` refuses only a wrong key length,
/// `encrypt_in_place_detached` only a plaintext over `P_MAX`, and appending
/// the tag to a `Vec` cannot fail). `Nonce::from_slice` panics unless the
/// nonce has 12 bytes.
#[verifier::external_body]
fn aes256gcm_encrypt(key: &[u8], nonce: &[u8], plaintext: &[u8]) -> (r: Option<Vec<u8>>)
    requires
        nonce@.len() == AES_GCM_NONCE_LEN,
    ensures
        match r {
            Some(c) => spec_aes256gcm_encrypt(key@, nonce@, plaintext@) == Some(c@),
            None => spec_aes256gcm_encrypt(key@, nonce@, plaintext@) is None,
        },
        key@.len() != AES256_KEY_LEN ==> r is None,
        key@.len() == AES256_KEY_LEN ==> (r is Some <==> plaintext@.len() <= AES_GCM_MAX_PLAINTEXT),
        r matches Some(c) ==> c@.len() == plaintext@.len() + 16,
{
    let cipher = aes_gcm::Aes256Gcm::new_from_slice(key).ok()?;
    cipher.encrypt(aes_gcm::Nonce::from_slice(nonce), plaintext).ok()
}

/// `Aes256Gcm::new_from_slice(key)`, then `decrypt(Nonce::from_slice(nonce),
/// ciphertext)`; `None` when either errs. The result is named
/// `spec_aes256gcm_decrypt`; a key that is not 32 bytes gives `None`, and a
/// ciphertext made by encryption under the same key and nonce decrypts to
/// its plaintext. `Nonce::from_slice` panics unless the nonce has 12 bytes.
#[verifier::external_body]
fn aes256gcm_decrypt(key: &[u8], nonce: &[u8], ciphertext: &[u8]) -> (r: Option<Vec<u8>>)
    requires
        nonce@.len() == AES_GCM_NONCE_LEN,
    ensures
        match r {
            Some(p) => spec_aes256gcm_decrypt(key@, nonce@, ciphertext@) == Some(p@),
            None => spec_aes256gcm_decrypt(key@, nonce@, ciphertext@) is None,
        },
        key@.len() != AES256_KEY_LEN ==> r is None,
        match r {
            Some(q) => forall|p: Seq<u8>|
                #[trigger] spec_aes256gcm_encrypt(key@, nonce@, p) == Some(ciphertext@) ==> q@ == p,
            None => forall|p: Seq<u8>|
                #[trigger] spec_aes256gcm_encrypt(key@, nonce@, p) != Some(ciphertext@),
        },
{
    let cipher = aes_gcm::Aes256Gcm::new_from_slice(key).ok()?;
    cipher.decrypt(aes_gcm::Nonce::from_slice(nonce), ciphertext).ok()
}

/// A manifest encrypted under a fresh key.
pub struct EncryptedManifest {
    pub ciphertext: Vec<u8>,
    pub nonce: Vec<u8>,
    pub key: Vec<u8>,
}

/// Encrypt serialized manifest bytes under a fresh random AES-256 key and
/// nonce; only a plaintext longer than AES-GCM takes is refused.
pub fn encrypt_manifest(plaintext: &[u8]) -> (r: Result<EncryptedManifest, String>)
    ensures
        r is Ok <==> plaintext@.len() <= AES_GCM_MAX_PLAINTEXT,
        r matches Err(e) ==> e@ == "aes-gcm encrypt error"@,
        r matches Ok(m) ==> {
            &&& m.key@.len() == AES256_KEY_LEN
            &&& m.nonce@.len() == AES_GCM_NONCE_LEN
            &&& spec_aes256gcm_encrypt(m.key@, m.nonce@, plaintext@) == Some(m.ciphertext@)
        },
{
    let key = random_bytes(AES256_KEY_LEN);
    let nonce = random_bytes(AES_GCM_NONCE_LEN);
    match aes256gcm_encrypt(key.as_slice(), nonce.as_slice(), plaintext) {
        Some(ciphertext) => Ok(EncryptedManifest { ciphertext, nonce, key }),
        None => Err(String::from_str("aes-gcm encrypt error")),
    }
}

/// Decrypt a manifest ciphertext with its key and nonce. A nonce that is not
/// 12 bytes is refused.
pub fn decrypt_manifest(sym: &[u8], nonce_bytes: &[u8], ciphertext: &[u8]) -> (r: Result<
    Vec<u8>,
    String,
>)
    requires
        sym@.len() == AES256_KEY_LEN,
    ensures
        nonce_bytes@.len() != AES_GCM_NONCE_LEN ==> r is Err,
        nonce_bytes@.len() == AES_GCM_NONCE_LEN ==> match r {
            Ok(p) => spec_aes256gcm_decrypt(sym@, nonce_bytes@, ciphertext@) == Some(p@),
            Err(_) => spec_aes256gcm_decrypt(sym@, nonce_bytes@, ciphertext@) is None,
        },
        nonce_bytes@.len() == AES_GCM_NONCE_LEN ==> forall|p: Seq<u8>|
            #[trigger] spec_aes256gcm_encrypt(sym@, nonce_bytes@, p) == Some(ciphertext@) ==> (r matches Ok(
                v,
            ) && v@ == p),
{
    if nonce_bytes.len() != AES_GCM_NONCE_LEN {
        return Err(String::from_str("invalid nonce length"));
    }
    match aes256gcm_decrypt(sym, nonce_bytes, ciphertext) {
        Some(p) => Ok(p),
        None => Err(String::from_str("aes-gcm decrypt error")),
    }
}

/// Whether `blob` is a recipient blob of `payload` sealed to
/// `recipient_pub`: it holds the KEM ciphertext of an encapsulation to that
/// key, a 12-byte nonce, and the AES-256-GCM ciphertext of the payload
/// under the encapsulated secret and that nonce.
pub open spec fn sealed_to(blob: Seq<u8>, recipient_pub: Seq<u8>, payload: Seq<u8>) -> bool {
    exists|wrapped: Seq<u8>, key: Seq<u8>, nonce: Seq<u8>, ct: Seq<u8>|
        {
            &&& wrapped.len() == MLKEM512_CIPHERTEXT_LEN
            &&& key.len() == SHARED_SECRET_LEN
            &&& mlkem512_encapsulated(recipient_pub, wrapped, key)
            &&& nonce.len() == AES_GCM_NONCE_LEN
            &&& ct.len() == payload.len() + 16
            &&& #[trigger] spec_aes256gcm_encrypt(key, nonce, payload) == Some(ct)
            &&& blob == #[trigger] encode_blob(wrapped, nonce, ct)
        }
}

/// Whether `blob` opens to `payload` under `secret_key`: it is the blob of
/// a KEM ciphertext that the key decapsulates to an AES-256-GCM key, a
/// 12-byte nonce, and the encryption of the payload under them.
pub open spec fn opens_to(blob: Seq<u8>, secret_key: Seq<u8>, payload: Seq<u8>) -> bool {
    exists|wrapped: Seq<u8>, key: Seq<u8>, nonce: Seq<u8>, ct: Seq<u8>|
        {
            &&& wrapped.len() == MLKEM512_CIPHERTEXT_LEN
            &&& nonce.len() == AES_GCM_NONCE_LEN
            &&& ct.len() <= u32::MAX
            &&& spec_mlkem512_decapsulate(secret_key, wrapped) == Some(key)
            &&& #[trigger] spec_aes256gcm_encrypt(key, nonce, payload) == Some(ct)
            &&& blob == #[trigger] encode_blob(wrapped, nonce, ct)
        }
}

/// Whether decapsulating with `secret_key` recovers the secret of every
/// encapsulation to `public_key` (ML-KEM gives this for a key pair except
/// with negligible probability, so it is a premise, not a fact).
pub open spec fn decapsulation_agrees(public_key: Seq<u8>, secret_key: Seq<u8>) -> bool {
    forall|wrapped: Seq<u8>, key: Seq<u8>|
        #[trigger] mlkem512_encapsulated(public_key, wrapped, key) ==> spec_mlkem512_decapsulate(
            secret_key,
            wrapped,
        ) == Some(key)
}

/// End-to-end encryption: a blob sealed to a public key opens to its
/// payload under a secret key whose decapsulation recovers what is
/// encapsulated to that public key, whenever the ciphertext length fits
/// the blob's 32-bit length field.
pub proof fn lemma_sealed_blob_opens(
    blob: Seq<u8>,
    public_key: Seq<u8>,
    secret_key: Seq<u8>,
    payload: Seq<u8>,
)
    requires
        sealed_to(blob, public_key, payload),
        decapsulation_agrees(public_key, secret_key),
        payload.len() + 16 <= u32::MAX,
    ensures
        opens_to(blob, secret_key, payload),
{
    let (wrapped, key, nonce, ct) = choose|wrapped: Seq<u8>, key: Seq<u8>, nonce: Seq<u8>, ct: Seq<u8>|
        {
            &&& wrapped.len() == MLKEM512_CIPHERTEXT_LEN
            &&& key.len() == SHARED_SECRET_LEN
            &&& mlkem512_encapsulated(public_key, wrapped, key)
            &&& nonce.len() == AES_GCM_NONCE_LEN
            &&& ct.len() == payload.len() + 16
            &&& #[trigger] spec_aes256gcm_encrypt(key, nonce, payload) == Some(ct)
            &&& blob == #[trigger] encode_blob(wrapped, nonce, ct)
        };
    assert(spec_mlkem512_decapsulate(secret_key, wrapped) == Some(key));
    assert(spec_aes256gcm_encrypt(key, nonce, payload) == Some(ct));
    assert(blob == encode_blob(wrapped, nonce, ct));
}

/// Encrypt a payload to a recipient's KEM public key: the shared secret of
/// a fresh encapsulation to `recipient_pub` is the AES-256-GCM key, the
/// nonce is fresh, and the result is the recipient blob of (KEM ciphertext
/// of that encapsulation, nonce, AEAD ciphertext of the payload).
pub fn encrypt_payload_for_recipient(recipient_pub: &[u8], payload: &[u8]) -> (r: Result<
    Vec<u8>,
    String,
>)
    ensures
        recipient_pub@.len() != MLKEM512_PUBLIC_KEY_LEN ==> r is Err,
        payload@.len() > AES_GCM_MAX_PLAINTEXT ==> r is Err,
        r matches Ok(blob) ==> sealed_to(blob@, recipient_pub@, payload@),
{
    let (wrapped, shared) = match encapsulate_to_pubkey(recipient_pub) {
        Ok(p) => p,
        Err(e) => return Err(e),
    };
    let nonce = random_bytes(AES_GCM_NONCE_LEN);
    let ct = match aes256gcm_encrypt(shared.as_slice(), nonce.as_slice(), payload) {
        Some(c) => c,
        None => return Err(String::from_str("aes-gcm encrypt error")),
    };
    let blob = encode_recipient_blob(wrapped.as_slice(), nonce.as_slice(), ct.as_slice());
    Ok(blob)
}

/// Why a recipient blob could not be decrypted.
#[derive(Debug, Clone, PartialEq, Eq, Structural)]
pub enum BlobDecryptError {
    /// The blob is malformed.
    Malformed(crate::recipient_blob::RecipientBlobError),
    /// The wrapped key could not be decapsulated.
    Decapsulation,
    /// The ciphertext does not authenticate under the recovered key.
    Decryption,
}

/// Decrypt a recipient blob with the recipient's KEM private key:
/// decapsulate the wrapped key, then decrypt the payload with it. A
/// well-formed blob must carry a 12-byte nonce.
pub fn decrypt_payload_from_recipient_blob(blob: &[u8], priv_kem_bytes: &[u8]) -> (r: Result<
    Vec<u8>,
    BlobDecryptError,
>)
    requires
        parse_blob(blob@) matches Ok((_, nonce, _)) ==> nonce.len() == AES_GCM_NONCE_LEN,
    ensures
        match parse_blob(blob@) {
            Err(e) => r == Err::<Vec<u8>, _>(BlobDecryptError::Malformed(e)),
            Ok((wrapped, nonce, ct)) => match spec_mlkem512_decapsulate(priv_kem_bytes@, wrapped) {
                None => r == Err::<Vec<u8>, _>(BlobDecryptError::Decapsulation),
                Some(key) => match spec_aes256gcm_decrypt(key, nonce, ct) {
                    None => r == Err::<Vec<u8>, _>(BlobDecryptError::Decryption),
                    Some(p) => r matches Ok(v) && v@ == p,
                },
            },
        },
        forall|p: Seq<u8>| #[trigger] opens_to(blob@, priv_kem_bytes@, p) ==> (r matches Ok(v) && v@ == p),
{
    proof {
        assert forall|p: Seq<u8>| #[trigger] opens_to(blob@, priv_kem_bytes@, p) implies parse_blob(
            blob@,
        ) matches Ok((w, n, c)) && spec_mlkem512_decapsulate(priv_kem_bytes@, w) matches Some(k)
            && spec_aes256gcm_encrypt(k, n, p) == Some(c) by {
            let (wrapped, key, nonce, ct) = choose|wrapped: Seq<u8>, key: Seq<u8>, nonce: Seq<u8>, ct: Seq<u8>|
                {
                    &&& wrapped.len() == MLKEM512_CIPHERTEXT_LEN
                    &&& nonce.len() == AES_GCM_NONCE_LEN
                    &&& ct.len() <= u32::MAX
                    &&& spec_mlkem512_decapsulate(priv_kem_bytes@, wrapped) == Some(key)
                    &&& #[trigger] spec_aes256gcm_encrypt(key, nonce, p) == Some(ct)
                    &&& blob@ == #[trigger] encode_blob(wrapped, nonce, ct)
                };
            lemma_recipient_blob_roundtrip(wrapped, nonce, ct);
        }
    }
    let parts = match parse_recipient_blob(blob) {
        Ok(p) => p,
        Err(e) => return Err(BlobDecryptError::Malformed(e)),
    };
    let key = match mlkem512_decapsulate(priv_kem_bytes, parts.wrapped.as_slice()) {
        Some(k) => k,
        None => return Err(BlobDecryptError::Decapsulation),
    };
    match aes256gcm_decrypt(key.as_slice(), parts.nonce.as_slice(), parts.ciphertext.as_slice()) {
        Some(p) => Ok(p),
        None => Err(BlobDecryptError::Decryption),
    }
}

// ----- Shamir secret sharing over GF(256) -----

/// The secret that Shamir recovery with `threshold` gives for the share
/// bytes, if recovery succeeds.
pub uninterp spec fn spec_shamir_recover(threshold: u8, shares: Seq<Seq<u8>>) -> Option<Seq<u8>>;

/// Whether `threshold` distinct ones of `shares`, in any order, recover
/// `secret`.
pub open spec fn any_threshold_recovers(shares: Seq<Seq<u8>>, threshold: u8, secret: Seq<u8>) -> bool {
    forall|idx: Seq<int>|
        idx.len() == threshold && (forall|a: int| 0 <= a < idx.len() ==> 0 <= #[trigger] idx[a] < shares.len())
            && (forall|a: int, b: int| 0 <= a < b < idx.len() ==> idx[a] != idx[b]) ==> #[trigger] spec_shamir_recover(
            threshold,
            pick(shares, idx),
        ) == Some(secret)
}

/// The shares at the given positions, in that order.
pub open spec fn pick(shares: Seq<Seq<u8>>, idx: Seq<int>) -> Seq<Seq<u8>> {
    idx.map_values(|j: int| shares[j])
}

/// `Sharks(threshold).dealer(secret).take(count)`, each share turned into
/// bytes with `Vec::from(&Share)`. The shares are random; stated is what
/// the source fixes: there are `count` of them, share `i` starts with its
/// point `i + 1` and carries one byte per secret byte, and, as the crate
/// documents for `recover`, any `threshold` distinct ones of a non-empty
/// secret recover it (they are points of one polynomial of degree
/// `threshold - 1` per secret byte). The shares of an empty secret are
/// one byte long, which `Share::try_from` refuses, so nothing is stated of
/// their recovery.
#[verifier::external_body]
fn shamir_split(secret: &[u8], threshold: u8, count: usize) -> (shares: Vec<Vec<u8>>)
    requires
        threshold >= 1,
        1 <= count <= 255,
    ensures
        shares@.len() == count,
        forall|i: int|
            0 <= i < count ==> #[trigger] shares@[i]@.len() == secret@.len() + 1 && shares@[i]@[0]
                == i + 1,
        secret@.len() >= 1 ==> any_threshold_recovers(
            shares@.map_values(|b: Vec<u8>| b@),
            threshold,
            secret@,
        ),
{
    let dealer = blahaj::Sharks(threshold).dealer(secret);
    dealer.take(count).map(|s| Vec::from(&s)).collect()
}

/// Each share read with `Share::try_from(&[u8])`, then
/// `Sharks(threshold).recover(..)`; `None` when either errs. The result is
/// named `spec_shamir_recover`.
#[verifier::external_body]
fn shamir_recover(threshold: u8, shares: &Vec<Vec<u8>>) -> (r: Option<Vec<u8>>)
    ensures
        match r {
            Some(s) => spec_shamir_recover(threshold, shares@.map_values(|b: Vec<u8>| b@)) == Some(
                s@,
            ),
            None => spec_shamir_recover(threshold, shares@.map_values(|b: Vec<u8>| b@)) is None,
        },
{
    let mut parsed: Vec<blahaj::Share> = Vec::new();
    for b in shares.iter() {
        parsed.push(blahaj::Share::try_from(b.as_slice()).ok()?);
    }
    blahaj::Sharks(threshold).recover(parsed.as_slice()).ok()
}

/// Split a 32-byte symmetric key into `n` Shamir shares, any `k` of which
/// recover it.
pub fn split_symmetric_key(sym: &[u8], n: usize, k: usize) -> (shares: Vec<Vec<u8>>)
    requires
        sym@.len() == AES256_KEY_LEN,
        1 <= k <= 255,
        1 <= n <= 255,
    ensures
        shares@.len() == n,
        forall|i: int|
            0 <= i < n ==> #[trigger] shares@[i]@.len() == AES256_KEY_LEN + 1 && shares@[i]@[0] == i
                + 1,
        any_threshold_recovers(shares@.map_values(|b: Vec<u8>| b@), k as u8, sym@),
{
    shamir_split(sym, k as u8, n)
}

/// Split then recover: when at least `k` shares were made, the first `k`
/// recover the key.
pub proof fn lemma_first_shares_recover(shares: Seq<Seq<u8>>, k: u8, secret: Seq<u8>)
    requires
        any_threshold_recovers(shares, k, secret),
        k <= shares.len(),
    ensures
        spec_shamir_recover(k, shares.take(k as int)) == Some(secret),
{
    let idx = Seq::new(k as nat, |j: int| j);
    assert(pick(shares, idx) =~= shares.take(k as int));
    assert(forall|a: int| 0 <= a < idx.len() ==> 0 <= #[trigger] idx[a] < shares.len());
    assert(spec_shamir_recover(k, pick(shares, idx)) == Some(secret));
}

/// Split then recover with any choice: any `k` distinct shares, in any
/// order, handed to the recovery recover the key.
pub proof fn lemma_chosen_shares_recover(shares: Seq<Seq<u8>>, k: u8, secret: Seq<u8>, idx: Seq<int>)
    requires
        any_threshold_recovers(shares, k, secret),
        idx.len() == k,
        forall|a: int| 0 <= a < idx.len() ==> 0 <= #[trigger] idx[a] < shares.len(),
        forall|a: int, b: int| 0 <= a < b < idx.len() ==> idx[a] != idx[b],
    ensures
        spec_shamir_recover(k, pick(shares, idx).take(k as int)) == Some(secret),
{
    assert(pick(shares, idx).take(k as int) =~= pick(shares, idx));
}

/// Recover a 32-byte symmetric key from the first `k` of the given shares;
/// the threshold handed to the recovery is `k` kept to its low eight bits.
pub fn recover_symmetric_key(shares_bytes: &Vec<Vec<u8>>, k: usize) -> (r: Result<Vec<u8>, String>)
    ensures
        shares_bytes@.len() < k ==> r is Err,
        shares_bytes@.len() >= k ==> match spec_shamir_recover(
            (k % 256) as u8,
            shares_bytes@.take(k as int).map_values(|b: Vec<u8>| b@),
        ) {
            Some(s) => if s.len() == AES256_KEY_LEN {
                r matches Ok(v) && v@ == s
            } else {
                r is Err
            },
            None => r is Err,
        },
{
    if shares_bytes.len() < k {
        return Err(String::from_str("need at least k shares to recover"));
    }
    let mut first: Vec<Vec<u8>> = Vec::new();
    let mut i: usize = 0;
    while i < k
        invariant
            i <= k,
            k <= shares_bytes@.len(),
            first@.map_values(|b: Vec<u8>| b@) == shares_bytes@.take(i as int).map_values(
                |b: Vec<u8>| b@,
            ),
        decreases k - i,
    {
        let ghost before = first@;
        first.push(shares_bytes[i].clone());
        proof {
            assert(first@.map_values(|b: Vec<u8>| b@) =~= before.map_values(|b: Vec<u8>| b@).push(
                shares_bytes@[i as int]@,
            ));
            assert(shares_bytes@.take(i + 1).map_values(|b: Vec<u8>| b@) =~= shares_bytes@.take(
                i as int,
            ).map_values(|b: Vec<u8>| b@).push(shares_bytes@[i as int]@));
        }
        i = i + 1;
    }
    let threshold = (k % 256) as u8;
    match shamir_recover(threshold, &first) {
        Some(s) => {
            if s.len() != AES256_KEY_LEN {
                Err(String::from_str("recovered secret length != 32"))
            } else {
                Ok(s)
            }
        },
        None => Err(String::from_str("shamir recovery failed")),
    }
}

// ----- signature text -----

/// Whether `s` holds a colon.
pub open spec fn has_colon(s: Seq<char>) -> bool {
    exists|i: int| 0 <= i < s.len() && s[i] == ':'
}

/// The text after the first colon of `s`, or `s` when it has none (a
/// signature may carry an algorithm prefix such as `ml-dsa-65:`).
pub open spec fn signature_b64_part(s: Seq<char>) -> Seq<char>
    decreases s.len(),
{
    if s.len() == 0 {
        s
    } else if s[0] == ':' {
        s.drop_first()
    } else if has_colon(s.drop_first()) {
        signature_b64_part(s.drop_first())
    } else {
        s
    }
}

proof fn lemma_b64_part_at(s: Seq<char>, i: int)
    requires
        0 <= i <= s.len(),
        forall|j: int| 0 <= j < i ==> s[j] != ':',
    ensures
        i < s.len() && s[i] == ':' ==> signature_b64_part(s) == s.subrange(i + 1, s.len() as int),
        i == s.len() ==> signature_b64_part(s) == s,
    decreases i,
{
    if i == s.len() {
        if has_colon(s) {
            let j = choose|j: int| 0 <= j < s.len() && s[j] == ':';
            assert(s[j] != ':');
        }
        if s.len() > 0 && s[0] != ':' && has_colon(s.drop_first()) {
            let j = choose|j: int| 0 <= j < s.drop_first().len() && s.drop_first()[j] == ':';
            assert(s[j + 1] == ':');
        }
    } else if i > 0 && s[i] == ':' {
        let t = s.drop_first();
        assert forall|j: int| 0 <= j < i - 1 implies t[j] != ':' by {
            assert(t[j] == s[j + 1]);
        }
        assert(t[i - 1] == ':');
        lemma_b64_part_at(t, i - 1);
        assert(t.subrange(i, t.len() as int) =~= s.subrange(i + 1, s.len() as int));
    } else if i == 0 && s[0] == ':' {
        assert(s.drop_first() =~= s.subrange(1, s.len() as int));
    }
}

/// Decode a signature text that may carry a prefix ending in `:` (such as
/// `ml-dsa-65:<base64>`): the part after the first colon, or the whole text,
/// is base64-decoded. A missing signature counts as empty text.
pub fn normalize_and_decode_signature(sig_opt: Option<&str>) -> (r: Result<Vec<u8>, String>)
    ensures
        ({
            let text = match sig_opt {
                Some(s) => s@,
                None => Seq::<char>::empty(),
            };
            match spec_base64_decode(signature_b64_part(text)) {
                Ok(b) => r matches Ok(v) && v@ == b,
                Err(_) => r matches Err(e) && e@ == "failed to base64-decode signature"@,
            }
        }),
{
    let sig_str: &str = match sig_opt {
        Some(s) => s,
        None => "",
    };
    proof {
        reveal_strlit("");
        assert(sig_str@ =~= match sig_opt {
            Some(s) => s@,
            None => Seq::<char>::empty(),
        });
    }
    let n = sig_str.unicode_len();
    let mut i: usize = 0;
    while i < n && sig_str.get_char(i) != ':'
        invariant
            n == sig_str@.len(),
            i <= n,
            forall|j: int| 0 <= j < i ==> sig_str@[j] != ':',
        decreases n - i,
    {
        i = i + 1;
    }
    proof {
        lemma_b64_part_at(sig_str@, i as int);
    }
    let part: &str = if i < n {
        sig_str.substring_char(i + 1, n)
    } else {
        sig_str
    };
    assert(part@ == signature_b64_part(sig_str@));
    match base64_decode(part) {
        Ok(v) => Ok(v),
        Err(_) => Err(String::from_str("failed to base64-decode signature")),
    }
}

} // verus!
