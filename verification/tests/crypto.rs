use base64::Engine;
use beemesh::crypto::{
    decapsulate_share, decrypt_manifest, decrypt_payload_from_recipient_blob, encapsulate_to_pubkey,
    encrypt_manifest, encrypt_payload_for_recipient, ensure_keypair_ephemeral, recover_symmetric_key,
    sign_envelope, split_symmetric_key, verify_envelope, BlobDecryptError,
};
use beemesh::recipient_blob::{
    encode_recipient_blob, parse_recipient_blob, RecipientBlobError,
};
use rand::RngCore;

fn kem_keypair() -> (Vec<u8>, Vec<u8>) {
    let kem = saorsa_pqc::api::kem::ml_kem_512();
    let (pubk, privk) = kem.generate_keypair().expect("kem keygen");
    (pubk.to_bytes(), privk.to_bytes())
}

#[test]
fn test_split_and_recover_shamir() {
    // create a random 32-byte secret
    let mut secret = [0u8; 32];
    rand::rngs::OsRng.fill_bytes(&mut secret);

    let n = 5usize;
    let k = 3usize;
    let shares = split_symmetric_key(&secret, n, k);
    assert_eq!(shares.len(), n);

    // pick any k shares (take first k)
    let chosen: Vec<Vec<u8>> = shares.into_iter().take(k).collect();

    let recovered = recover_symmetric_key(&chosen, k).expect("recover failed");
    assert_eq!(&recovered[..], &secret[..]);
}

#[test]
fn test_sign_and_verify_envelope() {
    // 1) wrapper round-trip: ensure our sign_envelope / verify_envelope work
    let (pub_bytes_wrapped, sk_bytes_wrapped) = ensure_keypair_ephemeral().expect("keygen failed");
    let payload = b"this is a test envelope payload";
    let (sig_b64, pub_b64) =
        sign_envelope(&sk_bytes_wrapped, &pub_bytes_wrapped, payload).expect("sign failed");
    let sig_bytes = base64::engine::general_purpose::STANDARD.decode(&sig_b64).expect("b64 decode sig");
    let pub_bytes = base64::engine::general_purpose::STANDARD.decode(&pub_b64).expect("b64 decode pub");
    verify_envelope(&pub_bytes, payload, &sig_bytes).expect("verify call failed");

    // 2) Negative check: a mutated signature must not verify
    let (pub_a, sk_a) = ensure_keypair_ephemeral().expect("keygen a");
    let (_pub_b, _sk_b) = ensure_keypair_ephemeral().expect("keygen b");
    let (sig_b64_a, _pub_b64_a) = sign_envelope(&sk_a, &pub_a, payload).expect("sign with a failed");
    let mut sig_bytes_a = base64::engine::general_purpose::STANDARD.decode(&sig_b64_a).expect("decode sig a");
    // flip a byte in the signature
    if !sig_bytes_a.is_empty() {
        sig_bytes_a[0] ^= 0xff;
    }
    let res = verify_envelope(&pub_a, payload, &sig_bytes_a);
    assert!(res.is_err(), "mutated signature must not verify");
}

#[test]
fn test_kem_encapsulate_decapsulate_roundtrip() {
    let (pubb, privb) = kem_keypair();

    // Encapsulate
    let (ct_bytes, shared_enc) = encapsulate_to_pubkey(&pubb).expect("encapsulate");
    // Decapsulate and ensure secrets match
    let shared_dec = decapsulate_share(&privb, &ct_bytes).expect("decapsulate");
    assert_eq!(&shared_enc[..], &shared_dec[..]);
}

#[test]
fn test_recipient_blob_roundtrip() {
    let (pubb, privb) = kem_keypair();

    let payload = b"hello recipient payload";
    let blob = encrypt_payload_for_recipient(&pubb, payload).expect("encrypt recipient blob");
    let recovered = decrypt_payload_from_recipient_blob(&blob, &privb).expect("decrypt recipient blob");
    assert_eq!(recovered, payload);
}

#[test]
fn recipient_blob_layout() {
    let blob = encode_recipient_blob(&[9, 8], &[1, 2, 3], &[7]);
    assert_eq!(blob, vec![2, 0, 2, 9, 8, 3, 1, 2, 3, 0, 0, 0, 1, 7]);
    let parts = parse_recipient_blob(&blob).expect("parse");
    assert_eq!(parts.wrapped, vec![9, 8]);
    assert_eq!(parts.nonce, vec![1, 2, 3]);
    assert_eq!(parts.ciphertext, vec![7]);
}

#[test]
fn recipient_blob_errors() {
    assert_eq!(parse_recipient_blob(&[]).unwrap_err(), RecipientBlobError::UnsupportedVersion);
    assert_eq!(parse_recipient_blob(&[1, 0, 0]).unwrap_err(), RecipientBlobError::UnsupportedVersion);
    assert_eq!(parse_recipient_blob(&[2, 0]).unwrap_err(), RecipientBlobError::TooShort);
    assert_eq!(parse_recipient_blob(&[2, 0, 2, 9]).unwrap_err(), RecipientBlobError::TooShortForWrapped);
    assert_eq!(parse_recipient_blob(&[2, 0, 1, 9]).unwrap_err(), RecipientBlobError::TooShortForNonceLen);
    assert_eq!(parse_recipient_blob(&[2, 0, 0, 2, 1]).unwrap_err(), RecipientBlobError::TooShortForNonce);
    assert_eq!(parse_recipient_blob(&[2, 0, 0, 0, 0, 0]).unwrap_err(), RecipientBlobError::TooShortForCtLen);
    assert_eq!(
        parse_recipient_blob(&[2, 0, 0, 0, 0, 0, 0, 2, 5]).unwrap_err(),
        RecipientBlobError::TooShortForCiphertext
    );
    assert_eq!(RecipientBlobError::TooShortForNonce.message(), "blob too short for nonce");
    assert_eq!(RecipientBlobError::UnsupportedVersion.message(), "unsupported recipient-blob version");
}

#[test]
fn recipient_blob_with_wrong_key_fails() {
    let (pubb, _privb) = kem_keypair();
    let (_pub2, priv2) = kem_keypair();
    let blob = encrypt_payload_for_recipient(&pubb, b"secret").expect("encrypt");
    assert_eq!(decrypt_payload_from_recipient_blob(&blob, &priv2), Err(BlobDecryptError::Decryption));
    assert_eq!(
        decrypt_payload_from_recipient_blob(&blob, &[1, 2, 3]),
        Err(BlobDecryptError::Decapsulation)
    );
    assert!(encrypt_payload_for_recipient(&[1, 2, 3], b"x").is_err());
}

#[test]
fn manifest_encryption_roundtrip() {
    let m = encrypt_manifest(b"{\"kind\":\"Pod\"}").expect("encrypt");
    assert_eq!(m.key.len(), 32);
    assert_eq!(m.nonce.len(), 12);
    assert_ne!(m.ciphertext, b"{\"kind\":\"Pod\"}".to_vec());
    let plain = decrypt_manifest(&m.key, &m.nonce, &m.ciphertext).expect("decrypt");
    assert_eq!(plain, b"{\"kind\":\"Pod\"}");
    assert!(decrypt_manifest(&m.key, &[0u8; 5], &m.ciphertext).is_err());
}

#[test]
fn shamir_shares_have_points() {
    let secret = [7u8; 32];
    let shares = split_symmetric_key(&secret, 4, 2);
    for (i, s) in shares.iter().enumerate() {
        assert_eq!(s.len(), 33);
        assert_eq!(s[0] as usize, i + 1);
    }
    assert!(recover_symmetric_key(&shares[..1].to_vec(), 2).is_err());
    let two = vec![shares[3].clone(), shares[1].clone()];
    assert_eq!(recover_symmetric_key(&two, 2).expect("recover"), secret.to_vec());
}

#[test]
fn any_three_shares_recover_the_key() {
    let secret = [9u8; 32];
    let shares = split_symmetric_key(&secret, 5, 3);
    let chosen = vec![shares[4].clone(), shares[1].clone(), shares[2].clone()];
    assert_eq!(recover_symmetric_key(&chosen, 3).expect("recover"), secret.to_vec());
}
