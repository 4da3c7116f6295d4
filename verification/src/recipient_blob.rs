//! The recipient blob: a payload encrypted to one recipient's KEM public
//! key. Layout:
//! `[version = 0x02][wrapped-key length, u16 BE][wrapped key][nonce length, u8][nonce]`
//! `[ciphertext length, u32 BE][ciphertext]`; bytes after the ciphertext are ignored.
use vstd::prelude::*;

use crate::bytes::{
    be_u16_at, be_u32_at, copy_range, lemma_u16_roundtrip, lemma_u32_roundtrip, push_bytes,
    push_u16_be, push_u32_be, read_u16_be, read_u32_be, u16_be_bytes, u32_be_bytes,
};

verus! {

/// The version byte of the current layout.
pub const RECIPIENT_BLOB_VERSION: u8 = 2;

/// Why a recipient blob could not be read.
#[derive(Debug, Clone, Copy, PartialEq, Eq, Structural)]
pub enum RecipientBlobError {
    UnsupportedVersion,
    TooShort,
    TooShortForWrapped,
    TooShortForNonceLen,
    TooShortForNonce,
    TooShortForCtLen,
    TooShortForCiphertext,
}

impl RecipientBlobError {
    /// The error text.
    pub fn message(&self) -> (s: String)
        ensures
            s@ == match self {
                RecipientBlobError::UnsupportedVersion => "unsupported recipient-blob version"@,
                RecipientBlobError::TooShort => "blob too short"@,
                RecipientBlobError::TooShortForWrapped => "blob too short for wrapped"@,
                RecipientBlobError::TooShortForNonceLen => "blob too short for nonce len"@,
                RecipientBlobError::TooShortForNonce => "blob too short for nonce"@,
                RecipientBlobError::TooShortForCtLen => "blob too short for ct len"@,
                RecipientBlobError::TooShortForCiphertext => "blob too short for ciphertext"@,
            },
    {
        match self {
            RecipientBlobError::UnsupportedVersion => String::from_str(
                "unsupported recipient-blob version",
            ),
            RecipientBlobError::TooShort => String::from_str("blob too short"),
            RecipientBlobError::TooShortForWrapped => String::from_str("blob too short for wrapped"),
            RecipientBlobError::TooShortForNonceLen => String::from_str(
                "blob too short for nonce len",
            ),
            RecipientBlobError::TooShortForNonce => String::from_str("blob too short for nonce"),
            RecipientBlobError::TooShortForCtLen => String::from_str("blob too short for ct len"),
            RecipientBlobError::TooShortForCiphertext => String::from_str(
                "blob too short for ciphertext",
            ),
        }
    }
}

/// The parts of a recipient blob.
#[derive(Debug, Clone)]
pub struct RecipientBlob {
    /// The KEM ciphertext that wraps the symmetric key.
    pub wrapped: Vec<u8>,
    /// The AEAD nonce.
    pub nonce: Vec<u8>,
    /// The AEAD ciphertext of the payload.
    pub ciphertext: Vec<u8>,
}

/// The bytes of a blob with the given parts. The length fields are the
/// lengths truncated to their widths.
pub open spec fn encode_blob(wrapped: Seq<u8>, nonce: Seq<u8>, ciphertext: Seq<u8>) -> Seq<u8> {
    seq![RECIPIENT_BLOB_VERSION] + u16_be_bytes(wrapped.len() as u16) + wrapped + seq![
        nonce.len() as u8,
    ] + nonce + u32_be_bytes(ciphertext.len() as u32) + ciphertext
}

/// What reading `b` as a blob gives: its parts (wrapped key, nonce,
/// ciphertext) or the first check that fails.
pub open spec fn parse_blob(b: Seq<u8>) -> Result<(Seq<u8>, Seq<u8>, Seq<u8>), RecipientBlobError> {
    if b.len() == 0 || b[0] != RECIPIENT_BLOB_VERSION {
        Err(RecipientBlobError::UnsupportedVersion)
    } else if b.len() < 3 {
        Err(RecipientBlobError::TooShort)
    } else {
        let w_end = 3 + be_u16_at(b, 1);
        if b.len() < w_end {
            Err(RecipientBlobError::TooShortForWrapped)
        } else if b.len() < w_end + 1 {
            Err(RecipientBlobError::TooShortForNonceLen)
        } else {
            let n_end = w_end + 1 + b[w_end];
            if b.len() < n_end {
                Err(RecipientBlobError::TooShortForNonce)
            } else if b.len() < n_end + 4 {
                Err(RecipientBlobError::TooShortForCtLen)
            } else {
                let c_end = n_end + 4 + be_u32_at(b, n_end);
                if b.len() < c_end {
                    Err(RecipientBlobError::TooShortForCiphertext)
                } else {
                    Ok(
                        (
                            b.subrange(3, w_end),
                            b.subrange(w_end + 1, n_end),
                            b.subrange(n_end + 4, c_end),
                        ),
                    )
                }
            }
        }
    }
}

/// Build the blob bytes from its parts (the length fields are truncated
/// to their widths, as the layout stores them).
pub fn encode_recipient_blob(wrapped: &[u8], nonce: &[u8], ciphertext: &[u8]) -> (blob: Vec<u8>)
    ensures
        blob@ == encode_blob(wrapped@, nonce@, ciphertext@),
{
    let mut blob: Vec<u8> = Vec::new();
    blob.push(RECIPIENT_BLOB_VERSION);
    push_u16_be(&mut blob, wrapped.len() as u16);
    push_bytes(&mut blob, wrapped);
    blob.push(nonce.len() as u8);
    push_bytes(&mut blob, nonce);
    push_u32_be(&mut blob, ciphertext.len() as u32);
    push_bytes(&mut blob, ciphertext);
    assert(blob@ =~= encode_blob(wrapped@, nonce@, ciphertext@));
    blob
}

/// Read a blob into its parts, or say which check failed first.
pub fn parse_recipient_blob(blob: &[u8]) -> (r: Result<RecipientBlob, RecipientBlobError>)
    ensures
        match r {
            Ok(p) => parse_blob(blob@) == Ok::<_, RecipientBlobError>(
                (p.wrapped@, p.nonce@, p.ciphertext@),
            ),
            Err(e) => parse_blob(blob@) == Err::<(Seq<u8>, Seq<u8>, Seq<u8>), _>(e),
        },
{
    let n = blob.len();
    if n == 0 || blob[0] != RECIPIENT_BLOB_VERSION {
        return Err(RecipientBlobError::UnsupportedVersion);
    }
    if n < 3 {
        return Err(RecipientBlobError::TooShort);
    }
    let wlen = read_u16_be(blob, 1) as usize;
    if n - 3 < wlen {
        return Err(RecipientBlobError::TooShortForWrapped);
    }
    let w_end = 3 + wlen;
    if n - w_end < 1 {
        return Err(RecipientBlobError::TooShortForNonceLen);
    }
    let nlen = blob[w_end] as usize;
    if n - (w_end + 1) < nlen {
        return Err(RecipientBlobError::TooShortForNonce);
    }
    let n_end = w_end + 1 + nlen;
    if n - n_end < 4 {
        return Err(RecipientBlobError::TooShortForCtLen);
    }
    let clen = read_u32_be(blob, n_end) as usize;
    if n - (n_end + 4) < clen {
        return Err(RecipientBlobError::TooShortForCiphertext);
    }
    let wrapped = copy_range(blob, 3, wlen);
    let nonce = copy_range(blob, w_end + 1, nlen);
    let ciphertext = copy_range(blob, n_end + 4, clen);
    Ok(RecipientBlob { wrapped, nonce, ciphertext })
}

/// Reading the bytes built from three parts gives the parts back, when
/// each length fits its field.
pub proof fn lemma_recipient_blob_roundtrip(wrapped: Seq<u8>, nonce: Seq<u8>, ciphertext: Seq<u8>)
    requires
        wrapped.len() <= u16::MAX,
        nonce.len() <= u8::MAX,
        ciphertext.len() <= u32::MAX,
    ensures
        parse_blob(encode_blob(wrapped, nonce, ciphertext)) == Ok::<_, RecipientBlobError>(
            (wrapped, nonce, ciphertext),
        ),
{
    let b = encode_blob(wrapped, nonce, ciphertext);
    let wl = wrapped.len() as u16;
    let cl = ciphertext.len() as u32;
    let w_end: int = 3 + wrapped.len() as int;
    let n_end: int = w_end + 1 + nonce.len();
    lemma_u16_roundtrip(wl);
    lemma_u32_roundtrip(cl);
    assert(b.subrange(1, 3) =~= u16_be_bytes(wl));
    assert(be_u16_at(b, 1) == be_u16_at(u16_be_bytes(wl), 0));
    assert(b[w_end] == nonce.len() as u8);
    assert(b.subrange(n_end, n_end + 4) =~= u32_be_bytes(cl));
    assert(be_u32_at(b, n_end) == be_u32_at(u32_be_bytes(cl), 0));
    assert(b.subrange(3, w_end) =~= wrapped);
    assert(b.subrange(w_end + 1, n_end) =~= nonce);
    assert(b.subrange(n_end + 4, b.len() as int) =~= ciphertext);
}

} // verus!
