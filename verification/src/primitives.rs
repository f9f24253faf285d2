//! Trusted boundary to the cryptographic crates: AES-256-GCM (`aes-gcm`),
//! PBKDF2-HMAC-SHA256 (`pbkdf2`, `sha2`), the operating-system random source
//! (`rand`) and standard Base64 (`base64`). Everything else is verified.

use vstd::prelude::*;

use aes_gcm::aead::{Aead, KeyInit};
use aes_gcm::Aes256Gcm;
use base64::Engine as _;
use rand::RngCore;

pub use crate::base64_text::{base64_decode_spec, base64_encode_spec};
use crate::base64_text::{lemma_base64_len, lemma_base64_roundtrip};

verus! {

/// Largest plaintext AES-GCM accepts (`aes_gcm::P_MAX`, 2^36 bytes).
pub const GCM_MAX_PLAINTEXT: u64 = 68719476736u64;

/// Length of the GCM authentication tag appended to every ciphertext.
pub const GCM_TAG_LEN: usize = 16;

/// AES-256-GCM sealing of `plaintext` under `key` and `nonce`, no associated data.
pub uninterp spec fn aes256gcm_seal(key: Seq<u8>, nonce: Seq<u8>, plaintext: Seq<u8>) -> Seq<u8>;

/// AES-256-GCM opening of `ciphertext` (ciphertext followed by its tag); `None`
/// when the tag does not authenticate.
pub uninterp spec fn aes256gcm_open(key: Seq<u8>, nonce: Seq<u8>, ciphertext: Seq<u8>) -> Option<Seq<u8>>;

/// PBKDF2-HMAC-SHA256 with a 32-byte output.
pub uninterp spec fn pbkdf2_hmac_sha256(password: Seq<u8>, salt: Seq<u8>, rounds: u32) -> Seq<u8>;

/// `<Aes256Gcm as Aead>::encrypt` with a 32-byte key and a 12-byte nonce.
/// Claims: the result is the GCM sealing of the inputs, it is 16 bytes longer
/// than the plaintext, and opening it with the same key and nonce gives the
/// plaintext back. The call fails only above `P_MAX`, which `requires` excludes.
#[verifier::external_body]
pub(crate) fn aes256gcm_encrypt(key: &[u8], nonce: &[u8], plaintext: &[u8]) -> (ct: Vec<u8>)
    requires
        key@.len() == 32,
        nonce@.len() == 12,
        plaintext@.len() <= GCM_MAX_PLAINTEXT,
    ensures
        ct@ == aes256gcm_seal(key@, nonce@, plaintext@),
        ct@.len() == plaintext@.len() + GCM_TAG_LEN,
        aes256gcm_open(key@, nonce@, ct@) == Some(plaintext@),
{
    let cipher = Aes256Gcm::new(aes_gcm::Key::<Aes256Gcm>::from_slice(key));
    cipher.encrypt(aes_gcm::Nonce::from_slice(nonce), plaintext).expect("within P_MAX")
}

/// `<Aes256Gcm as Aead>::decrypt` with a 32-byte key and a 12-byte nonce.
/// Claims: the result is exactly the GCM opening of the inputs.
#[verifier::external_body]
pub(crate) fn aes256gcm_decrypt(key: &[u8], nonce: &[u8], ciphertext: &[u8]) -> (pt: Option<Vec<u8>>)
    requires
        key@.len() == 32,
        nonce@.len() == 12,
    ensures
        match pt {
            Some(p) => aes256gcm_open(key@, nonce@, ciphertext@) == Some(p@),
            None => aes256gcm_open(key@, nonce@, ciphertext@) is None,
        },
{
    let cipher = Aes256Gcm::new(aes_gcm::Key::<Aes256Gcm>::from_slice(key));
    cipher.decrypt(aes_gcm::Nonce::from_slice(nonce), ciphertext).ok()
}

/// `pbkdf2::pbkdf2_hmac::<sha2::Sha256>` filling a 32-byte key.
/// Claims: the key is the named PBKDF2 result of the inputs and has 32 bytes.
#[verifier::external_body]
pub(crate) fn pbkdf2_sha256(password: &[u8], salt: &[u8], rounds: u32) -> (key: Vec<u8>)
    ensures
        key@ == pbkdf2_hmac_sha256(password@, salt@, rounds),
        key@.len() == 32,
{
    let mut key = [0u8; 32];
    pbkdf2::pbkdf2_hmac::<sha2::Sha256>(password, salt, rounds, &mut key);
    key.to_vec()
}

/// `rand::rngs::OsRng::fill_bytes` on a fresh buffer of `n` bytes.
/// Claims only the length: the bytes come from the operating system.
#[verifier::external_body]
pub(crate) fn random_bytes(n: usize) -> (r: Vec<u8>)
    ensures
        r@.len() == n,
{
    let mut buf = vec![0u8; n];
    rand::rngs::OsRng.fill_bytes(&mut buf);
    buf
}

/// `base64::engine::general_purpose::STANDARD.encode`.
/// Claims: the text is the standard padded encoding of the bytes.
#[verifier::external_body]
fn standard_encode(bytes: &[u8]) -> (text: String)
    requires
        bytes@.len() * 4 <= usize::MAX,
    ensures
        text@ == base64_encode_spec(bytes@),
{
    base64::engine::general_purpose::STANDARD.encode(bytes)
}

/// The standard padded Base64 encoding of `bytes`: four characters per started
/// group of three bytes, decoding back to the bytes.
pub(crate) fn base64_encode(bytes: &[u8]) -> (text: String)
    requires
        bytes@.len() * 4 <= usize::MAX,
    ensures
        text@ == base64_encode_spec(bytes@),
        text@.len() == 4 * ((bytes@.len() + 2) / 3),
        base64_decode_spec(text@) == Some(bytes@),
{
    let t = standard_encode(bytes);
    proof {
        lemma_base64_len(bytes@);
        lemma_base64_roundtrip(bytes@);
    }
    t
}

/// `base64::engine::general_purpose::STANDARD.decode` (canonical padding
/// required, stray bits refused), the error rendered with its `Display` text.
/// Claims: success exactly when the text is the encoding of some bytes, with
/// those bytes; nothing is said of the error text.
#[verifier::external_body]
pub(crate) fn base64_decode(text: &str) -> (r: Result<Vec<u8>, String>)
    ensures
        match r {
            Ok(b) => base64_decode_spec(text@) == Some(b@),
            Err(_) => base64_decode_spec(text@) is None,
        },
{
    base64::engine::general_purpose::STANDARD.decode(text).map_err(|e| e.to_string())
}

} // verus!
