//! Vault cryptography.
//!
//! Two kinds of sealed data share one layout, `[salt 16 B][IV 12 B][AES-256-GCM
//! ciphertext + 16 B tag]`:
//!
//! * `index.lock` is keyed by PBKDF2-HMAC-SHA256 of the master password and the salt;
//! * a blob is keyed by a raw AES-256 key kept, in Base64, in the index; its salt
//!   field is zero.

use vstd::prelude::*;
use vstd::string::*;

use crate::fmt::{concat, decimal_string, push_hex2};
use crate::fmt;
use crate::frame::{decrypt_blob, encrypt_blob, MIN_BLOB_LEN, IV_SIZE, SALT_SIZE};
use crate::frame;
use crate::primitives::{aes256gcm_decrypt, aes256gcm_encrypt, base64_decode, base64_encode, random_bytes, GCM_MAX_PLAINTEXT};
use crate::primitives;
use crate::text::push_char;

verus! {

/// Why a vault operation failed.
#[derive(Debug)]
pub enum VaultError {
    /// The master password is wrong or `index.lock` is corrupted (also: a blob
    /// does not open under its key).
    WrongPassword,
    /// The data is present but is not a valid vault.
    InvalidFormat(String),
    /// No entry with the given UUID or name.
    NotFound(String),
    /// A file with the same name already exists in the destination folder.
    DuplicateName,
    /// An input/output failure, with its message.
    Io(String),
}

impl VaultError {
    /// The text shown to users for this error.
    pub open spec fn message_spec(&self) -> Seq<char> {
        match self {
            VaultError::WrongPassword => "wrong password or corrupted index"@,
            VaultError::InvalidFormat(m) => "invalid vault format: "@ + m@,
            VaultError::NotFound(n) => "entry not found: "@ + n@,
            VaultError::DuplicateName => "a file with that name already exists"@,
            VaultError::Io(e) => "I/O error: "@ + e@,
        }
    }

    /// The text shown to users for this error.
    pub fn message(&self) -> (r: String)
        ensures
            r@ == self.message_spec(),
    {
        match self {
            VaultError::WrongPassword => "wrong password or corrupted index".to_owned(),
            VaultError::InvalidFormat(m) => concat("invalid vault format: ", m.as_str()),
            VaultError::NotFound(n) => concat("entry not found: ", n.as_str()),
            VaultError::DuplicateName => "a file with that name already exists".to_owned(),
            VaultError::Io(e) => concat("I/O error: ", e.as_str()),
        }
    }
}

/// `r` is an `InvalidFormat` error with exactly the message `m`.
pub open spec fn is_format_error<T>(r: Result<T, VaultError>, m: Seq<char>) -> bool {
    r matches Err(VaultError::InvalidFormat(s)) && s@ == m
}

/// `r` is an `InvalidFormat` error whose message starts with `p`.
pub open spec fn is_format_error_with_prefix<T>(r: Result<T, VaultError>, p: Seq<char>) -> bool {
    r matches Err(VaultError::InvalidFormat(s)) && p.is_prefix_of(s@)
}

/// The plaintext a blob opens to under the raw key bytes `key`.
pub open spec fn open_key_blob(blob: Seq<u8>, key: Seq<u8>) -> Option<Seq<u8>> {
    if blob.len() < MIN_BLOB_LEN {
        None
    } else {
        primitives::aes256gcm_open(key, blob.subrange(16, 28), blob.subrange(28, blob.len() as int))
    }
}

/// The key bytes named by a Base64 key text, when it is valid Base64 of 32 bytes.
pub open spec fn key_bytes_of(key_text: Seq<char>) -> Option<Seq<u8>> {
    match primitives::base64_decode_spec(key_text) {
        Some(k) => if k.len() == 32 { Some(k) } else { None },
        None => None,
    }
}

/// The plaintext a blob opens to under a Base64 key text.
pub open spec fn key_blob_plain(blob: Seq<u8>, key_text: Seq<char>) -> Option<Seq<u8>> {
    match key_bytes_of(key_text) {
        Some(k) => open_key_blob(blob, k),
        None => None,
    }
}

/// Open a blob with its Base64 key.
pub fn decrypt_blob_with_key(data: &[u8], key_base64: &str) -> (r: Result<Vec<u8>, VaultError>)
    ensures
        data@.len() < MIN_BLOB_LEN ==> is_format_error(r, "blob too short"@),
        data@.len() >= MIN_BLOB_LEN && primitives::base64_decode_spec(key_base64@) is None
            ==> is_format_error_with_prefix(r, "bad key base64: "@),
        data@.len() >= MIN_BLOB_LEN && primitives::base64_decode_spec(key_base64@) is Some
            && key_bytes_of(key_base64@) is None
            ==> is_format_error(r, "bad key length: Invalid Length"@),
        data@.len() >= MIN_BLOB_LEN && key_bytes_of(key_base64@) is Some ==> match key_blob_plain(data@, key_base64@) {
            Some(p) => (r matches Ok(v) && v@ == p),
            None => r matches Err(VaultError::WrongPassword),
        },
{
    if data.len() < MIN_BLOB_LEN {
        return Err(VaultError::InvalidFormat("blob too short".to_owned()));
    }
    let key = match base64_decode(key_base64) {
        Ok(k) => k,
        Err(e) => {
            return Err(VaultError::InvalidFormat(concat("bad key base64: ", e.as_str())));
        },
    };
    if key.len() != 32 {
        return Err(VaultError::InvalidFormat("bad key length: Invalid Length".to_owned()));
    }
    let iv = &data[SALT_SIZE..SALT_SIZE + IV_SIZE];
    let ciphertext = &data[SALT_SIZE + IV_SIZE..data.len()];
    match aes256gcm_decrypt(key.as_slice(), iv, ciphertext) {
        Some(p) => Ok(p),
        None => Err(VaultError::WrongPassword),
    }
}

/// `b` is a blob sealing `plain` under the Base64 key text `key_text`, with a zero salt.
pub open spec fn key_blob_seals(b: Seq<u8>, key_text: Seq<char>, plain: Seq<u8>) -> bool {
    &&& exists|iv: Seq<u8>|
        iv.len() == IV_SIZE && b == Seq::new(SALT_SIZE as nat, |i: int| 0u8) + iv
            + #[trigger] primitives::aes256gcm_seal(key_bytes_of(key_text).unwrap(), iv, plain)
    &&& b.len() == plain.len() + MIN_BLOB_LEN
    &&& forall|i: int| 0 <= i < SALT_SIZE ==> b[i] == 0u8
    &&& key_blob_plain(b, key_text) == Some(plain)
}

/// Seal `plaintext` with a Base64 key: zero salt, fresh random IV.
pub fn encrypt_blob_with_key(plaintext: &[u8], key_base64: &str) -> (r: Result<Vec<u8>, VaultError>)
    ensures
        primitives::base64_decode_spec(key_base64@) is None ==> is_format_error_with_prefix(r, "bad key base64: "@),
        primitives::base64_decode_spec(key_base64@) is Some && key_bytes_of(key_base64@) is None
            ==> is_format_error(r, "bad key length: Invalid Length"@),
        key_bytes_of(key_base64@) is Some && plaintext@.len() > GCM_MAX_PLAINTEXT
            ==> is_format_error(r, "encryption failed"@),
        key_bytes_of(key_base64@) is Some && plaintext@.len() <= GCM_MAX_PLAINTEXT
            ==> (r matches Ok(b) && key_blob_seals(b@, key_base64@, plaintext@)),
{
    let key = match base64_decode(key_base64) {
        Ok(k) => k,
        Err(e) => {
            return Err(VaultError::InvalidFormat(concat("bad key base64: ", e.as_str())));
        },
    };
    let iv = random_bytes(IV_SIZE);
    if key.len() != 32 {
        return Err(VaultError::InvalidFormat("bad key length: Invalid Length".to_owned()));
    }
    if plaintext.len() as u64 > GCM_MAX_PLAINTEXT {
        return Err(VaultError::InvalidFormat("encryption failed".to_owned()));
    }
    let ct = aes256gcm_encrypt(key.as_slice(), iv.as_slice(), plaintext);
    let mut out: Vec<u8> = Vec::new();
    let mut i: usize = 0;
    while i < SALT_SIZE
        invariant
            i <= SALT_SIZE,
            out@.len() == i,
            forall|j: int| 0 <= j < i ==> out@[j] == 0u8,
        decreases SALT_SIZE - i,
    {
        out.push(0u8);
        i = i + 1;
    }
    crate::bytes::extend_bytes(&mut out, iv.as_slice());
    crate::bytes::extend_bytes(&mut out, ct.as_slice());
    assert(out@.subrange(16, 28) =~= iv@);
    assert(out@.subrange(28, out@.len() as int) =~= ct@);
    assert(out@ =~= Seq::new(SALT_SIZE as nat, |i: int| 0u8) + iv@ + ct@);
    Ok(out)
}

/// A blob sealed by `encrypt_blob_with_key` opens, under the same key text, to
/// the plaintext it sealed.
pub proof fn lemma_key_blob_roundtrip(b: Seq<u8>, key_text: Seq<char>, plain: Seq<u8>)
    requires
        key_blob_seals(b, key_text, plain),
    ensures
        b.len() >= MIN_BLOB_LEN,
        key_bytes_of(key_text) is Some,
        key_blob_plain(b, key_text) == Some(plain),
{
}

/// A fresh random AES-256 key, Base64-encoded: 44 characters that decode to 32 bytes.
pub fn generate_key_base64() -> (r: String)
    ensures
        r@.len() == 44,
        key_bytes_of(r@) is Some,
{
    let key = random_bytes(32);
    base64_encode(key.as_slice())
}

/// Lower-case hexadecimal text of a byte sequence, two digits per byte.
pub open spec fn hex_bytes(b: Seq<u8>) -> Seq<char>
    decreases b.len(),
{
    if b.len() == 0 {
        Seq::empty()
    } else {
        hex_bytes(b.drop_last()) + fmt::hex2(b.last())
    }
}

/// The hyphenated 8-4-4-4-12 text of sixteen bytes.
pub open spec fn uuid_text(b: Seq<u8>) -> Seq<char> {
    hex_bytes(b.subrange(0, 4)) + seq!['-'] + hex_bytes(b.subrange(4, 6)) + seq!['-']
        + hex_bytes(b.subrange(6, 8)) + seq!['-'] + hex_bytes(b.subrange(8, 10)) + seq!['-']
        + hex_bytes(b.subrange(10, 16))
}

/// Sixteen bytes with the version-4 and RFC 4122 variant bits.
pub open spec fn is_v4_bytes(b: Seq<u8>) -> bool {
    &&& b.len() == 16
    &&& b[6] / 16 == 4
    &&& b[8] / 64 == 2
}

/// Append the hexadecimal text of `b[from..to]` to `s`.
fn push_hex_range(s: &mut String, b: &[u8], from: usize, to: usize)
    requires
        from <= to <= b@.len(),
    ensures
        final(s)@ == old(s)@ + hex_bytes(b@.subrange(from as int, to as int)),
{
    let mut i: usize = from;
    while i < to
        invariant
            from <= i <= to <= b@.len(),
            s@ == old(s)@ + hex_bytes(b@.subrange(from as int, i as int)),
        decreases to - i,
    {
        push_hex2(s, b[i]);
        proof {
            let t = b@.subrange(from as int, i + 1);
            assert(t.drop_last() =~= b@.subrange(from as int, i as int));
            assert(t.last() == b@[i as int]);
        }
        i = i + 1;
    }
}

/// A random version-4 UUID in its hyphenated lower-case hexadecimal text.
pub fn generate_uuid() -> (r: String)
    ensures
        exists|b: Seq<u8>| is_v4_bytes(b) && r@ == #[trigger] uuid_text(b),
{
    let mut bytes = random_bytes(16);
    let b6 = bytes[6];
    let b8 = bytes[8];
    let v6: u8 = (b6 & 0x0f) | 0x40;
    let v8: u8 = (b8 & 0x3f) | 0x80;
    assert(v6 / 16 == 4) by (bit_vector)
        requires v6 == (b6 & 0x0f) | 0x40;
    assert(v8 / 64 == 2) by (bit_vector)
        requires v8 == (b8 & 0x3f) | 0x80;
    bytes.set(6, v6);
    bytes.set(8, v8);
    let mut s = String::new();
    push_hex_range(&mut s, bytes.as_slice(), 0, 4);
    push_char(&mut s, '-');
    push_hex_range(&mut s, bytes.as_slice(), 4, 6);
    push_char(&mut s, '-');
    push_hex_range(&mut s, bytes.as_slice(), 6, 8);
    push_char(&mut s, '-');
    push_hex_range(&mut s, bytes.as_slice(), 8, 10);
    push_char(&mut s, '-');
    push_hex_range(&mut s, bytes.as_slice(), 10, 16);
    proof {
        let b = bytes@;
        assert(is_v4_bytes(b));
        assert(s@ =~= uuid_text(b));
    }
    s
}

/// What `index.lock` bytes hold under a password: the sealed bytes, or none
/// when they are too short or do not open.
pub open spec fn opened_index(data: Seq<u8>, password: Seq<u8>) -> Option<Seq<u8>> {
    if data.len() < MIN_BLOB_LEN { None } else { frame::open_password_blob(data, password) }
}

/// Open `index.lock` bytes with the master password.
pub fn decrypt_index(data: &[u8], password: &str) -> (r: Result<Vec<u8>, VaultError>)
    ensures
        match r {
            Ok(v) => opened_index(data@, password.spec_bytes()) == Some(v@),
            Err(_) => opened_index(data@, password.spec_bytes()) is None,
        },
        data@.len() < MIN_BLOB_LEN ==> is_format_error(r, "index.lock too short"@),
        data@.len() >= MIN_BLOB_LEN ==> match frame::open_password_blob(data@, password.spec_bytes()) {
            Some(p) => (r matches Ok(v) && v@ == p),
            None => r matches Err(VaultError::WrongPassword),
        },
{
    if data.len() < MIN_BLOB_LEN {
        return Err(VaultError::InvalidFormat("index.lock too short".to_owned()));
    }
    match decrypt_blob(data, password) {
        Some(p) => Ok(p),
        None => Err(VaultError::WrongPassword),
    }
}

/// Seal the serialized index with the master password (fresh salt and IV).
pub fn encrypt_index(plaintext: &[u8], password: &str) -> (r: Vec<u8>)
    requires
        plaintext@.len() <= GCM_MAX_PLAINTEXT,
    ensures
        frame::password_sealing(r@, password.spec_bytes(), plaintext@),
        r@.len() == plaintext@.len() + MIN_BLOB_LEN,
        frame::open_password_blob(r@, password.spec_bytes()) == Some(plaintext@),
{
    encrypt_blob(plaintext, password)
}

/// What `decrypt_index` gives back of `encrypt_index`: bytes sealed with a
/// password open, under the same password, to exactly the bytes sealed.
pub proof fn lemma_index_roundtrip(sealed: Seq<u8>, password: Seq<u8>, plain: Seq<u8>)
    requires
        sealed.len() == plain.len() + MIN_BLOB_LEN,
        frame::open_password_blob(sealed, password) == Some(plain),
    ensures
        opened_index(sealed, password) == Some(plain),
{
}

/// The error message for a vault whose index has an unknown format version.
pub fn unsupported_version(version: u32) -> (r: VaultError)
    ensures
        (r matches VaultError::InvalidFormat(m) && m@ == "unsupported vault version "@ + fmt::decimal(version as nat)),
{
    let n = decimal_string(version as u64);
    VaultError::InvalidFormat(concat("unsupported vault version ", n.as_str()))
}

} // verus!
