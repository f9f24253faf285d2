//! The single-file `.lock` format.
//!
//! A file is a sequence of frames. Each frame is a four-byte big-endian blob
//! length followed by the blob; a blob is `[salt 16 B][IV 12 B][AES-256-GCM
//! ciphertext + 16 B tag]`, keyed by PBKDF2-HMAC-SHA256 (100 000 rounds) of the
//! password and the salt. Plaintext is cut into frames of 64 MiB; an empty
//! plaintext still yields one frame.

use vstd::prelude::*;
use vstd::string::*;

use crate::bytes::{extend_bytes, push_be32};
use crate::bytes;
use crate::primitives::{aes256gcm_decrypt, aes256gcm_encrypt, pbkdf2_sha256, random_bytes, GCM_MAX_PLAINTEXT};
use crate::primitives;

verus! {

pub const PBKDF2_ITERATIONS: u32 = 100000u32;
pub const SALT_SIZE: usize = 16;
pub const IV_SIZE: usize = 12;
/// Plaintext bytes per frame (64 MiB).
pub const FRAME_SIZE: usize = 67108864;
/// Shortest blob that can hold an empty ciphertext and its tag.
pub const MIN_BLOB_LEN: usize = 44;

/// The plaintext a password-keyed blob opens to, if it opens.
pub open spec fn open_password_blob(blob: Seq<u8>, password: Seq<u8>) -> Option<Seq<u8>> {
    if blob.len() < MIN_BLOB_LEN {
        None
    } else {
        primitives::aes256gcm_open(
            primitives::pbkdf2_hmac_sha256(password, blob.subrange(0, 16), PBKDF2_ITERATIONS),
            blob.subrange(16, 28),
            blob.subrange(28, blob.len() as int),
        )
    }
}

/// A blob as sealing lays it out: the salt, the IV, then the AES-256-GCM
/// sealing of the plaintext under the PBKDF2 key of the password and salt.
pub open spec fn sealed_blob(password: Seq<u8>, salt: Seq<u8>, iv: Seq<u8>, plain: Seq<u8>) -> Seq<u8> {
    salt + iv + primitives::aes256gcm_seal(primitives::pbkdf2_hmac_sha256(password, salt, PBKDF2_ITERATIONS), iv, plain)
}

/// `blob` is `plain` sealed under `password` with some 16-byte salt and 12-byte IV.
pub open spec fn password_sealing(blob: Seq<u8>, password: Seq<u8>, plain: Seq<u8>) -> bool {
    exists|salt: Seq<u8>, iv: Seq<u8>|
        salt.len() == SALT_SIZE && iv.len() == IV_SIZE && blob == #[trigger] sealed_blob(password, salt, iv, plain)
}

/// The plaintext pieces a file is cut into, one per frame.
pub open spec fn frame_chunks(p: Seq<u8>) -> Seq<Seq<u8>>
    decreases p.len(),
{
    if p.len() <= FRAME_SIZE {
        seq![p]
    } else {
        seq![p.subrange(0, FRAME_SIZE as int)] + frame_chunks(p.subrange(FRAME_SIZE as int, p.len() as int))
    }
}

/// One frame on disk: the big-endian blob length, then the blob.
pub open spec fn frame_bytes(blob: Seq<u8>) -> Seq<u8> {
    bytes::be32_bytes(blob.len()) + blob
}

/// A sequence of frames on disk.
pub open spec fn frames_bytes(blobs: Seq<Seq<u8>>) -> Seq<u8>
    decreases blobs.len(),
{
    if blobs.len() == 0 {
        Seq::<u8>::empty()
    } else {
        frames_bytes(blobs.drop_last()) + frame_bytes(blobs.last())
    }
}

/// The lengths of the pieces, as reported to the progress log.
pub open spec fn chunk_lengths(chunks: Seq<Seq<u8>>) -> Seq<usize> {
    chunks.map_values(|c: Seq<u8>| c.len() as usize)
}

/// `blobs` seal the frames of `plain` under `password`, one blob per frame.
pub open spec fn sealed_frames(plain: Seq<u8>, blobs: Seq<Seq<u8>>, password: Seq<u8>) -> bool {
    &&& blobs.len() == frame_chunks(plain).len()
    &&& forall|i: int| 0 <= i < blobs.len() ==> {
        &&& password_sealing(#[trigger] blobs[i], password, frame_chunks(plain)[i])
        &&& open_password_blob(blobs[i], password) == Some(frame_chunks(plain)[i])
        &&& blobs[i].len() == frame_chunks(plain)[i].len() + MIN_BLOB_LEN
    }
}

/// Outcome of reading a frame stream: `Some(true)` the stream splits exactly
/// into frames that all opened, `Some(false)` a frame did not open (wrong
/// password or corrupted data) or 1 to 3 stray bytes follow the last frame,
/// `None` the stream ended inside a blob. Also the plaintext and progress
/// produced before stopping.
pub open spec fn decrypt_stream(c: Seq<u8>, password: Seq<u8>) -> (Option<bool>, Seq<u8>, Seq<usize>)
    decreases c.len(),
{
    if c.len() == 0 {
        (Some(true), Seq::<u8>::empty(), Seq::<usize>::empty())
    } else if c.len() < 4 {
        (Some(false), Seq::<u8>::empty(), Seq::<usize>::empty())
    } else {
        let size: int = bytes::be32_value(c.subrange(0, 4)) as int;
        if c.len() - 4 < size {
            (None, Seq::<u8>::empty(), Seq::<usize>::empty())
        } else {
            match open_password_blob(c.subrange(4, 4 + size), password) {
                None => (Some(false), Seq::<u8>::empty(), Seq::<usize>::empty()),
                Some(p) => {
                    let rest = decrypt_stream(c.subrange(4 + size, c.len() as int), password);
                    (rest.0, p + rest.1, seq![p.len() as usize] + rest.2)
                },
            }
        }
    }
}

/// A frame stream ended inside a blob.
#[derive(Debug, Clone, Copy, PartialEq, Eq)]
pub enum FrameError {
    Truncated,
}

impl FrameError {
    /// The error as the reader reports it: the input ran out.
    pub fn message(&self) -> (r: String)
        ensures
            r@ == "failed to fill whole buffer"@,
    {
        "failed to fill whole buffer".to_owned()
    }
}

/// What encrypting or decrypting from the command line prints to the error
/// stream, and its exit code: 2 when the input ended early, 1 for a wrong
/// password (or a corrupted file), 0 on success.
pub open spec fn crypto_exit_spec(result: Result<bool, FrameError>) -> (Option<Seq<char>>, i32) {
    match result {
        Err(_) => (Some("error: failed to fill whole buffer"@), 2),
        Ok(false) => (Some("error: wrong password or corrupted file"@), 1),
        Ok(true) => (None, 0),
    }
}

/// The message and exit code of an encryption or decryption from the command line.
pub fn crypto_exit(result: &Result<bool, FrameError>) -> (r: (Option<String>, i32))
    ensures
        r.1 == crypto_exit_spec(*result).1,
        match r.0 {
            Some(t) => crypto_exit_spec(*result).0 == Some(t@),
            None => crypto_exit_spec(*result).0 is None,
        },
{
    match result {
        Err(e) => {
            let mut t = "error: ".to_owned();
            let m = e.message();
            crate::fmt::push_str(&mut t, m.as_str());
            proof {
                reveal_strlit("error: ");
                reveal_strlit("failed to fill whole buffer");
                reveal_strlit("error: failed to fill whole buffer");
                assert(t@ =~= "error: failed to fill whole buffer"@);
            }
            (Some(t), 2)
        },
        Ok(false) => (Some("error: wrong password or corrupted file".to_owned()), 1),
        Ok(true) => (None, 0),
    }
}

/// PBKDF2-HMAC-SHA256 key of `password` and `salt`, 100 000 rounds, 32 bytes.
pub fn derive_key(password: &str, salt: &[u8]) -> (key: Vec<u8>)
    ensures
        key@ == primitives::pbkdf2_hmac_sha256(password.spec_bytes(), salt@, PBKDF2_ITERATIONS),
        key@.len() == 32,
{
    pbkdf2_sha256(password.as_bytes(), salt, PBKDF2_ITERATIONS)
}

/// Seal `plaintext` into a blob keyed by `password` with a fresh random salt and IV.
pub fn encrypt_blob(plaintext: &[u8], password: &str) -> (blob: Vec<u8>)
    requires
        plaintext@.len() <= GCM_MAX_PLAINTEXT,
    ensures
        password_sealing(blob@, password.spec_bytes(), plaintext@),
        blob@.len() == plaintext@.len() + MIN_BLOB_LEN,
        open_password_blob(blob@, password.spec_bytes()) == Some(plaintext@),
{
    let salt = random_bytes(SALT_SIZE);
    let iv = random_bytes(IV_SIZE);
    let key = derive_key(password, salt.as_slice());
    let ct = aes256gcm_encrypt(key.as_slice(), iv.as_slice(), plaintext);
    let mut out: Vec<u8> = Vec::new();
    extend_bytes(&mut out, salt.as_slice());
    extend_bytes(&mut out, iv.as_slice());
    extend_bytes(&mut out, ct.as_slice());
    assert(out@.subrange(0, 16) =~= salt@);
    assert(out@.subrange(16, 28) =~= iv@);
    assert(out@.subrange(28, out@.len() as int) =~= ct@);
    assert(out@ =~= sealed_blob(password.spec_bytes(), salt@, iv@, plaintext@));
    out
}

/// Open a password-keyed blob; `None` when it is too short or does not authenticate.
pub fn decrypt_blob(data: &[u8], password: &str) -> (plain: Option<Vec<u8>>)
    ensures
        match plain {
            Some(p) => open_password_blob(data@, password.spec_bytes()) == Some(p@),
            None => open_password_blob(data@, password.spec_bytes()) is None,
        },
{
    if data.len() < MIN_BLOB_LEN {
        return None;
    }
    let salt = &data[0..SALT_SIZE];
    let iv = &data[SALT_SIZE..SALT_SIZE + IV_SIZE];
    let ciphertext = &data[SALT_SIZE + IV_SIZE..data.len()];
    let key = derive_key(password, salt);
    aes256gcm_decrypt(key.as_slice(), iv, ciphertext)
}


/// Cutting at the first frame: the first piece, then the pieces of the rest.
proof fn lemma_frame_chunks_step(p: Seq<u8>)
    ensures
        p.len() <= FRAME_SIZE ==> frame_chunks(p) == seq![p],
        p.len() > FRAME_SIZE ==> frame_chunks(p) == seq![p.subrange(0, FRAME_SIZE as int)]
            + frame_chunks(p.subrange(FRAME_SIZE as int, p.len() as int)),
{
}

/// Every piece is at most one frame long and the pieces put together give the plaintext.
pub proof fn lemma_frame_chunks_cover(p: Seq<u8>)
    ensures
        frame_chunks(p).len() >= 1,
        forall|i: int| 0 <= i < frame_chunks(p).len() ==> #[trigger] frame_chunks(p)[i].len() <= FRAME_SIZE,
        bytes::concat_all(frame_chunks(p)) == p,
    decreases p.len(),
{
    if p.len() <= FRAME_SIZE {
        let c = frame_chunks(p);
        assert(c.drop_last() =~= Seq::<Seq<u8>>::empty());
        assert(bytes::concat_all(c.drop_last()) =~= Seq::<u8>::empty());
        assert(bytes::concat_all(c) =~= p);
    } else {
        let head = p.subrange(0, FRAME_SIZE as int);
        let tail = p.subrange(FRAME_SIZE as int, p.len() as int);
        lemma_frame_chunks_cover(tail);
        let c = frame_chunks(p);
        assert(c == seq![head] + frame_chunks(tail));
        assert(c.drop_first() =~= frame_chunks(tail));
        bytes::lemma_concat_all_first(c);
        assert(p =~= head + tail);
        assert forall|i: int| 0 <= i < c.len() implies #[trigger] c[i].len() <= FRAME_SIZE by {
            if i > 0 {
                assert(c[i] == frame_chunks(tail)[i - 1]);
            }
        }
    }
}

/// Frames on disk split at the first frame.
proof fn lemma_frames_bytes_first(blobs: Seq<Seq<u8>>)
    requires
        blobs.len() > 0,
    ensures
        frames_bytes(blobs) == frame_bytes(blobs[0]) + frames_bytes(blobs.drop_first()),
    decreases blobs.len(),
{
    if blobs.len() == 1 {
        assert(blobs.drop_last() =~= Seq::<Seq<u8>>::empty());
        assert(blobs.drop_first() =~= Seq::<Seq<u8>>::empty());
        assert(frames_bytes(blobs.drop_last()) =~= Seq::<u8>::empty());
        assert(frames_bytes(blobs.drop_first()) =~= Seq::<u8>::empty());
        assert(frames_bytes(blobs) =~= frame_bytes(blobs[0]));
    } else {
        lemma_frames_bytes_first(blobs.drop_last());
        assert(blobs.drop_last().drop_first() =~= blobs.drop_first().drop_last());
        assert(blobs.drop_first().last() == blobs.last());
        assert(blobs.drop_last()[0] == blobs[0]);
        assert(frames_bytes(blobs) =~= frame_bytes(blobs[0]) + frames_bytes(blobs.drop_first()));
    }
}

/// Reading a stream of frames whose blobs all open gives back what they hold,
/// in order, with one progress report per frame.
proof fn lemma_decrypt_frames(blobs: Seq<Seq<u8>>, plains: Seq<Seq<u8>>, password: Seq<u8>)
    requires
        blobs.len() == plains.len(),
        forall|i: int| 0 <= i < blobs.len() ==> {
            &&& open_password_blob(#[trigger] blobs[i], password) == Some(plains[i])
            &&& blobs[i].len() < 4294967296
        },
    ensures
        decrypt_stream(frames_bytes(blobs), password) == (Some(true), bytes::concat_all(plains), chunk_lengths(plains)),
    decreases blobs.len(),
{
    if blobs.len() == 0 {
        assert(frames_bytes(blobs) =~= Seq::<u8>::empty());
        assert(bytes::concat_all(plains) =~= Seq::<u8>::empty());
        assert(chunk_lengths(plains) =~= Seq::<usize>::empty());
    } else {
        let c = frames_bytes(blobs);
        let b0 = blobs[0];
        lemma_frames_bytes_first(blobs);
        bytes::lemma_be32_roundtrip(b0.len());
        let rest = frames_bytes(blobs.drop_first());
        assert(c.subrange(0, 4) =~= bytes::be32_bytes(b0.len()));
        let size = b0.len() as int;
        assert(c.subrange(4, 4 + size) =~= b0);
        assert(c.subrange(4 + size, c.len() as int) =~= rest);
        assert(open_password_blob(blobs[0], password) == Some(plains[0]));
        assert forall|i: int| 0 <= i < blobs.drop_first().len() implies {
            &&& open_password_blob(#[trigger] blobs.drop_first()[i], password) == Some(plains.drop_first()[i])
            &&& blobs.drop_first()[i].len() < 4294967296
        } by {
            assert(blobs.drop_first()[i] == blobs[i + 1]);
            assert(plains.drop_first()[i] == plains[i + 1]);
        }
        lemma_decrypt_frames(blobs.drop_first(), plains.drop_first(), password);
        bytes::lemma_concat_all_first(plains);
        assert(chunk_lengths(plains) =~= seq![plains[0].len() as usize] + chunk_lengths(plains.drop_first()));
    }
}

/// What `encrypt_file` writes, `decrypt_file` reads back: the whole plaintext,
/// a success status, and progress reports that add up to the plaintext length.
pub proof fn lemma_file_roundtrip(plain: Seq<u8>, blobs: Seq<Seq<u8>>, password: Seq<u8>)
    requires
        sealed_frames(plain, blobs, password),
    ensures
        decrypt_stream(frames_bytes(blobs), password) == (Some(true), plain, chunk_lengths(frame_chunks(plain))),
{
    lemma_frame_chunks_cover(plain);
    let chunks = frame_chunks(plain);
    assert forall|i: int| 0 <= i < blobs.len() implies {
        &&& open_password_blob(#[trigger] blobs[i], password) == Some(chunks[i])
        &&& blobs[i].len() < 4294967296
    } by {
        assert(chunks[i].len() <= FRAME_SIZE);
    }
    lemma_decrypt_frames(blobs, chunks, password);
}

/// Encrypt `input` with `password` into the single-file format, appending the
/// frames to `output` and one progress report (plaintext bytes of that frame)
/// per frame to `on_progress`.
pub fn encrypt_file(input: &[u8], output: &mut Vec<u8>, password: &str, on_progress: &mut Vec<usize>)
    ensures
        exists|blobs: Seq<Seq<u8>>| {
            &&& sealed_frames(input@, blobs, password.spec_bytes())
            &&& #[trigger] frames_bytes(blobs) == final(output)@.subrange(old(output)@.len() as int, final(output)@.len() as int)
        },
        final(output)@.len() >= old(output)@.len(),
        final(output)@.subrange(0, old(output)@.len() as int) == old(output)@,
        final(on_progress)@ == old(on_progress)@ + chunk_lengths(frame_chunks(input@)),
{
    let ghost out0 = output@;
    let ghost prog0 = on_progress@;
    let ghost pw = password.spec_bytes();
    let ghost mut blobs: Seq<Seq<u8>> = Seq::empty();
    let ghost mut done: Seq<Seq<u8>> = Seq::empty();
    let len = input.len();
    let mut pos: usize = 0;
    proof {
        assert(input@.subrange(0, len as int) =~= input@);
    }
    loop
        invariant_except_break
            pos < len || (pos == 0 && len == 0),
            frame_chunks(input@) == done + frame_chunks(input@.subrange(pos as int, len as int)),
        invariant
            len == input@.len(),
            pos <= len,
            pw == password.spec_bytes(),
            blobs.len() == done.len(),
            forall|i: int| 0 <= i < blobs.len() ==> {
                &&& password_sealing(#[trigger] blobs[i], pw, done[i])
                &&& open_password_blob(blobs[i], pw) == Some(done[i])
                &&& blobs[i].len() == done[i].len() + MIN_BLOB_LEN
            },
            output@ == out0 + frames_bytes(blobs),
            on_progress@ == prog0 + chunk_lengths(done),
        ensures
            frame_chunks(input@) == done,
        decreases len - pos,
    {
        let end: usize = if len - pos <= FRAME_SIZE { len } else { pos + FRAME_SIZE };
        let chunk = &input[pos..end];
        let ghost rest = input@.subrange(pos as int, len as int);
        proof {
            lemma_frame_chunks_step(rest);
            assert(chunk@ =~= rest.subrange(0, (end - pos) as int));
            if end < len {
                assert(rest.subrange(FRAME_SIZE as int, rest.len() as int) =~= input@.subrange(end as int, len as int));
                assert(rest.subrange(0, FRAME_SIZE as int) =~= chunk@);
            } else {
                assert(chunk@ =~= rest);
            }
        }
        let blob = encrypt_blob(chunk, password);
        push_be32(output, blob.len() as u32);
        extend_bytes(output, blob.as_slice());
        on_progress.push(end - pos);
        proof {
            let old_blobs = blobs;
            let old_done = done;
            blobs = blobs.push(blob@);
            done = done.push(chunk@);
            assert(blobs.drop_last() =~= old_blobs);
            assert(frames_bytes(blobs) == frames_bytes(old_blobs) + frame_bytes(blob@));
            assert(output@ =~= out0 + frames_bytes(blobs));
            assert(chunk_lengths(done) =~= chunk_lengths(old_done).push(chunk@.len() as usize));
            assert(on_progress@ =~= prog0 + chunk_lengths(done));
            if end < len {
                assert(frame_chunks(input@) =~= done + frame_chunks(input@.subrange(end as int, len as int)));
            } else {
                assert(frame_chunks(input@) =~= done);
            }
        }
        if end == len {
            break;
        }
        pos = end;
    }
    proof {
        assert(sealed_frames(input@, blobs, pw));
        assert(output@.subrange(0, out0.len() as int) =~= out0);
        assert(output@.subrange(out0.len() as int, output@.len() as int) =~= frames_bytes(blobs));
    }
}

/// Read a single-file `.lock` stream, appending the plaintext of each frame to
/// `output` and its length to `on_progress`. `Ok(true)` when every frame opened,
/// `Ok(false)` at the first frame that did not (wrong password or corrupted
/// data, among them one to three bytes left after the last frame), `Err` when
/// the stream ends inside a blob.
pub fn decrypt_file(input: &[u8], output: &mut Vec<u8>, password: &str, on_progress: &mut Vec<usize>)
    -> (r: Result<bool, FrameError>)
    ensures
        ({
            let d = decrypt_stream(input@, password.spec_bytes());
            &&& final(output)@ == old(output)@ + d.1
            &&& final(on_progress)@ == old(on_progress)@ + d.2
            &&& match r {
                Ok(b) => d.0 == Some(b),
                Err(_) => d.0 is None,
            }
        }),
{
    let ghost pw = password.spec_bytes();
    let ghost out0 = output@;
    let ghost prog0 = on_progress@;
    let len = input.len();
    let mut pos: usize = 0;
    proof {
        assert(input@.subrange(0, len as int) =~= input@);
    }
    loop
        invariant
            len == input@.len(),
            pos <= len,
            pw == password.spec_bytes(),
            ({
                let d = decrypt_stream(input@, pw);
                let e = decrypt_stream(input@.subrange(pos as int, len as int), pw);
                &&& d.0 == e.0
                &&& d.1 == output@.subrange(out0.len() as int, output@.len() as int) + e.1
                &&& d.2 == on_progress@.subrange(prog0.len() as int, on_progress@.len() as int) + e.2
            }),
            output@.len() >= out0.len(),
            output@.subrange(0, out0.len() as int) == out0,
            out0 == old(output)@,
            prog0 == old(on_progress)@,
            on_progress@.len() >= prog0.len(),
            on_progress@.subrange(0, prog0.len() as int) == prog0,
        decreases len - pos,
    {
        let ghost c = input@.subrange(pos as int, len as int);
        if len - pos < 4 {
            proof {
                assert(decrypt_stream(c, pw).1 =~= Seq::<u8>::empty());
                assert(decrypt_stream(c, pw).2 =~= Seq::<usize>::empty());
                assert(output@ =~= out0 + output@.subrange(out0.len() as int, output@.len() as int));
                assert(on_progress@ =~= prog0 + on_progress@.subrange(prog0.len() as int, on_progress@.len() as int));
            }
            proof {
                let d = decrypt_stream(input@, pw);
                assert(d.1 =~= output@.subrange(out0.len() as int, output@.len() as int));
                assert(d.2 =~= on_progress@.subrange(prog0.len() as int, on_progress@.len() as int));
                assert(output@ =~= out0 + d.1);
                assert(on_progress@ =~= prog0 + d.2);
            }
            return Ok(len - pos == 0);
        }
        let size: u64 = (input[pos] as u64) * 16777216 + (input[pos + 1] as u64) * 65536
            + (input[pos + 2] as u64) * 256 + (input[pos + 3] as u64);
        proof {
            assert(c.subrange(0, 4) =~= input@.subrange(pos as int, pos + 4));
            assert(size == bytes::be32_value(c.subrange(0, 4)));
        }
        if ((len - pos - 4) as u64) < size {
            proof {
                assert(decrypt_stream(c, pw).1 =~= Seq::<u8>::empty());
                assert(decrypt_stream(c, pw).2 =~= Seq::<usize>::empty());
                assert(output@ =~= out0 + output@.subrange(out0.len() as int, output@.len() as int));
                assert(on_progress@ =~= prog0 + on_progress@.subrange(prog0.len() as int, on_progress@.len() as int));
            }
            proof {
                let d = decrypt_stream(input@, pw);
                assert(d.1 =~= output@.subrange(out0.len() as int, output@.len() as int));
                assert(d.2 =~= on_progress@.subrange(prog0.len() as int, on_progress@.len() as int));
                assert(output@ =~= out0 + d.1);
                assert(on_progress@ =~= prog0 + d.2);
            }
            return Err(FrameError::Truncated);
        }
        let size = size as usize;
        let blob = &input[pos + 4..pos + 4 + size];
        proof {
            assert(blob@ =~= c.subrange(4, 4 + size));
        }
        match decrypt_blob(blob, password) {
            None => {
                proof {
                    assert(output@ =~= out0 + output@.subrange(out0.len() as int, output@.len() as int));
                    assert(on_progress@ =~= prog0 + on_progress@.subrange(prog0.len() as int, on_progress@.len() as int));
                }
                return Ok(false);
            },
            Some(plain) => {
                let ghost before_out = output@;
                let ghost before_prog = on_progress@;
                on_progress.push(plain.len());
                extend_bytes(output, plain.as_slice());
                proof {
                    let nxt = pos + 4 + size;
                    assert(c.subrange(4 + size, c.len() as int) =~= input@.subrange(nxt as int, len as int));
                    assert(output@.subrange(out0.len() as int, output@.len() as int)
                        =~= before_out.subrange(out0.len() as int, before_out.len() as int) + plain@);
                    assert(on_progress@.subrange(prog0.len() as int, on_progress@.len() as int)
                        =~= before_prog.subrange(prog0.len() as int, before_prog.len() as int).push(plain@.len() as usize));
                    assert(output@.subrange(0, out0.len() as int) =~= out0);
                    assert(on_progress@.subrange(0, prog0.len() as int) =~= prog0);
                }
                pos = pos + 4 + size;
            },
        }
    }
}

/// What a reader finds where a length prefix belongs, given the bytes it got
/// there (fewer than four only when the stream ended).
#[derive(Clone, Copy, Debug, PartialEq, Eq, Structural)]
pub enum FrameHeader {
    /// The stream ended at a frame boundary: every frame was read.
    End,
    /// The stream ended inside a length prefix: corrupted data.
    Stray,
    /// A blob of this many bytes follows.
    Blob(u32),
}

/// Read a length prefix, for a reader that takes a stream one frame at a time.
pub fn frame_header(prefix: &[u8]) -> (r: FrameHeader)
    requires
        prefix@.len() <= 4,
    ensures
        r == (if prefix@.len() == 0 {
            FrameHeader::End
        } else if prefix@.len() < 4 {
            FrameHeader::Stray
        } else {
            FrameHeader::Blob(bytes::be32_value(prefix@) as u32)
        }),
        prefix@.len() < 4 ==> forall|pw: Seq<u8>|
            #[trigger] decrypt_stream(prefix@, pw) == (Some(r == FrameHeader::End), Seq::<u8>::empty(), Seq::<usize>::empty()),
{
    if prefix.len() == 0 {
        FrameHeader::End
    } else if prefix.len() < 4 {
        FrameHeader::Stray
    } else {
        let n: u32 = (prefix[0] as u32) * 16777216 + (prefix[1] as u32) * 65536 + (prefix[2] as u32) * 256
            + (prefix[3] as u32);
        FrameHeader::Blob(n)
    }
}

/// Reading a stream one frame at a time gives what reading it whole gives: a
/// frame whose blob is all there is opened, and the rest of the stream
/// follows it; a stream that ends inside the blob is truncated.
pub proof fn lemma_read_frame_by_frame(header: Seq<u8>, blob: Seq<u8>, rest: Seq<u8>, password: Seq<u8>)
    requires
        header.len() == 4,
        blob.len() <= bytes::be32_value(header),
    ensures
        blob.len() < bytes::be32_value(header) ==> decrypt_stream(header + blob, password).0 is None,
        blob.len() == bytes::be32_value(header) ==> decrypt_stream(header + blob + rest, password) == match open_password_blob(blob, password) {
            None => (Some(false), Seq::<u8>::empty(), Seq::<usize>::empty()),
            Some(p) => {
                let r = decrypt_stream(rest, password);
                (r.0, p + r.1, seq![p.len() as usize] + r.2)
            },
        },
{
    let c = header + blob + rest;
    assert(c.subrange(0, 4) =~= header);
    if blob.len() < bytes::be32_value(header) {
        assert((header + blob).subrange(0, 4) =~= header);
    } else {
        assert(c.subrange(4, 4 + blob.len() as int) =~= blob);
        assert(c.subrange(4 + blob.len() as int, c.len() as int) =~= rest);
    }
}

/// One frame of an encrypted file: `chunk` sealed under `password` with a fresh
/// salt and IV, its length prefix, then the blob.
pub fn seal_frame(chunk: &[u8], password: &str) -> (r: Vec<u8>)
    requires
        chunk@.len() <= FRAME_SIZE,
    ensures
        exists|blob: Seq<u8>| {
            &&& password_sealing(blob, password.spec_bytes(), chunk@)
            &&& open_password_blob(blob, password.spec_bytes()) == Some(chunk@)
            &&& blob.len() == chunk@.len() + MIN_BLOB_LEN
            &&& r@ == #[trigger] frame_bytes(blob)
        },
{
    let blob = encrypt_blob(chunk, password);
    let mut out: Vec<u8> = Vec::new();
    push_be32(&mut out, blob.len() as u32);
    extend_bytes(&mut out, blob.as_slice());
    assert(out@ =~= frame_bytes(blob@));
    out
}

} // verus!
