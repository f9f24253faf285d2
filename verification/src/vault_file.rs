//! Storing a file in the vault and reading it back: the plaintext is cut into
//! blocks of 256 MiB (an empty file still has one empty block), each sealed
//! under its own random key into a blob with its own UUID.

use vstd::prelude::*;
use vstd::string::*;

use crate::bytes;
use crate::bytes::extend_bytes;
use crate::index::{VaultEntry, VaultPart};
use crate::text::{copy_range, file_name_range, from_chars, to_chars};
use crate::text;
use crate::vault_crypto::{decrypt_blob_with_key, encrypt_blob_with_key, generate_key_base64, generate_uuid, VaultError};
use crate::vault_crypto;

verus! {

/// Plaintext bytes per blob (256 MiB).
pub const BLOCK_SIZE: usize = 268435456;

/// The blocks a file's bytes are cut into, one per blob.
pub open spec fn block_chunks(p: Seq<u8>) -> Seq<Seq<u8>>
    decreases p.len(),
{
    if p.len() <= BLOCK_SIZE {
        seq![p]
    } else {
        seq![p.subrange(0, BLOCK_SIZE as int)] + block_chunks(p.subrange(BLOCK_SIZE as int, p.len() as int))
    }
}

/// Every block is at most `BLOCK_SIZE` long and the blocks put together give the bytes.
pub proof fn lemma_block_chunks_cover(p: Seq<u8>)
    ensures
        block_chunks(p).len() >= 1,
        forall|i: int| 0 <= i < block_chunks(p).len() ==> #[trigger] block_chunks(p)[i].len() <= BLOCK_SIZE,
        bytes::concat_all(block_chunks(p)) == p,
    decreases p.len(),
{
    if p.len() <= BLOCK_SIZE {
        let c = block_chunks(p);
        assert(c.drop_last() =~= Seq::<Seq<u8>>::empty());
        assert(bytes::concat_all(c.drop_last()) =~= Seq::<u8>::empty());
        assert(bytes::concat_all(c) =~= p);
    } else {
        let head = p.subrange(0, BLOCK_SIZE as int);
        let tail = p.subrange(BLOCK_SIZE as int, p.len() as int);
        lemma_block_chunks_cover(tail);
        let c = block_chunks(p);
        assert(c.drop_first() =~= block_chunks(tail));
        bytes::lemma_concat_all_first(c);
        assert(p =~= head + tail);
        assert forall|i: int| 0 <= i < c.len() implies #[trigger] c[i].len() <= BLOCK_SIZE by {
            if i > 0 {
                assert(c[i] == block_chunks(tail)[i - 1]);
            }
        }
    }
}

/// The name a file is stored under: the last component of its path, or
/// `unknown` when the path has none.
pub open spec fn stored_name(file_path: Seq<char>) -> Seq<char> {
    match text::file_name_of(file_path) {
        Some(n) => n,
        None => "unknown"@,
    }
}

/// The name a file is stored under.
pub fn file_name_or_unknown(file_path: &str) -> (r: String)
    ensures
        r@ == stored_name(file_path@),
{
    let v = to_chars(file_path);
    match file_name_range(v.as_slice()) {
        Some((a, b)) => {
            let n = copy_range(v.as_slice(), a, b);
            from_chars(n.as_slice())
        },
        None => "unknown".to_owned(),
    }
}

/// `parts` and `blobs` go together, and blob `i` seals block `i` under the key of part `i`.
pub open spec fn parts_seal(parts: Seq<VaultPart>, blobs: Seq<(String, Vec<u8>)>, chunks: Seq<Seq<u8>>) -> bool {
    &&& parts.len() == blobs.len()
    &&& blobs.len() == chunks.len()
    &&& forall|i: int| 0 <= i < parts.len() ==> {
        &&& (#[trigger] parts[i]).uuid@ == blobs[i].0@
        &&& vault_crypto::key_blob_seals(blobs[i].1@, parts[i].key_base64@, chunks[i])
    }
}

/// Seal the bytes `data` of the file at `file_path` for the vault folder
/// `virtual_path`. Returns the new file UUID, its index entry, and the blobs to
/// write into the blobs directory, each with its UUID, in part order.
pub fn encrypt_file_to_vault(file_path: &str, data: &[u8], virtual_path: &str)
    -> (r: (String, VaultEntry, Vec<(String, Vec<u8>)>))
    ensures
        exists|b: Seq<u8>| vault_crypto::is_v4_bytes(b) && r.0@ == #[trigger] vault_crypto::uuid_text(b),
        r.1.name@ == stored_name(file_path@),
        r.1.path@ == virtual_path@,
        r.1.size == data@.len(),
        r.1.thumbnail_uuid is None,
        r.1.thumbnail_key_base64 is None,
        parts_seal(r.1.parts@, r.2@, block_chunks(data@)),
{
    let name = file_name_or_unknown(file_path);
    let file_uuid = generate_uuid();
    let mut parts: Vec<VaultPart> = Vec::new();
    let mut blobs: Vec<(String, Vec<u8>)> = Vec::new();
    let ghost mut done: Seq<Seq<u8>> = Seq::empty();
    let len = data.len();
    let mut pos: usize = 0;
    assert(data@.subrange(0, len as int) =~= data@);
    loop
        invariant_except_break
            pos < len || (pos == 0 && len == 0),
            block_chunks(data@) == done + block_chunks(data@.subrange(pos as int, len as int)),
        invariant
            len == data@.len(),
            pos <= len,
            parts_seal(parts@, blobs@, done),
        ensures
            block_chunks(data@) == done,
        decreases len - pos,
    {
        let end: usize = if len - pos <= BLOCK_SIZE { len } else { pos + BLOCK_SIZE };
        let chunk = &data[pos..end];
        let ghost rest = data@.subrange(pos as int, len as int);
        proof {
            assert(chunk@ =~= rest.subrange(0, (end - pos) as int));
            if end < len {
                assert(rest.subrange(BLOCK_SIZE as int, rest.len() as int) =~= data@.subrange(end as int, len as int));
                assert(rest.subrange(0, BLOCK_SIZE as int) =~= chunk@);
            } else {
                assert(chunk@ =~= rest);
            }
        }
        let key = generate_key_base64();
        let blob_uuid = generate_uuid();
        let sealed = encrypt_blob_with_key(chunk, key.as_str());
        let blob = match sealed {
            Ok(b) => b,
            Err(_) => {
                proof {
                    assert(false);
                }
                Vec::new()
            },
        };
        let part_uuid = blob_uuid.clone();
        parts.push(VaultPart { uuid: part_uuid, key_base64: key });
        blobs.push((blob_uuid, blob));
        proof {
            let old_done = done;
            done = done.push(chunk@);
            assert forall|i: int| 0 <= i < parts@.len() implies {
                &&& (#[trigger] parts@[i]).uuid@ == blobs@[i].0@
                &&& vault_crypto::key_blob_seals(blobs@[i].1@, parts@[i].key_base64@, done[i])
            } by {
                if i < old_done.len() {
                    assert(done[i] == old_done[i]);
                }
            }
            if end < len {
                assert(block_chunks(data@) =~= done + block_chunks(data@.subrange(end as int, len as int)));
            } else {
                assert(block_chunks(data@) =~= done);
            }
        }
        if end == len {
            break;
        }
        pos = end;
    }
    let entry = VaultEntry {
        name,
        path: virtual_path.to_owned(),
        size: len as u64,
        parts,
        thumbnail_uuid: None,
        thumbnail_key_base64: None,
    };
    (file_uuid, entry, blobs)
}

/// The plaintext of a file from its parts and the bytes of their blobs: the
/// blocks in order, or `None` when some blob does not open under its key.
pub open spec fn parts_plain(parts: Seq<VaultPart>, blobs: Seq<Seq<u8>>) -> Option<Seq<u8>>
    decreases parts.len(),
{
    if parts.len() == 0 || blobs.len() != parts.len() {
        if parts.len() == 0 && blobs.len() == 0 { Some(Seq::empty()) } else { None }
    } else {
        match (parts_plain(parts.drop_last(), blobs.drop_last()), vault_crypto::key_blob_plain(blobs.last(), parts.last().key_base64@)) {
            (Some(a), Some(b)) => Some(a + b),
            _ => None,
        }
    }
}

/// Open the blobs of a file's parts and put the plaintext together; the first
/// blob that does not open ends it with that blob's error.
pub fn decrypt_parts(parts: &[VaultPart], blobs: &[Vec<u8>]) -> (r: Result<Vec<u8>, VaultError>)
    requires
        parts@.len() == blobs@.len(),
    ensures
        match parts_plain(parts@, blobs@.map_values(|b: Vec<u8>| b@)) {
            Some(p) => r matches Ok(v) && v@ == p,
            None => r is Err,
        },
{
    let ghost bs = blobs@.map_values(|b: Vec<u8>| b@);
    let mut out: Vec<u8> = Vec::new();
    let mut i: usize = 0;
    assert(parts@.subrange(0, 0) =~= Seq::<VaultPart>::empty());
    assert(bs.subrange(0, 0) =~= Seq::<Seq<u8>>::empty());
    while i < parts.len()
        invariant
            i <= parts@.len(),
            parts@.len() == blobs@.len(),
            bs == blobs@.map_values(|b: Vec<u8>| b@),
            parts_plain(parts@.subrange(0, i as int), bs.subrange(0, i as int)) == Some(out@),
        decreases parts@.len() - i,
    {
        let plain = decrypt_blob_with_key(blobs[i].as_slice(), parts[i].key_base64.as_str());
        let ghost ps = parts@.subrange(0, i + 1);
        let ghost qs = bs.subrange(0, i + 1);
        proof {
            assert(ps.drop_last() =~= parts@.subrange(0, i as int));
            assert(qs.drop_last() =~= bs.subrange(0, i as int));
            assert(ps.last() == parts@[i as int]);
            assert(qs.last() == blobs@[i as int]@);
        }
        match plain {
            Ok(p) => {
                extend_bytes(&mut out, p.as_slice());
            },
            Err(e) => {
                proof {
                    lemma_parts_plain_none_extends(parts@, bs, (i + 1) as int);
                }
                return Err(e);
            },
        }
        i = i + 1;
    }
    assert(parts@.subrange(0, parts@.len() as int) =~= parts@);
    assert(bs.subrange(0, bs.len() as int) =~= bs);
    Ok(out)
}

/// Once a prefix of the parts does not open, no longer prefix does.
proof fn lemma_parts_plain_none_extends(parts: Seq<VaultPart>, bs: Seq<Seq<u8>>, k: int)
    requires
        0 < k <= parts.len(),
        parts.len() == bs.len(),
        parts_plain(parts.subrange(0, k), bs.subrange(0, k)) is None,
    ensures
        parts_plain(parts, bs) is None,
    decreases parts.len() - k,
{
    if k == parts.len() {
        assert(parts.subrange(0, k) =~= parts);
        assert(bs.subrange(0, k) =~= bs);
    } else {
        let ps = parts.subrange(0, k + 1);
        let qs = bs.subrange(0, k + 1);
        assert(ps.drop_last() =~= parts.subrange(0, k));
        assert(qs.drop_last() =~= bs.subrange(0, k));
        lemma_parts_plain_none_extends(parts, bs, k + 1);
    }
}

/// Blobs that each open under their part's key give the concatenation of what they hold.
proof fn lemma_parts_plain_concat(parts: Seq<VaultPart>, bs: Seq<Seq<u8>>, chunks: Seq<Seq<u8>>)
    requires
        parts.len() == bs.len(),
        bs.len() == chunks.len(),
        forall|i: int| 0 <= i < parts.len() ==> vault_crypto::key_blob_plain(#[trigger] bs[i], parts[i].key_base64@) == Some(chunks[i]),
    ensures
        parts_plain(parts, bs) == Some(bytes::concat_all(chunks)),
    decreases parts.len(),
{
    if parts.len() > 0 {
        let n = parts.len() - 1;
        assert forall|i: int| 0 <= i < parts.drop_last().len() implies
            vault_crypto::key_blob_plain(#[trigger] bs.drop_last()[i], parts.drop_last()[i].key_base64@) == Some(chunks.drop_last()[i]) by {
            assert(bs.drop_last()[i] == bs[i]);
        }
        lemma_parts_plain_concat(parts.drop_last(), bs.drop_last(), chunks.drop_last());
        assert(vault_crypto::key_blob_plain(bs[n], parts[n].key_base64@) == Some(chunks[n]));
    } else {
        assert(bytes::concat_all(chunks) =~= Seq::<u8>::empty());
    }
}

/// What a read gives back of a write: the blobs `encrypt_file_to_vault` made for
/// a file open, under the keys of its parts, to exactly the file's bytes.
pub proof fn lemma_vault_file_roundtrip(data: Seq<u8>, parts: Seq<VaultPart>, blobs: Seq<(String, Vec<u8>)>)
    requires
        parts_seal(parts, blobs, block_chunks(data)),
    ensures
        parts_plain(parts, blobs.map_values(|b: (String, Vec<u8>)| b.1@)) == Some(data),
{
    let bs = blobs.map_values(|b: (String, Vec<u8>)| b.1@);
    let chunks = block_chunks(data);
    lemma_block_chunks_cover(data);
    assert forall|i: int| 0 <= i < parts.len() implies vault_crypto::key_blob_plain(#[trigger] bs[i], parts[i].key_base64@) == Some(chunks[i]) by {
        assert(bs[i] == blobs[i].1@);
        assert(parts[i].uuid@ == blobs[i].0@);
    }
    lemma_parts_plain_concat(parts, bs, chunks);
}

/// The UUIDs of the blobs an entry owns: its parts in order, then its thumbnail.
pub open spec fn owned_blobs(e: VaultEntry) -> Seq<Seq<char>> {
    let ps = e.parts@.map_values(|p: VaultPart| p.uuid@);
    match e.thumbnail_uuid {
        Some(t) => ps.push(t@),
        None => ps,
    }
}

/// The UUIDs of the blob files an entry owns, to remove along with the entry.
pub fn entry_blob_uuids(e: &VaultEntry) -> (r: Vec<String>)
    ensures
        r@.map_values(|s: String| s@) == owned_blobs(*e),
{
    let mut r: Vec<String> = Vec::new();
    let mut i: usize = 0;
    while i < e.parts.len()
        invariant
            i <= e.parts@.len(),
            r@.map_values(|s: String| s@) == e.parts@.subrange(0, i as int).map_values(|p: VaultPart| p.uuid@),
        decreases e.parts@.len() - i,
    {
        let ghost before = r@;
        let u = e.parts[i].uuid.clone();
        assert(u@ == e.parts@[i as int].uuid@);
        r.push(u);
        assert(r@ == before.push(u));
        assert(r@.map_values(|s: String| s@) =~= before.map_values(|s: String| s@).push(u@));
        assert(e.parts@.subrange(0, i + 1).map_values(|p: VaultPart| p.uuid@)
            =~= e.parts@.subrange(0, i as int).map_values(|p: VaultPart| p.uuid@).push(u@));
        i = i + 1;
    }
    assert(e.parts@.subrange(0, e.parts@.len() as int) =~= e.parts@);
    match &e.thumbnail_uuid {
        Some(t) => {
            let ghost before = r@;
            r.push(t.clone());
            assert(r@.map_values(|s: String| s@) =~= before.map_values(|s: String| s@).push(t@));
        },
        None => {},
    }
    r
}

} // verus!
