//! An open vault in memory, and the lookups the commands make in its index.

use vstd::prelude::*;
use vstd::string::*;

use crate::index::{VaultEntry, VaultIndex};
use crate::paths::{full_path, join_path, joined, full_path_spec, trim_slashes, trim_slashes_chars};
use crate::paths;
use crate::text::{chars_eq_str, from_chars, seq_starts_with, starts_with, str_eq, to_chars};
use crate::fmt::concat;
use crate::primitives::GCM_MAX_PLAINTEXT;
use crate::vault_crypto::{encrypt_index, unsupported_version, VaultError};
use crate::vault_crypto;
use crate::frame;

verus! {

/// An open, unlocked vault.
pub struct VaultHandle {
    /// The vault root directory.
    pub root: String,
    /// The directory holding the blobs (the root when the index names none).
    pub blobs_dir: String,
    /// The master password, kept to save the index again.
    pub password: String,
    /// The decrypted index.
    pub index: VaultIndex,
}

/// The blobs directory of a vault: the root joined with the index's
/// subdirectory, or the root itself.
pub open spec fn blobs_dir_spec(root: Seq<char>, sub: Option<String>) -> Seq<char> {
    match sub {
        Some(s) => joined(root, s@),
        None => root,
    }
}

impl VaultHandle {
    /// The blobs directory for a vault root and its index.
    pub fn resolve_blobs_dir(root: &str, index: &VaultIndex) -> (r: String)
        ensures
            r@ == blobs_dir_spec(root@, index.blobs_dir),
    {
        match &index.blobs_dir {
            Some(sub) => join_path(root, sub.as_str()),
            None => root.to_owned(),
        }
    }

    /// The path of the blob file with this UUID.
    pub fn blob_path(&self, uuid: &str) -> (r: String)
        ensures
            r@ == joined(self.blobs_dir@, uuid@),
    {
        join_path(self.blobs_dir.as_str(), uuid)
    }

    /// Seal the serialized index for writing to `index.lock`.
    pub fn seal_index(&self, json: &[u8]) -> (r: Vec<u8>)
        requires
            json@.len() <= GCM_MAX_PLAINTEXT,
        ensures
            r@.len() == json@.len() + frame::MIN_BLOB_LEN,
            frame::open_password_blob(r@, vstd::utf8::encode_utf8(self.password@)) == Some(json@),
    {
        encrypt_index(json, self.password.as_str())
    }
}

/// The path of `index.lock` in a vault root.
pub fn index_lock_path(root: &str) -> (r: String)
    ensures
        r@ == joined(root@, "index.lock"@),
{
    join_path(root, "index.lock")
}

/// The temporary path the index is written to before it replaces `index.lock`.
pub fn index_tmp_path(root: &str) -> (r: String)
    ensures
        r@ == joined(root@, "index.lock.tmp"@),
{
    join_path(root, "index.lock.tmp")
}

/// The error for a failure to read `index.lock`: a missing file means the
/// directory is not a vault; anything else is an I/O error.
pub fn index_read_error(not_found: bool, message: String) -> (r: VaultError)
    ensures
        not_found ==> vault_crypto::is_format_error(Err::<(), VaultError>(r), "index.lock not found — not a vault directory"@),
        !not_found ==> r == VaultError::Io(message),
{
    if not_found {
        VaultError::InvalidFormat("index.lock not found — not a vault directory".to_owned())
    } else {
        VaultError::Io(message)
    }
}

/// Open a vault whose index has been decrypted and parsed: only format
/// version 1 is accepted.
pub fn open_vault(root: &str, password: &str, index: VaultIndex) -> (r: Result<VaultHandle, VaultError>)
    ensures
        index.version != 1 ==> (r matches Err(VaultError::InvalidFormat(m))
            && m@ == "unsupported vault version "@ + crate::fmt::decimal(index.version as nat)),
        index.version == 1 ==> (r matches Ok(h) && h.root@ == root@ && h.password@ == password@
            && h.blobs_dir@ == blobs_dir_spec(root@, index.blobs_dir) && h.index == index),
{
    if index.version != 1 {
        return Err(unsupported_version(index.version));
    }
    let blobs_dir = VaultHandle::resolve_blobs_dir(root, &index);
    Ok(VaultHandle { root: root.to_owned(), blobs_dir, password: password.to_owned(), index })
}

/// Create the handle of a new, empty vault at `root`, whose index is to be
/// saved next. `root` must be an existing directory without `index.lock`.
pub fn create_vault(root: &str, blobs_dir_name: Option<&str>, password: &str, root_is_dir: bool, index_exists: bool)
    -> (r: Result<VaultHandle, VaultError>)
    ensures
        !root_is_dir ==> vault_crypto::is_format_error(r, "vault path must be an existing directory"@),
        root_is_dir && index_exists ==> vault_crypto::is_format_error(r, "index.lock already exists — this directory is already a vault"@),
        root_is_dir && !index_exists ==> (r matches Ok(h) && h.root@ == root@ && h.password@ == password@
            && h.index.version == 1
            && h.index.wf()
            && h.index.pairs().len() == 0
            && (match blobs_dir_name {
                Some(n) => h.index.blobs_dir matches Some(s) && s@ == n@,
                None => h.index.blobs_dir is None,
            })
            && h.blobs_dir@ == blobs_dir_spec(root@, h.index.blobs_dir)),
{
    if !root_is_dir {
        return Err(VaultError::InvalidFormat("vault path must be an existing directory".to_owned()));
    }
    if index_exists {
        return Err(VaultError::InvalidFormat("index.lock already exists — this directory is already a vault".to_owned()));
    }
    let sub: Option<String> = match blobs_dir_name {
        Some(n) => Some(n.to_owned()),
        None => None,
    };
    let index = VaultIndex::new_empty(sub);
    let blobs_dir = VaultHandle::resolve_blobs_dir(root, &index);
    Ok(VaultHandle { root: root.to_owned(), blobs_dir, password: password.to_owned(), index })
}

/// The position of the first entry named `name` in folder `path`, if any.
pub open spec fn first_named(pairs: Seq<(Seq<char>, VaultEntry)>, path: Seq<char>, name: Seq<char>) -> int {
    if exists|i: int| 0 <= i < pairs.len() && pairs[i].1.path@ == path && pairs[i].1.name@ == name {
        choose|i: int| 0 <= i < pairs.len() && pairs[i].1.path@ == path && pairs[i].1.name@ == name
            && forall|j: int| 0 <= j < i ==> !(pairs[j].1.path@ == path && pairs[j].1.name@ == name)
    } else {
        -1
    }
}

/// The UUID of the first entry named `name` in folder `path`, in index order.
pub fn find_entry_by_name(handle: &VaultHandle, path: &str, name: &str) -> (r: Option<String>)
    ensures
        match r {
            Some(u) => exists|i: int| 0 <= i < handle.index.pairs().len()
                && (#[trigger] handle.index.pairs()[i]).1.path@ == path@ && handle.index.pairs()[i].1.name@ == name@
                && u@ == handle.index.pairs()[i].0
                && forall|j: int| 0 <= j < i ==> !(handle.index.pairs()[j].1.path@ == path@ && handle.index.pairs()[j].1.name@ == name@),
            None => forall|i: int| 0 <= i < handle.index.pairs().len()
                ==> !((#[trigger] handle.index.pairs()[i]).1.path@ == path@ && handle.index.pairs()[i].1.name@ == name@),
        },
{
    let n = handle.index.len();
    let mut i: usize = 0;
    while i < n
        invariant
            n == handle.index.pairs().len(),
            i <= n,
            forall|j: int| 0 <= j < i ==> !((#[trigger] handle.index.pairs()[j]).1.path@ == path@ && handle.index.pairs()[j].1.name@ == name@),
        decreases n - i,
    {
        let (uuid, e) = handle.index.entry_at(i);
        if str_eq(e.path.as_str(), path) && str_eq(e.name.as_str(), name) {
            return Some(uuid.clone());
        }
        i = i + 1;
    }
    None
}

/// The full virtual path of an entry placed in `folder`.
pub fn full_path_of_entry(entry: &VaultEntry, folder: &str) -> (r: String)
    ensures
        r@ == full_path_spec(folder@, entry.name@),
{
    full_path(folder, entry.name.as_str())
}

/// `h1` is the vault of `h0`: same folders, password, format and blobs
/// folder; only the entries may differ.
pub open spec fn same_vault(h0: VaultHandle, h1: VaultHandle) -> bool {
    &&& h1.root == h0.root
    &&& h1.blobs_dir == h0.blobs_dir
    &&& h1.password == h0.password
    &&& h1.index.version == h0.index.version
    &&& h1.index.blobs_dir == h0.index.blobs_dir
}

/// The full virtual path of an entry in its own folder.
pub open spec fn entry_full_path(e: VaultEntry) -> Seq<char> {
    full_path_spec(e.path@, e.name@)
}

/// The position of the first entry whose full path is `t`, or -1.
pub open spec fn first_with_full_path(pairs: Seq<(Seq<char>, VaultEntry)>, t: Seq<char>) -> int
    decreases pairs.len(),
{
    if pairs.len() == 0 {
        -1
    } else {
        let k = first_with_full_path(pairs.drop_last(), t);
        if k >= 0 {
            k
        } else if entry_full_path(pairs.last().1) == t {
            pairs.len() - 1
        } else {
            -1
        }
    }
}

/// `first_with_full_path` is the first match, or -1 when nothing matches.
pub proof fn lemma_first_with_full_path(pairs: Seq<(Seq<char>, VaultEntry)>, t: Seq<char>)
    ensures
        -1 <= first_with_full_path(pairs, t) < pairs.len(),
        first_with_full_path(pairs, t) >= 0 ==> entry_full_path(pairs[first_with_full_path(pairs, t)].1) == t,
        forall|j: int| 0 <= j < pairs.len() && (first_with_full_path(pairs, t) < 0 || j < first_with_full_path(pairs, t))
            ==> entry_full_path(#[trigger] pairs[j].1) != t,
    decreases pairs.len(),
{
    if pairs.len() > 0 {
        let d = pairs.drop_last();
        lemma_first_with_full_path(d, t);
        assert forall|j: int| 0 <= j < pairs.len() && (first_with_full_path(pairs, t) < 0 || j < first_with_full_path(pairs, t))
            implies entry_full_path(#[trigger] pairs[j].1) != t by {
            if j < d.len() {
                assert(pairs[j] == d[j]);
            }
        }
    }
}

/// The position of the first entry whose full path is `vault_path` without
/// leading and trailing slashes, if any.
pub fn find_entry_position(handle: &VaultHandle, vault_path: &str) -> (r: Option<usize>)
    ensures
        match r {
            Some(i) => i < handle.index.pairs().len()
                && entry_full_path(handle.index.pairs()[i as int].1) == trim_slashes(vault_path@)
                && forall|j: int| 0 <= j < i ==> entry_full_path(#[trigger] handle.index.pairs()[j].1) != trim_slashes(vault_path@),
            None => forall|j: int| 0 <= j < handle.index.pairs().len()
                ==> entry_full_path(#[trigger] handle.index.pairs()[j].1) != trim_slashes(vault_path@),
        },
        match r {
            Some(i) => i == first_with_full_path(handle.index.pairs(), trim_slashes(vault_path@)),
            None => first_with_full_path(handle.index.pairs(), trim_slashes(vault_path@)) == -1,
        },
{
    proof {
        lemma_first_with_full_path(handle.index.pairs(), trim_slashes(vault_path@));
    }
    let v = to_chars(vault_path);
    let target = trim_slashes_chars(v.as_slice());
    let n = handle.index.len();
    let mut i: usize = 0;
    while i < n
        invariant
            n == handle.index.pairs().len(),
            i <= n,
            target@ == trim_slashes(vault_path@),
            forall|j: int| 0 <= j < i ==> entry_full_path(#[trigger] handle.index.pairs()[j].1) != trim_slashes(vault_path@),
        decreases n - i,
    {
        let (_, e) = handle.index.entry_at(i);
        let full = full_path_of_entry(e, e.path.as_str());
        if chars_eq_str(target.as_slice(), full.as_str()) {
            proof {
                let ps = handle.index.pairs();
                let t = trim_slashes(vault_path@);
                let k = first_with_full_path(ps, t);
                lemma_first_with_full_path(ps, t);
                assert(entry_full_path(ps[i as int].1) == t);
                if k >= 0 && k < i {
                    assert(entry_full_path(ps[k].1) == t);
                }
            }
            return Some(i);
        }
        i = i + 1;
    }
    None
}

/// The UUID of the first entry whose full virtual path is `vault_path`
/// (leading and trailing slashes ignored).
pub fn find_entry_uuid(handle: &VaultHandle, vault_path: &str) -> (r: Option<String>)
    ensures
        match r {
            Some(u) => exists|i: int| 0 <= i < handle.index.pairs().len()
                && u@ == (#[trigger] handle.index.pairs()[i]).0
                && entry_full_path(handle.index.pairs()[i].1) == trim_slashes(vault_path@)
                && forall|j: int| 0 <= j < i ==> entry_full_path(#[trigger] handle.index.pairs()[j].1) != trim_slashes(vault_path@),
            None => forall|j: int| 0 <= j < handle.index.pairs().len()
                ==> entry_full_path(#[trigger] handle.index.pairs()[j].1) != trim_slashes(vault_path@),
        },
{
    match find_entry_position(handle, vault_path) {
        Some(i) => {
            let (u, _) = handle.index.entry_at(i);
            Some(u.clone())
        },
        None => None,
    }
}

/// The first entry whose full virtual path is `vault_path`, with its UUID.
pub fn find_entry<'h>(handle: &'h VaultHandle, vault_path: &str) -> (r: Option<(&'h VaultEntry, &'h String)>)
    ensures
        match r {
            Some((e, u)) => exists|i: int| 0 <= i < handle.index.pairs().len()
                && u@ == (#[trigger] handle.index.pairs()[i]).0 && *e == handle.index.pairs()[i].1
                && entry_full_path(handle.index.pairs()[i].1) == trim_slashes(vault_path@)
                && forall|j: int| 0 <= j < i ==> entry_full_path(#[trigger] handle.index.pairs()[j].1) != trim_slashes(vault_path@),
            None => forall|j: int| 0 <= j < handle.index.pairs().len()
                ==> entry_full_path(#[trigger] handle.index.pairs()[j].1) != trim_slashes(vault_path@),
        },
{
    match find_entry_position(handle, vault_path) {
        Some(i) => {
            let (u, e) = handle.index.entry_at(i);
            Some((e, u))
        },
        None => None,
    }
}

/// `p` is `folder` or lies below it.
pub open spec fn in_tree(p: Seq<char>, folder: Seq<char>) -> bool {
    p == folder || seq_starts_with(p, folder + seq!['/'])
}

/// `p` is `folder` or lies below it.
pub fn is_in_tree(p: &str, folder: &str) -> (r: bool)
    ensures
        r == in_tree(p@, folder@),
{
    if str_eq(p, folder) {
        return true;
    }
    let prefix = concat(folder, "/");
    proof {
        reveal_strlit("/");
        assert("/"@ =~= seq!['/']);
    }
    starts_with(p, prefix.as_str())
}

/// Whether at least one entry lives in `folder` or below it.
pub fn is_vault_folder(handle: &VaultHandle, folder: &str) -> (r: bool)
    ensures
        r == exists|i: int| 0 <= i < handle.index.pairs().len() && in_tree((#[trigger] handle.index.pairs()[i]).1.path@, folder@),
{
    let n = handle.index.len();
    let mut i: usize = 0;
    while i < n
        invariant
            n == handle.index.pairs().len(),
            i <= n,
            forall|j: int| 0 <= j < i ==> !in_tree((#[trigger] handle.index.pairs()[j]).1.path@, folder@),
        decreases n - i,
    {
        let (_, e) = handle.index.entry_at(i);
        if is_in_tree(e.path.as_str(), folder) {
            return true;
        }
        i = i + 1;
    }
    false
}

/// An entry belongs to an export of `folder`: in it, or (when `recursive`) below
/// it; everything belongs to a recursive export of the root.
pub open spec fn exported_from(p: Seq<char>, folder: Seq<char>, recursive: bool) -> bool {
    if recursive {
        in_tree(p, folder) || folder.len() == 0
    } else {
        p == folder
    }
}

/// Positions, in order, of the entries among `pairs` that belong to an export of `folder`.
pub open spec fn exported_positions(pairs: Seq<(Seq<char>, VaultEntry)>, folder: Seq<char>, recursive: bool) -> Seq<int>
    decreases pairs.len(),
{
    if pairs.len() == 0 {
        Seq::empty()
    } else {
        let r = exported_positions(pairs.drop_last(), folder, recursive);
        if exported_from(pairs.last().1.path@, folder, recursive) {
            r.push(pairs.len() - 1)
        } else {
            r
        }
    }
}

/// The entries in `folder` (and, when `recursive`, below it), in index order.
pub fn collect_folder_entries<'h>(handle: &'h VaultHandle, folder: &str, recursive: bool) -> (r: Vec<&'h VaultEntry>)
    ensures
        r@.len() == exported_positions(handle.index.pairs(), folder@, recursive).len(),
        forall|k: int| 0 <= k < r@.len() ==> *(#[trigger] r@[k])
            == handle.index.pairs()[exported_positions(handle.index.pairs(), folder@, recursive)[k]].1,
{
    let ghost pairs = handle.index.pairs();
    let n = handle.index.len();
    let mut r: Vec<&'h VaultEntry> = Vec::new();
    let mut i: usize = 0;
    let root = folder.unicode_len() == 0;
    while i < n
        invariant
            n == pairs.len(),
            pairs == handle.index.pairs(),
            i <= n,
            root == (folder@.len() == 0),
            r@.len() == exported_positions(pairs.subrange(0, i as int), folder@, recursive).len(),
            forall|k: int| 0 <= k < r@.len() ==> *(#[trigger] r@[k])
                == pairs[exported_positions(pairs.subrange(0, i as int), folder@, recursive)[k]].1,
            forall|k: int| 0 <= k < r@.len() ==> 0 <= #[trigger] exported_positions(pairs.subrange(0, i as int), folder@, recursive)[k] < i,
        decreases n - i,
    {
        let (_, e) = handle.index.entry_at(i);
        let take = if recursive {
            is_in_tree(e.path.as_str(), folder) || root
        } else {
            str_eq(e.path.as_str(), folder)
        };
        let ghost pre = pairs.subrange(0, i + 1);
        assert(pre.drop_last() =~= pairs.subrange(0, i as int));
        assert(pre.last() == pairs[i as int]);
        if take {
            r.push(e);
        }
        i = i + 1;
    }
    assert(pairs.subrange(0, n as int) =~= pairs);
    r
}

/// A listing shows the entry at `p`: everything without a filter, else the
/// entries in the filter folder or below it.
pub open spec fn listed_under(p: Seq<char>, filter: Option<Seq<char>>) -> bool {
    match filter {
        Some(f) => in_tree(p, f),
        None => true,
    }
}

/// Positions, in order, of the entries among `pairs` that a listing shows.
pub open spec fn listed_positions(pairs: Seq<(Seq<char>, VaultEntry)>, filter: Option<Seq<char>>) -> Seq<int>
    decreases pairs.len(),
{
    if pairs.len() == 0 {
        Seq::empty()
    } else {
        let r = listed_positions(pairs.drop_last(), filter);
        if listed_under(pairs.last().1.path@, filter) {
            r.push(pairs.len() - 1)
        } else {
            r
        }
    }
}

/// The entries a listing shows, in index order: all of them, or those in the
/// folder `filter` (already without leading and trailing slashes) or below it.
pub fn list_entries<'h>(handle: &'h VaultHandle, filter: Option<&str>) -> (r: Vec<&'h VaultEntry>)
    ensures
        r@.len() == listed_positions(handle.index.pairs(), match filter { Some(f) => Some(f@), None => None }).len(),
        forall|k: int| 0 <= k < r@.len() ==> *(#[trigger] r@[k])
            == handle.index.pairs()[listed_positions(handle.index.pairs(), match filter { Some(f) => Some(f@), None => None })[k]].1,
{
    let ghost pairs = handle.index.pairs();
    let ghost fv: Option<Seq<char>> = match filter { Some(f) => Some(f@), None => None };
    let n = handle.index.len();
    let mut r: Vec<&'h VaultEntry> = Vec::new();
    let mut i: usize = 0;
    while i < n
        invariant
            n == pairs.len(),
            pairs == handle.index.pairs(),
            fv == (match filter { Some(f) => Some(f@), None => None }),
            i <= n,
            r@.len() == listed_positions(pairs.subrange(0, i as int), fv).len(),
            forall|k: int| 0 <= k < r@.len() ==> *(#[trigger] r@[k])
                == pairs[listed_positions(pairs.subrange(0, i as int), fv)[k]].1,
            forall|k: int| 0 <= k < r@.len() ==> 0 <= #[trigger] listed_positions(pairs.subrange(0, i as int), fv)[k] < i,
        decreases n - i,
    {
        let (_, e) = handle.index.entry_at(i);
        let take = match filter {
            Some(f) => is_in_tree(e.path.as_str(), f),
            None => true,
        };
        let ghost pre = pairs.subrange(0, i + 1);
        assert(pre.drop_last() =~= pairs.subrange(0, i as int));
        assert(pre.last() == pairs[i as int]);
        if take {
            r.push(e);
        }
        i = i + 1;
    }
    assert(pairs.subrange(0, n as int) =~= pairs);
    r
}

/// The path, relative to an export of `folder`, that an entry is written to.
pub open spec fn relative_out_path_spec(path: Seq<char>, name: Seq<char>, folder: Seq<char>) -> Seq<char> {
    let rel = if folder.len() == 0 {
        path
    } else if path == folder {
        Seq::empty()
    } else {
        path.subrange(folder.len() + 1int, path.len() as int)
    };
    if rel.len() == 0 {
        name
    } else {
        joined(rel, name)
    }
}

/// The path, relative to the export destination, of an entry exported from
/// `folder`: the entry's folder below `folder`, then its name. The entry lies
/// in `folder` or below it.
pub fn relative_out_path(entry: &VaultEntry, folder: &str) -> (r: String)
    requires
        folder@.len() == 0 || in_tree(entry.path@, folder@),
    ensures
        r@ == relative_out_path_spec(entry.path@, entry.name@, folder@),
{
    let p = to_chars(entry.path.as_str());
    let f = folder.unicode_len();
    let rel: Vec<char> = if f == 0 {
        p
    } else if str_eq(entry.path.as_str(), folder) {
        Vec::new()
    } else {
        assert(seq_starts_with(entry.path@, folder@ + seq!['/']));
        assert((folder@ + seq!['/']).len() == f + 1);
        assert(p@ == entry.path@);
        let plen = p.len();
        assert(plen >= f + 1);
        crate::text::copy_range(p.as_slice(), f + 1, plen)
    };
    if rel.len() == 0 {
        entry.name.clone()
    } else {
        let d = from_chars(rel.as_slice());
        join_path(d.as_str(), entry.name.as_str())
    }
}

} // verus!
