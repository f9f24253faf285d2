//! Changes to a vault's index: renaming, moving, adding and deleting files,
//! with the decisions the vault commands take before making them.

use vstd::prelude::*;
use vstd::string::*;

use crate::handle::{entry_full_path, find_entry_by_name, find_entry_position, first_with_full_path, VaultHandle};
use crate::handle;
use crate::index::{copy_opt_string, copy_parts, inserted, key_pos, keys_unique, removed, VaultEntry, VaultIndex};
use crate::paths::{full_path, full_path_spec, trim_slashes};
use crate::text::{str_eq, to_chars};
use crate::vault_file::{entry_blob_uuids, owned_blobs};
use crate::order::views;

verus! {

/// `e` is `old` placed in folder `path` under the name `name`.
pub open spec fn relocated(e: VaultEntry, old: VaultEntry, name: Seq<char>, path: Seq<char>) -> bool {
    &&& e.name@ == name
    &&& e.path@ == path
    &&& e.size == old.size
    &&& e.parts@ == old.parts@
    &&& e.thumbnail_uuid == old.thumbnail_uuid
    &&& e.thumbnail_key_base64 == old.thumbnail_key_base64
}

/// A copy of `e` named `name` in folder `path`.
pub fn relocate(e: &VaultEntry, name: String, path: String) -> (r: VaultEntry)
    ensures
        relocated(r, *e, name@, path@),
{
    VaultEntry {
        name,
        path,
        size: e.size,
        parts: copy_parts(&e.parts),
        thumbnail_uuid: copy_opt_string(&e.thumbnail_uuid),
        thumbnail_key_base64: copy_opt_string(&e.thumbnail_key_base64),
    }
}

impl VaultIndex {
    /// Give the entry `uuid`, if there is one, the name `name` and the folder
    /// `path`; it keeps its place and everything else.
    pub fn relocate_entry(&mut self, uuid: &str, name: String, path: String) -> (found: bool)
        requires
            old(self).wf(),
        ensures
            final(self).wf(),
            final(self).version == old(self).version,
            final(self).blobs_dir == old(self).blobs_dir,
            found == (key_pos(old(self).pairs(), uuid@) >= 0),
            !found ==> final(self).pairs() == old(self).pairs(),
            found ==> final(self).pairs().len() == old(self).pairs().len(),
            found ==> forall|i: int| 0 <= i < old(self).pairs().len() && i != key_pos(old(self).pairs(), uuid@)
                ==> final(self).pairs()[i] == old(self).pairs()[i],
            found ==> final(self).pairs()[key_pos(old(self).pairs(), uuid@)].0 == uuid@,
            found ==> relocated(final(self).pairs()[key_pos(old(self).pairs(), uuid@)].1,
                old(self).pairs()[key_pos(old(self).pairs(), uuid@)].1, name@, path@),
    {
        let moved = match self.get(uuid) {
            Some(e) => relocate(e, name, path),
            None => {
                return false;
            },
        };
        self.insert(uuid.to_owned(), moved);
        true
    }
}

/// What `--vault-rename` did.
pub enum RenameOutcome {
    /// No entry has that full path.
    NotFound,
    /// The entry already has that name; nothing changed.
    Unchanged,
    /// Another file in the entry's folder already has the new name.
    Collision,
    /// Renamed; the entry's old and new full paths.
    Renamed { old_full: String, new_full: String },
}

/// Rename the entry at full path `vault_path` (slashes trimmed) to `new_name`,
/// unless it already has that name or another file in its folder has it.
pub fn rename_entry(handle: &mut VaultHandle, vault_path: &str, new_name: &str) -> (r: RenameOutcome)
    requires
        old(handle).index.wf(),
    ensures
        final(handle).index.wf(),
        final(handle).root == old(handle).root,
        final(handle).blobs_dir == old(handle).blobs_dir,
        final(handle).password == old(handle).password,
        final(handle).index.version == old(handle).index.version,
        final(handle).index.blobs_dir == old(handle).index.blobs_dir,
        !(r is Renamed) ==> final(handle).index.pairs() == old(handle).index.pairs(),
        ({
            let ps = old(handle).index.pairs();
            let t = trim_slashes(vault_path@);
            match r {
                RenameOutcome::NotFound => forall|j: int| 0 <= j < ps.len() ==> entry_full_path(#[trigger] ps[j].1) != t,
                RenameOutcome::Unchanged => exists|i: int| 0 <= i < ps.len() && entry_full_path(#[trigger] ps[i].1) == t
                    && ps[i].1.name@ == new_name@,
                RenameOutcome::Collision => exists|i: int, j: int| 0 <= i < ps.len() && 0 <= j < ps.len()
                    && entry_full_path(#[trigger] ps[i].1) == t && ps[i].1.name@ != new_name@
                    && (#[trigger] ps[j]).0 != ps[i].0 && ps[j].1.path@ == ps[i].1.path@ && ps[j].1.name@ == new_name@,
                RenameOutcome::Renamed { old_full, new_full } => exists|i: int| 0 <= i < ps.len()
                    && entry_full_path(#[trigger] ps[i].1) == t
                    && (forall|j: int| 0 <= j < i ==> entry_full_path(#[trigger] ps[j].1) != t)
                    && old_full@ == full_path_spec(ps[i].1.path@, new_name@)
                    && new_full@ == full_path_spec(ps[i].1.path@, new_name@)
                    && final(handle).index.pairs().len() == ps.len()
                    && final(handle).index.pairs()[i].0 == ps[i].0
                    && relocated(final(handle).index.pairs()[i].1, ps[i].1, new_name@, ps[i].1.path@)
                    && forall|j: int| 0 <= j < ps.len() && j != i ==> final(handle).index.pairs()[j] == ps[j],
            }
        }),
{
    let ghost ps = handle.index.pairs();
    let pos = match find_entry_position(handle, vault_path) {
        Some(p) => p,
        None => {
            return RenameOutcome::NotFound;
        },
    };
    let (u, e) = handle.index.entry_at(pos);
    let uuid = u.clone();
    if str_eq(e.name.as_str(), new_name) {
        return RenameOutcome::Unchanged;
    }
    let folder = e.path.clone();
    let n = handle.index.len();
    let mut j: usize = 0;
    while j < n
        invariant
            n == ps.len(),
            ps == handle.index.pairs(),
            handle.index.wf(),
            j <= n,
            pos < n,
            uuid@ == ps[pos as int].0,
            folder@ == ps[pos as int].1.path@,
            entry_full_path(ps[pos as int].1) == trim_slashes(vault_path@),
            ps[pos as int].1.name@ != new_name@,
            forall|k: int| 0 <= k < j ==> !((#[trigger] ps[k]).0 != uuid@ && ps[k].1.path@ == folder@ && ps[k].1.name@ == new_name@),
        decreases n - j,
    {
        let (v, f) = handle.index.entry_at(j);
        if !str_eq(v.as_str(), uuid.as_str()) && str_eq(f.path.as_str(), folder.as_str()) && str_eq(f.name.as_str(), new_name) {
            proof {
                assert(entry_full_path(ps[pos as int].1) == trim_slashes(vault_path@));
                assert(ps[j as int].0 != ps[pos as int].0);
            }
            return RenameOutcome::Collision;
        }
        j = j + 1;
    }
    proof {
        assert(key_pos(ps, uuid@) == pos) by {
            let k = key_pos(ps, uuid@);
            assert(ps[pos as int].0 == uuid@);
            assert(0 <= k < ps.len() && ps[k].0 == uuid@);
        }
    }
    handle.index.relocate_entry(uuid.as_str(), new_name.to_owned(), folder.clone());
    let full = full_path(folder.as_str(), new_name);
    RenameOutcome::Renamed { old_full: full.clone(), new_full: full }
}

/// What `--vault-move` did.
pub enum MoveOutcome {
    /// No entry has that full path.
    NotFound,
    /// The entry is already in that folder under that name; nothing changed.
    Unchanged,
    /// Another file in the destination already has the final name.
    Collision { name: String },
    /// Moved; the entry's old and new full paths.
    Moved { old_full: String, new_full: String },
}

/// Move the entry at full path `vault_path` (slashes trimmed) into folder
/// `dest` (already without leading and trailing slashes), renaming it to
/// `new_name` when given.
pub fn move_entry(handle: &mut VaultHandle, vault_path: &str, dest: &str, new_name: Option<&str>) -> (r: MoveOutcome)
    requires
        old(handle).index.wf(),
    ensures
        final(handle).index.wf(),
        final(handle).root == old(handle).root,
        final(handle).blobs_dir == old(handle).blobs_dir,
        final(handle).password == old(handle).password,
        final(handle).index.version == old(handle).index.version,
        final(handle).index.blobs_dir == old(handle).index.blobs_dir,
        !(r is Moved) ==> final(handle).index.pairs() == old(handle).index.pairs(),
        ({
            let ps = old(handle).index.pairs();
            let t = trim_slashes(vault_path@);
            match r {
                MoveOutcome::NotFound => forall|j: int| 0 <= j < ps.len() ==> entry_full_path(#[trigger] ps[j].1) != t,
                MoveOutcome::Unchanged => exists|i: int| 0 <= i < ps.len() && entry_full_path(#[trigger] ps[i].1) == t
                    && ps[i].1.path@ == dest@
                    && ps[i].1.name@ == (match new_name { Some(n) => n@, None => ps[i].1.name@ }),
                MoveOutcome::Collision { name } => exists|i: int, j: int| 0 <= i < ps.len() && 0 <= j < ps.len()
                    && entry_full_path(#[trigger] ps[i].1) == t
                    && name@ == (match new_name { Some(n) => n@, None => ps[i].1.name@ })
                    && (#[trigger] ps[j]).0 != ps[i].0 && ps[j].1.path@ == dest@ && ps[j].1.name@ == name@,
                MoveOutcome::Moved { old_full, new_full } => exists|i: int| 0 <= i < ps.len()
                    && entry_full_path(#[trigger] ps[i].1) == t
                    && (forall|j: int| 0 <= j < i ==> entry_full_path(#[trigger] ps[j].1) != t)
                    && old_full@ == entry_full_path(ps[i].1)
                    && new_full@ == full_path_spec(dest@, match new_name { Some(n) => n@, None => ps[i].1.name@ })
                    && final(handle).index.pairs().len() == ps.len()
                    && final(handle).index.pairs()[i].0 == ps[i].0
                    && relocated(final(handle).index.pairs()[i].1, ps[i].1,
                        match new_name { Some(n) => n@, None => ps[i].1.name@ }, dest@)
                    && forall|j: int| 0 <= j < ps.len() && j != i ==> final(handle).index.pairs()[j] == ps[j],
            }
        }),
{
    let ghost ps = handle.index.pairs();
    let pos = match find_entry_position(handle, vault_path) {
        Some(p) => p,
        None => {
            return MoveOutcome::NotFound;
        },
    };
    let (u, e) = handle.index.entry_at(pos);
    let uuid = u.clone();
    let current_folder = e.path.clone();
    let current_name = e.name.clone();
    let final_name: String = match new_name {
        Some(n) => n.to_owned(),
        None => current_name.clone(),
    };
    if str_eq(dest, current_folder.as_str()) && str_eq(final_name.as_str(), current_name.as_str()) {
        return MoveOutcome::Unchanged;
    }
    let n = handle.index.len();
    let mut j: usize = 0;
    while j < n
        invariant
            n == ps.len(),
            ps == handle.index.pairs(),
            j <= n,
            pos < n,
            handle.index.wf(),
            uuid@ == ps[pos as int].0,
            entry_full_path(ps[pos as int].1) == trim_slashes(vault_path@),
            final_name@ == (match new_name { Some(nn) => nn@, None => ps[pos as int].1.name@ }),
            forall|k: int| 0 <= k < j ==> !((#[trigger] ps[k]).0 != uuid@ && ps[k].1.path@ == dest@ && ps[k].1.name@ == final_name@),
        decreases n - j,
    {
        let (v, f) = handle.index.entry_at(j);
        if !str_eq(v.as_str(), uuid.as_str()) && str_eq(f.path.as_str(), dest) && str_eq(f.name.as_str(), final_name.as_str()) {
            proof {
                assert(entry_full_path(ps[pos as int].1) == trim_slashes(vault_path@));
                assert(ps[j as int].0 != ps[pos as int].0);
            }
            return MoveOutcome::Collision { name: final_name };
        }
        j = j + 1;
    }
    proof {
        assert(key_pos(ps, uuid@) == pos) by {
            let k = key_pos(ps, uuid@);
            assert(ps[pos as int].0 == uuid@);
            assert(0 <= k < ps.len() && ps[k].0 == uuid@);
        }
    }
    let old_full = full_path(current_folder.as_str(), current_name.as_str());
    let new_full = full_path(dest, final_name.as_str());
    handle.index.relocate_entry(uuid.as_str(), final_name, dest.to_owned());
    MoveOutcome::Moved { old_full, new_full }
}

/// What `--vault-add` must do for one file before sealing it.
pub enum AddPlan {
    /// A file with that name is already in the folder and replacing was not asked for.
    Collision,
    /// Go ahead; the blobs of the replaced entry, if any, are to be deleted.
    Proceed { removed_blobs: Vec<String> },
}

/// Prepare adding a file named `name` to folder `vault_path`: a file of that
/// name already there is a collision, unless `force`, in which case its entry
/// is dropped from the index and its blobs are listed for deletion.
pub fn prepare_add(handle: &mut VaultHandle, vault_path: &str, name: &str, force: bool) -> (r: AddPlan)
    requires
        old(handle).index.wf(),
    ensures
        final(handle).index.wf(),
        final(handle).root == old(handle).root,
        final(handle).blobs_dir == old(handle).blobs_dir,
        final(handle).password == old(handle).password,
        final(handle).index.version == old(handle).index.version,
        final(handle).index.blobs_dir == old(handle).index.blobs_dir,
        ({
            let ps = old(handle).index.pairs();
            let clash = exists|i: int| 0 <= i < ps.len() && (#[trigger] ps[i]).1.path@ == vault_path@ && ps[i].1.name@ == name@;
            &&& (clash && !force) <==> r is Collision
            &&& !clash ==> (r matches AddPlan::Proceed { removed_blobs } && removed_blobs@.len() == 0
                && final(handle).index.pairs() == ps)
            &&& r is Collision ==> final(handle).index.pairs() == ps
            &&& (clash && force) ==> exists|i: int| 0 <= i < ps.len()
                && (#[trigger] ps[i]).1.path@ == vault_path@ && ps[i].1.name@ == name@
                && (forall|j: int| 0 <= j < i ==> !(ps[j].1.path@ == vault_path@ && ps[j].1.name@ == name@))
                && final(handle).index.pairs() == removed(ps, ps[i].0)
                && (r matches AddPlan::Proceed { removed_blobs } && views(removed_blobs@) == owned_blobs(ps[i].1))
        }),
{
    let ghost ps = handle.index.pairs();
    match find_entry_by_name(handle, vault_path, name) {
        None => AddPlan::Proceed { removed_blobs: Vec::new() },
        Some(uuid) => {
            if !force {
                return AddPlan::Collision;
            }
            let blobs = match handle.index.get(uuid.as_str()) {
                Some(e) => entry_blob_uuids(e),
                None => Vec::new(),
            };
            proof {
                let i = choose|i: int| 0 <= i < ps.len()
                    && (#[trigger] ps[i]).1.path@ == vault_path@ && ps[i].1.name@ == name@
                    && uuid@ == ps[i].0
                    && forall|j: int| 0 <= j < i ==> !(ps[j].1.path@ == vault_path@ && ps[j].1.name@ == name@);
                assert(key_pos(ps, uuid@) == i) by {
                    let k = key_pos(ps, uuid@);
                    assert(0 <= k < ps.len() && ps[k].0 == uuid@);
                }
                assert(views(blobs@) == blobs@.map_values(|s: String| s@));
            }
            handle.index.remove(uuid.as_str());
            AddPlan::Proceed { removed_blobs: blobs }
        },
    }
}

/// Add the sealed file `entry` under `uuid` to the index; returns its full path.
pub fn add_entry(handle: &mut VaultHandle, uuid: String, entry: VaultEntry) -> (r: String)
    requires
        old(handle).index.wf(),
    ensures
        final(handle).index.wf(),
        final(handle).index.pairs() == inserted(old(handle).index.pairs(), uuid@, entry),
        final(handle).root == old(handle).root,
        final(handle).blobs_dir == old(handle).blobs_dir,
        final(handle).password == old(handle).password,
        final(handle).index.version == old(handle).index.version,
        final(handle).index.blobs_dir == old(handle).index.blobs_dir,
        r@ == full_path_spec(entry.path@, entry.name@),
{
    let full = full_path(entry.path.as_str(), entry.name.as_str());
    handle.index.insert(uuid, entry);
    full
}

/// No entry has the full path `p` (slashes trimmed).
pub open spec fn path_missing(pairs: Seq<(Seq<char>, VaultEntry)>, p: Seq<char>) -> bool {
    forall|j: int| 0 <= j < pairs.len() ==> entry_full_path(#[trigger] pairs[j].1) != trim_slashes(p)
}

/// The views of a list of string pairs.
pub open spec fn pair_views(v: Seq<(String, String)>) -> Seq<(Seq<char>, Seq<char>)> {
    v.map_values(|p: (String, String)| (p.0@, p.1@))
}

/// The UUID and full path of the first entry found for each of `paths`, in
/// order, the paths not found left out.
pub open spec fn delete_plan(pairs: Seq<(Seq<char>, VaultEntry)>, paths: Seq<Seq<char>>) -> Seq<(Seq<char>, Seq<char>)>
    decreases paths.len(),
{
    if paths.len() == 0 {
        Seq::empty()
    } else {
        let prev = delete_plan(pairs, paths.drop_last());
        let k = first_with_full_path(pairs, trim_slashes(paths.last()));
        if k >= 0 { prev.push((pairs[k].0, entry_full_path(pairs[k].1))) } else { prev }
    }
}

/// Entries to delete: the UUID and full path of each path found (the first
/// entry with that full path), in the order given; and whether some path was
/// not found.
pub fn plan_delete(handle: &VaultHandle, vault_paths: &[String]) -> (r: (Vec<(String, String)>, bool))
    ensures
        pair_views(r.0@) == delete_plan(handle.index.pairs(), views(vault_paths@)),
        r.1 == exists|k: int| 0 <= k < vault_paths@.len() && #[trigger] path_missing(handle.index.pairs(), vault_paths@[k]@),
{
    let mut targets: Vec<(String, String)> = Vec::new();
    let mut missing = false;
    let mut k: usize = 0;
    while k < vault_paths.len()
        invariant
            k <= vault_paths@.len(),
            missing == exists|m: int| 0 <= m < k && #[trigger] path_missing(handle.index.pairs(), vault_paths@[m]@),
            pair_views(targets@) == delete_plan(handle.index.pairs(), views(vault_paths@).subrange(0, k as int)),
        decreases vault_paths@.len() - k,
    {
        proof {
            let ps = views(vault_paths@);
            assert(ps.subrange(0, k + 1).drop_last() =~= ps.subrange(0, k as int));
            assert(ps.subrange(0, k + 1).last() == vault_paths@[k as int]@);
        }
        match find_entry_position(handle, vault_paths[k].as_str()) {
            Some(pos) => {
                let (u, e) = handle.index.entry_at(pos);
                let full = full_path(e.path.as_str(), e.name.as_str());
                let ghost before = targets@;
                let uc = u.clone();
                assert(uc@ == handle.index.pairs()[pos as int].0);
                assert(full@ == entry_full_path(handle.index.pairs()[pos as int].1));
                targets.push((uc, full));
                proof {
                    assert(pair_views(targets@) =~= pair_views(before).push((uc@, full@)));
                }
            },
            None => {
                missing = true;
            },
        }
        proof {
            if !path_missing(handle.index.pairs(), vault_paths@[k as int]@) {
                assert forall|m: int| 0 <= m < k + 1 && #[trigger] path_missing(handle.index.pairs(), vault_paths@[m]@) implies m < k by {}
            }
        }
        k = k + 1;
    }
    proof {
        assert(views(vault_paths@).subrange(0, vault_paths@.len() as int) =~= views(vault_paths@));
    }
    (targets, missing)
}

/// Filtering with a test that keeps everything changes nothing.
proof fn lemma_filter_keep_all(s: Seq<(Seq<char>, VaultEntry)>, f: spec_fn((Seq<char>, VaultEntry)) -> bool)
    requires
        forall|p: (Seq<char>, VaultEntry)| #[trigger] f(p),
    ensures
        s.filter(f) == s,
    decreases s.len(),
{
    reveal(Seq::filter);
    if s.len() > 0 {
        lemma_filter_keep_all(s.drop_last(), f);
        assert(s.drop_last().push(s.last()) =~= s);
    }
}

/// Removing the key `u` from the pairs kept by `f` keeps the pairs that `f`
/// keeps and whose key is not `u`, in order.
proof fn lemma_removed_filter(
    s: Seq<(Seq<char>, VaultEntry)>,
    f: spec_fn((Seq<char>, VaultEntry)) -> bool,
    u: Seq<char>,
)
    requires
        keys_unique(s.filter(f)),
    ensures
        removed(s.filter(f), u) == s.filter(|p: (Seq<char>, VaultEntry)| f(p) && p.0 != u),
    decreases s.len(),
{
    reveal(Seq::filter);
    let g = |p: (Seq<char>, VaultEntry)| f(p) && p.0 != u;
    if s.len() == 0 {
        assert(key_pos(s.filter(f), u) == -1);
    } else {
        let s1 = s.drop_last();
        let x = s.last();
        let ff = s.filter(f);
        let f1 = s1.filter(f);
        let g1 = s1.filter(g);
        assert(keys_unique(f1)) by {
            if f(x) {
                assert forall|i: int, j: int| 0 <= i < f1.len() && 0 <= j < f1.len() && i != j implies f1[i].0 != f1[j].0 by {
                    assert(ff[i] == f1[i] && ff[j] == f1[j]);
                }
            }
        }
        lemma_removed_filter(s1, f, u);
        if f(x) {
            assert(ff == f1.push(x));
            if x.0 == u {
                assert(s.filter(g) == g1);
                assert(forall|i: int| 0 <= i < f1.len() ==> f1[i].0 != u) by {
                    assert forall|i: int| 0 <= i < f1.len() implies f1[i].0 != u by {
                        assert(ff[i] == f1[i]);
                        assert(ff[f1.len() as int] == x);
                    }
                }
                assert(key_pos(f1, u) == -1);
                let k = key_pos(ff, u);
                assert(ff[f1.len() as int].0 == u);
                assert(k == f1.len()) by {
                    if k != f1.len() {
                        assert(ff[k].0 == u);
                    }
                }
                assert(ff.remove(k) =~= f1);
            } else {
                assert(s.filter(g) == g1.push(x));
                let p = key_pos(f1, u);
                if p >= 0 {
                    let k = key_pos(ff, u);
                    assert(ff[p].0 == u);
                    assert(k == p) by {
                        if k != p {
                            assert(ff[k].0 == u);
                        }
                    }
                    assert(ff.remove(k) =~= f1.remove(p).push(x));
                } else {
                    assert forall|i: int| 0 <= i < ff.len() implies ff[i].0 != u by {
                        if i < f1.len() {
                            assert(ff[i] == f1[i]);
                        }
                    }
                    assert(key_pos(ff, u) == -1);
                }
            }
        } else {
            assert(ff == f1);
            assert(s.filter(g) == g1);
        }
    }
}

/// Remove the entries with these UUIDs from the index, keeping the order of the rest.
pub fn remove_entries(index: &mut VaultIndex, uuids: &[String])
    requires
        old(index).wf(),
    ensures
        final(index).wf(),
        final(index).version == old(index).version,
        final(index).blobs_dir == old(index).blobs_dir,
        forall|i: int| 0 <= i < final(index).pairs().len() ==> !views(uuids@).contains(#[trigger] final(index).pairs()[i].0),
        forall|i: int| 0 <= i < old(index).pairs().len() && !views(uuids@).contains(#[trigger] old(index).pairs()[i].0)
            ==> final(index).pairs().contains(old(index).pairs()[i]),
        final(index).pairs() == old(index).pairs().filter(|p: (Seq<char>, VaultEntry)| !views(uuids@).contains(p.0)),
{
    let ghost start = index.pairs();
    proof {
        let none = views(uuids@).subrange(0, 0);
        lemma_filter_keep_all(start, |p: (Seq<char>, VaultEntry)| !none.contains(p.0));
    }
    let mut k: usize = 0;
    while k < uuids.len()
        invariant
            k <= uuids@.len(),
            index.wf(),
            index.version == old(index).version,
            index.blobs_dir == old(index).blobs_dir,
            start == old(index).pairs(),
            forall|i: int| 0 <= i < index.pairs().len() ==> !views(uuids@).subrange(0, k as int).contains(#[trigger] index.pairs()[i].0),
            forall|i: int| 0 <= i < start.len() && !views(uuids@).subrange(0, k as int).contains(#[trigger] start[i].0)
                ==> index.pairs().contains(start[i]),
            forall|i: int| 0 <= i < index.pairs().len() ==> start.contains(#[trigger] index.pairs()[i]),
            index.pairs() == start.filter(|p: (Seq<char>, VaultEntry)| !views(uuids@).subrange(0, k as int).contains(p.0)),
        decreases uuids@.len() - k,
    {
        let ghost before = index.pairs();
        let ghost u = uuids@[k as int]@;
        index.remove(uuids[k].as_str());
        proof {
            let after = index.pairs();
            let vs = views(uuids@).subrange(0, k + 1);
            let vp = views(uuids@).subrange(0, k as int);
            assert(vs =~= vp.push(u));
            let keep = |p: (Seq<char>, VaultEntry)| !vp.contains(p.0);
            lemma_removed_filter(start, keep, u);
            assert(vs[k as int] == u);
            assert forall|p: (Seq<char>, VaultEntry)| (keep(p) && p.0 != u) == !vs.contains(p.0) by {
                if vs.contains(p.0) {
                    let m = choose|m: int| 0 <= m < vs.len() && vs[m] == p.0;
                    if m < vp.len() {
                        assert(vp[m] == p.0);
                    }
                }
                if vp.contains(p.0) {
                    let m = choose|m: int| 0 <= m < vp.len() && vp[m] == p.0;
                    assert(vs[m] == p.0);
                }
            }
            assert((|p: (Seq<char>, VaultEntry)| keep(p) && p.0 != u) =~= (|p: (Seq<char>, VaultEntry)| !vs.contains(p.0)));
            assert forall|i: int| 0 <= i < after.len() implies !vs.contains(#[trigger] after[i].0) by {
                if key_pos(before, u) >= 0 {
                    let p = key_pos(before, u);
                    assert(after == before.remove(p));
                    if i < p {
                        assert(after[i] == before[i]);
                    } else {
                        assert(after[i] == before[i + 1]);
                    }
                    assert(after[i].0 != u);
                } else {
                    assert(after == before);
                    assert(forall|j: int| 0 <= j < before.len() ==> before[j].0 != u);
                }
            }
            assert forall|i: int| 0 <= i < start.len() && !vs.contains(#[trigger] start[i].0) implies after.contains(start[i]) by {
                assert(!vp.contains(start[i].0)) by {
                    if vp.contains(start[i].0) {
                        let m = choose|m: int| 0 <= m < vp.len() && vp[m] == start[i].0;
                        assert(vs[m] == vp[m]);
                    }
                }
                assert(start[i].0 != u) by {
                    if start[i].0 == u {
                        assert(vs.contains(u));
                    }
                }
                assert(before.contains(start[i]));
                let j = choose|j: int| 0 <= j < before.len() && before[j] == start[i];
                if key_pos(before, u) >= 0 {
                    let p = key_pos(before, u);
                    assert(j != p);
                    if j < p {
                        assert(after[j] == before[j]);
                    } else {
                        assert(after[j - 1] == before[j]);
                    }
                }
            }
            assert forall|i: int| 0 <= i < after.len() implies start.contains(#[trigger] after[i]) by {
                if key_pos(before, u) >= 0 {
                    let p = key_pos(before, u);
                    if i < p {
                        assert(after[i] == before[i]);
                    } else {
                        assert(after[i] == before[i + 1]);
                    }
                }
            }
        }
        k = k + 1;
    }
    assert(views(uuids@).subrange(0, uuids@.len() as int) =~= views(uuids@));
}

} // verus!
