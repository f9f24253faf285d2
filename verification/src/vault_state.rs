//! The vault page as a state machine. Slow work (unlocking, creating, adding,
//! previewing, exporting, loading a gallery, saving) is done by the caller: a
//! `start_*` step says what to do and moves to a waiting phase; the caller
//! hands each message of the work back to the matching `on_*` step.

use vstd::prelude::*;
use vstd::string::*;

use crate::browse::{fresh_browser, refreshed, status_ticked, BrowseState, PanelFocus};
use crate::filetype::is_image_entry;
use crate::fmt::{decimal, decimal_string, push_str};
use crate::folders::{folder_items, category_spec};
use crate::handle::{in_tree, is_in_tree, VaultHandle};
use crate::index::{copy_parts, inserted, key_pos, VaultEntry, VaultPart};
use crate::order::{insert_sorted_unique, strictly_sorted, views};
use crate::ops::remove_entries;
use crate::paths::{full_path, full_path_spec};
use crate::resolve::resolve_names;
use crate::sorting::{items_view, sort_by_key, SortDir, SortItem, SortKey};
use crate::text::{lower_extension, push_char, str_eq, to_chars, from_chars};
use crate::vault_crypto::VaultError;
use crate::vault_file::entry_blob_uuids;

verus! {

/// The phases of the vault page.
pub enum Phase {
    /// Top menu: open a vault, or make a new one.
    VaultMenu { cursor: usize },
    /// The open-vault form.
    Locked { vault_path: String, password: String, focus: usize, path_edit_mode: bool, error: Option<String> },
    /// The new-vault form: vault folder, blobs subfolder, password.
    Creating { vault_path: String, blobs_dir: String, password: String, focus: usize, path_edit_mode: bool, error: Option<String> },
    /// Asking whether to create the missing vault folder.
    ConfirmCreateDir { vault_path: String, blobs_dir: String, password: String },
    /// Unlocking or creating, with a progress percentage.
    Opening(u8),
    /// Browsing the open vault.
    Browse,
    /// Renaming a file.
    Rename { uuid: String, input: String },
    /// Asking before deleting files.
    ConfirmDelete { uuids: Vec<String> },
    /// Picking the folder to move files to.
    Move { uuids: Vec<String>, tree_cursor: usize },
    /// Adding files.
    Adding { total: usize, done: usize, current_file: String },
    /// Naming a new folder under `parent`.
    NewFolder { parent: String, input: String, error: Option<String> },
    /// Decrypting a file to preview.
    Previewing { filename: String },
    /// A decrypted file ready to be shown.
    PreviewReady { bytes: Vec<u8>, ext: String },
    /// Exporting files.
    Exporting { total: usize, done: usize, current_file: String },
    /// Decrypting the images of a folder.
    LoadingGallery { folder: String, done: usize, total: usize },
    /// The images of a folder, ready to be shown.
    GalleryReady { images: Vec<(String, Vec<u8>)> },
}

/// Messages of the unlock and create work.
pub enum WorkerMsg {
    Progress(u8),
    Opened(VaultHandle),
    Created(VaultHandle),
    Failed(String),
}

/// Messages of the add work.
pub enum AddWorkerMsg {
    Progress { done: usize, total: usize, filename: String },
    /// All files sealed: the new entries with their UUIDs.
    Done(Vec<(String, VaultEntry)>),
    Failed(String),
}

/// Messages of the preview work.
pub enum PreviewWorkerMsg {
    /// The decrypted bytes and the lower-cased extension.
    Ready(Vec<u8>, String),
    Failed(String),
}

/// Messages of the export work.
pub enum ExportWorkerMsg {
    Progress { done: usize, total: usize, filename: String },
    /// The number of files exported.
    Done(usize),
    Failed(String),
}

/// Messages of the gallery work.
pub enum GalleryWorkerMsg {
    Progress { done: usize, total: usize },
    /// The images, with their names, in list order.
    Ready(Vec<(String, Vec<u8>)>),
    Failed(String),
}

/// Decrypt the parts of one file for preview.
pub struct PreviewJob {
    pub blobs_dir: String,
    pub parts: Vec<VaultPart>,
    pub size: u64,
    /// Lower-cased extension of the file name.
    pub ext: String,
}

/// Decrypt these entries and write each, under its name, to the destination.
pub struct ExportJob {
    pub blobs_dir: String,
    pub entries: Vec<VaultEntry>,
}

/// Decrypt these images, in this order.
pub struct GalleryJob {
    pub blobs_dir: String,
    pub items: Vec<(String, Vec<VaultPart>)>,
}

/// Create a vault at `vault_path` (making the folder when missing).
pub struct CreateJob {
    pub vault_path: String,
    pub blobs_dir: Option<String>,
    pub password: String,
}

/// Open the vault at `vault_path`.
pub struct UnlockJob {
    pub vault_path: String,
    pub password: String,
}

/// Seal the chosen files into `blobs_dir` for the folder `virtual_path`.
pub struct AddJob {
    pub blobs_dir: String,
    pub virtual_path: String,
    pub total: usize,
}

/// Why the index was saved, which decides the status message.
pub enum SaveReason {
    Deleted(usize),
    Moved(usize),
    Added(usize),
    Explicit,
}

/// The vault page.
pub struct VaultState {
    pub phase: Phase,
    /// Present while a vault is open.
    pub browse: Option<BrowseState>,
    /// UUIDs to export once a destination has been picked.
    pub pending_export_uuids: Vec<String>,
}

/// `pre`, the decimal number `n`, then `post`.
pub open spec fn count_text(pre: Seq<char>, n: nat, post: Seq<char>) -> Seq<char> {
    pre + decimal(n) + post
}

/// `pre`, the decimal number `n`, then `post`.
pub fn count_message(pre: &str, n: usize, post: &str) -> (r: String)
    ensures
        r@ == count_text(pre@, n as nat, post@),
{
    let mut r = String::new();
    push_str(&mut r, pre);
    let d = decimal_string(n as u64);
    push_str(&mut r, d.as_str());
    push_str(&mut r, post);
    assert(r@ =~= count_text(pre@, n as nat, post@));
    r
}

/// `pre`, then `mid`, then `post`.
pub fn wrap_message(pre: &str, mid: &str, post: &str) -> (r: String)
    ensures
        r@ == pre@ + mid@ + post@,
{
    let mut r = String::new();
    push_str(&mut r, pre);
    push_str(&mut r, mid);
    push_str(&mut r, post);
    assert(r@ =~= pre@ + mid@ + post@);
    r
}

impl VaultState {
    /// The browser, when present, is well formed.
    pub open spec fn wf(&self) -> bool {
        match self.browse {
            Some(b) => b.wf(),
            None => true,
        }
    }

    /// The page starts at its menu, no vault open.
    pub fn new() -> (s: VaultState)
        ensures
            s.phase matches Phase::VaultMenu { cursor } && cursor == 0,
            s.browse is None,
            s.pending_export_uuids@.len() == 0,
            s.wf(),
    {
        VaultState { phase: Phase::VaultMenu { cursor: 0 }, browse: None, pending_export_uuids: Vec::new() }
    }

    /// Fill the vault path of the open form from the file browser; focus moves to the password.
    pub fn set_path(&mut self, path: &str)
        ensures
            final(self).browse == old(self).browse,
            old(self).phase matches Phase::Locked { password, path_edit_mode, error, .. } ==> (final(self).phase matches
                Phase::Locked { vault_path: v2, password: p2, focus: f2, path_edit_mode: m2, error: e2 }
                && v2@ == path@ && p2 == password && f2 == 1 && m2 == path_edit_mode && e2 == error),
            !(old(self).phase is Locked) ==> final(self).phase == old(self).phase,
    {
        if let Phase::Locked { vault_path, focus, .. } = &mut self.phase {
            *vault_path = path.to_owned();
            *focus = 1;
        }
    }

    /// Move the focus between the two fields of the open form.
    pub fn advance_focus(&mut self)
        ensures
            final(self).browse == old(self).browse,
            old(self).phase matches Phase::Locked { vault_path, password, focus, path_edit_mode, error } ==> (final(self).phase matches
                Phase::Locked { vault_path: v2, password: p2, focus: f2, path_edit_mode: m2, error: e2 }
                && v2 == vault_path && p2 == password && f2 == (focus + 1) % 2 && m2 == path_edit_mode && e2 == error),
            !(old(self).phase is Locked) ==> final(self).phase == old(self).phase,
    {
        if let Phase::Locked { focus, .. } = &mut self.phase {
            let f = *focus;
            *focus = (f % 2 + 1) % 2;
            assert((f % 2 + 1) % 2 == (f + 1) % 2) by (nonlinear_arith);
        }
    }
}

} // verus!

verus! {

/// Images below `folder` (everywhere for the root), in index order, as sort items.
pub open spec fn gallery_items(pairs: Seq<(Seq<char>, VaultEntry)>, folder: Seq<char>) -> Seq<(int, Seq<char>, u64, u8)>
    decreases pairs.len(),
{
    if pairs.len() == 0 {
        Seq::empty()
    } else {
        let r = gallery_items(pairs.drop_last(), folder);
        let e = pairs.last().1;
        if (folder.len() == 0 || in_tree(e.path@, folder))
            && crate::filetype::image_ext(crate::text::ext_or_empty(crate::text::lower_seq(e.name@))) {
            r.push((pairs.len() - 1, e.name@, e.size, category_spec(e.name@)))
        } else {
            r
        }
    }
}

/// A folder's gallery holds exactly the image files in that folder or below
/// it, and the root's gallery holds every image file of the vault.
pub proof fn lemma_gallery_members(pairs: Seq<(Seq<char>, VaultEntry)>, folder: Seq<char>, i: int)
    requires
        0 <= i < pairs.len(),
    ensures
        (exists|j: int| 0 <= j < gallery_items(pairs, folder).len() && #[trigger] gallery_items(pairs, folder)[j].0 == i)
            <==> (crate::filetype::image_ext(crate::text::ext_or_empty(crate::text::lower_seq(pairs[i].1.name@)))
            && (folder.len() == 0 || pairs[i].1.path@ == folder
            || crate::text::seq_starts_with(pairs[i].1.path@, folder + seq!['/']))),
    decreases pairs.len(),
{
    let g = gallery_items(pairs, folder);
    let t = pairs.drop_last();
    let r = gallery_items(t, folder);
    lemma_gallery_items_positions(t, folder);
    assert(g == r || (g.len() == r.len() + 1 && g.subrange(0, r.len() as int) == r && g[r.len() as int].0 == pairs.len() - 1)) by {
        if g != r {
            assert(g.subrange(0, r.len() as int) =~= r);
        }
    }
    if i < pairs.len() - 1 {
        lemma_gallery_members(t, folder, i);
        assert(t[i] == pairs[i]);
        if exists|j: int| 0 <= j < g.len() && #[trigger] g[j].0 == i {
            let j = choose|j: int| 0 <= j < g.len() && #[trigger] g[j].0 == i;
            assert(j < r.len());
            if g != r {
                assert(g[j] == g.subrange(0, r.len() as int)[j]);
            }
            assert(r[j].0 == i);
        }
        if exists|j: int| 0 <= j < r.len() && #[trigger] r[j].0 == i {
            let j = choose|j: int| 0 <= j < r.len() && #[trigger] r[j].0 == i;
            if g != r {
                assert(g[j] == g.subrange(0, r.len() as int)[j]);
            }
            assert(g[j].0 == i);
        }
    } else {
        if exists|j: int| 0 <= j < g.len() && #[trigger] g[j].0 == i {
            let j = choose|j: int| 0 <= j < g.len() && #[trigger] g[j].0 == i;
            if g == r {
                assert(r[j].0 < t.len());
            }
            assert(g != r);
        }
        if g != r {
            assert(g[r.len() as int].0 == i);
        }
    }
}

/// A gallery lists its images in index order, each with the name and size of
/// the file at its position.
pub proof fn lemma_gallery_in_index_order(pairs: Seq<(Seq<char>, VaultEntry)>, folder: Seq<char>)
    ensures
        forall|a: int, b: int| 0 <= a < b < gallery_items(pairs, folder).len()
            ==> (#[trigger] gallery_items(pairs, folder)[a]).0 < (#[trigger] gallery_items(pairs, folder)[b]).0,
        forall|a: int| 0 <= a < gallery_items(pairs, folder).len() ==> {
            let it = #[trigger] gallery_items(pairs, folder)[a];
            &&& 0 <= it.0 < pairs.len()
            &&& it.1 == pairs[it.0].1.name@
            &&& it.2 == pairs[it.0].1.size
        },
    decreases pairs.len(),
{
    if pairs.len() > 0 {
        let t = pairs.drop_last();
        lemma_gallery_in_index_order(t, folder);
        lemma_gallery_items_positions(t, folder);
        let g = gallery_items(pairs, folder);
        let r = gallery_items(t, folder);
        assert forall|a: int| 0 <= a < r.len() implies #[trigger] g[a] == r[a] by {}
        assert forall|a: int| 0 <= a < r.len() implies pairs[r[a].0] == t[r[a].0] by {}
    }
}

/// Items in the order the file list shows them for a sort key and direction.
pub open spec fn ordered_items(s: Seq<(int, Seq<char>, u64, u8)>, key: SortKey, dir: SortDir) -> Seq<(int, Seq<char>, u64, u8)> {
    if key == SortKey::Age {
        if dir == SortDir::Desc { s.reverse() } else { s }
    } else {
        crate::sorting::sort_items(s, key, dir)
    }
}

/// Put sort items in list order.
fn order_items(items: Vec<SortItem>, key: SortKey, dir: SortDir) -> (r: Vec<SortItem>)
    ensures
        items_view(r@) == ordered_items(items_view(items@), key, dir),
{
    if key == SortKey::Age {
        if dir == SortDir::Desc {
            crate::browse::reverse_items(items)
        } else {
            items
        }
    } else {
        sort_by_key(items, key, dir)
    }
}

/// Sort items for the images below `folder`.
fn gallery_item_list(handle: &VaultHandle, folder: &str) -> (r: Vec<SortItem>)
    ensures
        items_view(r@) == gallery_items(handle.index.pairs(), folder@),
{
    let ghost pairs = handle.index.pairs();
    let n = handle.index.len();
    let root = folder.unicode_len() == 0;
    let mut r: Vec<SortItem> = Vec::new();
    let mut i: usize = 0;
    while i < n
        invariant
            n == pairs.len(),
            pairs == handle.index.pairs(),
            root == (folder@.len() == 0),
            i <= n,
            items_view(r@) == gallery_items(pairs.subrange(0, i as int), folder@),
        decreases n - i,
    {
        let (_, e) = handle.index.entry_at(i);
        let ghost pre = pairs.subrange(0, i + 1);
        assert(pre.drop_last() =~= pairs.subrange(0, i as int));
        assert(pre.last() == pairs[i as int]);
        if (root || is_in_tree(e.path.as_str(), folder)) && is_image_entry(e.name.as_str()) {
            let cat = crate::filetype::file_category(e.name.as_str());
            let ghost before = r@;
            r.push(SortItem { pos: i, name: e.name.clone(), size: e.size, cat });
            assert(items_view(r@) =~= items_view(before).push(crate::sorting::item_view(r@[r@.len() - 1])));
        }
        i = i + 1;
    }
    assert(pairs.subrange(0, n as int) =~= pairs);
    r
}

/// Items name positions of the index.
proof fn lemma_gallery_positions(pairs: Seq<(Seq<char>, VaultEntry)>, folder: Seq<char>, key: SortKey, dir: SortDir)
    ensures
        forall|j: int| 0 <= j < ordered_items(gallery_items(pairs, folder), key, dir).len()
            ==> 0 <= (#[trigger] ordered_items(gallery_items(pairs, folder), key, dir)[j]).0 < pairs.len(),
        ordered_items(gallery_items(pairs, folder), key, dir).len() == gallery_items(pairs, folder).len(),
{
    let src = gallery_items(pairs, folder);
    lemma_gallery_items_positions(pairs, folder);
    let l = ordered_items(src, key, dir);
    if key == SortKey::Age {
        if dir == SortDir::Desc {
            assert forall|j: int| 0 <= j < l.len() implies 0 <= (#[trigger] l[j]).0 < pairs.len() by {
                assert(l[j] == src[src.len() - 1 - j]);
            }
        }
    } else {
        crate::sorting::lemma_sort_items_sorted(src, key, dir);
        assert forall|j: int| 0 <= j < l.len() implies 0 <= (#[trigger] l[j]).0 < pairs.len() by {
            broadcast use vstd::seq_lib::group_to_multiset_ensures;
            assert(l.contains(l[j]));
            assert(l.to_multiset().count(l[j]) > 0);
            assert(src.contains(l[j]));
        }
    }
}

proof fn lemma_gallery_items_positions(pairs: Seq<(Seq<char>, VaultEntry)>, folder: Seq<char>)
    ensures
        forall|j: int| 0 <= j < gallery_items(pairs, folder).len() ==> 0 <= (#[trigger] gallery_items(pairs, folder)[j]).0 < pairs.len(),
    decreases pairs.len(),
{
    if pairs.len() > 0 {
        lemma_gallery_items_positions(pairs.drop_last(), folder);
        let r = gallery_items(pairs.drop_last(), folder);
        assert forall|j: int| 0 <= j < gallery_items(pairs, folder).len() implies 0 <= (#[trigger] gallery_items(pairs, folder)[j]).0 < pairs.len() by {
            if j < r.len() {
                assert(gallery_items(pairs, folder)[j] == r[j]);
            }
        }
    }
}

/// A preview of the file `uuid` started on `s0` (`r` its job): none without an
/// open vault or such a file.
pub open spec fn preview_started(s0: VaultState, s1: VaultState, uuid: Seq<char>, r: Option<PreviewJob>) -> bool {
    &&& s1.browse == s0.browse
    &&& s1.pending_export_uuids == s0.pending_export_uuids
    &&& (match s0.browse {
        None => r is None && s1.phase == s0.phase,
        Some(b) => {
            let ps = b.handle.index.pairs();
            let k = key_pos(ps, uuid);
            &&& k < 0 ==> r is None && s1.phase == s0.phase
            &&& k >= 0 ==> (r matches Some(job)
                && job.blobs_dir == b.handle.blobs_dir
                && job.parts@ == ps[k].1.parts@
                && job.size == ps[k].1.size
                && job.ext@ == crate::text::lower_seq(crate::text::ext_or_empty(ps[k].1.name@))
                && (s1.phase matches Phase::Previewing { filename } && filename@ == ps[k].1.name@))
        },
    })
}

impl VaultState {
    pub fn is_opening(&self) -> (r: bool)
        ensures
            r == self.phase is Opening,
    {
        matches!(self.phase, Phase::Opening(_))
    }

    pub fn is_adding(&self) -> (r: bool)
        ensures
            r == self.phase is Adding,
    {
        matches!(self.phase, Phase::Adding { .. })
    }

    pub fn is_previewing(&self) -> (r: bool)
        ensures
            r == (self.phase is Previewing || self.phase is PreviewReady),
    {
        matches!(self.phase, Phase::Previewing { .. } | Phase::PreviewReady { .. })
    }

    pub fn is_exporting(&self) -> (r: bool)
        ensures
            r == self.phase is Exporting,
    {
        matches!(self.phase, Phase::Exporting { .. })
    }

    pub fn is_loading_gallery(&self) -> (r: bool)
        ensures
            r == self.phase is LoadingGallery,
    {
        matches!(self.phase, Phase::LoadingGallery { .. })
    }

    /// Start decrypting the file `uuid` for preview: the work to do, and the
    /// page waits in `Previewing`. Nothing happens without an open vault or such a file.
    pub fn start_preview(&mut self, uuid: &str) -> (r: Option<PreviewJob>)
        requires
            old(self).wf(),
        ensures
            final(self).wf(),
            preview_started(*old(self), *final(self), uuid@, r),
    {
        let job = match &self.browse {
            None => {
                return None;
            },
            Some(b) => match b.handle.index.get(uuid) {
                None => {
                    return None;
                },
                Some(e) => {
                    let ext = lower_extension(e.name.as_str());
                    let job = PreviewJob {
                        blobs_dir: b.handle.blobs_dir.clone(),
                        parts: copy_parts(&e.parts),
                        size: e.size,
                        ext: from_chars(ext.as_slice()),
                    };
                    let filename = e.name.clone();
                    (job, filename)
                },
            },
        };
        self.phase = Phase::Previewing { filename: job.1 };
        Some(job.0)
    }

    /// Take the result of the preview work.
    pub fn on_preview_msg(&mut self, msg: PreviewWorkerMsg, now: u64)
        requires
            old(self).wf(),
        ensures
            final(self).wf(),
            final(self).pending_export_uuids == old(self).pending_export_uuids,
            match msg {
                PreviewWorkerMsg::Ready(bytes, ext) => (final(self).phase matches Phase::PreviewReady { bytes: b2, ext: e2 }
                    && b2@ == bytes@ && e2@ == ext@) && final(self).browse == old(self).browse,
                PreviewWorkerMsg::Failed(m) => final(self).phase is Browse && match old(self).browse {
                    Some(b) => final(self).browse matches Some(b2) && b2 == (BrowseState { status_msg: b2.status_msg, status_msg_at: Some(now), ..b })
                        && (b2.status_msg matches Some(t) && t@ == "Preview failed: "@ + m@),
                    None => final(self).browse is None,
                },
            },
    {
        match msg {
            PreviewWorkerMsg::Ready(bytes, ext) => {
                self.phase = Phase::PreviewReady { bytes, ext };
            },
            PreviewWorkerMsg::Failed(m) => {
                if let Some(b) = &mut self.browse {
                    b.set_status(crate::fmt::concat("Preview failed: ", m.as_str()), now);
                }
                self.phase = Phase::Browse;
            },
        }
    }
}


/// The (UUID, entry) pairs of a list of new entries.
pub open spec fn entry_pairs(v: Seq<(String, VaultEntry)>) -> Seq<(Seq<char>, VaultEntry)> {
    v.map_values(|p: (String, VaultEntry)| (p.0@, p.1))
}

/// `pairs` with each of `es` inserted in turn (a known UUID keeps its place).
pub open spec fn inserted_all(pairs: Seq<(Seq<char>, VaultEntry)>, es: Seq<(Seq<char>, VaultEntry)>) -> Seq<(Seq<char>, VaultEntry)>
    decreases es.len(),
{
    if es.len() == 0 {
        pairs
    } else {
        inserted(inserted_all(pairs, es.drop_last()), es.last().0, es.last().1)
    }
}

/// The entries of the index with these UUIDs, in that order, those not in
/// the index left out.
pub open spec fn export_entries(pairs: Seq<(Seq<char>, VaultEntry)>, uuids: Seq<Seq<char>>) -> Seq<VaultEntry>
    decreases uuids.len(),
{
    if uuids.len() == 0 {
        Seq::empty()
    } else {
        let prev = export_entries(pairs, uuids.drop_last());
        let k = key_pos(pairs, uuids.last());
        if k >= 0 { prev.push(pairs[k].1) } else { prev }
    }
}

/// `a` holds copies of the entries of `b`, in the same order.
pub open spec fn copies_of(a: Seq<VaultEntry>, b: Seq<VaultEntry>) -> bool {
    &&& a.len() == b.len()
    &&& forall|k: int| 0 <= k < a.len() ==> crate::ops::relocated(#[trigger] a[k], b[k], b[k].name@, b[k].path@)
}

/// The gallery of `folder` started on `s0` (`r` its job): its images in the
/// listing order, or a status message when there are none.
pub open spec fn gallery_started(s0: VaultState, s1: VaultState, folder: Seq<char>, now: u64, r: Option<GalleryJob>) -> bool {
    &&& s1.pending_export_uuids == s0.pending_export_uuids
    &&& (match s0.browse {
        None => r is None && s1.phase == s0.phase && s1.browse is None,
        Some(b) => {
            let ps = b.handle.index.pairs();
            let items = ordered_items(gallery_items(ps, folder), b.sort_key, b.sort_dir);
            &&& items.len() == 0 ==> r is None && s1.phase == s0.phase
                && (s1.browse matches Some(b2) && b2 == (BrowseState { status_msg: b2.status_msg, status_msg_at: Some(now), ..b })
                    && (b2.status_msg matches Some(t) && t@ == "No images found in folder"@))
            &&& items.len() > 0 ==> (r matches Some(job)
                && job.blobs_dir == b.handle.blobs_dir
                && job.items@.len() == items.len()
                && (forall|k: int| 0 <= k < items.len() ==> (#[trigger] job.items@[k]).0@ == ps[items[k].0].1.name@
                    && job.items@[k].1@ == ps[items[k].0].1.parts@)
                && s1.browse == s0.browse
                && (s1.phase matches Phase::LoadingGallery { folder: f2, done, total }
                    && f2@ == folder && done == 0 && total == items.len()))
        },
    })
}

impl VaultState {
    /// Start exporting the files queued in `pending_export_uuids` (the queue is
    /// emptied): the entries found, and the page waits in `Exporting`.
    pub fn start_export(&mut self) -> (r: Option<ExportJob>)
        requires
            old(self).wf(),
        ensures
            final(self).wf(),
            final(self).browse == old(self).browse,
            final(self).pending_export_uuids@.len() == 0,
            (old(self).pending_export_uuids@.len() == 0 || old(self).browse is None)
                ==> r is None && final(self).phase == old(self).phase,
            (old(self).pending_export_uuids@.len() > 0 && old(self).browse is Some) ==> ({
                let b = old(self).browse->0;
                &&& r matches Some(job)
                &&& job.blobs_dir == b.handle.blobs_dir
                &&& copies_of(job.entries@, export_entries(b.handle.index.pairs(), views(old(self).pending_export_uuids@)))
                &&& final(self).phase matches Phase::Exporting { total, done, current_file }
                    && total == job.entries@.len() && done == 0 && current_file@.len() == 0
            }),
    {
        let mut uuids: Vec<String> = Vec::new();
        std::mem::swap(&mut uuids, &mut self.pending_export_uuids);
        if uuids.len() == 0 {
            return None;
        }
        let job = match &self.browse {
            None => {
                return None;
            },
            Some(b) => {
                let ghost pairs = b.handle.index.pairs();
                let ghost us = views(uuids@);
                let mut entries: Vec<VaultEntry> = Vec::new();
                let mut i: usize = 0;
                while i < uuids.len()
                    invariant
                        i <= uuids@.len(),
                        b.handle.index.wf(),
                        pairs == b.handle.index.pairs(),
                        us == views(uuids@),
                        copies_of(entries@, export_entries(pairs, us.subrange(0, i as int))),
                    decreases uuids@.len() - i,
                {
                    let ghost before = entries@;
                    proof {
                        assert(us.subrange(0, i + 1).drop_last() =~= us.subrange(0, i as int));
                        assert(us.subrange(0, i + 1).last() == uuids@[i as int]@);
                    }
                    if let Some(e) = b.handle.index.get(uuids[i].as_str()) {
                        let c = crate::ops::relocate(e, e.name.clone(), e.path.clone());
                        entries.push(c);
                        proof {
                            let want = export_entries(pairs, us.subrange(0, i + 1));
                            assert forall|k: int| 0 <= k < entries@.len() implies
                                crate::ops::relocated(#[trigger] entries@[k], want[k], want[k].name@, want[k].path@) by {
                                if k < before.len() {
                                    assert(entries@[k] == before[k]);
                                }
                            }
                        }
                    }
                    i = i + 1;
                }
                proof {
                    assert(us.subrange(0, uuids@.len() as int) =~= us);
                }
                ExportJob { blobs_dir: b.handle.blobs_dir.clone(), entries }
            },
        };
        self.phase = Phase::Exporting { total: job.entries.len(), done: 0, current_file: String::new() };
        Some(job)
    }

    /// Take a message of the export work; true when the work is over.
    pub fn on_export_msg(&mut self, msg: ExportWorkerMsg, now: u64) -> (finished: bool)
        requires
            old(self).wf(),
        ensures
            final(self).wf(),
            final(self).pending_export_uuids == old(self).pending_export_uuids,
            match msg {
                ExportWorkerMsg::Progress { done, total, filename } => !finished
                    && (final(self).phase matches Phase::Exporting { total: t2, done: d2, current_file: f2 }
                        && t2 == total && d2 == done && f2@ == filename@)
                    && final(self).browse == old(self).browse,
                ExportWorkerMsg::Done(n) => finished && final(self).phase is Browse && match old(self).browse {
                    Some(b) => final(self).browse matches Some(b2) && b2 == (BrowseState { status_msg: b2.status_msg, status_msg_at: Some(now), ..b })
                        && (b2.status_msg matches Some(t) && t@ == count_text("Exported "@, n as nat, " file(s)"@)),
                    None => final(self).browse is None,
                },
                ExportWorkerMsg::Failed(m) => finished && final(self).phase is Browse && match old(self).browse {
                    Some(b) => final(self).browse matches Some(b2) && b2 == (BrowseState { status_msg: b2.status_msg, status_msg_at: Some(now), ..b })
                        && (b2.status_msg matches Some(t) && t@ == "Export failed: "@ + m@),
                    None => final(self).browse is None,
                },
            },
    {
        match msg {
            ExportWorkerMsg::Progress { done, total, filename } => {
                self.phase = Phase::Exporting { done, total, current_file: filename };
                false
            },
            ExportWorkerMsg::Done(n) => {
                if let Some(b) = &mut self.browse {
                    b.set_status(count_message("Exported ", n, " file(s)"), now);
                }
                self.phase = Phase::Browse;
                true
            },
            ExportWorkerMsg::Failed(m) => {
                if let Some(b) = &mut self.browse {
                    b.set_status(crate::fmt::concat("Export failed: ", m.as_str()), now);
                }
                self.phase = Phase::Browse;
                true
            },
        }
    }

    /// Start decrypting the images below `folder` (everywhere for the root),
    /// in the file list's order: the work to do, and the page waits in
    /// `LoadingGallery`. Without images, a status message says so.
    pub fn start_folder_gallery(&mut self, folder: &str, now: u64) -> (r: Option<GalleryJob>)
        requires
            old(self).wf(),
        ensures
            final(self).wf(),
            gallery_started(*old(self), *final(self), folder@, now, r),
    {
        let (job, total) = match &self.browse {
            None => {
                return None;
            },
            Some(b) => {
                let ghost ps = b.handle.index.pairs();
                let list = gallery_item_list(&b.handle, folder);
                let ordered = order_items(list, b.sort_key, b.sort_dir);
                let ghost items = ordered_items(gallery_items(ps, folder@), b.sort_key, b.sort_dir);
                proof {
                    lemma_gallery_positions(ps, folder@, b.sort_key, b.sort_dir);
                }
                let n = b.handle.index.len();
                let mut out: Vec<(String, Vec<VaultPart>)> = Vec::new();
                let mut k: usize = 0;
                while k < ordered.len()
                    invariant
                        n == ps.len(),
                        ps == b.handle.index.pairs(),
                        k <= ordered@.len(),
                        items_view(ordered@) == items,
                        forall|j: int| 0 <= j < items.len() ==> 0 <= (#[trigger] items[j]).0 < n,
                        out@.len() == k,
                        forall|j: int| 0 <= j < k ==> (#[trigger] out@[j]).0@ == ps[items[j].0].1.name@
                            && out@[j].1@ == ps[items[j].0].1.parts@,
                    decreases ordered@.len() - k,
                {
                    let pos = ordered[k].pos;
                    assert(items[k as int] == crate::sorting::item_view(ordered@[k as int]));
                    let (_, e) = b.handle.index.entry_at(pos);
                    let ghost before = out@;
                    out.push((e.name.clone(), copy_parts(&e.parts)));
                    proof {
                        assert forall|j: int| 0 <= j < k + 1 implies (#[trigger] out@[j]).0@ == ps[items[j].0].1.name@
                            && out@[j].1@ == ps[items[j].0].1.parts@ by {
                            if j < k {
                                assert(out@[j] == before[j]);
                            }
                        }
                    }
                    k = k + 1;
                }
                let total = out.len();
                (GalleryJob { blobs_dir: b.handle.blobs_dir.clone(), items: out }, total)
            },
        };
        if total == 0 {
            if let Some(b) = &mut self.browse {
                b.set_status("No images found in folder".to_owned(), now);
            }
            return None;
        }
        self.phase = Phase::LoadingGallery { folder: folder.to_owned(), done: 0, total };
        Some(job)
    }

    /// Start the gallery for the folder under the tree cursor.
    pub fn start_gallery_for_tree_cursor(&mut self, now: u64) -> (r: Option<GalleryJob>)
        requires
            old(self).wf(),
        ensures
            final(self).wf(),
            old(self).browse is None ==> r is None && *final(self) == *old(self),
            old(self).browse matches Some(b) ==> gallery_started(*old(self), *final(self), b.all_folders@[b.tree_cursor as int]@, now, r),
    {
        let folder = match &self.browse {
            Some(b) => b.all_folders[b.tree_cursor].clone(),
            None => {
                return None;
            },
        };
        self.start_folder_gallery(folder.as_str(), now)
    }

    /// Start the gallery for the folder being viewed.
    pub fn start_gallery_for_current_path(&mut self, now: u64) -> (r: Option<GalleryJob>)
        requires
            old(self).wf(),
        ensures
            final(self).wf(),
            old(self).browse is None ==> r is None && *final(self) == *old(self),
            old(self).browse matches Some(b) ==> gallery_started(*old(self), *final(self), b.current_path@, now, r),
    {
        let folder = match &self.browse {
            Some(b) => b.current_path.clone(),
            None => {
                return None;
            },
        };
        self.start_folder_gallery(folder.as_str(), now)
    }

    /// Take a message of the gallery work; true when the work is over.
    pub fn on_gallery_msg(&mut self, msg: GalleryWorkerMsg, now: u64) -> (finished: bool)
        requires
            old(self).wf(),
        ensures
            final(self).wf(),
            final(self).pending_export_uuids == old(self).pending_export_uuids,
            match msg {
                GalleryWorkerMsg::Progress { done, total } => !finished && final(self).browse == old(self).browse
                    && (old(self).phase matches Phase::LoadingGallery { folder, total: t, .. } ==>
                        (final(self).phase matches Phase::LoadingGallery { folder: f2, done: d2, total: t2 }
                            && f2 == folder && d2 == done && t2 == t))
                    && (!(old(self).phase is LoadingGallery) ==> final(self).phase == old(self).phase),
                GalleryWorkerMsg::Ready(images) => finished && final(self).phase == (Phase::GalleryReady { images })
                    && final(self).browse == old(self).browse,
                GalleryWorkerMsg::Failed(m) => finished && final(self).phase is Browse && match old(self).browse {
                    Some(b) => final(self).browse matches Some(b2) && b2 == (BrowseState { status_msg: b2.status_msg, status_msg_at: Some(now), ..b })
                        && (b2.status_msg matches Some(t) && t@ == "Gallery failed: "@ + m@),
                    None => final(self).browse is None,
                },
            },
    {
        match msg {
            GalleryWorkerMsg::Progress { done, total } => {
                if let Phase::LoadingGallery { done: d, .. } = &mut self.phase {
                    *d = done;
                }
                false
            },
            GalleryWorkerMsg::Ready(images) => {
                self.phase = Phase::GalleryReady { images };
                true
            },
            GalleryWorkerMsg::Failed(m) => {
                if let Some(b) = &mut self.browse {
                    b.set_status(crate::fmt::concat("Gallery failed: ", m.as_str()), now);
                }
                self.phase = Phase::Browse;
                true
            },
        }
    }
}


/// `p1` is the form `p0` with `msg` as its error, every field kept.
pub open spec fn with_form_error(p0: Phase, p1: Phase, msg: Seq<char>) -> bool {
    match p0 {
        Phase::Locked { vault_path, password, focus, path_edit_mode, .. } => p1 matches
            Phase::Locked { vault_path: v2, password: p2, focus: f2, path_edit_mode: m2, error: Some(m) }
            && v2 == vault_path && p2 == password && f2 == focus && m2 == path_edit_mode && m@ == msg,
        Phase::Creating { vault_path, blobs_dir, password, focus, path_edit_mode, .. } => p1 matches
            Phase::Creating { vault_path: v2, blobs_dir: b2, password: p2, focus: f2, path_edit_mode: m2, error: Some(m) }
            && v2 == vault_path && b2 == blobs_dir && p2 == password && f2 == focus && m2 == path_edit_mode && m@ == msg,
        Phase::NewFolder { parent, input, .. } => p1 matches Phase::NewFolder { parent: a, input: i, error: Some(m) }
            && a == parent && i == input && m@ == msg,
        _ => p1 == p0,
    }
}

/// The empty new-vault form.
pub open spec fn fresh_creating(p: Phase) -> bool {
    p matches Phase::Creating { vault_path, blobs_dir, password, focus, path_edit_mode, error }
        && vault_path@.len() == 0 && blobs_dir@.len() == 0 && password@.len() == 0 && focus == 0
        && !path_edit_mode && error is None
}

/// The empty open-vault form, with `error` shown.
pub open spec fn fresh_locked(p: Phase, error: Option<Seq<char>>) -> bool {
    p matches Phase::Locked { vault_path, password, focus, path_edit_mode, error: e }
        && vault_path@.len() == 0 && password@.len() == 0 && focus == 0 && !path_edit_mode
        && match (e, error) {
            (Some(x), Some(y)) => x@ == y,
            (None, None) => true,
            _ => false,
        }
}

/// The confirmed creation of the missing vault folder (`r` its job).
pub open spec fn create_dir_confirmed(s0: VaultState, s1: VaultState, r: Option<CreateJob>) -> bool {
    &&& s1.pending_export_uuids == s0.pending_export_uuids
    &&& s1.browse == s0.browse
    &&& !(s0.phase is ConfirmCreateDir) ==> r is None && s1.phase == s0.phase
    &&& (s0.phase matches Phase::ConfirmCreateDir { vault_path, blobs_dir, password } ==>
        (r matches Some(job) && job.vault_path == vault_path && job.password == password
            && (blobs_dir@.len() == 0 ==> job.blobs_dir is None)
            && (blobs_dir@.len() > 0 ==> job.blobs_dir == Some(blobs_dir))
            && s1.phase == Phase::Opening(0)))
}

/// Back from the creation question to the new-vault form.
pub open spec fn create_dir_cancelled(s0: VaultState, s1: VaultState) -> bool {
    &&& s1.pending_export_uuids == s0.pending_export_uuids
    &&& s1.browse == s0.browse
    &&& !(s0.phase is ConfirmCreateDir) ==> s1.phase == s0.phase
    &&& (s0.phase matches Phase::ConfirmCreateDir { vault_path, blobs_dir, password } ==>
        s1.phase == (Phase::Creating { vault_path, blobs_dir, password, focus: 0, path_edit_mode: false, error: None }))
}

/// Unlocking started from the open-vault form of `s0` (`r` its job), or the
/// form's error when a field is empty.
pub open spec fn unlock_started(s0: VaultState, s1: VaultState, r: Option<UnlockJob>) -> bool {
    &&& s1.browse == s0.browse
    &&& s1.pending_export_uuids == s0.pending_export_uuids
    &&& !(s0.phase is Locked) ==> r is None && s1.phase == s0.phase
    &&& (s0.phase matches Phase::Locked { vault_path, password, .. } ==> {
        &&& vault_path@.len() == 0 ==> r is None && with_form_error(s0.phase, s1.phase, "Vault path cannot be empty."@)
        &&& (vault_path@.len() > 0 && password@.len() == 0) ==> r is None
            && with_form_error(s0.phase, s1.phase, "Password cannot be empty."@)
        &&& (vault_path@.len() > 0 && password@.len() > 0) ==> (r matches Some(job)
            && job.vault_path == vault_path && job.password == password && s1.phase == Phase::Opening(0))
    })
}

/// The vault closed: back to the top menu.
pub open spec fn locked_again(s0: VaultState, s1: VaultState) -> bool {
    &&& s1.browse is None
    &&& (s1.phase matches Phase::VaultMenu { cursor } && cursor == 0)
    &&& s1.pending_export_uuids == s0.pending_export_uuids
}

/// The top menu's cursor one entry up.
pub open spec fn menu_moved_up(s0: VaultState, s1: VaultState) -> bool {
    &&& s1.pending_export_uuids == s0.pending_export_uuids
    &&& s1.browse == s0.browse
    &&& (s0.phase matches Phase::VaultMenu { cursor } ==>
        s1.phase == (Phase::VaultMenu { cursor: if cursor > 0 { (cursor - 1) as usize } else { 0 } }))
    &&& !(s0.phase is VaultMenu) ==> s1.phase == s0.phase
}

/// The top menu's cursor one entry down.
pub open spec fn menu_moved_down(s0: VaultState, s1: VaultState) -> bool {
    &&& s1.pending_export_uuids == s0.pending_export_uuids
    &&& s1.browse == s0.browse
    &&& (s0.phase matches Phase::VaultMenu { cursor } ==>
        s1.phase == (Phase::VaultMenu { cursor: if cursor < 1 { (cursor + 1) as usize } else { cursor } }))
    &&& !(s0.phase is VaultMenu) ==> s1.phase == s0.phase
}

/// The top menu's entry opened: the open-vault or the new-vault form.
pub open spec fn menu_selected(s0: VaultState, s1: VaultState) -> bool {
    &&& s1.pending_export_uuids == s0.pending_export_uuids
    &&& s1.browse == s0.browse
    &&& !(s0.phase is VaultMenu) ==> s1.phase == s0.phase
    &&& (s0.phase matches Phase::VaultMenu { cursor } && cursor == 0 ==> fresh_locked(s1.phase, None))
    &&& (s0.phase matches Phase::VaultMenu { cursor } && cursor != 0 ==> fresh_creating(s1.phase))
}

impl VaultState {
    /// Open the empty new-vault form.
    pub fn enter_creating(&mut self)
        ensures
            fresh_creating(final(self).phase),
            final(self).browse == old(self).browse,
            final(self).pending_export_uuids == old(self).pending_export_uuids,
    {
        self.phase = Phase::Creating {
            vault_path: String::new(),
            blobs_dir: String::new(),
            password: String::new(),
            focus: 0,
            path_edit_mode: false,
            error: None,
        };
    }

    /// Fill the vault folder of the new-vault form; focus moves to the blobs subfolder.
    pub fn set_create_path(&mut self, path: &str)
        ensures
            final(self).browse == old(self).browse,
            old(self).phase matches Phase::Creating { blobs_dir, password, path_edit_mode, error, .. } ==> (final(self).phase matches
                Phase::Creating { vault_path: v2, blobs_dir: b2, password: p2, focus: f2, path_edit_mode: m2, error: e2 }
                && v2@ == path@ && b2 == blobs_dir && p2 == password && f2 == 1 && m2 == path_edit_mode && e2 == error),
            !(old(self).phase is Creating) ==> final(self).phase == old(self).phase,
    {
        if let Phase::Creating { vault_path, focus, .. } = &mut self.phase {
            *vault_path = path.to_owned();
            *focus = 1;
        }
    }

    /// Move the focus through the three fields of the new-vault form.
    pub fn advance_create_focus(&mut self)
        ensures
            final(self).browse == old(self).browse,
            old(self).phase matches Phase::Creating { vault_path, blobs_dir, password, focus, path_edit_mode, error } ==> (final(self).phase matches
                Phase::Creating { vault_path: v2, blobs_dir: b2, password: p2, focus: f2, path_edit_mode: m2, error: e2 }
                && v2 == vault_path && b2 == blobs_dir && p2 == password && f2 == (focus + 1) % 3 && m2 == path_edit_mode
                && e2 == error),
            !(old(self).phase is Creating) ==> final(self).phase == old(self).phase,
    {
        if let Phase::Creating { focus, .. } = &mut self.phase {
            let f = *focus;
            *focus = (f % 3 + 1) % 3;
            assert((f % 3 + 1) % 3 == (f + 1) % 3) by (nonlinear_arith);
        }
    }

    /// Show an error on the new-vault form.
    fn set_creating_error(&mut self, msg: &str)
        ensures
            final(self).browse == old(self).browse,
            final(self).pending_export_uuids == old(self).pending_export_uuids,
            old(self).phase is Creating ==> with_form_error(old(self).phase, final(self).phase, msg@),
            !(old(self).phase is Creating) ==> final(self).phase == old(self).phase,
    {
        if let Phase::Creating { error, .. } = &mut self.phase {
            *error = Some(msg.to_owned());
        }
    }

    /// Hand the creation work out and wait in `Opening`.
    fn spawn_create(&mut self, vault_path: String, blobs_dir: String, password: String) -> (job: CreateJob)
        ensures
            final(self).phase == Phase::Opening(0),
            final(self).browse == old(self).browse,
            final(self).pending_export_uuids == old(self).pending_export_uuids,
            job.vault_path == vault_path,
            job.password == password,
            blobs_dir@.len() == 0 ==> job.blobs_dir is None,
            blobs_dir@.len() > 0 ==> job.blobs_dir == Some(blobs_dir),
    {
        self.phase = Phase::Opening(0);
        let blobs = if blobs_dir.unicode_len() == 0 { None } else { Some(blobs_dir) };
        CreateJob { vault_path, blobs_dir: blobs, password }
    }

    /// Check the new-vault form and start creating the vault. An empty folder
    /// or password is an error on the form; so is a path naming a file; a
    /// folder that does not exist is first confirmed.
    pub fn start_create(&mut self, path_is_file: bool, path_exists: bool) -> (r: Option<CreateJob>)
        ensures
            final(self).browse == old(self).browse,
            final(self).pending_export_uuids == old(self).pending_export_uuids,
            !(old(self).phase is Creating) ==> r is None && final(self).phase == old(self).phase,
            old(self).phase matches Phase::Creating { vault_path, blobs_dir, password, focus, .. } ==> {
                &&& vault_path@.len() == 0 ==> r is None && with_form_error(old(self).phase, final(self).phase, "Vault folder cannot be empty."@)
                &&& (vault_path@.len() > 0 && password@.len() == 0) ==> r is None
                    && with_form_error(old(self).phase, final(self).phase, "Password cannot be empty."@)
                &&& (vault_path@.len() > 0 && password@.len() > 0 && path_is_file) ==> r is None
                    && with_form_error(old(self).phase, final(self).phase, "Path points to a file, not a directory."@)
                &&& (vault_path@.len() > 0 && password@.len() > 0 && !path_is_file && !path_exists) ==> r is None
                    && final(self).phase == (Phase::ConfirmCreateDir { vault_path, blobs_dir, password })
                &&& (vault_path@.len() > 0 && password@.len() > 0 && !path_is_file && path_exists) ==>
                    (r matches Some(job) && job.vault_path == vault_path && job.password == password
                        && (blobs_dir@.len() == 0 ==> job.blobs_dir is None)
                        && (blobs_dir@.len() > 0 ==> job.blobs_dir == Some(blobs_dir))
                        && final(self).phase == Phase::Opening(0))
            },
    {
        let (vault_path, blobs_dir, password) = match &self.phase {
            Phase::Creating { vault_path, blobs_dir, password, .. } => (vault_path.clone(), blobs_dir.clone(), password.clone()),
            _ => {
                return None;
            },
        };
        if vault_path.unicode_len() == 0 {
            self.set_creating_error("Vault folder cannot be empty.");
            return None;
        }
        if password.unicode_len() == 0 {
            self.set_creating_error("Password cannot be empty.");
            return None;
        }
        if path_is_file {
            self.set_creating_error("Path points to a file, not a directory.");
            return None;
        }
        if !path_exists {
            self.phase = Phase::ConfirmCreateDir { vault_path, blobs_dir, password };
            return None;
        }
        Some(self.spawn_create(vault_path, blobs_dir, password))
    }

    /// The missing folder is to be created: start creating the vault.
    pub fn confirm_create_dir(&mut self) -> (r: Option<CreateJob>)
        ensures
            create_dir_confirmed(*old(self), *final(self), r),
    {
        let (vault_path, blobs_dir, password) = match &self.phase {
            Phase::ConfirmCreateDir { vault_path, blobs_dir, password } => (vault_path.clone(), blobs_dir.clone(), password.clone()),
            _ => {
                return None;
            },
        };
        Some(self.spawn_create(vault_path, blobs_dir, password))
    }

    /// Back to the new-vault form, keeping what was typed.
    pub fn cancel_create_dir(&mut self)
        ensures
            create_dir_cancelled(*old(self), *final(self)),
    {
        let (vault_path, blobs_dir, password) = match &self.phase {
            Phase::ConfirmCreateDir { vault_path, blobs_dir, password } => (vault_path.clone(), blobs_dir.clone(), password.clone()),
            _ => {
                return;
            },
        };
        self.phase = Phase::Creating { vault_path, blobs_dir, password, focus: 0, path_edit_mode: false, error: None };
    }

    /// Show an error on the open-vault form.
    fn set_locked_error(&mut self, msg: &str)
        ensures
            final(self).browse == old(self).browse,
            final(self).pending_export_uuids == old(self).pending_export_uuids,
            old(self).phase is Locked ==> with_form_error(old(self).phase, final(self).phase, msg@),
            !(old(self).phase is Locked) ==> final(self).phase == old(self).phase,
    {
        if let Phase::Locked { error, .. } = &mut self.phase {
            *error = Some(msg.to_owned());
        }
    }

    /// Check the open-vault form and start unlocking: an empty path or
    /// password is an error on the form.
    pub fn start_unlock(&mut self) -> (r: Option<UnlockJob>)
        ensures
            unlock_started(*old(self), *final(self), r),
    {
        let (vault_path, password) = match &self.phase {
            Phase::Locked { vault_path, password, .. } => (vault_path.clone(), password.clone()),
            _ => {
                return None;
            },
        };
        if vault_path.unicode_len() == 0 {
            self.set_locked_error("Vault path cannot be empty.");
            return None;
        }
        if password.unicode_len() == 0 {
            self.set_locked_error("Password cannot be empty.");
            return None;
        }
        self.phase = Phase::Opening(0);
        Some(UnlockJob { vault_path, password })
    }

    /// Take a message of the unlock or create work; true when the work is over.
    /// An opened or created vault is browsed from its root; a failure goes back
    /// to an empty open-vault form showing the error.
    pub fn on_worker_msg(&mut self, msg: WorkerMsg) -> (finished: bool)
        requires
            old(self).wf(),
            msg matches WorkerMsg::Opened(h) ==> h.index.wf(),
            msg matches WorkerMsg::Created(h) ==> h.index.wf(),
        ensures
            final(self).wf(),
            final(self).pending_export_uuids == old(self).pending_export_uuids,
            match msg {
                WorkerMsg::Progress(p) => !finished && final(self).phase == Phase::Opening(p)
                    && final(self).browse == old(self).browse,
                WorkerMsg::Opened(h) => finished && final(self).phase is Browse
                    && (final(self).browse matches Some(b) && fresh_browser(b, h)),
                WorkerMsg::Created(h) => finished && final(self).phase is Browse
                    && (final(self).browse matches Some(b) && fresh_browser(b, h)),
                WorkerMsg::Failed(m) => finished && fresh_locked(final(self).phase, Some(m@))
                    && final(self).browse == old(self).browse,
            },
    {
        match msg {
            WorkerMsg::Progress(p) => {
                self.phase = Phase::Opening(p);
                false
            },
            WorkerMsg::Opened(h) => {
                self.browse = Some(BrowseState::new(h));
                self.phase = Phase::Browse;
                true
            },
            WorkerMsg::Created(h) => {
                self.browse = Some(BrowseState::new(h));
                self.phase = Phase::Browse;
                true
            },
            WorkerMsg::Failed(m) => {
                self.phase = Phase::Locked {
                    vault_path: String::new(),
                    password: String::new(),
                    focus: 0,
                    path_edit_mode: false,
                    error: Some(m),
                };
                true
            },
        }
    }

    /// Clear a status message shown for `secs` seconds at time `now`.
    pub fn tick(&mut self, now: u64, secs: u64)
        requires
            old(self).wf(),
        ensures
            final(self).wf(),
            final(self).phase == old(self).phase,
            final(self).pending_export_uuids == old(self).pending_export_uuids,
            old(self).browse is None ==> final(self).browse is None,
            old(self).browse matches Some(b) ==> final(self).browse == Some(status_ticked(b, now, secs)),
    {
        if let Some(b) = &mut self.browse {
            b.tick_status(now, secs);
        }
    }

    /// A status message is waiting to be cleared.
    pub fn has_pending_status(&self) -> (r: bool)
        ensures
            r == (self.browse matches Some(b) && b.status_msg_at is Some),
    {
        match &self.browse {
            Some(b) => b.has_pending_status(),
            None => false,
        }
    }

    /// Close the vault and go back to the menu.
    pub fn lock(&mut self)
        ensures
            final(self).wf(),
            locked_again(*old(self), *final(self)),
    {
        self.browse = None;
        self.phase = Phase::VaultMenu { cursor: 0 };
    }

    /// Menu cursor up.
    pub fn menu_up(&mut self)
        ensures
            menu_moved_up(*old(self), *final(self)),
    {
        if let Phase::VaultMenu { cursor } = &mut self.phase {
            if *cursor > 0 {
                *cursor = *cursor - 1;
            }
        }
    }

    /// Menu cursor down (two items).
    pub fn menu_down(&mut self)
        ensures
            menu_moved_down(*old(self), *final(self)),
    {
        if let Phase::VaultMenu { cursor } = &mut self.phase {
            if *cursor < 1 {
                *cursor = *cursor + 1;
            }
        }
    }

    /// Choose the menu item under the cursor: 0 opens the open-vault form, any
    /// other the new-vault form.
    pub fn menu_select(&mut self)
        ensures
            menu_selected(*old(self), *final(self)),
    {
        let cursor = match &self.phase {
            Phase::VaultMenu { cursor } => *cursor,
            _ => {
                return;
            },
        };
        if cursor == 0 {
            self.phase = Phase::Locked {
                vault_path: String::new(),
                password: String::new(),
                focus: 0,
                path_edit_mode: false,
                error: None,
            };
        } else {
            self.enter_creating();
        }
    }
}


/// `char::is_whitespace`: the Unicode `White_Space` characters.
pub open spec fn is_space(c: char) -> bool {
    ('\u{9}' <= c && c <= '\u{d}') || c == ' ' || c == '\u{85}' || c == '\u{a0}' || c == '\u{1680}'
        || ('\u{2000}' <= c && c <= '\u{200a}') || c == '\u{2028}' || c == '\u{2029}' || c == '\u{202f}'
        || c == '\u{205f}' || c == '\u{3000}'
}

/// `str::trim`: `s` without leading and trailing white space.
pub open spec fn trim_spaces(s: Seq<char>, a: int, b: int) -> bool {
    &&& 0 <= a <= b <= s.len()
    &&& forall|i: int| 0 <= i < a ==> is_space(#[trigger] s[i])
    &&& forall|i: int| b <= i < s.len() ==> is_space(#[trigger] s[i])
    &&& a < b ==> !is_space(s[a]) && !is_space(s[b - 1])
}

/// Whether `c` is white space.
pub fn char_is_space(c: char) -> (r: bool)
    ensures
        r == is_space(c),
{
    ('\u{9}' <= c && c <= '\u{d}') || c == ' ' || c == '\u{85}' || c == '\u{a0}' || c == '\u{1680}'
        || ('\u{2000}' <= c && c <= '\u{200a}') || c == '\u{2028}' || c == '\u{2029}' || c == '\u{202f}'
        || c == '\u{205f}' || c == '\u{3000}'
}

/// `s` without leading and trailing white space (`str::trim`).
pub fn trim(s: &str) -> (r: String)
    ensures
        exists|a: int, b: int| trim_spaces(s@, a, b) && r@ == s@.subrange(a, b),
{
    let v = to_chars(s);
    let mut a: usize = 0;
    while a < v.len() && char_is_space(v[a])
        invariant
            a <= v@.len(),
            forall|i: int| 0 <= i < a ==> is_space(#[trigger] v@[i]),
        decreases v@.len() - a,
    {
        a = a + 1;
    }
    let mut b: usize = v.len();
    while b > a && char_is_space(v[b - 1])
        invariant
            a <= b <= v@.len(),
            forall|i: int| b <= i < v@.len() ==> is_space(#[trigger] v@[i]),
        decreases b,
    {
        b = b - 1;
    }
    let t = crate::text::copy_range(v.as_slice(), a, b);
    proof {
        assert(trim_spaces(s@, a as int, b as int));
    }
    from_chars(t.as_slice())
}

/// Copy of `v` without the strings in `drop`, in order.
pub fn without(v: &Vec<String>, drop: &[String]) -> (r: Vec<String>)
    ensures
        views(r@) == views(v@).filter(|x: Seq<char>| !views(drop@).contains(x)),
{
    let mut r: Vec<String> = Vec::new();
    let mut i: usize = 0;
    while i < v.len()
        invariant
            i <= v@.len(),
            views(r@) == views(v@).subrange(0, i as int).filter(|x: Seq<char>| !views(drop@).contains(x)),
        decreases v@.len() - i,
    {
        let mut j: usize = 0;
        let mut hit = false;
        while j < drop.len()
            invariant
                i < v@.len(),
                j <= drop@.len(),
                hit == exists|k: int| 0 <= k < j && views(drop@)[k] == v@[i as int]@,
            decreases drop@.len() - j,
        {
            assert(views(drop@)[j as int] == drop@[j as int]@);
            if str_eq(drop[j].as_str(), v[i].as_str()) {
                hit = true;
            }
            j = j + 1;
        }
        let ghost before = r@;
        proof {
            let w = views(v@).subrange(0, i + 1);
            assert(w.drop_last() =~= views(v@).subrange(0, i as int));
            assert(w.last() == v@[i as int]@);
            assert(hit == views(drop@).contains(v@[i as int]@)) by {
                if views(drop@).contains(v@[i as int]@) {
                    let k = choose|k: int| 0 <= k < views(drop@).len() && views(drop@)[k] == v@[i as int]@;
                    assert(0 <= k < j);
                }
            }
            views(v@).subrange(0, i as int).lemma_filter_push(v@[i as int]@, |x: Seq<char>| !views(drop@).contains(x));
            assert(views(v@).subrange(0, i as int).push(v@[i as int]@) =~= w);
        }
        if !hit {
            r.push(v[i].clone());
            assert(views(r@) =~= views(before).push(v@[i as int]@));
        }
        i = i + 1;
    }
    assert(views(v@).subrange(0, v@.len() as int) =~= views(v@));
    r
}


/// Whether `x` is one of the strings in `v`.
pub fn contains_str(v: &[String], x: &str) -> (r: bool)
    ensures
        r == views(v@).contains(x@),
{
    let mut j: usize = 0;
    while j < v.len()
        invariant
            j <= v@.len(),
            forall|k: int| 0 <= k < j ==> views(v@)[k] != x@,
        decreases v@.len() - j,
    {
        assert(views(v@)[j as int] == v@[j as int]@);
        if str_eq(v[j].as_str(), x) {
            return true;
        }
        j = j + 1;
    }
    false
}

/// Sorted, repeat-free copy of `v` without the strings in `drop`.
pub fn remove_all_sorted(v: &Vec<String>, drop: &[String]) -> (r: Vec<String>)
    ensures
        strictly_sorted(views(r@)),
        views(r@).to_set() == views(v@).to_set().difference(views(drop@).to_set()),
{
    let mut r: Vec<String> = Vec::new();
    let mut i: usize = 0;
    assert(views(r@).to_set() =~= views(v@).subrange(0, 0).to_set().difference(views(drop@).to_set()));
    while i < v.len()
        invariant
            i <= v@.len(),
            strictly_sorted(views(r@)),
            views(r@).to_set() == views(v@).subrange(0, i as int).to_set().difference(views(drop@).to_set()),
        decreases v@.len() - i,
    {
        let ghost before = views(r@).to_set();
        let x = v[i].clone();
        proof {
            broadcast use vstd::seq_lib::group_seq_properties;
            assert(views(v@).subrange(0, i + 1) =~= views(v@).subrange(0, i as int).push(x@));
            assert(views(v@)[i as int] == x@);
        }
        if !contains_str(drop, x.as_str()) {
            insert_sorted_unique(&mut r, x);
            proof {
                broadcast use vstd::seq_lib::group_seq_properties;
                assert(views(r@).to_set() =~= views(v@).subrange(0, i + 1).to_set().difference(views(drop@).to_set()));
            }
        } else {
            proof {
                broadcast use vstd::seq_lib::group_seq_properties;
                assert(views(r@).to_set() =~= views(v@).subrange(0, i + 1).to_set().difference(views(drop@).to_set()));
            }
        }
        i = i + 1;
    }
    assert(views(v@).subrange(0, v@.len() as int) =~= views(v@));
    r
}

/// The blob paths owned by the entries with these UUIDs, in order.
pub open spec fn owned_blob_paths(pairs: Seq<(Seq<char>, VaultEntry)>, blobs_dir: Seq<char>, uuids: Seq<Seq<char>>) -> Seq<Seq<char>>
    decreases uuids.len(),
{
    if uuids.len() == 0 {
        Seq::empty()
    } else {
        let rest = owned_blob_paths(pairs, blobs_dir, uuids.drop_last());
        let k = key_pos(pairs, uuids.last());
        if k >= 0 {
            rest + crate::vault_file::owned_blobs(pairs[k].1).map_values(|u: Seq<char>| crate::paths::joined(blobs_dir, u))
        } else {
            rest
        }
    }
}

/// Paths of the blob files (parts and thumbnail) of the entries with these UUIDs.
pub fn blob_paths_of(handle: &VaultHandle, uuids: &[String]) -> (r: Vec<String>)
    requires
        handle.index.wf(),
    ensures
        views(r@) == owned_blob_paths(handle.index.pairs(), handle.blobs_dir@, views(uuids@)),
{
    let mut r: Vec<String> = Vec::new();
    let mut i: usize = 0;
    while i < uuids.len()
        invariant
            i <= uuids@.len(),
            handle.index.wf(),
            views(r@) == owned_blob_paths(handle.index.pairs(), handle.blobs_dir@, views(uuids@).subrange(0, i as int)),
        decreases uuids@.len() - i,
    {
        let ghost us = views(uuids@).subrange(0, i + 1);
        assert(us.drop_last() =~= views(uuids@).subrange(0, i as int));
        assert(us.last() == uuids@[i as int]@);
        if let Some(e) = handle.index.get(uuids[i].as_str()) {
            let owned = entry_blob_uuids(e);
            let ghost base = views(r@);
            let mut j: usize = 0;
            while j < owned.len()
                invariant
                    j <= owned@.len(),
                    views(r@) == base + views(owned@).subrange(0, j as int).map_values(|u: Seq<char>| crate::paths::joined(handle.blobs_dir@, u)),
                decreases owned@.len() - j,
            {
                let p = handle.blob_path(owned[j].as_str());
                let ghost before = views(r@);
                r.push(p);
                proof {
                    assert(views(r@) =~= before.push(p@));
                    assert(views(owned@).subrange(0, j + 1).map_values(|u: Seq<char>| crate::paths::joined(handle.blobs_dir@, u))
                        =~= views(owned@).subrange(0, j as int).map_values(|u: Seq<char>| crate::paths::joined(handle.blobs_dir@, u)).push(p@));
                }
                j = j + 1;
            }
            assert(views(owned@).subrange(0, owned@.len() as int) =~= views(owned@));
        }
        i = i + 1;
    }
    assert(views(uuids@).subrange(0, uuids@.len() as int) =~= views(uuids@));
    r
}

/// Deleting files removes every blob file they own: for each UUID asked for
/// that is in the index, each of its parts' blobs and its thumbnail blob, joined
/// to the blobs directory, is among the paths to remove.
pub proof fn lemma_deleted_files_lose_their_blobs(
    pairs: Seq<(Seq<char>, VaultEntry)>,
    blobs_dir: Seq<char>,
    uuids: Seq<Seq<char>>,
    i: int,
    p: int,
)
    requires
        crate::index::keys_unique(pairs),
        0 <= i < uuids.len(),
        0 <= p < pairs.len(),
        pairs[p].0 == uuids[i],
    ensures
        forall|k: int| 0 <= k < pairs[p].1.parts@.len() ==> owned_blob_paths(pairs, blobs_dir, uuids).contains(
            crate::paths::joined(blobs_dir, #[trigger] pairs[p].1.parts@[k].uuid@)),
        pairs[p].1.thumbnail_uuid matches Some(t) ==> owned_blob_paths(pairs, blobs_dir, uuids).contains(
            crate::paths::joined(blobs_dir, t@)),
    decreases uuids.len(),
{
    let r = owned_blob_paths(pairs, blobs_dir, uuids);
    let rest = owned_blob_paths(pairs, blobs_dir, uuids.drop_last());
    let e = pairs[p].1;
    if i == uuids.len() - 1 {
        assert(pairs[p].0 == uuids.last());
        let kp = key_pos(pairs, uuids.last());
        assert(kp == p);
        let own = crate::vault_file::owned_blobs(e).map_values(|u: Seq<char>| crate::paths::joined(blobs_dir, u));
        assert(r == rest + own);
        let np = e.parts@.len() as int;
        assert forall|k: int| 0 <= k < e.parts@.len() implies r.contains(
            crate::paths::joined(blobs_dir, #[trigger] e.parts@[k].uuid@)) by {
            assert(crate::vault_file::owned_blobs(e)[k] == e.parts@[k].uuid@);
            assert(r[rest.len() + k] == crate::paths::joined(blobs_dir, e.parts@[k].uuid@));
        }
        if let Some(t) = e.thumbnail_uuid {
            assert(crate::vault_file::owned_blobs(e)[np] == t@);
            assert(r[rest.len() + np] == crate::paths::joined(blobs_dir, t@));
        }
    } else {
        lemma_deleted_files_lose_their_blobs(pairs, blobs_dir, uuids.drop_last(), i, p);
        assert(uuids.drop_last()[i] == uuids[i]);
        assert(r.subrange(0, rest.len() as int) =~= rest);
        assert forall|x: Seq<char>| rest.contains(x) implies r.contains(x) by {
            let m = choose|m: int| 0 <= m < rest.len() && rest[m] == x;
            assert(r[m] == x);
        }
        assert forall|k: int| 0 <= k < e.parts@.len() implies r.contains(
            crate::paths::joined(blobs_dir, #[trigger] e.parts@[k].uuid@)) by {
            assert(rest.contains(crate::paths::joined(blobs_dir, e.parts@[k].uuid@)));
        }
    }
}

/// Deleting files removes no other blob file: every path to remove is a blob
/// of a file asked for, joined to the blobs directory.
pub proof fn lemma_deleted_blobs_belong_to_deleted_files(
    pairs: Seq<(Seq<char>, VaultEntry)>,
    blobs_dir: Seq<char>,
    uuids: Seq<Seq<char>>,
    m: int,
)
    requires
        0 <= m < owned_blob_paths(pairs, blobs_dir, uuids).len(),
    ensures
        exists|i: int, p: int, u: Seq<char>| {
            &&& 0 <= i < uuids.len()
            &&& 0 <= p < pairs.len()
            &&& pairs[p].0 == #[trigger] uuids[i]
            &&& #[trigger] crate::vault_file::owned_blobs(pairs[p].1).contains(u)
            &&& owned_blob_paths(pairs, blobs_dir, uuids)[m] == crate::paths::joined(blobs_dir, u)
        },
    decreases uuids.len(),
{
    let r = owned_blob_paths(pairs, blobs_dir, uuids);
    let rest = owned_blob_paths(pairs, blobs_dir, uuids.drop_last());
    if m < rest.len() {
        lemma_deleted_blobs_belong_to_deleted_files(pairs, blobs_dir, uuids.drop_last(), m);
        let (i, p, u) = choose|i: int, p: int, u: Seq<char>| {
            &&& 0 <= i < uuids.drop_last().len()
            &&& 0 <= p < pairs.len()
            &&& pairs[p].0 == #[trigger] uuids.drop_last()[i]
            &&& #[trigger] crate::vault_file::owned_blobs(pairs[p].1).contains(u)
            &&& rest[m] == crate::paths::joined(blobs_dir, u)
        };
        assert(r[m] == rest[m]);
        assert(uuids.drop_last()[i] == uuids[i]);
    } else {
        let p = key_pos(pairs, uuids.last());
        assert(p >= 0);
        let own = crate::vault_file::owned_blobs(pairs[p].1);
        let k = m - rest.len();
        assert(r[m] == crate::paths::joined(blobs_dir, own[k]));
        assert(own.contains(own[k]));
        assert(pairs[p].0 == uuids[uuids.len() - 1]);
    }
}

/// The deletion the caller is to finish: remove these blob files, then save.
pub struct DeleteWork {
    pub blob_paths: Vec<String>,
    pub count: usize,
}

/// The status message after a save.
pub open spec fn save_message(reason: SaveReason, result: Result<(), VaultError>) -> Seq<char> {
    let tail = match result {
        Ok(()) => " — saved"@,
        Err(e) => " — save failed: "@ + e.message_spec(),
    };
    match reason {
        SaveReason::Deleted(n) => count_text("Deleted "@, n as nat, " item(s)"@ + tail),
        SaveReason::Moved(n) => count_text("Moved "@, n as nat, " item(s)"@ + tail),
        SaveReason::Added(n) => count_text("Added "@, n as nat, " file(s)"@ + tail),
        SaveReason::Explicit => match result {
            Ok(()) => "Vault saved."@,
            Err(e) => "Save failed: "@ + e.message_spec(),
        },
    }
}

impl VaultState {
    /// Record how saving the index went: the status message, whether changes
    /// remain unsaved, and (after a delete, move or add) the refreshed lists,
    /// back in `Browse`.
    pub fn finish_save(&mut self, reason: SaveReason, result: Result<(), VaultError>, now: u64)
        requires
            old(self).wf(),
        ensures
            final(self).wf(),
            final(self).pending_export_uuids == old(self).pending_export_uuids,
            old(self).browse is None ==> final(self).browse is None && final(self).phase == old(self).phase,
            old(self).browse is Some ==> ({
                let b = old(self).browse->0;
                &&& final(self).browse matches Some(b2)
                &&& final(self).browse->0.handle == b.handle
                &&& final(self).browse->0.status_msg matches Some(t) && t@ == save_message(reason, result)
                &&& result is Ok ==> !final(self).browse->0.dirty
                &&& (result is Err && !(reason is Explicit)) ==> final(self).browse->0.dirty
                &&& (result is Err && reason is Explicit) ==> final(self).browse->0.dirty == b.dirty
                &&& reason is Explicit ==> final(self).phase == old(self).phase
                    && final(self).browse->0 == (BrowseState {
                        status_msg: final(self).browse->0.status_msg,
                        status_msg_at: Some(now),
                        dirty: final(self).browse->0.dirty,
                        ..b
                    })
                &&& !(reason is Explicit) ==> final(self).phase is Browse
                    && refreshed(BrowseState {
                        status_msg: final(self).browse->0.status_msg,
                        status_msg_at: Some(now),
                        dirty: final(self).browse->0.dirty,
                        ..b
                    }, final(self).browse->0)
            }),
    {
        let explicit = matches!(reason, SaveReason::Explicit);
        let b = match &mut self.browse {
            Some(b) => b,
            None => {
                return;
            },
        };
        let msg: String = match reason {
            SaveReason::Explicit => match &result {
                Ok(()) => "Vault saved.".to_owned(),
                Err(e) => crate::fmt::concat("Save failed: ", e.message().as_str()),
            },
            SaveReason::Deleted(n) => save_count_message("Deleted ", n, " item(s)", &result),
            SaveReason::Moved(n) => save_count_message("Moved ", n, " item(s)", &result),
            SaveReason::Added(n) => save_count_message("Added ", n, " file(s)", &result),
        };
        match &result {
            Ok(()) => {
                b.dirty = false;
            },
            Err(_) => {
                if !explicit {
                    b.dirty = true;
                }
            },
        }
        b.set_status(msg, now);
        if !explicit {
            let ghost mid = *b;
            b.refresh();
            proof {
                assert(mid == (BrowseState {
                    status_msg: b.status_msg,
                    status_msg_at: Some(now),
                    dirty: b.dirty,
                    ..old(self).browse.unwrap()
                }));
            }
            self.phase = Phase::Browse;
        }
    }
}

/// `pre`, the count, `noun`, then how saving went.
fn save_count_message(pre: &str, n: usize, noun: &str, result: &Result<(), VaultError>) -> (r: String)
    ensures
        r@ == count_text(pre@, n as nat, noun@ + match result {
            Ok(()) => " — saved"@,
            Err(e) => " — save failed: "@ + e.message_spec(),
        }),
{
    let mut r = count_message(pre, n, noun);
    match result {
        Ok(()) => push_str(&mut r, " — saved"),
        Err(e) => {
            push_str(&mut r, " — save failed: ");
            let m = e.message();
            push_str(&mut r, m.as_str());
        },
    }
    assert(r@ =~= count_text(pre@, n as nat, noun@ + match result {
        Ok(()) => " — saved"@,
        Err(e) => " — save failed: "@ + e.message_spec(),
    }));
    r
}


/// What adding files does next.
pub enum AddStep {
    /// More messages are coming.
    Continue,
    /// The work is over; nothing to save.
    Finished,
    /// The new entries are in the index: save it, then `finish_save(Added(n))`.
    Save(usize),
}

/// Move the files `moves` (UUID, new name) into folder `dest`, in order.
fn apply_moves(handle: &mut VaultHandle, moves: &Vec<(String, String)>, dest: &str)
    requires
        old(handle).index.wf(),
    ensures
        final(handle).index.wf(),
        crate::handle::same_vault(*old(handle), *final(handle)),
        final(handle).index.pairs().len() == old(handle).index.pairs().len(),
        forall|i: int| 0 <= i < old(handle).index.pairs().len() ==> (#[trigger] final(handle).index.pairs()[i]).0 == old(handle).index.pairs()[i].0,
        forall|i: int| 0 <= i < old(handle).index.pairs().len()
            && !(exists|k: int| 0 <= k < moves@.len() && (#[trigger] moves@[k]).0@ == old(handle).index.pairs()[i].0)
            ==> final(handle).index.pairs()[i] == old(handle).index.pairs()[i],
        forall|i: int| 0 <= i < old(handle).index.pairs().len()
            && (exists|k: int| 0 <= k < moves@.len() && (#[trigger] moves@[k]).0@ == old(handle).index.pairs()[i].0)
            ==> (#[trigger] final(handle).index.pairs()[i]).1.path@ == dest@
                && exists|k: int| 0 <= k < moves@.len() && (#[trigger] moves@[k]).0@ == old(handle).index.pairs()[i].0
                    && final(handle).index.pairs()[i].1.name@ == moves@[k].1@,
{
    let ghost start = handle.index.pairs();
    let mut k: usize = 0;
    while k < moves.len()
        invariant
            k <= moves@.len(),
            handle.index.wf(),
            crate::handle::same_vault(*old(handle), *handle),
            start == old(handle).index.pairs(),
            handle.index.pairs().len() == start.len(),
            forall|i: int| 0 <= i < start.len() ==> (#[trigger] handle.index.pairs()[i]).0 == start[i].0,
            forall|i: int| 0 <= i < start.len()
                && !(exists|m: int| 0 <= m < k && (#[trigger] moves@[m]).0@ == start[i].0)
                ==> handle.index.pairs()[i] == start[i],
            forall|i: int| 0 <= i < start.len()
                && (exists|m: int| 0 <= m < k && (#[trigger] moves@[m]).0@ == start[i].0)
                ==> (#[trigger] handle.index.pairs()[i]).1.path@ == dest@
                    && exists|m: int| 0 <= m < k && (#[trigger] moves@[m]).0@ == start[i].0
                        && handle.index.pairs()[i].1.name@ == moves@[m].1@,
        decreases moves@.len() - k,
    {
        let ghost before = handle.index.pairs();
        let (u, name) = (moves[k].0.as_str(), moves[k].1.clone());
        let found = handle.index.relocate_entry(u, name, dest.to_owned());
        proof {
            let after = handle.index.pairs();
            let p = key_pos(before, moves@[k as int].0@);
            assert forall|i: int| 0 <= i < start.len() implies (#[trigger] after[i]).0 == start[i].0 by {
                if found && i == p {
                } else {
                    assert(after[i] == before[i]);
                }
            }
            assert forall|i: int| 0 <= i < start.len()
                && !(exists|m: int| 0 <= m < k + 1 && (#[trigger] moves@[m]).0@ == start[i].0)
                implies after[i] == start[i] by {
                assert(!(exists|m: int| 0 <= m < k && (#[trigger] moves@[m]).0@ == start[i].0));
                if found && i == p {
                    assert(before[p].0 == moves@[k as int].0@);
                    assert(moves@[k as int].0@ == start[i].0);
                }
            }
            assert forall|i: int| 0 <= i < start.len()
                && (exists|m: int| 0 <= m < k + 1 && (#[trigger] moves@[m]).0@ == start[i].0)
                implies (#[trigger] after[i]).1.path@ == dest@
                    && exists|m: int| 0 <= m < k + 1 && (#[trigger] moves@[m]).0@ == start[i].0
                        && after[i].1.name@ == moves@[m].1@ by {
                if start[i].0 == moves@[k as int].0@ {
                    // The last move of this UUID decides.
                    assert(before[i].0 == moves@[k as int].0@);
                    assert(p == i) by {
                        assert(0 <= p < before.len() && before[p].0 == before[i].0);
                    }
                } else {
                    assert(exists|m: int| 0 <= m < k && (#[trigger] moves@[m]).0@ == start[i].0);
                    if found {
                        assert(i != p);
                    }
                    assert(after[i] == before[i]);
                }
            }
        }
        k = k + 1;
    }
}

/// The rename form opened on `s0`: for the one file acted on (the selection,
/// else the file under the cursor), with its name; otherwise nothing changes.
pub open spec fn rename_opened(s0: VaultState, s1: VaultState) -> bool {
    &&& s1.browse == s0.browse
    &&& s1.pending_export_uuids == s0.pending_export_uuids
    &&& match s0.browse {
        Some(b) => {
            let sel = b.effective_spec();
            let ps = b.handle.index.pairs();
            if sel.len() == 1 && key_pos(ps, sel[0]) >= 0 {
                s1.phase matches Phase::Rename { uuid, input } && uuid@ == sel[0] && input@ == ps[key_pos(ps, sel[0])].1.name@
            } else {
                s1.phase == s0.phase
            }
        },
        None => s1.phase == s0.phase,
    }
}

/// The delete confirmation opened on `s0` for the files acted on, when there
/// are any; otherwise nothing changes.
pub open spec fn delete_opened(s0: VaultState, s1: VaultState) -> bool {
    &&& s1.browse == s0.browse
    &&& s1.pending_export_uuids == s0.pending_export_uuids
    &&& match s0.browse {
        Some(b) => if b.effective_spec().len() > 0 {
            s1.phase matches Phase::ConfirmDelete { uuids } && views(uuids@) == b.effective_spec()
        } else {
            s1.phase == s0.phase
        },
        None => s1.phase == s0.phase,
    }
}

/// The move picker opened on `s0` for the files acted on, its cursor on the
/// current folder (the first folder when that is not listed); otherwise
/// nothing changes.
pub open spec fn move_opened(s0: VaultState, s1: VaultState) -> bool {
    &&& s1.browse == s0.browse
    &&& s1.pending_export_uuids == s0.pending_export_uuids
    &&& match s0.browse {
        Some(b) => if b.effective_spec().len() > 0 {
            let p = crate::browse::position_in(views(b.all_folders@), b.current_path@);
            s1.phase matches Phase::Move { uuids, tree_cursor } && views(uuids@) == b.effective_spec()
                && tree_cursor == (if p >= 0 { p } else { 0 })
        } else {
            s1.phase == s0.phase
        },
        None => s1.phase == s0.phase,
    }
}

/// The rename form confirmed on `s0`.
pub open spec fn rename_confirmed(s0: VaultState, s1: VaultState, now: u64) -> bool {
    &&& s1.pending_export_uuids == s0.pending_export_uuids
    &&& !(s0.phase is Rename) || s0.browse is None ==> s1.phase == s0.phase
        && s1.browse == s0.browse
    &&& (s0.phase matches Phase::Rename { uuid, input } ==> (s0.browse matches Some(b) ==> {
        let ps = b.handle.index.pairs();
        let clash = crate::resolve::taken(ps, uuid@, b.current_path@, input@);
        &&& s1.phase is Browse
        &&& s1.browse matches Some(b2)
        &&& clash ==> s1.browse->0 == (BrowseState { status_msg: s1.browse->0.status_msg, status_msg_at: Some(now), ..b })
            && (s1.browse->0.status_msg matches Some(t) && t@ == "'"@ + input@ + "' already exists in this folder"@)
        &&& (!clash && input@.len() == 0) ==> s1.browse->0 == b
        &&& (!clash && input@.len() > 0) ==> refreshed(BrowseState { handle: s1.browse->0.handle, dirty: true, ..b }, s1.browse->0)
            && crate::handle::same_vault(b.handle, s1.browse->0.handle)
            && s1.browse->0.handle.index.pairs().len() == ps.len()
            && (key_pos(ps, uuid@) >= 0 ==> crate::ops::relocated(
                s1.browse->0.handle.index.pairs()[key_pos(ps, uuid@)].1,
                ps[key_pos(ps, uuid@)].1, input@, ps[key_pos(ps, uuid@)].1.path@))
            && (forall|i: int| 0 <= i < ps.len() && i != key_pos(ps, uuid@)
                ==> s1.browse->0.handle.index.pairs()[i] == ps[i])
    }))
}

/// The delete confirmation confirmed on `s0` (`r` the blob files to remove).
pub open spec fn delete_confirmed(s0: VaultState, s1: VaultState, r: Option<DeleteWork>) -> bool {
    &&& s1.pending_export_uuids == s0.pending_export_uuids
    &&& s1.phase == s0.phase
    &&& !(s0.phase is ConfirmDelete) || s0.browse is None ==> r is None && s1.browse == s0.browse
    &&& (s0.phase matches Phase::ConfirmDelete { uuids } ==> (s0.browse matches Some(b) ==> {
        let ps = b.handle.index.pairs();
        &&& r matches Some(w)
        &&& r->0.count == uuids@.len()
        &&& views(r->0.blob_paths@) == owned_blob_paths(ps, b.handle.blobs_dir@, views(uuids@))
        &&& s1.browse matches Some(b2)
        &&& refreshed(BrowseState {
            handle: s1.browse->0.handle,
            selected_uuids: s1.browse->0.selected_uuids,
            clipboard: s1.browse->0.clipboard,
            ..b
        }, s1.browse->0)
        &&& crate::handle::same_vault(b.handle, s1.browse->0.handle)
        &&& s1.browse->0.handle.index.pairs() == ps.filter(|p: (Seq<char>, VaultEntry)| !views(uuids@).contains(p.0))
        &&& forall|i: int| 0 <= i < s1.browse->0.handle.index.pairs().len()
            ==> !views(uuids@).contains(#[trigger] s1.browse->0.handle.index.pairs()[i].0)
        &&& forall|i: int| 0 <= i < ps.len() && !views(uuids@).contains(#[trigger] ps[i].0)
            ==> s1.browse->0.handle.index.pairs().contains(ps[i])
        &&& views(s1.browse->0.selected_uuids@).to_set() == views(b.selected_uuids@).to_set().difference(views(uuids@).to_set())
        &&& views(s1.browse->0.clipboard@) == views(b.clipboard@).filter(|x: Seq<char>| !views(uuids@).contains(x))
    }))
}

/// The files acted on (the selection, else the file under the cursor) moved
/// to the clipboard, the selection cleared and the count shown; nothing
/// changes when there are none.
pub open spec fn selection_cut(s0: VaultState, s1: VaultState, now: u64) -> bool {
    &&& s1.phase == s0.phase
    &&& s1.pending_export_uuids == s0.pending_export_uuids
    &&& match s0.browse {
        None => s1.browse is None,
        Some(b) => if b.effective_spec().len() == 0 {
            s1.browse == s0.browse
        } else {
            s1.browse matches Some(b2)
                && b2 == (BrowseState {
                    clipboard: b2.clipboard,
                    selected_uuids: b2.selected_uuids,
                    status_msg: b2.status_msg,
                    status_msg_at: Some(now),
                    ..b
                })
                && views(b2.clipboard@) == b.effective_spec()
                && b2.selected_uuids@.len() == 0
                && (b2.status_msg matches Some(t)
                    && t@ == count_text(Seq::empty(), b.effective_spec().len(), " item(s) cut — press p to paste"@))
        },
    }
}

/// The clipboard's files moved into the current folder (`r` their count).
pub open spec fn pasted(s0: VaultState, s1: VaultState, now: u64, r: Option<usize>) -> bool {
    &&& s1.phase == s0.phase
    &&& s0.browse is None ==> r is None && s1.browse is None
    &&& (s0.browse matches Some(b) ==> (b.clipboard@.len() == 0 ==> r is None
        && (s1.browse matches Some(b2) && b2 == (BrowseState { status_msg: b2.status_msg, status_msg_at: Some(now), ..b })
            && (b2.status_msg matches Some(t) && t@ == "Nothing in clipboard"@))))
    &&& (s0.browse matches Some(b) ==> ((b.clipboard@.len() > 0 && b.handle.index.pairs().len() >= 4294967295) ==>
        r is None && s1.browse == s0.browse))
    &&& (s0.browse matches Some(b) ==> ((b.clipboard@.len() > 0 && b.handle.index.pairs().len() < 4294967295) ==> ({
        let ps = b.handle.index.pairs();
        let dest = b.current_path@;
        &&& r == Some(b.clipboard@.len() as usize)
        &&& s1.browse matches Some(b2)
        &&& s1.browse->0.clipboard@.len() == 0
        &&& refreshed(BrowseState { handle: s1.browse->0.handle, clipboard: s1.browse->0.clipboard, ..b }, s1.browse->0)
        &&& crate::handle::same_vault(b.handle, s1.browse->0.handle)
        &&& s1.browse->0.handle.index.pairs().len() == ps.len()
        &&& forall|i: int| 0 <= i < ps.len() ==> {
            let q = #[trigger] s1.browse->0.handle.index.pairs()[i];
            &&& q.0 == ps[i].0
            &&& views(b.clipboard@).contains(ps[i].0) ==> q.1.path@ == dest
                && crate::resolve::is_resolved_name(ps, ps[i].0, dest, q.1.name@)
            &&& !views(b.clipboard@).contains(ps[i].0) ==> q == ps[i]
        }
    })))
}

/// The move picker confirmed on `s0` (`r` the count of files moved).
pub open spec fn move_confirmed(s0: VaultState, s1: VaultState, r: Option<usize>) -> bool {
    &&& s1.phase == s0.phase
    &&& s1.pending_export_uuids == s0.pending_export_uuids
    &&& !(s0.phase is Move) || s0.browse is None ==> r is None && s1.browse == s0.browse
    &&& (s0.browse matches Some(b) && b.handle.index.pairs().len() >= 4294967295) ==> r is None && s1.browse == s0.browse
    &&& (s0.phase matches Phase::Move { uuids, tree_cursor } ==> (s0.browse matches Some(b) ==> (
        b.handle.index.pairs().len() < 4294967295 ==> ({
        let ps = b.handle.index.pairs();
        let dest = if tree_cursor < b.all_folders@.len() { b.all_folders@[tree_cursor as int]@ } else { Seq::empty() };
        &&& r == Some(uuids@.len() as usize)
        &&& s1.browse matches Some(b2)
        &&& s1.browse->0.selected_uuids@.len() == 0
        &&& refreshed(BrowseState { handle: s1.browse->0.handle, selected_uuids: s1.browse->0.selected_uuids, ..b }, s1.browse->0)
        &&& crate::handle::same_vault(b.handle, s1.browse->0.handle)
        &&& s1.browse->0.handle.index.pairs().len() == ps.len()
        &&& forall|i: int| 0 <= i < ps.len() ==> {
            let q = #[trigger] s1.browse->0.handle.index.pairs()[i];
            &&& q.0 == ps[i].0
            &&& views(uuids@).contains(ps[i].0) ==> q.1.path@ == dest
                && crate::resolve::is_resolved_name(ps, ps[i].0, dest, q.1.name@)
            &&& !views(uuids@).contains(ps[i].0) ==> q == ps[i]
        }
    }))))
}

impl VaultState {
    /// Open the rename form for the one file selected (or under the cursor).
    pub fn enter_rename(&mut self)
        requires
            old(self).wf(),
        ensures
            final(self).wf(),
            rename_opened(*old(self), *final(self)),
    {
        let next = match &self.browse {
            None => {
                return;
            },
            Some(b) => {
                let sel = b.effective_selection();
                if sel.len() != 1 {
                    return;
                }
                match b.entry(sel[0].as_str()) {
                    Some(e) => Phase::Rename { uuid: sel[0].clone(), input: e.name.clone() },
                    None => {
                        return;
                    },
                }
            },
        };
        self.phase = next;
    }

    /// Rename the file of the rename form, unless another file of the current
    /// folder has the new name (a status message says so) or the name is
    /// empty; back to `Browse`.
    pub fn confirm_rename(&mut self, now: u64)
        requires
            old(self).wf(),
        ensures
            final(self).wf(),
            rename_confirmed(*old(self), *final(self), now),
    {
        let (uuid, new_name) = match &self.phase {
            Phase::Rename { uuid, input } => (uuid.clone(), input.clone()),
            _ => {
                return;
            },
        };
        let b = match &mut self.browse {
            Some(b) => b,
            None => {
                return;
            },
        };
        let cp = b.current_path.clone();
        if crate::resolve::is_taken(&b.handle, uuid.as_str(), cp.as_str(), new_name.as_str()) {
            let msg = wrap_message("'", new_name.as_str(), "' already exists in this folder");
            b.set_status(msg, now);
        } else if new_name.unicode_len() > 0 {
            let path = match b.handle.index.get(uuid.as_str()) {
                Some(e) => Some(e.path.clone()),
                None => None,
            };
            if let Some(p) = path {
                b.handle.index.relocate_entry(uuid.as_str(), new_name, p);
            }
            b.dirty = true;
            let ghost mid = *b;
            b.refresh();
            proof {
                assert(mid == (BrowseState { handle: b.handle, dirty: true, ..old(self).browse.unwrap() }));
            }
        }
        self.phase = Phase::Browse;
    }

    /// Ask before deleting the selected files (or the one under the cursor).
    pub fn enter_delete(&mut self)
        requires
            old(self).wf(),
        ensures
            final(self).wf(),
            delete_opened(*old(self), *final(self)),
    {
        let uuids = match &self.browse {
            None => {
                return;
            },
            Some(b) => b.effective_selection(),
        };
        if uuids.len() == 0 {
            return;
        }
        self.phase = Phase::ConfirmDelete { uuids };
    }

    /// Delete the files of the confirmation from the index (and from the
    /// selection and the clipboard): the blob files to remove, after which the
    /// caller saves the index and calls `finish_save(Deleted(count))`.
    pub fn confirm_delete(&mut self) -> (r: Option<DeleteWork>)
        requires
            old(self).wf(),
        ensures
            final(self).wf(),
            delete_confirmed(*old(self), *final(self), r),
    {
        let uuids = match &self.phase {
            Phase::ConfirmDelete { uuids } => {
                let mut c: Vec<String> = Vec::new();
                let mut i: usize = 0;
                while i < uuids.len()
                    invariant
                        i <= uuids@.len(),
                        views(c@) == views(uuids@).subrange(0, i as int),
                    decreases uuids@.len() - i,
                {
                    let ghost before = c@;
                    c.push(uuids[i].clone());
                    assert(views(c@) =~= views(before).push(uuids@[i as int]@));
                    assert(views(uuids@).subrange(0, i + 1) =~= views(uuids@).subrange(0, i as int).push(uuids@[i as int]@));
                    i = i + 1;
                }
                assert(views(uuids@).subrange(0, uuids@.len() as int) =~= views(uuids@));
                c
            },
            _ => {
                return None;
            },
        };
        let b = match &mut self.browse {
            Some(b) => b,
            None => {
                return None;
            },
        };
        let blob_paths = blob_paths_of(&b.handle, uuids.as_slice());
        remove_entries(&mut b.handle.index, uuids.as_slice());
        b.selected_uuids = remove_all_sorted(&b.selected_uuids, uuids.as_slice());
        b.clipboard = without(&b.clipboard, uuids.as_slice());
        let ghost mid = *b;
        b.refresh();
        proof {
            assert(mid == (BrowseState {
                handle: b.handle,
                selected_uuids: b.selected_uuids,
                clipboard: b.clipboard,
                ..old(self).browse.unwrap()
            }));
        }
        Some(DeleteWork { blob_paths, count: uuids.len() })
    }

    /// Cut the selected files (or the one under the cursor) to the clipboard.
    pub fn cut_selection(&mut self, now: u64)
        requires
            old(self).wf(),
        ensures
            final(self).wf(),
            selection_cut(*old(self), *final(self), now),
    {
        if let Some(b) = &mut self.browse {
            let sel = b.effective_selection();
            if sel.len() == 0 {
                return;
            }
            let n = sel.len();
            b.clipboard = sel;
            b.selected_uuids = Vec::new();
            let msg = count_message("", n, " item(s) cut — press p to paste");
            proof {
                reveal_strlit("");
                assert(views(b.clipboard@).len() == n);
            }
            b.set_status(msg, now);
        }
    }

    /// Move the clipboard's files into the current folder under the first free
    /// names and empty the clipboard; the caller then saves and calls
    /// `finish_save(Moved(n))`. An empty clipboard only says so. (An index of
    /// 2^32 - 1 entries or more takes no move.)
    pub fn paste(&mut self, now: u64) -> (r: Option<usize>)
        requires
            old(self).wf(),
        ensures
            final(self).wf(),
            pasted(*old(self), *final(self), now, r),
    {
        let b = match &mut self.browse {
            Some(b) => b,
            None => {
                return None;
            },
        };
        if b.clipboard.len() == 0 {
            b.set_status("Nothing in clipboard".to_owned(), now);
            return None;
        }
        if b.handle.index.len() >= 4294967295 {
            return None;
        }
        let dest = b.current_path.clone();
        let n = b.clipboard.len();
        let ghost ps = b.handle.index.pairs();
        let ghost clip = views(b.clipboard@);
        let resolved = resolve_names(b.clipboard.as_slice(), dest.as_str(), &b.handle);
        apply_moves(&mut b.handle, &resolved, dest.as_str());
        proof {
            let fin = b.handle.index.pairs();
            assert forall|i: int| 0 <= i < ps.len() implies {
                let q = #[trigger] fin[i];
                &&& q.0 == ps[i].0
                &&& clip.contains(ps[i].0) ==> q.1.path@ == dest@
                    && crate::resolve::is_resolved_name(ps, ps[i].0, dest@, q.1.name@)
                &&& !clip.contains(ps[i].0) ==> q == ps[i]
            } by {
                if clip.contains(ps[i].0) {
                    let m = choose|m: int| 0 <= m < clip.len() && clip[m] == ps[i].0;
                    assert(resolved@[m].0@ == ps[i].0);
                    let k = choose|k: int| 0 <= k < resolved@.len() && (#[trigger] resolved@[k]).0@ == ps[i].0
                        && fin[i].1.name@ == resolved@[k].1@;
                    assert(resolved@[k].0@ == clip[k]);
                } else {
                    assert(!(exists|k: int| 0 <= k < resolved@.len() && (#[trigger] resolved@[k]).0@ == ps[i].0)) by {
                        if exists|k: int| 0 <= k < resolved@.len() && (#[trigger] resolved@[k]).0@ == ps[i].0 {
                            let k = choose|k: int| 0 <= k < resolved@.len() && (#[trigger] resolved@[k]).0@ == ps[i].0;
                            assert(clip[k] == ps[i].0);
                        }
                    }
                }
            }
        }
        b.clipboard = Vec::new();
        let ghost mid = *b;
        b.refresh();
        proof {
            assert(mid == (BrowseState { handle: b.handle, clipboard: b.clipboard, ..old(self).browse.unwrap() }));
        }
        Some(n)
    }

    /// Open the folder picker for moving the selected files (or the one under
    /// the cursor), starting at the current folder.
    pub fn enter_move(&mut self)
        requires
            old(self).wf(),
        ensures
            final(self).wf(),
            move_opened(*old(self), *final(self)),
    {
        let next = match &self.browse {
            None => {
                return;
            },
            Some(b) => {
                let uuids = b.effective_selection();
                if uuids.len() == 0 {
                    return;
                }
                let tree_cursor = match b.current_folder_position() {
                    Some(t) => t,
                    None => 0,
                };
                Phase::Move { uuids, tree_cursor }
            },
        };
        self.phase = next;
    }

    /// Move the files of the picker into the folder under its cursor, under
    /// the first free names; the caller then saves and calls
    /// `finish_save(Moved(n))`. (An index of 2^32 - 1 entries or more takes no move.)
    pub fn confirm_move(&mut self) -> (r: Option<usize>)
        requires
            old(self).wf(),
        ensures
            final(self).wf(),
            move_confirmed(*old(self), *final(self), r),
    {
        let uuids: Vec<String> = match &self.phase {
            Phase::Move { uuids, .. } => {
                let mut c: Vec<String> = Vec::new();
                let mut i: usize = 0;
                while i < uuids.len()
                    invariant
                        i <= uuids@.len(),
                        views(c@) == views(uuids@).subrange(0, i as int),
                    decreases uuids@.len() - i,
                {
                    let ghost before = c@;
                    c.push(uuids[i].clone());
                    assert(views(c@) =~= views(before).push(uuids@[i as int]@));
                    assert(views(uuids@).subrange(0, i + 1) =~= views(uuids@).subrange(0, i as int).push(uuids@[i as int]@));
                    i = i + 1;
                }
                assert(views(uuids@).subrange(0, uuids@.len() as int) =~= views(uuids@));
                c
            },
            _ => {
                return None;
            },
        };
        let tree_cursor = match &self.phase {
            Phase::Move { tree_cursor, .. } => *tree_cursor,
            _ => 0,
        };
        let b = match &mut self.browse {
            Some(b) => b,
            None => {
                return None;
            },
        };
        if b.handle.index.len() >= 4294967295 {
            return None;
        }
        let dest: String = if tree_cursor < b.all_folders.len() { b.all_folders[tree_cursor].clone() } else { String::new() };
        let ghost ps = b.handle.index.pairs();
        let ghost us = views(uuids@);
        let resolved = resolve_names(uuids.as_slice(), dest.as_str(), &b.handle);
        apply_moves(&mut b.handle, &resolved, dest.as_str());
        proof {
            let fin = b.handle.index.pairs();
            assert forall|i: int| 0 <= i < ps.len() implies {
                let q = #[trigger] fin[i];
                &&& q.0 == ps[i].0
                &&& us.contains(ps[i].0) ==> q.1.path@ == dest@
                    && crate::resolve::is_resolved_name(ps, ps[i].0, dest@, q.1.name@)
                &&& !us.contains(ps[i].0) ==> q == ps[i]
            } by {
                if us.contains(ps[i].0) {
                    let m = choose|m: int| 0 <= m < us.len() && us[m] == ps[i].0;
                    assert(resolved@[m].0@ == ps[i].0);
                    let k = choose|k: int| 0 <= k < resolved@.len() && (#[trigger] resolved@[k]).0@ == ps[i].0
                        && fin[i].1.name@ == resolved@[k].1@;
                    assert(resolved@[k].0@ == us[k]);
                } else {
                    assert(!(exists|k: int| 0 <= k < resolved@.len() && (#[trigger] resolved@[k]).0@ == ps[i].0)) by {
                        if exists|k: int| 0 <= k < resolved@.len() && (#[trigger] resolved@[k]).0@ == ps[i].0 {
                            let k = choose|k: int| 0 <= k < resolved@.len() && (#[trigger] resolved@[k]).0@ == ps[i].0;
                            assert(us[k] == ps[i].0);
                        }
                    }
                }
            }
        }
        b.selected_uuids = Vec::new();
        let ghost mid = *b;
        b.refresh();
        proof {
            assert(mid == (BrowseState { handle: b.handle, selected_uuids: b.selected_uuids, ..old(self).browse.unwrap() }));
        }
        Some(uuids.len())
    }
}


/// The new-folder form opened under the current folder.
pub open spec fn new_folder_opened(s0: VaultState, s1: VaultState) -> bool {
    &&& s1.pending_export_uuids == s0.pending_export_uuids
    &&& s1.browse == s0.browse
    &&& s0.browse is None ==> s1.phase == s0.phase
    &&& (s0.browse matches Some(b) ==> (s1.phase matches Phase::NewFolder { parent, input, error }
        && parent == b.current_path && input@.len() == 0 && error is None))
}

/// The new-folder form confirmed on `s0`.
pub open spec fn new_folder_confirmed(s0: VaultState, s1: VaultState, now: u64) -> bool {
    &&& s1.pending_export_uuids == s0.pending_export_uuids
    &&& !(s0.phase is NewFolder) ==> s1.phase == s0.phase && s1.browse == s0.browse
    &&& (s0.phase matches Phase::NewFolder { parent, input, .. } ==> exists|a: int, z: int| {
        let name = #[trigger] input@.subrange(a, z);
        let full = full_path_spec(parent@, name);
        &&& trim_spaces(input@, a, z)
        &&& name.len() == 0 ==> s1.browse == s0.browse
            && with_form_error(s0.phase, s1.phase, "Folder name cannot be empty."@)
        &&& (name.len() > 0 && name.contains('/')) ==> s1.browse == s0.browse
            && with_form_error(s0.phase, s1.phase, "Folder name cannot contain '/'."@)
        &&& (name.len() > 0 && !name.contains('/') && s0.browse is None) ==> s1.phase is Browse
        &&& (name.len() > 0 && !name.contains('/') && s0.browse is Some
            && views(s0.browse->0.all_folders@).contains(full)) ==> s1.browse == s0.browse
            && with_form_error(s0.phase, s1.phase, "A folder named '"@ + name + "' already exists here."@)
        &&& (name.len() > 0 && !name.contains('/') && s0.browse is Some
            && !views(s0.browse->0.all_folders@).contains(full)) ==> s1.phase is Browse
            && (s1.browse matches Some(b2)
                && refreshed(BrowseState {
                    extra_folders: b2.extra_folders,
                    status_msg: b2.status_msg,
                    status_msg_at: Some(now),
                    ..s0.browse->0
                }, b2)
                && views(b2.extra_folders@).to_set() == views(s0.browse->0.extra_folders@).to_set().insert(full)
                && views(b2.all_folders@).contains(full)
                && (b2.status_msg matches Some(t)
                    && t@ == "Folder '"@ + name + "' created — move files here with m or x/p"@))
    })
}

impl VaultState {
    /// Open the new-folder form under the current folder.
    pub fn enter_new_folder(&mut self)
        requires
            old(self).wf(),
        ensures
            final(self).wf(),
            new_folder_opened(*old(self), *final(self)),
    {
        let parent = match &self.browse {
            Some(b) => b.current_path.clone(),
            None => {
                return;
            },
        };
        self.phase = Phase::NewFolder { parent, input: String::new(), error: None };
    }

    /// Show an error on the new-folder form.
    fn set_new_folder_error(&mut self, msg: String)
        ensures
            final(self).browse == old(self).browse,
            final(self).pending_export_uuids == old(self).pending_export_uuids,
            old(self).phase matches Phase::NewFolder { parent, input, .. } ==> final(self).phase == (Phase::NewFolder { parent, input, error: Some(msg) }),
            !(old(self).phase is NewFolder) ==> final(self).phase == old(self).phase,
    {
        if let Phase::NewFolder { error, .. } = &mut self.phase {
            *error = Some(msg);
        }
    }

    /// Create the folder named on the form (trimmed) under its parent: it is
    /// kept for this session until files are moved into it. An empty name, a
    /// name with `/`, or an existing folder is an error on the form.
    pub fn confirm_new_folder(&mut self, now: u64)
        requires
            old(self).wf(),
        ensures
            final(self).wf(),
            new_folder_confirmed(*old(self), *final(self), now),
    {
        let (parent, input) = match &self.phase {
            Phase::NewFolder { parent, input, .. } => (parent.clone(), input.clone()),
            _ => {
                return;
            },
        };
        let name = trim(input.as_str());
        if name.unicode_len() == 0 {
            self.set_new_folder_error("Folder name cannot be empty.".to_owned());
            return;
        }
        let nv = to_chars(name.as_str());
        let mut i: usize = 0;
        while i < nv.len() && nv[i] != '/'
            invariant
                i <= nv@.len(),
                forall|j: int| 0 <= j < i ==> nv@[j] != '/',
            decreases nv@.len() - i,
        {
            i = i + 1;
        }
        if i < nv.len() {
            assert(name@.contains('/')) by {
                assert(nv@[i as int] == '/');
            }
            self.set_new_folder_error("Folder name cannot contain '/'.".to_owned());
            return;
        }
        assert(!name@.contains('/'));
        let full = full_path(parent.as_str(), name.as_str());
        let b = match &mut self.browse {
            Some(b) => b,
            None => {
                self.phase = Phase::Browse;
                return;
            },
        };
        if contains_str(b.all_folders.as_slice(), full.as_str()) {
            let msg = wrap_message("A folder named '", name.as_str(), "' already exists here.");
            self.set_new_folder_error(msg);
            return;
        }
        insert_sorted_unique(&mut b.extra_folders, full.clone());
        let msg = wrap_message("Folder '", name.as_str(), "' created — move files here with m or x/p");
        b.set_status(msg, now);
        let ghost mid = *b;
        b.refresh();
        proof {
            let b2 = self.browse->0;
            assert(views(b2.all_folders@).to_set().contains(full@));
            assert(mid == (BrowseState {
                extra_folders: b2.extra_folders,
                status_msg: b2.status_msg,
                status_msg_at: Some(now),
                ..old(self).browse.unwrap()
            }));
        }
        self.phase = Phase::Browse;
    }

    /// Start adding `total` chosen files to the current folder: the work to
    /// do, and the page waits in `Adding`. Nothing happens without an open
    /// vault or files.
    pub fn start_add(&mut self, total: usize) -> (r: Option<AddJob>)
        requires
            old(self).wf(),
        ensures
            final(self).wf(),
            final(self).browse == old(self).browse,
            (old(self).browse is None || total == 0) ==> r is None && final(self).phase == old(self).phase,
            old(self).browse matches Some(b) ==> (total > 0 ==> (r matches Some(job) && job.blobs_dir == b.handle.blobs_dir
                && job.virtual_path == b.current_path && job.total == total
                && (final(self).phase matches Phase::Adding { total: t, done, current_file }
                    && t == total && done == 0 && current_file@.len() == 0))),
    {
        let job = match &self.browse {
            None => {
                return None;
            },
            Some(b) => {
                if total == 0 {
                    return None;
                }
                AddJob { blobs_dir: b.handle.blobs_dir.clone(), virtual_path: b.current_path.clone(), total }
            },
        };
        self.phase = Phase::Adding { total, done: 0, current_file: String::new() };
        Some(job)
    }

    /// Take a message of the add work. When all files are sealed their entries
    /// go into the index, and the caller is to save it.
    pub fn on_add_msg(&mut self, msg: AddWorkerMsg, now: u64) -> (r: AddStep)
        requires
            old(self).wf(),
        ensures
            final(self).wf(),
            final(self).pending_export_uuids == old(self).pending_export_uuids,
            match msg {
                AddWorkerMsg::Progress { done, total, filename } => r is Continue
                    && (final(self).phase matches Phase::Adding { total: t, done: d, current_file: f }
                        && t == total && d == done && f@ == filename@)
                    && final(self).browse == old(self).browse,
                AddWorkerMsg::Done(entries) => match old(self).browse {
                    None => r is Finished && final(self).phase is Browse && final(self).browse is None,
                    Some(b) => (r matches AddStep::Save(n) && n == entries@.len())
                        && final(self).phase == old(self).phase
                        && (final(self).browse matches Some(b2)
                            && crate::handle::same_vault(b.handle, b2.handle)
                            && b2.handle.index.pairs() == inserted_all(b.handle.index.pairs(), entry_pairs(entries@))
                            && refreshed(BrowseState { handle: b2.handle, ..b }, b2)
                            && forall|k: int| 0 <= k < entries@.len() ==>
                                key_pos(b2.handle.index.pairs(), (#[trigger] entries@[k]).0@) >= 0),
                },
                AddWorkerMsg::Failed(m) => r is Finished && final(self).phase is Browse && match old(self).browse {
                    None => final(self).browse is None,
                    Some(b) => final(self).browse matches Some(b2) && b2 == (BrowseState { status_msg: b2.status_msg, status_msg_at: Some(now), ..b })
                        && (b2.status_msg matches Some(t) && t@ == m@),
                },
            },
    {
        match msg {
            AddWorkerMsg::Progress { done, total, filename } => {
                self.phase = Phase::Adding { total, done, current_file: filename };
                AddStep::Continue
            },
            AddWorkerMsg::Done(entries) => {
                let b = match &mut self.browse {
                    Some(b) => b,
                    None => {
                        self.phase = Phase::Browse;
                        return AddStep::Finished;
                    },
                };
                let n = entries.len();
                let ghost es = entries@;
                let ghost start = b.handle.index.pairs();
                let mut rest = entries;
                let mut k: usize = 0;
                while rest.len() > 0
                    invariant
                        b.handle.index.wf(),
                        b.handle.root == old(self).browse->0.handle.root,
                        b.handle.blobs_dir == old(self).browse->0.handle.blobs_dir,
                        b.handle.password == old(self).browse->0.handle.password,
                        b.handle.index.version == old(self).browse->0.handle.index.version,
                        b.handle.index.blobs_dir == old(self).browse->0.handle.index.blobs_dir,
                        start == old(self).browse->0.handle.index.pairs(),
                        b.handle.index.pairs() == inserted_all(start, entry_pairs(es.subrange(0, k as int))),
                        *b == (BrowseState { handle: b.handle, ..old(self).browse->0 }),
                        strictly_sorted(views(b.selected_uuids@)),
                        strictly_sorted(views(b.extra_folders@)),
                        k + rest@.len() == es.len(),
                        es.len() == n,
                        rest@ == es.subrange(k as int, es.len() as int),
                        forall|j: int| 0 <= j < k ==> key_pos(b.handle.index.pairs(), (#[trigger] es[j]).0@) >= 0,
                    decreases rest@.len(),
                {
                    let (u, e) = rest.remove(0);
                    let ghost before = b.handle.index.pairs();
                    let ghost uv = u@;
                    b.handle.index.insert(u, e);
                    proof {
                        let after = b.handle.index.pairs();
                        assert(es[k as int].0@ == uv);
                        assert forall|j: int| 0 <= j < k + 1 implies key_pos(after, (#[trigger] es[j]).0@) >= 0 by {
                            let key = es[j].0@;
                            if key == uv {
                                if key_pos(before, uv) >= 0 {
                                    assert(after[key_pos(before, uv)].0 == uv);
                                } else {
                                    assert(after[before.len() as int].0 == uv);
                                }
                            } else {
                                let p = key_pos(before, key);
                                assert(before[p].0 == key);
                                if key_pos(before, uv) >= 0 {
                                    assert(after[p] == before[p] || p == key_pos(before, uv));
                                    assert(after[p].0 == key);
                                } else {
                                    assert(after[p] == before[p]);
                                }
                            }
                        }
                        assert(rest@ =~= es.subrange(k + 1, es.len() as int));
                        assert(entry_pairs(es.subrange(0, k + 1)).drop_last() =~= entry_pairs(es.subrange(0, k as int)));
                    }
                    k = k + 1;
                }
                proof {
                    assert(es.subrange(0, k as int) =~= es);
                }
                b.refresh();
                AddStep::Save(n)
            },
            AddWorkerMsg::Failed(m) => {
                if let Some(b) = &mut self.browse {
                    b.set_status(m, now);
                }
                self.phase = Phase::Browse;
                AddStep::Finished
            },
        }
    }
}

} // verus!
