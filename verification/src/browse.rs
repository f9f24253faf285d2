//! What the vault browser shows: the folder tree, the current folder's
//! sub-folders and files in the chosen order, the cursors, the selection and
//! the clipboard.

use vstd::prelude::*;
use vstd::string::*;

use crate::folders::{child_names, child_names_of, collect_all_folders, folder_item_list, folder_items, all_folders_set};
use crate::handle::VaultHandle;
use crate::index::{key_pos, VaultEntry};
use crate::order::{compare_strs, insert_sorted_unique, strictly_sorted, views, seq_lt};
use crate::paths::{full_path, full_path_spec, parent_folder, parent_of, folder_display_name_spec, folder_depth_spec, count_char};
use crate::sorting::{item_view, items_view, sort_by_key, sort_items, SortDir, SortItem, SortKey};
use crate::text::{last_index_in, lemma_last_index_of, copy_range, from_chars, str_eq, to_chars};
use crate::text;

verus! {

/// Which panel has the keyboard.
#[derive(Clone, Copy, Debug, PartialEq, Eq, Structural)]
pub enum PanelFocus {
    Tree,
    List,
}

/// The state of the vault browser.
pub struct BrowseState {
    pub handle: VaultHandle,
    /// The folder being viewed (empty for the root).
    pub current_path: String,
    /// Names of the sub-folders of `current_path`, sorted.
    pub folders: Vec<String>,
    /// UUIDs of the files in `current_path`, in the chosen order.
    pub file_uuids: Vec<String>,
    /// UUIDs toggled for an operation, sorted and without repeats.
    pub selected_uuids: Vec<String>,
    /// Cursor in the list of sub-folders followed by files.
    pub list_cursor: usize,
    /// Every folder of the vault, the root included, sorted.
    pub all_folders: Vec<String>,
    /// Cursor in the folder tree.
    pub tree_cursor: usize,
    pub panel_focus: PanelFocus,
    /// UUIDs cut for pasting elsewhere.
    pub clipboard: Vec<String>,
    /// The index has changes not yet saved.
    pub dirty: bool,
    /// One-line feedback for the hint bar.
    pub status_msg: Option<String>,
    /// When `status_msg` was set, in milliseconds of the caller's clock.
    pub status_msg_at: Option<u64>,
    /// Folders made in this session that no entry implies yet.
    pub extra_folders: Vec<String>,
    pub sort_key: SortKey,
    pub sort_dir: SortDir,
}

/// The files of `path` in the order the browser lists them: by age the index
/// order (reversed when descending), otherwise the stable sort by the key.
pub open spec fn listed_items(pairs: Seq<(Seq<char>, VaultEntry)>, path: Seq<char>, key: SortKey, dir: SortDir) -> Seq<(int, Seq<char>, u64, u8)> {
    if key == SortKey::Age {
        if dir == SortDir::Desc {
            folder_items(pairs, path).reverse()
        } else {
            folder_items(pairs, path)
        }
    } else {
        sort_items(folder_items(pairs, path), key, dir)
    }
}

/// The UUIDs of listed items.
pub open spec fn listed_uuids(pairs: Seq<(Seq<char>, VaultEntry)>, items: Seq<(int, Seq<char>, u64, u8)>) -> Seq<Seq<char>> {
    items.map_values(|it: (int, Seq<char>, u64, u8)| pairs[it.0].0)
}

/// The list length the cursor is kept within (saturating at `usize::MAX`).
pub open spec fn list_len_spec(folders: nat, files: nat) -> int {
    if folders + files <= usize::MAX { (folders + files) as int } else { usize::MAX as int }
}

/// The position of `x` in `s`, if any.
pub open spec fn position_in(s: Seq<Seq<char>>, x: Seq<char>) -> int {
    if exists|i: int| 0 <= i < s.len() && s[i] == x {
        choose|i: int| 0 <= i < s.len() && s[i] == x
    } else {
        -1
    }
}

/// `s` is a fresh browser of `handle`: at the root, sorted by name ascending,
/// the list focused, nothing selected, cut or changed, no message.
pub open spec fn fresh_browser(s: BrowseState, handle: VaultHandle) -> bool {
    &&& s.wf()
    &&& s.handle == handle
    &&& s.current_path@ == Seq::<char>::empty()
    &&& s.selected_uuids@.len() == 0
    &&& s.list_cursor == 0
    &&& s.panel_focus == PanelFocus::List
    &&& s.clipboard@.len() == 0
    &&& !s.dirty
    &&& s.status_msg is None
    &&& s.status_msg_at is None
    &&& s.extra_folders@.len() == 0
    &&& s.sort_key == SortKey::Name
    &&& s.sort_dir == SortDir::Asc
    &&& s.tree_cursor == position_in(views(s.all_folders@), Seq::empty())
}

/// `b` at time `now` (milliseconds): its status message cleared once it has
/// been shown for `secs` whole seconds.
pub open spec fn status_ticked(b: BrowseState, now: u64, secs: u64) -> BrowseState {
    let expired = match b.status_msg_at {
        Some(t) => (if now >= t { (now - t) / 1000 } else { 0 }) >= secs,
        None => false,
    };
    if expired { BrowseState { status_msg: None, status_msg_at: None, ..b } } else { b }
}

/// Opening the sub-folder under the list cursor and then going up again shows
/// the folder that was left, listed as before: the same sub-folders, files
/// and folder tree, with the selection cleared and the cursor on the first row.
pub proof fn lemma_open_then_up(b0: BrowseState, b1: BrowseState, b2: BrowseState)
    requires
        b0.wf(),
        b0.list_cursor < b0.folders@.len(),
        opened_folder(b0, b1, full_path_spec(b0.current_path@, b0.folders@[b0.list_cursor as int]@)),
        opened_folder(b1, b2, parent_folder(b1.current_path@)),
    ensures
        b2.current_path@ == b0.current_path@,
        views(b2.folders@) == views(b0.folders@),
        views(b2.file_uuids@) == views(b0.file_uuids@),
        views(b2.all_folders@) == views(b0.all_folders@),
        b2.selected_uuids@.len() == 0,
        b2.list_cursor == 0,
        b2.handle == b0.handle,
        b2.clipboard == b0.clipboard,
        b2.dirty == b0.dirty,
        b2.extra_folders == b0.extra_folders,
        b2.sort_key == b0.sort_key,
        b2.sort_dir == b0.sort_dir,
        b2.panel_focus == b0.panel_focus,
        b2.status_msg == b0.status_msg,
{
    let cur = b0.current_path@;
    let all = views(b0.all_folders@);
    let name = b0.folders@[b0.list_cursor as int]@;
    assert(views(b0.folders@)[b0.list_cursor as int] == name);
    assert(views(b0.folders@).to_set().contains(name));
    assert(child_names(cur, all).contains(name));
    let i = choose|i: int| 0 <= i < all.len() && crate::folders::child_segment(cur, #[trigger] all[i]) == Some(name);
    let p = all[i];
    let r = if cur.len() == 0 { p } else { p.subrange(cur.len() + 1int, p.len() as int) };
    assert(name == crate::folders::first_segment(r));
    crate::folders::lemma_first_segment_plain(r);
    crate::paths::lemma_parent_of_child(cur, name);
    assert(b2.current_path@ == cur);
    crate::order::lemma_sorted_set_unique(views(b2.all_folders@), all);
    crate::order::lemma_sorted_set_unique(views(b2.folders@), views(b0.folders@));
}

/// Toggling the selection twice on the same row gives the selection back;
/// nothing else changes.
pub proof fn lemma_toggle_twice(b0: BrowseState, b1: BrowseState, b2: BrowseState)
    requires
        strictly_sorted(views(b0.selected_uuids@)),
        toggled(b0, b1),
        toggled(b1, b2),
    ensures
        b2 == (BrowseState { selected_uuids: b2.selected_uuids, ..b0 }),
        views(b2.selected_uuids@) == views(b0.selected_uuids@),
{
    assert(b1.cursor_file_spec() == b0.cursor_file_spec());
    let s0 = views(b0.selected_uuids@);
    let s1 = views(b1.selected_uuids@);
    let s2 = views(b2.selected_uuids@);
    match b0.cursor_file_spec() {
        Some(u) => {
            if s0.contains(u) {
                assert(!s1.to_set().contains(u));
                assert(s2.to_set() =~= s0.to_set());
            } else {
                assert(s1.to_set().contains(u));
                assert(s1.contains(u));
                assert(s2.to_set() =~= s0.to_set());
            }
            crate::order::lemma_sorted_set_unique(s2, s0);
        },
        None => {},
    }
}

/// `b` with its list cursor one row up, if it can.
pub open spec fn list_moved_up(b: BrowseState) -> BrowseState {
    BrowseState { list_cursor: if b.list_cursor > 0 { (b.list_cursor - 1) as usize } else { 0 }, ..b }
}

/// `b` with its list cursor one row down, if it can.
pub open spec fn list_moved_down(b: BrowseState) -> BrowseState {
    let len = list_len_spec(b.folders@.len(), b.file_uuids@.len());
    let max = if len > 0 { len - 1 } else { 0 };
    BrowseState { list_cursor: if b.list_cursor < max { (b.list_cursor + 1) as usize } else { b.list_cursor }, ..b }
}

/// `b` with its tree cursor one folder up, if it can.
pub open spec fn tree_moved_up(b: BrowseState) -> BrowseState {
    BrowseState { tree_cursor: if b.tree_cursor > 0 { (b.tree_cursor - 1) as usize } else { 0 }, ..b }
}

/// `b` with its tree cursor one folder down, if it can.
pub open spec fn tree_moved_down(b: BrowseState) -> BrowseState {
    let n = b.all_folders@.len();
    let max = if n > 0 { n - 1 } else { 0 };
    BrowseState { tree_cursor: if b.tree_cursor < max { (b.tree_cursor + 1) as usize } else { b.tree_cursor }, ..b }
}

/// `b1` is `b0` with its derived lists recomputed from the index: well formed,
/// the list cursor kept within the new list (at its end when past it), and the
/// tree cursor on the current folder when it is listed, else kept in range.
pub open spec fn refreshed(b0: BrowseState, b1: BrowseState) -> bool {
    &&& b1.wf()
    &&& b1.handle == b0.handle
    &&& b1.current_path == b0.current_path
    &&& b1.selected_uuids == b0.selected_uuids
    &&& b1.panel_focus == b0.panel_focus
    &&& b1.clipboard == b0.clipboard
    &&& b1.dirty == b0.dirty
    &&& b1.status_msg == b0.status_msg
    &&& b1.status_msg_at == b0.status_msg_at
    &&& b1.extra_folders == b0.extra_folders
    &&& b1.sort_key == b0.sort_key
    &&& b1.sort_dir == b0.sort_dir
    &&& {
        let len = list_len_spec(b1.folders@.len(), b1.file_uuids@.len());
        &&& len == 0 ==> b1.list_cursor == 0
        &&& (len > 0 && b0.list_cursor >= len) ==> b1.list_cursor == len - 1
        &&& (len > 0 && b0.list_cursor < len) ==> b1.list_cursor == b0.list_cursor
    }
    &&& tree_cursor_kept(b0.tree_cursor, b1)
}

/// `b1`'s tree cursor: on its current folder when listed, else `old` kept in range.
pub open spec fn tree_cursor_kept(old: usize, b1: BrowseState) -> bool {
    let p = position_in(views(b1.all_folders@), b1.current_path@);
    &&& p >= 0 ==> b1.tree_cursor == p
    &&& (p < 0 && old < b1.all_folders@.len()) ==> b1.tree_cursor == old
    &&& (p < 0 && old >= b1.all_folders@.len()) ==> b1.tree_cursor == b1.all_folders@.len() - 1
}

/// `b1` is `b0` opened at the folder `path`: the selection cleared, the list
/// cursor on the first row, everything else kept and the lists recomputed.
pub open spec fn opened_folder(b0: BrowseState, b1: BrowseState, path: Seq<char>) -> bool {
    &&& b1.wf()
    &&& b1.current_path@ == path
    &&& b1.selected_uuids@.len() == 0
    &&& b1.list_cursor == 0
    &&& b1.handle == b0.handle
    &&& b1.panel_focus == b0.panel_focus
    &&& b1.clipboard == b0.clipboard
    &&& b1.dirty == b0.dirty
    &&& b1.status_msg == b0.status_msg
    &&& b1.status_msg_at == b0.status_msg_at
    &&& b1.extra_folders == b0.extra_folders
    &&& b1.sort_key == b0.sort_key
    &&& b1.sort_dir == b0.sort_dir
    &&& tree_cursor_kept(b0.tree_cursor, b1)
}

/// `b1` is `b0` with the file under the cursor selected, or unselected when
/// it was; nothing else changes.
pub open spec fn toggled(b0: BrowseState, b1: BrowseState) -> bool {
    &&& b1 == BrowseState { selected_uuids: b1.selected_uuids, ..b0 }
    &&& strictly_sorted(views(b1.selected_uuids@))
    &&& match b0.cursor_file_spec() {
        Some(u) => if views(b0.selected_uuids@).contains(u) {
            views(b1.selected_uuids@).to_set() == views(b0.selected_uuids@).to_set().remove(u)
        } else {
            views(b1.selected_uuids@).to_set() == views(b0.selected_uuids@).to_set().insert(u)
        },
        None => b1.selected_uuids == b0.selected_uuids,
    }
}

impl BrowseState {
    /// The derived lists agree with the index and the cursors are in range.
    pub open spec fn wf(&self) -> bool {
        let pairs = self.handle.index.pairs();
        &&& self.handle.index.wf()
        &&& strictly_sorted(views(self.all_folders@))
        &&& views(self.all_folders@).to_set() == all_folders_set(pairs).union(views(self.extra_folders@).to_set())
        &&& strictly_sorted(views(self.folders@))
        &&& views(self.folders@).to_set() == child_names(self.current_path@, views(self.all_folders@))
        &&& views(self.file_uuids@) == listed_uuids(pairs, listed_items(pairs, self.current_path@, self.sort_key, self.sort_dir))
        &&& strictly_sorted(views(self.selected_uuids@))
        &&& strictly_sorted(views(self.extra_folders@))
        &&& self.all_folders@.len() > 0
        &&& self.tree_cursor < self.all_folders@.len()
        &&& (list_len_spec(self.folders@.len(), self.file_uuids@.len()) == 0 ==> self.list_cursor == 0)
        &&& (list_len_spec(self.folders@.len(), self.file_uuids@.len()) > 0
            ==> self.list_cursor < list_len_spec(self.folders@.len(), self.file_uuids@.len()))
    }

    /// A fresh browser at the root of an open vault, sorted by name ascending.
    pub fn new(handle: VaultHandle) -> (s: BrowseState)
        requires
            handle.index.wf(),
        ensures
            fresh_browser(s, handle),
    {
        let mut s = BrowseState {
            handle,
            current_path: String::new(),
            folders: Vec::new(),
            file_uuids: Vec::new(),
            selected_uuids: Vec::new(),
            list_cursor: 0,
            all_folders: Vec::new(),
            tree_cursor: 0,
            panel_focus: PanelFocus::List,
            clipboard: Vec::new(),
            dirty: false,
            status_msg: None,
            status_msg_at: None,
            extra_folders: Vec::new(),
            sort_key: SortKey::Name,
            sort_dir: SortDir::Asc,
        };
        assert(strictly_sorted(views(s.selected_uuids@)));
        assert(strictly_sorted(views(s.extra_folders@)));
        s.refresh();
        proof {
            assert(views(s.all_folders@).to_set().contains(Seq::<char>::empty())) by {
                assert(all_folders_set(s.handle.index.pairs()).contains(Seq::<char>::empty()));
            }
        }
        s
    }

    /// Next sort key, direction back to ascending.
    pub fn cycle_sort_key(&mut self)
        ensures
            *final(self) == (BrowseState { sort_key: old(self).sort_key.next_spec(), sort_dir: SortDir::Asc, ..*old(self) }),
    {
        self.sort_key = self.sort_key.next();
        self.sort_dir = SortDir::Asc;
    }

    /// Flip the sort direction.
    pub fn toggle_sort_dir(&mut self)
        ensures
            *final(self) == (BrowseState { sort_dir: old(self).sort_dir.toggle_spec(), ..*old(self) }),
    {
        self.sort_dir = self.sort_dir.toggle();
    }

    /// Show `msg` in the hint bar from time `now` (milliseconds).
    pub fn set_status(&mut self, msg: String, now: u64)
        ensures
            *final(self) == (BrowseState { status_msg: Some(msg), status_msg_at: Some(now), ..*old(self) }),
            old(self).wf() ==> final(self).wf(),
    {
        self.status_msg = Some(msg);
        self.status_msg_at = Some(now);
    }

    /// Clear the status message once it has been shown for `secs` whole seconds at time `now`.
    pub fn tick_status(&mut self, now: u64, secs: u64)
        ensures
            *final(self) == status_ticked(*old(self), now, secs),
    {
        if let Some(at) = self.status_msg_at {
            let elapsed: u64 = if now >= at { (now - at) / 1000 } else { 0 };
            if elapsed >= secs {
                self.status_msg = None;
                self.status_msg_at = None;
            }
        }
    }

    /// A status message is waiting to be cleared.
    pub fn has_pending_status(&self) -> (r: bool)
        ensures
            r == (self.status_msg_at is Some),
    {
        self.status_msg_at.is_some()
    }

    /// Recompute the folder tree, the sub-folders and the ordered files of the
    /// current folder from the index; keep the cursors in range, the tree cursor
    /// on the current folder when it is listed.
    pub fn refresh(&mut self)
        requires
            old(self).handle.index.wf(),
            strictly_sorted(views(old(self).selected_uuids@)),
            strictly_sorted(views(old(self).extra_folders@)),
        ensures
            refreshed(*old(self), *final(self)),
    {
        let ghost pairs = self.handle.index.pairs();
        // Files of the current folder in the chosen order.
        let items = folder_item_list(&self.handle, self.current_path.as_str());
        let ghost src = items_view(items@);
        let ordered: Vec<SortItem> = if self.sort_key == SortKey::Age {
            if self.sort_dir == SortDir::Desc {
                reverse_items(items)
            } else {
                items
            }
        } else {
            sort_by_key(items, self.sort_key, self.sort_dir)
        };
        let ghost listed = listed_items(pairs, self.current_path@, self.sort_key, self.sort_dir);
        assert(items_view(ordered@) == listed);
        proof {
            if self.sort_key != SortKey::Age {
                crate::sorting::lemma_sort_items_sorted(src, self.sort_key, self.sort_dir);
            }
            lemma_listed_positions(pairs, self.current_path@, self.sort_key, self.sort_dir);
        }
        let n = self.handle.index.len();
        let mut uuids: Vec<String> = Vec::new();
        let mut k: usize = 0;
        while k < ordered.len()
            invariant
                n == pairs.len(),
                pairs == self.handle.index.pairs(),
                k <= ordered@.len(),
                items_view(ordered@) == listed,
                forall|j: int| 0 <= j < listed.len() ==> 0 <= (#[trigger] listed[j]).0 < n,
                views(uuids@) == listed_uuids(pairs, listed.subrange(0, k as int)),
            decreases ordered@.len() - k,
        {
            let pos = ordered[k].pos;
            assert(listed[k as int] == item_view(ordered@[k as int]));
            let (u, _) = self.handle.index.entry_at(pos);
            let ghost before = uuids@;
            uuids.push(u.clone());
            assert(views(uuids@) =~= views(before).push(pairs[pos as int].0));
            assert(listed_uuids(pairs, listed.subrange(0, k + 1)) =~= listed_uuids(pairs, listed.subrange(0, k as int)).push(pairs[pos as int].0));
            k = k + 1;
        }
        assert(listed.subrange(0, listed.len() as int) =~= listed);
        self.file_uuids = uuids;

        // The folder tree: folders implied by the index and the session's extra folders.
        let mut all = collect_all_folders(&self.handle);
        let mut e: usize = 0;
        while e < self.extra_folders.len()
            invariant
                e <= self.extra_folders@.len(),
                strictly_sorted(views(all@)),
                views(all@).to_set() == all_folders_set(pairs).union(views(self.extra_folders@).subrange(0, e as int).to_set()),
            decreases self.extra_folders@.len() - e,
        {
            let ghost before = views(all@).to_set();
            insert_sorted_unique(&mut all, self.extra_folders[e].clone());
            proof {
                let vs = views(self.extra_folders@);
                assert(vs.subrange(0, e + 1) =~= vs.subrange(0, e as int).push(vs[e as int]));
                assert(vs.subrange(0, e + 1).to_set() =~= vs.subrange(0, e as int).to_set().insert(vs[e as int])) by {
                    broadcast use vstd::seq_lib::group_seq_properties;
                }
                assert(views(all@).to_set() =~= all_folders_set(pairs).union(vs.subrange(0, e + 1).to_set()));
            }
            e = e + 1;
        }
        assert(views(self.extra_folders@).subrange(0, self.extra_folders@.len() as int) =~= views(self.extra_folders@));
        self.all_folders = all;

        // Sub-folders of the current folder.
        self.folders = child_names_of(self.current_path.as_str(), self.all_folders.as_slice());

        let f = self.folders.len();
        let u = self.file_uuids.len();
        let list_len: usize = if f <= usize::MAX - u { f + u } else { usize::MAX };
        if list_len == 0 {
            self.list_cursor = 0;
        } else if self.list_cursor >= list_len {
            self.list_cursor = list_len - 1;
        }

        // Keep the tree cursor on the current folder.
        let mut t: usize = 0;
        while t < self.all_folders.len() && !str_eq(self.all_folders[t].as_str(), self.current_path.as_str())
            invariant
                t <= self.all_folders@.len(),
                forall|j: int| 0 <= j < t ==> views(self.all_folders@)[j] != self.current_path@,
            decreases self.all_folders@.len() - t,
        {
            assert(views(self.all_folders@)[t as int] == self.all_folders@[t as int]@);
            t = t + 1;
        }
        let found = t < self.all_folders.len();
        if found {
            assert(views(self.all_folders@)[t as int] == self.all_folders@[t as int]@);
        }
        proof {
            assert(views(self.all_folders@).to_set().contains(Seq::<char>::empty())) by {
                assert(all_folders_set(pairs).contains(Seq::<char>::empty()));
            }
            assert(self.all_folders@.len() > 0) by {
                let x = Seq::<char>::empty();
                assert(views(self.all_folders@).contains(x));
            }
        }
        if found {
            proof {
                let s = views(self.all_folders@);
                assert(s[t as int] == self.current_path@);
                let p = position_in(s, self.current_path@);
                assert(0 <= p < s.len() && s[p] == self.current_path@);
                if p != t {
                    if p < t {
                        assert(seq_lt(s[p], s[t as int]));
                    } else {
                        assert(seq_lt(s[t as int], s[p]));
                    }
                    crate::order::lemma_seq_lt_total(s[p], s[p]);
                }
            }
            self.tree_cursor = t;
        } else {
            proof {
                assert(position_in(views(self.all_folders@), self.current_path@) == -1);
            }
            let tree_len = self.all_folders.len();
            if self.tree_cursor >= tree_len {
                self.tree_cursor = tree_len - 1;
            }
        }
    }
}

/// The items in reverse order.
pub(crate) fn reverse_items(items: Vec<SortItem>) -> (r: Vec<SortItem>)
    ensures
        items_view(r@) == items_view(items@).reverse(),
{
    let mut rest = items;
    let ghost src = items_view(rest@);
    let mut out: Vec<SortItem> = Vec::new();
    while rest.len() > 0
        invariant
            items_view(rest@) == src.subrange(0, rest@.len() as int),
            items_view(out@) == src.subrange(rest@.len() as int, src.len() as int).reverse(),
            rest@.len() <= src.len(),
        decreases rest@.len(),
    {
        let ghost before_rest = rest@;
        let ghost before_out = out@;
        let x = rest.pop().unwrap();
        proof {
            assert(items_view(before_rest) =~= items_view(rest@).push(item_view(x)));
            assert(items_view(before_rest)[rest@.len() as int] == item_view(x));
            assert(items_view(before_rest)[rest@.len() as int] == src[rest@.len() as int]);
            assert(items_view(rest@) =~= src.subrange(0, rest@.len() as int));
        }
        out.push(x);
        proof {
            assert(items_view(out@) =~= items_view(before_out).push(item_view(x)));
            assert(src.subrange(rest@.len() as int, src.len() as int).reverse()
                =~= src.subrange(rest@.len() + 1int, src.len() as int).reverse().push(src[rest@.len() as int]));
        }
    }
    assert(src.subrange(0, src.len() as int).reverse() =~= src.reverse());
    out
}

/// Every listed item names a position of the index.
proof fn lemma_listed_positions(pairs: Seq<(Seq<char>, VaultEntry)>, path: Seq<char>, key: SortKey, dir: SortDir)
    ensures
        forall|j: int| 0 <= j < listed_items(pairs, path, key, dir).len()
            ==> 0 <= (#[trigger] listed_items(pairs, path, key, dir)[j]).0 < pairs.len(),
{
    let src = folder_items(pairs, path);
    lemma_folder_items_positions(pairs, path);
    let l = listed_items(pairs, path, key, dir);
    if key == SortKey::Age {
        if dir == SortDir::Desc {
            assert forall|j: int| 0 <= j < l.len() implies 0 <= (#[trigger] l[j]).0 < pairs.len() by {
                assert(l[j] == src[src.len() - 1 - j]);
            }
        }
    } else {
        crate::sorting::lemma_sort_items_sorted(src, key, dir);
        assert forall|j: int| 0 <= j < l.len() implies 0 <= (#[trigger] l[j]).0 < pairs.len() by {
            broadcast use vstd::seq_lib::group_to_multiset_ensures;
            assert(l.contains(l[j]));
            assert(l.to_multiset().count(l[j]) > 0);
            assert(src.contains(l[j]));
        }
    }
}

/// The items of a folder name positions of the index.
proof fn lemma_folder_items_positions(pairs: Seq<(Seq<char>, VaultEntry)>, path: Seq<char>)
    ensures
        forall|j: int| 0 <= j < folder_items(pairs, path).len() ==> 0 <= (#[trigger] folder_items(pairs, path)[j]).0 < pairs.len(),
    decreases pairs.len(),
{
    if pairs.len() > 0 {
        lemma_folder_items_positions(pairs.drop_last(), path);
        let r = folder_items(pairs.drop_last(), path);
        assert forall|j: int| 0 <= j < folder_items(pairs, path).len() implies 0 <= (#[trigger] folder_items(pairs, path)[j]).0 < pairs.len() by {
            if j < r.len() {
                assert(folder_items(pairs, path)[j] == r[j]);
            }
        }
    }
}

} // verus!

verus! {

impl BrowseState {
    /// Rows in the list: sub-folders then files.
    pub fn list_count(&self) -> (r: usize)
        ensures
            r == list_len_spec(self.folders@.len(), self.file_uuids@.len()),
    {
        let f = self.folders.len();
        let u = self.file_uuids.len();
        if f <= usize::MAX - u { f + u } else { usize::MAX }
    }

    /// Move the list cursor up one row, if it can.
    pub fn move_list_up(&mut self)
        ensures
            *final(self) == list_moved_up(*old(self)),
            old(self).wf() ==> final(self).wf(),
    {
        if self.list_cursor > 0 {
            self.list_cursor = self.list_cursor - 1;
        }
    }

    /// Move the list cursor down one row, if it can.
    pub fn move_list_down(&mut self)
        ensures
            *final(self) == list_moved_down(*old(self)),
            old(self).wf() ==> final(self).wf(),
    {
        let n = self.list_count();
        let max: usize = if n > 0 { n - 1 } else { 0 };
        if self.list_cursor < max {
            self.list_cursor = self.list_cursor + 1;
        }
    }

    /// Move the tree cursor up one folder, if it can.
    pub fn move_tree_up(&mut self)
        ensures
            *final(self) == tree_moved_up(*old(self)),
            old(self).wf() ==> final(self).wf(),
    {
        if self.tree_cursor > 0 {
            self.tree_cursor = self.tree_cursor - 1;
        }
    }

    /// Move the tree cursor down one folder, if it can.
    pub fn move_tree_down(&mut self)
        ensures
            *final(self) == tree_moved_down(*old(self)),
            old(self).wf() ==> final(self).wf(),
    {
        let n = self.all_folders.len();
        let max: usize = if n > 0 { n - 1 } else { 0 };
        if self.tree_cursor < max {
            self.tree_cursor = self.tree_cursor + 1;
        }
    }

    /// Open the sub-folder `name` of the current folder.
    pub fn navigate_into(&mut self, name: &str)
        requires
            old(self).wf(),
        ensures
            opened_folder(*old(self), *final(self), full_path_spec(old(self).current_path@, name@)),
    {
        self.current_path = full_path(self.current_path.as_str(), name);
        self.selected_uuids = Vec::new();
        self.list_cursor = 0;
        self.refresh();
    }

    /// Open the folder under the tree cursor.
    pub fn navigate_tree_cursor(&mut self)
        requires
            old(self).wf(),
        ensures
            opened_folder(*old(self), *final(self), views(old(self).all_folders@)[old(self).tree_cursor as int]),
    {
        let path = self.all_folders[self.tree_cursor].clone();
        self.current_path = path;
        self.selected_uuids = Vec::new();
        self.list_cursor = 0;
        self.refresh();
    }

    /// Go up to the parent folder; false, and nothing changes, at the root.
    pub fn navigate_up(&mut self) -> (r: bool)
        requires
            old(self).wf(),
        ensures
            final(self).wf(),
            r == (old(self).current_path@.len() > 0),
            !r ==> *final(self) == *old(self),
            r ==> opened_folder(*old(self), *final(self), parent_folder(old(self).current_path@)),
    {
        if self.current_path.unicode_len() == 0 {
            return false;
        }
        self.current_path = parent_of(self.current_path.as_str());
        self.selected_uuids = Vec::new();
        self.list_cursor = 0;
        self.refresh();
        true
    }

    /// The sub-folder under the list cursor, when the cursor is on a folder row.
    pub fn cursor_folder(&self) -> (r: Option<&String>)
        ensures
            match r {
                Some(f) => self.list_cursor < self.folders@.len() && *f == self.folders@[self.list_cursor as int],
                None => self.list_cursor >= self.folders@.len(),
            },
    {
        if self.list_cursor < self.folders.len() {
            Some(&self.folders[self.list_cursor])
        } else {
            None
        }
    }

    /// The file under the list cursor, when the cursor is on a file row.
    pub fn cursor_file_uuid(&self) -> (r: Option<&String>)
        ensures
            match r {
                Some(u) => self.list_cursor >= self.folders@.len()
                    && self.list_cursor - self.folders@.len() < self.file_uuids@.len()
                    && *u == self.file_uuids@[self.list_cursor - self.folders@.len()],
                None => self.list_cursor < self.folders@.len()
                    || self.list_cursor - self.folders@.len() >= self.file_uuids@.len(),
            },
    {
        if self.list_cursor < self.folders.len() {
            return None;
        }
        let fi = self.list_cursor - self.folders.len();
        if fi < self.file_uuids.len() {
            Some(&self.file_uuids[fi])
        } else {
            None
        }
    }

    /// What an operation acts on: the selected files (sorted) if any, else the
    /// file under the cursor, else nothing.
    pub fn effective_selection(&self) -> (r: Vec<String>)
        ensures
            views(r@) == self.effective_spec(),
    {
        if self.selected_uuids.len() > 0 {
            let mut r: Vec<String> = Vec::new();
            let mut i: usize = 0;
            while i < self.selected_uuids.len()
                invariant
                    i <= self.selected_uuids@.len(),
                    views(r@) == views(self.selected_uuids@).subrange(0, i as int),
                decreases self.selected_uuids@.len() - i,
            {
                let ghost before = r@;
                r.push(self.selected_uuids[i].clone());
                assert(views(r@) =~= views(before).push(self.selected_uuids@[i as int]@));
                assert(views(self.selected_uuids@).subrange(0, i + 1) =~= views(self.selected_uuids@).subrange(0, i as int).push(self.selected_uuids@[i as int]@));
                i = i + 1;
            }
            assert(views(self.selected_uuids@).subrange(0, self.selected_uuids@.len() as int) =~= views(self.selected_uuids@));
            r
        } else {
            match self.cursor_file_uuid() {
                Some(u) => {
                    let mut r: Vec<String> = Vec::new();
                    r.push(u.clone());
                    assert(views(r@) =~= seq![u@]);
                    r
                },
                None => Vec::new(),
            }
        }
    }

    /// What an operation acts on: the selection if any, else the file under
    /// the cursor, else nothing.
    pub open spec fn effective_spec(&self) -> Seq<Seq<char>> {
        if self.selected_uuids@.len() > 0 {
            views(self.selected_uuids@)
        } else {
            match self.cursor_file_spec() {
                Some(u) => seq![u],
                None => Seq::empty(),
            }
        }
    }

    /// The file under the cursor, as a spec.
    pub open spec fn cursor_file_spec(&self) -> Option<Seq<char>> {
        if self.list_cursor >= self.folders@.len() && self.list_cursor - self.folders@.len() < self.file_uuids@.len() {
            Some(self.file_uuids@[self.list_cursor - self.folders@.len()]@)
        } else {
            None
        }
    }

    /// Select the file under the cursor, or unselect it when it is selected.
    pub fn toggle_selection(&mut self)
        requires
            strictly_sorted(views(old(self).selected_uuids@)),
        ensures
            toggled(*old(self), *final(self)),
            old(self).wf() ==> final(self).wf(),
    {
        let uuid = match self.cursor_file_uuid() {
            Some(u) => u.clone(),
            None => {
                return;
            },
        };
        let ghost old_sel = views(self.selected_uuids@);
        let mut i: usize = 0;
        while i < self.selected_uuids.len() && !str_eq(self.selected_uuids[i].as_str(), uuid.as_str())
            invariant
                i <= self.selected_uuids@.len(),
                views(self.selected_uuids@) == old_sel,
                forall|j: int| 0 <= j < i ==> old_sel[j] != uuid@,
            decreases self.selected_uuids@.len() - i,
        {
            assert(old_sel[i as int] == self.selected_uuids@[i as int]@);
            i = i + 1;
        }
        if i < self.selected_uuids.len() {
            assert(old_sel[i as int] == self.selected_uuids@[i as int]@);
            let ghost before = self.selected_uuids@;
            self.selected_uuids.remove(i);
            proof {
                let nv = views(self.selected_uuids@);
                assert(nv =~= old_sel.remove(i as int));
                assert forall|a: int, b: int| 0 <= a < b < nv.len() implies seq_lt(#[trigger] nv[a], #[trigger] nv[b]) by {
                    let a2 = if a < i { a } else { a + 1 };
                    let b2 = if b < i { b } else { b + 1 };
                    assert(nv[a] == old_sel[a2]);
                    assert(nv[b] == old_sel[b2]);
                    assert(a2 < b2);
                }
                assert(old_sel.contains(uuid@));
                assert forall|x: Seq<char>| nv.to_set().contains(x) <==> old_sel.to_set().remove(uuid@).contains(x) by {
                    if nv.contains(x) {
                        let k = choose|k: int| 0 <= k < nv.len() && nv[k] == x;
                        let k2 = if k < i { k } else { k + 1 };
                        assert(old_sel[k2] == x);
                        if x == uuid@ {
                            assert(k2 != i);
                            if k2 < i {
                                assert(seq_lt(old_sel[k2], old_sel[i as int]));
                            } else {
                                assert(seq_lt(old_sel[i as int], old_sel[k2]));
                            }
                            crate::order::lemma_seq_lt_total(x, x);
                        }
                    }
                    if old_sel.contains(x) && x != uuid@ {
                        let k = choose|k: int| 0 <= k < old_sel.len() && old_sel[k] == x;
                        assert(k != i);
                        if k < i {
                            assert(nv[k] == x);
                        } else {
                            assert(nv[k - 1] == x);
                        }
                    }
                }
                assert(nv.to_set() =~= old_sel.to_set().remove(uuid@));
            }
            return;
        }
        proof {
            assert(!old_sel.contains(uuid@));
        }
        insert_sorted_unique(&mut self.selected_uuids, uuid);
    }

    /// Where the current folder stands in the folder tree, if it is listed.
    pub fn current_folder_position(&self) -> (r: Option<usize>)
        requires
            strictly_sorted(views(self.all_folders@)),
        ensures
            match r {
                Some(t) => t == position_in(views(self.all_folders@), self.current_path@),
                None => position_in(views(self.all_folders@), self.current_path@) == -1,
            },
    {
        let ghost s = views(self.all_folders@);
        let mut t: usize = 0;
        while t < self.all_folders.len() && !str_eq(self.all_folders[t].as_str(), self.current_path.as_str())
            invariant
                t <= self.all_folders@.len(),
                s == views(self.all_folders@),
                forall|j: int| 0 <= j < t ==> s[j] != self.current_path@,
            decreases self.all_folders@.len() - t,
        {
            assert(s[t as int] == self.all_folders@[t as int]@);
            t = t + 1;
        }
        if t < self.all_folders.len() {
            proof {
                assert(s[t as int] == self.all_folders@[t as int]@);
                let p = position_in(s, self.current_path@);
                assert(0 <= p < s.len() && s[p] == self.current_path@);
                if p != t {
                    if p < t {
                        assert(seq_lt(s[p], s[t as int]));
                    } else {
                        assert(seq_lt(s[t as int], s[p]));
                    }
                    crate::order::lemma_seq_lt_total(s[p], s[p]);
                }
            }
            Some(t)
        } else {
            None
        }
    }

    /// The entry with this UUID.
    pub fn entry(&self, uuid: &str) -> (r: Option<&VaultEntry>)
        requires
            self.handle.index.wf(),
        ensures
            match r {
                Some(e) => key_pos(self.handle.index.pairs(), uuid@) >= 0
                    && *e == self.handle.index.pairs()[key_pos(self.handle.index.pairs(), uuid@)].1,
                None => key_pos(self.handle.index.pairs(), uuid@) == -1,
            },
    {
        self.handle.index.get(uuid)
    }
}

/// The name shown for a folder: its last segment, or `/` for the root.
pub fn folder_display_name(path: &str) -> (r: String)
    ensures
        r@ == folder_display_name_spec(path@),
{
    proof {
        reveal_strlit("/");
    }
    let v = to_chars(path);
    if v.len() == 0 {
        return "/".to_owned();
    }
    proof {
        lemma_last_index_of(v@, '/');
        assert(v@.subrange(0, v@.len() as int) =~= v@);
    }
    let start: usize = match last_index_in(v.as_slice(), v.len(), '/') {
        Some(k) => k + 1,
        None => 0,
    };
    let seg = copy_range(v.as_slice(), start, v.len());
    proof {
        reveal_strlit("/");
    }
    from_chars(seg.as_slice())
}

/// How deep a folder is: 0 for the root, else one more than its number of `/`.
pub fn folder_depth(path: &str) -> (r: usize)
    requires
        path@.len() < usize::MAX,
    ensures
        r == folder_depth_spec(path@),
{
    let v = to_chars(path);
    if v.len() == 0 {
        return 0;
    }
    let mut count: usize = 0;
    let mut i: usize = 0;
    while i < v.len()
        invariant
            i <= v@.len(),
            count == count_char(v@.subrange(0, i as int), '/'),
            count <= i,
        decreases v@.len() - i,
    {
        assert(v@.subrange(0, i + 1).drop_last() =~= v@.subrange(0, i as int));
        if v[i] == '/' {
            count = count + 1;
        }
        i = i + 1;
    }
    assert(v@.subrange(0, v@.len() as int) =~= v@);
    count + 1
}

} // verus!
