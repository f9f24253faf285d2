//! The full-screen file browser: the rows shown for a folder and the keys
//! that move through them. Reading a folder is the caller's: it hands the
//! listing to `load`, and reads the folder a key asks for.

use vstd::prelude::*;

use crate::cli::FileBrowserTarget;
use crate::fmt::concat;
use crate::keys::Key;
use crate::sorting::{SortItem, SortKey, SortDir, sort_by_key, sort_items, items_view, in_order, goes_before,
    lemma_sort_items_sorted};
use crate::order::seq_lt;
use crate::text::{lower_seq, to_ascii_lowercase};

verus! {

/// One row: a name, its full path, and whether it is a folder.
pub struct BrowserEntry {
    pub name: String,
    pub path: String,
    pub is_dir: bool,
}

/// A row as plain values.
pub open spec fn entry_view(e: BrowserEntry) -> (Seq<char>, Seq<char>, bool) {
    (e.name@, e.path@, e.is_dir)
}

/// Rows as plain values.
pub open spec fn entries_view(s: Seq<BrowserEntry>) -> Seq<(Seq<char>, Seq<char>, bool)> {
    s.map_values(|e: BrowserEntry| entry_view(e))
}

/// The folders (`dirs`) or the files of a listing, in listing order, as sort
/// items: position and lower-cased name.
pub open spec fn group_items(l: Seq<(Seq<char>, Seq<char>, bool)>, dirs: bool) -> Seq<(int, Seq<char>, u64, u8)>
    decreases l.len(),
{
    if l.len() == 0 {
        Seq::empty()
    } else {
        let r = group_items(l.drop_last(), dirs);
        if l.last().2 == dirs {
            r.push(((l.len() - 1) as int, lower_seq(l.last().0), 0u64, 0u8))
        } else {
            r
        }
    }
}

/// The folders or the files of a listing in name order, ASCII case ignored,
/// equal names in listing order.
pub open spec fn sorted_group(l: Seq<(Seq<char>, Seq<char>, bool)>, dirs: bool) -> Seq<(Seq<char>, Seq<char>, bool)> {
    sort_items(group_items(l, dirs), SortKey::Name, SortDir::Asc).map_values(|it: (int, Seq<char>, u64, u8)| l[it.0])
}

/// The rows shown for a folder: `..` to its parent when it has one, then its
/// folders, then its files.
pub open spec fn browser_rows(parent: Option<Seq<char>>, l: Seq<(Seq<char>, Seq<char>, bool)>) -> Seq<(Seq<char>, Seq<char>, bool)> {
    let head = match parent {
        Some(p) => seq![(".."@, p, true)],
        None => Seq::<(Seq<char>, Seq<char>, bool)>::empty(),
    };
    head + sorted_group(l, true) + sorted_group(l, false)
}

/// The items of a group name rows of the listing of their kind, by their lower-cased names.
proof fn lemma_group_items(l: Seq<(Seq<char>, Seq<char>, bool)>, dirs: bool)
    ensures
        forall|j: int| 0 <= j < group_items(l, dirs).len() ==> {
            let it = #[trigger] group_items(l, dirs)[j];
            &&& 0 <= it.0 < l.len()
            &&& l[it.0].2 == dirs
            &&& it.1 == lower_seq(l[it.0].0)
        },
    decreases l.len(),
{
    if l.len() > 0 {
        lemma_group_items(l.drop_last(), dirs);
        let r = group_items(l.drop_last(), dirs);
        assert forall|j: int| 0 <= j < group_items(l, dirs).len() implies {
            let it = #[trigger] group_items(l, dirs)[j];
            &&& 0 <= it.0 < l.len()
            &&& l[it.0].2 == dirs
            &&& it.1 == lower_seq(l[it.0].0)
        } by {
            if j < r.len() {
                assert(group_items(l, dirs)[j] == r[j]);
                assert(l.drop_last()[r[j].0] == l[r[j].0]);
            }
        }
    }
}

/// The rows shown: `..` (with a parent) first, then every folder of the
/// listing, then every file, each group in name order with ASCII case
/// ignored; the folders and the files are those of the listing, each as
/// often as there.
pub proof fn lemma_browser_rows(parent: Option<Seq<char>>, l: Seq<(Seq<char>, Seq<char>, bool)>, dirs: bool)
    ensures
        sorted_group(l, dirs).len() == group_items(l, dirs).len(),
        forall|j: int| 0 <= j < sorted_group(l, dirs).len() ==> (#[trigger] sorted_group(l, dirs)[j]).2 == dirs
            && l.contains(sorted_group(l, dirs)[j]),
        forall|i: int, j: int| 0 <= i < j < sorted_group(l, dirs).len()
            ==> !seq_lt(lower_seq((#[trigger] sorted_group(l, dirs)[j]).0), lower_seq((#[trigger] sorted_group(l, dirs)[i]).0)),
        sort_items(group_items(l, dirs), SortKey::Name, SortDir::Asc).to_multiset() == group_items(l, dirs).to_multiset(),
        browser_rows(parent, l) == (match parent {
            Some(p) => seq![(".."@, p, true)],
            None => Seq::<(Seq<char>, Seq<char>, bool)>::empty(),
        }) + sorted_group(l, true) + sorted_group(l, false),
{
    let src = group_items(l, dirs);
    let s = sort_items(src, SortKey::Name, SortDir::Asc);
    lemma_sort_items_sorted(src, SortKey::Name, SortDir::Asc);
    lemma_group_items(l, dirs);
    assert forall|j: int| 0 <= j < s.len() implies {
        let it = #[trigger] s[j];
        &&& 0 <= it.0 < l.len()
        &&& l[it.0].2 == dirs
        &&& it.1 == lower_seq(l[it.0].0)
    } by {
        broadcast use vstd::seq_lib::group_to_multiset_ensures;
        assert(s.contains(s[j]));
        assert(s.to_multiset().count(s[j]) > 0);
        assert(src.contains(s[j]));
        let k = choose|k: int| 0 <= k < src.len() && src[k] == s[j];
        assert(src[k] == s[j]);
    }
    let g = sorted_group(l, dirs);
    assert forall|j: int| 0 <= j < g.len() implies (#[trigger] g[j]).2 == dirs && l.contains(g[j]) by {
        assert(g[j] == l[s[j].0]);
    }
    assert forall|i: int, j: int| 0 <= i < j < g.len()
        implies !seq_lt(lower_seq((#[trigger] g[j]).0), lower_seq((#[trigger] g[i]).0)) by {
        assert(g[i] == l[s[i].0]);
        assert(g[j] == l[s[j].0]);
        assert(!goes_before(s[j], s[i], SortKey::Name, SortDir::Asc));
    }
}

/// What the browser tells its caller after a key press; the last two ask the
/// caller to read a folder for it.
pub enum FileBrowserEvent {
    /// Keep browsing.
    Pending,
    /// Closed without a choice.
    Cancelled,
    /// This file, or (when picking folders) this folder, was chosen.
    Selected(String),
    /// Read this folder and `load` it.
    Open(String),
    /// Read the parent of the current folder, if it has one, and `load` it.
    Up,
}

/// The browser: the folder shown, its rows, the highlighted row.
pub struct FileBrowser {
    pub target: FileBrowserTarget,
    pub cwd: String,
    pub entries: Vec<BrowserEntry>,
    /// The highlighted row, none only when there are no rows.
    pub selected: Option<usize>,
    /// Why the folder could not be read, shown in place of its rows.
    pub load_error: Option<String>,
    /// Enter on a folder (other than `..`) chooses it rather than opening it.
    pub select_dirs: bool,
}

/// The highlighted row after moving `delta` rows among `n`, kept within them.
pub open spec fn moved(sel: Option<usize>, n: nat, delta: int) -> Option<usize> {
    if n == 0 {
        sel
    } else {
        let i = match sel {
            Some(i) => i as int,
            None => 0,
        };
        let t = i + delta;
        Some((if t < 0 { 0 } else if t > n - 1 { n - 1 } else { t }) as usize)
    }
}

/// The row moves a key makes: `Up`/`k` one up, `Down`/`j` one down, `g` to the
/// top, `G` to the bottom, page keys ten rows.
pub open spec fn key_move(sel: Option<usize>, n: nat, key: Key) -> Option<Option<usize>> {
    match key {
        Key::Up => Some(moved(sel, n, -1)),
        Key::Down => Some(moved(sel, n, 1)),
        Key::PageUp => Some(moved(sel, n, -10)),
        Key::PageDown => Some(moved(sel, n, 10)),
        Key::Char(c) => if c == 'k' {
            Some(moved(sel, n, -1))
        } else if c == 'j' {
            Some(moved(sel, n, 1))
        } else if c == 'g' {
            Some(if n > 0 { Some(0usize) } else { sel })
        } else if c == 'G' {
            Some(if n > 0 { Some((n - 1) as usize) } else { sel })
        } else {
            None
        },
        _ => None,
    }
}

/// Keys that go to the parent folder.
pub open spec fn is_up_key(key: Key) -> bool {
    key is Backspace || key is Left || key == Key::Char('h')
}

/// Keys that open or choose the highlighted row.
pub open spec fn is_enter_key(key: Key) -> bool {
    key is Enter || key is Right || key == Key::Char('l')
}

/// The listing's rows, with `..` to `parent` first when there is one.
pub fn browser_rows_of(parent: Option<String>, listing: &Vec<BrowserEntry>) -> (r: Vec<BrowserEntry>)
    ensures
        entries_view(r@) == browser_rows(match parent {
            Some(p) => Some(p@),
            None => None,
        }, entries_view(listing@)),
{
    let ghost l = entries_view(listing@);
    let mut out: Vec<BrowserEntry> = Vec::new();
    let ghost head: Seq<(Seq<char>, Seq<char>, bool)> = Seq::empty();
    if let Some(p) = parent {
        proof {
            head = seq![(".."@, p@, true)];
        }
        out.push(BrowserEntry { name: "..".to_owned(), path: p, is_dir: true });
        proof {
            reveal_strlit("..");
            assert(entries_view(out@) =~= head);
        }
    }
    assert(entries_view(out@) =~= head);
    let dirs = sort_by_key(group_list(listing, true), SortKey::Name, SortDir::Asc);
    take_rows(listing, &dirs, &mut out);
    let files = sort_by_key(group_list(listing, false), SortKey::Name, SortDir::Asc);
    take_rows(listing, &files, &mut out);
    out
}

/// The sort items of a listing's folders or files.
fn group_list(listing: &Vec<BrowserEntry>, dirs: bool) -> (r: Vec<SortItem>)
    ensures
        items_view(r@) == group_items(entries_view(listing@), dirs),
{
    let ghost l = entries_view(listing@);
    let mut r: Vec<SortItem> = Vec::new();
    let mut i: usize = 0;
    while i < listing.len()
        invariant
            l == entries_view(listing@),
            i <= listing@.len(),
            items_view(r@) == group_items(l.subrange(0, i as int), dirs),
        decreases listing@.len() - i,
    {
        let ghost pre = l.subrange(0, i + 1);
        assert(pre.drop_last() =~= l.subrange(0, i as int));
        assert(pre.last() == l[i as int]);
        if listing[i].is_dir == dirs {
            let name = to_ascii_lowercase(listing[i].name.as_str());
            let ghost before = r@;
            r.push(SortItem { pos: i, name, size: 0, cat: 0 });
            assert(items_view(r@) =~= items_view(before).push(crate::sorting::item_view(r@[r@.len() - 1])));
        }
        i = i + 1;
    }
    assert(l.subrange(0, listing@.len() as int) =~= l);
    r
}

/// Append the rows the sorted `items` name.
fn take_rows(listing: &Vec<BrowserEntry>, items: &Vec<SortItem>, out: &mut Vec<BrowserEntry>)
    requires
        exists|dirs: bool| items_view(items@) == #[trigger] sort_items(group_items(entries_view(listing@), dirs),
            SortKey::Name, SortDir::Asc),
    ensures
        entries_view(final(out)@) == entries_view(old(out)@) + items_view(items@).map_values(
            |it: (int, Seq<char>, u64, u8)| entries_view(listing@)[it.0]),
{
    let ghost l = entries_view(listing@);
    let ghost s = items_view(items@);
    proof {
        let dirs = choose|dirs: bool| items_view(items@) == #[trigger] sort_items(group_items(l, dirs),
            SortKey::Name, SortDir::Asc);
        lemma_browser_rows(None, l, dirs);
        lemma_group_items(l, dirs);
        let src = group_items(l, dirs);
        assert forall|j: int| 0 <= j < s.len() implies 0 <= (#[trigger] s[j]).0 < l.len() by {
            broadcast use vstd::seq_lib::group_to_multiset_ensures;
            assert(s.contains(s[j]));
            assert(s.to_multiset().count(s[j]) > 0);
            assert(src.contains(s[j]));
        }
    }
    let ghost start = entries_view(out@);
    let mut k: usize = 0;
    while k < items.len()
        invariant
            l == entries_view(listing@),
            s == items_view(items@),
            forall|j: int| 0 <= j < s.len() ==> 0 <= (#[trigger] s[j]).0 < l.len(),
            k <= items@.len(),
            entries_view(out@) == start + s.subrange(0, k as int).map_values(|it: (int, Seq<char>, u64, u8)| l[it.0]),
        decreases items@.len() - k,
    {
        let pos = items[k].pos;
        assert(s[k as int].0 == pos);
        let e = &listing[pos];
        let ghost before = entries_view(out@);
        out.push(BrowserEntry { name: e.name.clone(), path: e.path.clone(), is_dir: e.is_dir });
        proof {
            assert(entries_view(out@) =~= before.push(l[pos as int]));
            assert(s.subrange(0, k + 1).map_values(|it: (int, Seq<char>, u64, u8)| l[it.0])
                =~= s.subrange(0, k as int).map_values(|it: (int, Seq<char>, u64, u8)| l[it.0]).push(l[pos as int]));
        }
        k = k + 1;
    }
    assert(s.subrange(0, items@.len() as int) =~= s);
}

/// The highlighted row after moving `delta` rows among `n`.
fn move_selection(sel: Option<usize>, n: usize, delta: i64) -> (r: Option<usize>)
    requires
        -10 <= delta <= 10,
    ensures
        r == moved(sel, n as nat, delta as int),
{
    if n == 0 {
        return sel;
    }
    let i: usize = match sel {
        Some(i) => i,
        None => 0,
    };
    if delta < 0 {
        let d = (0 - delta) as usize;
        if i < d {
            Some(0)
        } else if i - d > n - 1 {
            Some(n - 1)
        } else {
            Some(i - d)
        }
    } else {
        let d = delta as usize;
        if i >= n - 1 || n - 1 - i < d {
            Some(n - 1)
        } else {
            Some(i + d)
        }
    }
}

/// `s` is a fresh browser for `target` (choosing folders when `select_dirs`)
/// showing the folder `cwd`, read by the caller: `parent` is its parent
/// folder, if any; `listing` its entries, or why it could not be read.
pub open spec fn opened_at(s: FileBrowser, target: FileBrowserTarget, select_dirs: bool, cwd: String,
    parent: Option<String>, listing: Result<Vec<BrowserEntry>, String>) -> bool {
    &&& s.target == target
    &&& s.select_dirs == select_dirs
    &&& s.cwd == cwd
    &&& entries_view(s.entries@) == browser_rows(match parent {
        Some(p) => Some(p@),
        None => None,
    }, match listing {
        Ok(l) => entries_view(l@),
        Err(_) => Seq::empty(),
    })
    &&& s.selected == (if s.entries@.len() > 0 { Some(0usize) } else { None })
    &&& match listing {
        Ok(_) => s.load_error is None,
        Err(m) => s.load_error matches Some(t) && t@ == "Cannot read directory: "@ + m@,
    }
}

impl FileBrowser {
    fn new_inner(target: FileBrowserTarget, select_dirs: bool, cwd: String, parent: Option<String>,
        listing: Result<Vec<BrowserEntry>, String>) -> (s: FileBrowser)
        ensures
            opened_at(s, target, select_dirs, cwd, parent, listing),
    {
        let mut s = FileBrowser { target, cwd: String::new(), entries: Vec::new(), selected: None, load_error: None, select_dirs };
        s.load(cwd, parent, listing);
        s
    }

    /// A browser for `target` that picks files, showing the folder `cwd` as
    /// the caller read it (see `opened_at`).
    pub fn open(target: FileBrowserTarget, cwd: String, parent: Option<String>,
        listing: Result<Vec<BrowserEntry>, String>) -> (s: FileBrowser)
        ensures
            opened_at(s, target, false, cwd, parent, listing),
    {
        Self::new_inner(target, false, cwd, parent, listing)
    }

    /// Like `open`, but Enter on a folder chooses it instead of opening it.
    pub fn open_for_dir(target: FileBrowserTarget, cwd: String, parent: Option<String>,
        listing: Result<Vec<BrowserEntry>, String>) -> (s: FileBrowser)
        ensures
            opened_at(s, target, true, cwd, parent, listing),
    {
        Self::new_inner(target, true, cwd, parent, listing)
    }

    /// Show the folder `cwd` (see `opened_at`); the first row is highlighted.
    pub fn load(&mut self, cwd: String, parent: Option<String>, listing: Result<Vec<BrowserEntry>, String>)
        ensures
            final(self).target == old(self).target,
            final(self).select_dirs == old(self).select_dirs,
            final(self).cwd == cwd,
            entries_view(final(self).entries@) == browser_rows(match parent {
                Some(p) => Some(p@),
                None => None,
            }, match listing {
                Ok(l) => entries_view(l@),
                Err(_) => Seq::empty(),
            }),
            final(self).selected == (if final(self).entries@.len() > 0 { Some(0usize) } else { None }),
            match listing {
                Ok(_) => final(self).load_error is None,
                Err(m) => final(self).load_error matches Some(t) && t@ == "Cannot read directory: "@ + m@,
            },
    {
        let (items, error) = match listing {
            Ok(l) => (l, None),
            Err(m) => (Vec::new(), Some(concat("Cannot read directory: ", m.as_str()))),
        };
        proof {
            assert(entries_view(Seq::<BrowserEntry>::empty()) =~= Seq::empty());
        }
        self.entries = browser_rows_of(parent, &items);
        self.cwd = cwd;
        self.load_error = error;
        self.selected = if self.entries.len() > 0 { Some(0) } else { None };
    }

    /// Handle a key: Esc closes; the row keys move (see `key_move`); the up
    /// keys ask for the parent folder; Enter on a file chooses it, on a
    /// folder opens it, or, when picking folders, chooses it (`..` always
    /// opens).
    pub fn handle_key(&mut self, key: Key) -> (r: FileBrowserEvent)
        ensures
            final(self).target == old(self).target,
            final(self).cwd == old(self).cwd,
            final(self).entries == old(self).entries,
            final(self).load_error == old(self).load_error,
            final(self).select_dirs == old(self).select_dirs,
            key is Esc ==> r is Cancelled && final(self).selected == old(self).selected,
            key_move(old(self).selected, old(self).entries@.len(), key) matches Some(m)
                ==> r is Pending && final(self).selected == m,
            is_up_key(key) ==> r is Up && final(self).selected == old(self).selected,
            is_enter_key(key) ==> final(self).selected == old(self).selected && match old(self).selected {
                Some(i) => if i < old(self).entries@.len() {
                    let e = old(self).entries@[i as int];
                    if e.is_dir && !(old(self).select_dirs && e.name@ != ".."@) {
                        r matches FileBrowserEvent::Open(p) && p@ == e.path@
                    } else {
                        r matches FileBrowserEvent::Selected(p) && p@ == e.path@
                    }
                } else {
                    r is Pending
                },
                None => r is Pending,
            },
            !(key is Esc) && key_move(old(self).selected, old(self).entries@.len(), key) is None && !is_up_key(key)
                && !is_enter_key(key) ==> r is Pending && final(self).selected == old(self).selected,
    {
        let n = self.entries.len();
        let delta: Option<i64> = match key {
            Key::Up => Some(-1),
            Key::Down => Some(1),
            Key::PageUp => Some(-10),
            Key::PageDown => Some(10),
            Key::Char(c) => if c == 'k' {
                Some(-1)
            } else if c == 'j' {
                Some(1)
            } else {
                None
            },
            _ => None,
        };
        if let Some(d) = delta {
            self.selected = move_selection(self.selected, n, d);
            return FileBrowserEvent::Pending;
        }
        match key {
            Key::Esc => FileBrowserEvent::Cancelled,
            Key::Backspace | Key::Left => FileBrowserEvent::Up,
            Key::Enter | Key::Right => self.enter_step(),
            Key::Char(c) => if c == 'g' {
                if n > 0 {
                    self.selected = Some(0);
                }
                FileBrowserEvent::Pending
            } else if c == 'G' {
                if n > 0 {
                    self.selected = Some(n - 1);
                }
                FileBrowserEvent::Pending
            } else if c == 'h' {
                FileBrowserEvent::Up
            } else if c == 'l' {
                self.enter_step()
            } else {
                FileBrowserEvent::Pending
            },
            _ => FileBrowserEvent::Pending,
        }
    }

    /// What Enter does on the highlighted row.
    fn enter_step(&self) -> (r: FileBrowserEvent)
        ensures
            match self.selected {
                Some(i) => if i < self.entries@.len() {
                    let e = self.entries@[i as int];
                    if e.is_dir && !(self.select_dirs && e.name@ != ".."@) {
                        r matches FileBrowserEvent::Open(p) && p@ == e.path@
                    } else {
                        r matches FileBrowserEvent::Selected(p) && p@ == e.path@
                    }
                } else {
                    r is Pending
                },
                None => r is Pending,
            },
    {
        let i = match self.selected {
            Some(i) => i,
            None => {
                return FileBrowserEvent::Pending;
            },
        };
        if i >= self.entries.len() {
            return FileBrowserEvent::Pending;
        }
        let e = &self.entries[i];
        if e.is_dir {
            if self.select_dirs && !crate::text::str_eq(e.name.as_str(), "..") {
                return FileBrowserEvent::Selected(e.path.clone());
            }
            FileBrowserEvent::Open(e.path.clone())
        } else {
            FileBrowserEvent::Selected(e.path.clone())
        }
    }
}

} // verus!
