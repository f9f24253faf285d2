//! Folders of a vault. Folders are implied by the entries' paths: a folder
//! exists when some entry lies in it or below it; the root always exists.

use vstd::prelude::*;
use vstd::string::*;

use crate::filetype::{category_of_ext, file_category};
use crate::handle::VaultHandle;
use crate::index::VaultEntry;
use crate::order::{insert_sorted_unique, strictly_sorted, views};
use crate::paths::{parent_folder, parent_of};
use crate::sorting::{item_view, items_view, sort_by_key, sort_items, SortDir, SortItem, SortKey};
use crate::text::{copy_range, from_chars, lemma_last_index_of, seq_starts_with, to_chars};
use crate::text;

verus! {

/// Position of the first `c` in `s`, or -1.
pub open spec fn first_index_of(s: Seq<char>, c: char) -> int {
    if exists|i: int| 0 <= i < s.len() && s[i] == c {
        choose|i: int| 0 <= i < s.len() && s[i] == c && forall|j: int| 0 <= j < i ==> s[j] != c
    } else {
        -1
    }
}

/// What precedes the first `/` of `s` (all of `s` when it has none).
pub open spec fn first_segment(s: Seq<char>) -> Seq<char> {
    let k = first_index_of(s, '/');
    if k < 0 {
        s
    } else {
        s.subrange(0, k)
    }
}

/// A first index of `c` exists wherever `c` occurs.
proof fn lemma_first_occurrence(s: Seq<char>, c: char, i: int)
    requires
        0 <= i < s.len(),
        s[i] == c,
    ensures
        exists|k: int| 0 <= k <= i && s[k] == c && forall|j: int| 0 <= j < k ==> s[j] != c,
    decreases i,
{
    if exists|j: int| 0 <= j < i && s[j] == c {
        let j = choose|j: int| 0 <= j < i && s[j] == c;
        lemma_first_occurrence(s, c, j);
    } else {
        assert(forall|j: int| 0 <= j < i ==> s[j] != c);
    }
}

/// The first segment of a path holds no `/`.
pub proof fn lemma_first_segment_plain(s: Seq<char>)
    ensures
        !first_segment(s).contains('/'),
{
    if exists|i: int| 0 <= i < s.len() && s[i] == '/' {
        let i = choose|i: int| 0 <= i < s.len() && s[i] == '/';
        lemma_first_occurrence(s, '/', i);
        let k = first_index_of(s, '/');
        assert(0 <= k < s.len() && forall|j: int| 0 <= j < k ==> s[j] != '/');
        if first_segment(s).contains('/') {
            let j = choose|j: int| 0 <= j < first_segment(s).len() && first_segment(s)[j] == '/';
            assert(s[j] == '/');
        }
    } else {
        if first_segment(s).contains('/') {
            let j = choose|j: int| 0 <= j < first_segment(s).len() && first_segment(s)[j] == '/';
            assert(s[j] == '/');
        }
    }
}

/// The name of the child folder of `folder` on the way to the folder `p`, if
/// `p` lies strictly below `folder`.
pub open spec fn child_segment(folder: Seq<char>, p: Seq<char>) -> Option<Seq<char>> {
    if p.len() == 0 {
        None
    } else {
        let rest = if folder.len() == 0 {
            Some(p)
        } else if seq_starts_with(p, folder + seq!['/']) {
            Some(p.subrange(folder.len() + 1int, p.len() as int))
        } else {
            None
        };
        match rest {
            Some(r) => if first_segment(r).len() > 0 { Some(first_segment(r)) } else { None },
            None => None,
        }
    }
}

/// The names of the child folders of `folder` that the paths `paths` imply.
pub open spec fn child_names(folder: Seq<char>, paths: Seq<Seq<char>>) -> Set<Seq<char>> {
    Set::new(|seg: Seq<char>| exists|i: int| 0 <= i < paths.len() && child_segment(folder, #[trigger] paths[i]) == Some(seg))
}

/// The child segment of `folder` towards `p`.
pub fn child_segment_of(folder: &[char], p: &[char]) -> (r: Option<Vec<char>>)
    ensures
        match r {
            Some(v) => child_segment(folder@, p@) == Some(v@),
            None => child_segment(folder@, p@) is None,
        },
{
    if p.len() == 0 {
        return None;
    }
    let f = folder.len();
    let start: usize;
    if f == 0 {
        start = 0;
    } else {
        // `p` must start with `folder/`.
        if p.len() <= f || p[f] != '/' {
            proof {
                if seq_starts_with(p@, folder@ + seq!['/']) {
                    assert(p@.subrange(0, f + 1)[f as int] == '/');
                }
            }
            return None;
        }
        let mut i: usize = 0;
        while i < f
            invariant
                i <= f,
                f == folder@.len(),
                f + 1 <= p@.len(),
                forall|j: int| 0 <= j < i ==> p@[j] == folder@[j],
            decreases f - i,
        {
            if p[i] != folder[i] {
                proof {
                    if seq_starts_with(p@, folder@ + seq!['/']) {
                        assert(p@.subrange(0, f + 1)[i as int] == (folder@ + seq!['/'])[i as int]);
                    }
                }
                return None;
            }
            i = i + 1;
        }
        assert(p@.subrange(0, f + 1) =~= folder@ + seq!['/']);
        start = f + 1;
    }
    let ghost rest = p@.subrange(start as int, p@.len() as int);
    assert(f == 0 ==> rest =~= p@);
    let mut k: usize = start;
    while k < p.len() && p[k] != '/'
        invariant
            start <= k <= p@.len(),
            rest == p@.subrange(start as int, p@.len() as int),
            forall|j: int| start <= j < k ==> p@[j] != '/',
        decreases p@.len() - k,
    {
        k = k + 1;
    }
    proof {
        if k < p.len() {
            assert(rest[k - start] == '/');
            assert(forall|j: int| 0 <= j < k - start ==> rest[j] != '/');
            assert(first_index_of(rest, '/') == k - start) by {
                let w = choose|i: int| 0 <= i < rest.len() && rest[i] == '/' && forall|j: int| 0 <= j < i ==> rest[j] != '/';
                assert(w == k - start) by {
                    if w < k - start {
                        assert(rest[w] != '/');
                    }
                    if w > k - start {
                        assert(rest[k - start] != '/');
                    }
                }
            }
            assert(first_segment(rest) =~= p@.subrange(start as int, k as int));
        } else {
            assert(!(exists|i: int| 0 <= i < rest.len() && rest[i] == '/')) by {
                if exists|i: int| 0 <= i < rest.len() && rest[i] == '/' {
                    let i = choose|i: int| 0 <= i < rest.len() && rest[i] == '/';
                    assert(p@[start + i] == '/');
                }
            }
            assert(first_segment(rest) =~= p@.subrange(start as int, k as int));
        }
    }
    if k == start {
        return None;
    }
    Some(copy_range(p, start, k))
}

/// The names of the child folders of `folder` implied by `paths`, sorted and
/// without repeats.
pub fn child_names_of(folder: &str, paths: &[String]) -> (r: Vec<String>)
    ensures
        strictly_sorted(views(r@)),
        views(r@).to_set() == child_names(folder@, views(paths@)),
{
    let f = to_chars(folder);
    let mut r: Vec<String> = Vec::new();
    let mut i: usize = 0;
    assert(views(r@).to_set() =~= Set::<Seq<char>>::empty());
    while i < paths.len()
        invariant
            i <= paths@.len(),
            f@ == folder@,
            strictly_sorted(views(r@)),
            views(r@).to_set() == child_names(folder@, views(paths@).subrange(0, i as int)),
        decreases paths@.len() - i,
    {
        let p = to_chars(paths[i].as_str());
        let seg = child_segment_of(f.as_slice(), p.as_slice());
        let ghost before = views(r@).to_set();
        let ghost ps = views(paths@).subrange(0, i + 1);
        let ghost qs = views(paths@).subrange(0, i as int);
        assert(ps[i as int] == paths@[i as int]@);
        match seg {
            Some(s) => {
                let name = from_chars(s.as_slice());
                insert_sorted_unique(&mut r, name);
                assert(views(r@).to_set() =~= child_names(folder@, ps)) by {
                    assert forall|x: Seq<char>| child_names(folder@, ps).contains(x) <==> before.insert(s@).contains(x) by {
                        if child_names(folder@, ps).contains(x) {
                            let j = choose|j: int| 0 <= j < ps.len() && child_segment(folder@, #[trigger] ps[j]) == Some(x);
                            if j < i {
                                assert(qs[j] == ps[j]);
                            }
                        }
                        if before.contains(x) {
                            let j = choose|j: int| 0 <= j < qs.len() && child_segment(folder@, #[trigger] qs[j]) == Some(x);
                            assert(ps[j] == qs[j]);
                        }
                    }
                }
            },
            None => {
                assert(views(r@).to_set() =~= child_names(folder@, ps)) by {
                    assert forall|x: Seq<char>| child_names(folder@, ps).contains(x) <==> before.contains(x) by {
                        if child_names(folder@, ps).contains(x) {
                            let j = choose|j: int| 0 <= j < ps.len() && child_segment(folder@, #[trigger] ps[j]) == Some(x);
                            if j < i {
                                assert(qs[j] == ps[j]);
                            }
                        }
                        if before.contains(x) {
                            let j = choose|j: int| 0 <= j < qs.len() && child_segment(folder@, #[trigger] qs[j]) == Some(x);
                            assert(ps[j] == qs[j]);
                        }
                    }
                }
            },
        }
        i = i + 1;
    }
    assert(views(paths@).subrange(0, paths@.len() as int) =~= views(paths@));
    r
}

/// The folder paths of the entries, in index order.
pub open spec fn entry_paths(pairs: Seq<(Seq<char>, VaultEntry)>) -> Seq<Seq<char>> {
    pairs.map_values(|p: (Seq<char>, VaultEntry)| p.1.path@)
}

/// Copies of the folder paths of all entries, in index order.
pub fn entry_path_list(handle: &VaultHandle) -> (r: Vec<String>)
    ensures
        views(r@) == entry_paths(handle.index.pairs()),
{
    let n = handle.index.len();
    let mut r: Vec<String> = Vec::new();
    let mut i: usize = 0;
    while i < n
        invariant
            n == handle.index.pairs().len(),
            i <= n,
            views(r@) == entry_paths(handle.index.pairs().subrange(0, i as int)),
        decreases n - i,
    {
        let (_, e) = handle.index.entry_at(i);
        let ghost before = r@;
        r.push(e.path.clone());
        assert(views(r@) =~= views(before).push(e.path@));
        assert(entry_paths(handle.index.pairs().subrange(0, i + 1))
            =~= entry_paths(handle.index.pairs().subrange(0, i as int)).push(e.path@));
        i = i + 1;
    }
    assert(handle.index.pairs().subrange(0, n as int) =~= handle.index.pairs());
    r
}

impl VaultHandle {
    /// The names of the immediate sub-folders of `path` (not recursive), sorted.
    pub fn subfolders(&self, path: &str) -> (r: Vec<String>)
        ensures
            strictly_sorted(views(r@)),
            views(r@).to_set() == child_names(path@, entry_paths(self.index.pairs())),
    {
        let paths = entry_path_list(self);
        child_names_of(path, paths.as_slice())
    }
}

/// `a` is the folder `p` or one of the folders above it (the root included).
pub open spec fn ancestor_or_self(a: Seq<char>, p: Seq<char>) -> bool
    decreases p.len(),
{
    if a == p {
        true
    } else if p.len() == 0 {
        false
    } else {
        proof {
            lemma_last_index_of(p, '/');
        }
        ancestor_or_self(a, parent_folder(p))
    }
}

/// The parent of a folder is shorter than it.
proof fn lemma_parent_shorter(p: Seq<char>)
    requires
        p.len() > 0,
    ensures
        parent_folder(p).len() < p.len(),
{
    lemma_last_index_of(p, '/');
}

/// The folders of a vault: the root, and every folder on the way to an entry.
pub open spec fn all_folders_set(pairs: Seq<(Seq<char>, VaultEntry)>) -> Set<Seq<char>> {
    Set::new(|a: Seq<char>| a.len() == 0 || exists|i: int| 0 <= i < pairs.len() && ancestor_or_self(a, #[trigger] pairs[i].1.path@))
}

/// Every folder path implied by the index, and the root, sorted without repeats.
pub fn collect_all_folders(handle: &VaultHandle) -> (r: Vec<String>)
    ensures
        strictly_sorted(views(r@)),
        views(r@).to_set() == all_folders_set(handle.index.pairs()),
{
    let ghost pairs = handle.index.pairs();
    let n = handle.index.len();
    let mut r: Vec<String> = Vec::new();
    insert_sorted_unique(&mut r, String::new());
    proof {
        assert forall|a: Seq<char>| views(r@).to_set().contains(a) <==> all_folders_set(pairs.subrange(0, 0)).contains(a) by {
            if a.len() == 0 {
                assert(a =~= Seq::<char>::empty());
            }
        }
        assert(views(r@).to_set() =~= all_folders_set(pairs.subrange(0, 0)));
    }
    let mut i: usize = 0;
    while i < n
        invariant
            n == pairs.len(),
            pairs == handle.index.pairs(),
            i <= n,
            strictly_sorted(views(r@)),
            views(r@).to_set() == all_folders_set(pairs.subrange(0, i as int)),
        decreases n - i,
    {
        let (_, e) = handle.index.entry_at(i);
        let ghost orig = e.path@;
        let ghost base = views(r@).to_set();
        let mut cur: String = e.path.clone();
        loop
            invariant
                strictly_sorted(views(r@)),
                base.subset_of(views(r@).to_set()),
                forall|a: Seq<char>| #![trigger views(r@).to_set().contains(a)]
                    views(r@).to_set().contains(a) ==> base.contains(a) || ancestor_or_self(a, orig),
                forall|a: Seq<char>| #![trigger ancestor_or_self(a, orig)]
                    ancestor_or_self(a, orig) ==> ancestor_or_self(a, cur@) || views(r@).to_set().contains(a),
                ancestor_or_self(cur@, orig),
            ensures
                cur@.len() == 0,
                strictly_sorted(views(r@)),
                base.subset_of(views(r@).to_set()),
                forall|a: Seq<char>| #![trigger views(r@).to_set().contains(a)]
                    views(r@).to_set().contains(a) ==> base.contains(a) || ancestor_or_self(a, orig),
                forall|a: Seq<char>| #![trigger ancestor_or_self(a, orig)]
                    ancestor_or_self(a, orig) ==> ancestor_or_self(a, cur@) || views(r@).to_set().contains(a),
            decreases cur@.len(),
        {
            let ghost prev = views(r@).to_set();
            let c2 = cur.clone();
            insert_sorted_unique(&mut r, c2);
            if cur.unicode_len() == 0 {
                break;
            }
            let next = parent_of(cur.as_str());
            proof {
                lemma_parent_shorter(cur@);
                assert forall|a: Seq<char>| #![trigger ancestor_or_self(a, orig)]
                    ancestor_or_self(a, orig) implies ancestor_or_self(a, next@) || views(r@).to_set().contains(a) by {
                    if ancestor_or_self(a, cur@) && a != cur@ {
                        assert(ancestor_or_self(a, parent_folder(cur@)));
                    }
                    if a == cur@ {
                        assert(views(r@).to_set().contains(a));
                    }
                }
                lemma_ancestor_step(next@, cur@, orig);
            }
            cur = next;
        }
        proof {
            let pre = pairs.subrange(0, i + 1);
            let q = pairs.subrange(0, i as int);
            assert forall|a: Seq<char>| views(r@).to_set().contains(a) <==> all_folders_set(pre).contains(a) by {
                if views(r@).to_set().contains(a) {
                    if base.contains(a) {
                        if a.len() > 0 {
                            let j = choose|j: int| 0 <= j < q.len() && ancestor_or_self(a, #[trigger] q[j].1.path@);
                            assert(pre[j] == q[j]);
                        }
                    } else {
                        assert(pre[i as int].1.path@ == orig);
                    }
                }
                if all_folders_set(pre).contains(a) {
                    if a.len() == 0 {
                        assert(base.contains(a)) by {
                            assert(all_folders_set(q).contains(a));
                        }
                    } else {
                        let j = choose|j: int| 0 <= j < pre.len() && ancestor_or_self(a, #[trigger] pre[j].1.path@);
                        if j < i {
                            assert(q[j] == pre[j]);
                            assert(all_folders_set(q).contains(a));
                        } else {
                            assert(pre[j].1.path@ == orig);
                            if ancestor_or_self(a, cur@) {
                                lemma_ancestor_of_root(a, cur@);
                            }
                        }
                    }
                }
            }
            assert(views(r@).to_set() =~= all_folders_set(pre));
        }
        i = i + 1;
    }
    proof {
        assert(pairs.subrange(0, n as int) =~= pairs);
    }
    r
}

/// The parent of a folder on the way to `orig` is also on the way to `orig`.
proof fn lemma_ancestor_step(next: Seq<char>, cur: Seq<char>, orig: Seq<char>)
    requires
        cur.len() > 0,
        next == parent_folder(cur),
        ancestor_or_self(cur, orig),
    ensures
        ancestor_or_self(next, orig),
    decreases orig.len(),
{
    if cur == orig {
        assert(ancestor_or_self(next, next));
    } else {
        lemma_parent_shorter(orig);
        lemma_ancestor_step(next, cur, parent_folder(orig));
    }
}

/// The only folder on the way to the root is the root.
proof fn lemma_ancestor_of_root(a: Seq<char>, cur: Seq<char>)
    requires
        cur.len() == 0,
        ancestor_or_self(a, cur),
    ensures
        a == cur,
{
}

/// The folders of a vault are closed upwards: the root is one of them, and the
/// parent of any other folder is one of them too.
pub proof fn lemma_all_folders_closed(pairs: Seq<(Seq<char>, VaultEntry)>, a: Seq<char>)
    ensures
        all_folders_set(pairs).contains(Seq::empty()),
        all_folders_set(pairs).contains(a) && a.len() > 0 ==> all_folders_set(pairs).contains(parent_folder(a)),
{
    if all_folders_set(pairs).contains(a) && a.len() > 0 {
        let j = choose|j: int| 0 <= j < pairs.len() && ancestor_or_self(a, #[trigger] pairs[j].1.path@);
        lemma_ancestor_step(parent_folder(a), a, pairs[j].1.path@);
    }
}

/// The type category of a file name: that of its lower-cased extension.
pub open spec fn category_spec(name: Seq<char>) -> u8 {
    category_of_ext(text::lower_seq(text::ext_or_empty(name)))
}

/// The files of the folder `path`, in index order, as sort items.
pub open spec fn folder_items(pairs: Seq<(Seq<char>, VaultEntry)>, path: Seq<char>) -> Seq<(int, Seq<char>, u64, u8)>
    decreases pairs.len(),
{
    if pairs.len() == 0 {
        Seq::empty()
    } else {
        let r = folder_items(pairs.drop_last(), path);
        let e = pairs.last().1;
        if e.path@ == path {
            r.push((pairs.len() - 1, e.name@, e.size, category_spec(e.name@)))
        } else {
            r
        }
    }
}

/// Sort items for the files of the folder `path`, in index order.
pub fn folder_item_list(handle: &VaultHandle, path: &str) -> (r: Vec<SortItem>)
    ensures
        items_view(r@) == folder_items(handle.index.pairs(), path@),
        forall|k: int| 0 <= k < r@.len() ==> (#[trigger] r@[k]).pos < handle.index.pairs().len(),
{
    let ghost pairs = handle.index.pairs();
    let n = handle.index.len();
    let mut r: Vec<SortItem> = Vec::new();
    let mut i: usize = 0;
    while i < n
        invariant
            n == pairs.len(),
            pairs == handle.index.pairs(),
            i <= n,
            items_view(r@) == folder_items(pairs.subrange(0, i as int), path@),
            forall|k: int| 0 <= k < r@.len() ==> (#[trigger] r@[k]).pos < i,
        decreases n - i,
    {
        let (_, e) = handle.index.entry_at(i);
        let ghost pre = pairs.subrange(0, i + 1);
        assert(pre.drop_last() =~= pairs.subrange(0, i as int));
        assert(pre.last() == pairs[i as int]);
        if crate::text::str_eq(e.path.as_str(), path) {
            let cat = file_category(e.name.as_str());
            let ghost before = r@;
            r.push(SortItem { pos: i, name: e.name.clone(), size: e.size, cat });
            assert(items_view(r@) =~= items_view(before).push(item_view(r@[r@.len() - 1])));
        }
        i = i + 1;
    }
    assert(pairs.subrange(0, n as int) =~= pairs);
    r
}

/// `(u, e)` is the pair at position `p` of `pairs`.
pub open spec fn pair_at(pairs: Seq<(Seq<char>, VaultEntry)>, p: int, u: Seq<char>, e: VaultEntry) -> bool {
    0 <= p < pairs.len() && u == pairs[p].0 && e == pairs[p].1
}

impl VaultHandle {
    /// The files whose folder is exactly `path`, with their UUIDs, sorted by name
    /// (files with equal names keep their index order).
    pub fn entries_in_path<'h>(&'h self, path: &str) -> (r: Vec<(&'h String, &'h VaultEntry)>)
        ensures
            r@.len() == sort_items(folder_items(self.index.pairs(), path@), SortKey::Name, SortDir::Asc).len(),
            forall|k: int| 0 <= k < r@.len() ==> pair_at(self.index.pairs(),
                sort_items(folder_items(self.index.pairs(), path@), SortKey::Name, SortDir::Asc)[k].0,
                (#[trigger] r@[k]).0@, *r@[k].1),
    {
        let items = folder_item_list(self, path);
        let ghost src = items_view(items@);
        let n = self.index.len();
        proof {
            assert forall|j: int| 0 <= j < src.len() implies 0 <= (#[trigger] src[j]).0 < n by {
                assert(src[j] == item_view(items@[j]));
            }
        }
        let sorted = sort_by_key(items, SortKey::Name, SortDir::Asc);
        let ghost s = sort_items(src, SortKey::Name, SortDir::Asc);
        proof {
            crate::sorting::lemma_sort_items_sorted(src, SortKey::Name, SortDir::Asc);
        }
        let mut r: Vec<(&'h String, &'h VaultEntry)> = Vec::new();
        let mut k: usize = 0;
        while k < sorted.len()
            invariant
                n == self.index.pairs().len(),
                k <= sorted@.len(),
                s == sort_items(src, SortKey::Name, SortDir::Asc),
                items_view(sorted@) == s,
                s.to_multiset() == src.to_multiset(),
                src == folder_items(self.index.pairs(), path@),
                forall|j: int| 0 <= j < src.len() ==> 0 <= (#[trigger] src[j]).0 < n,
                r@.len() == k,
                forall|j: int| 0 <= j < k ==> pair_at(self.index.pairs(), s[j].0, (#[trigger] r@[j]).0@, *r@[j].1),
            decreases sorted@.len() - k,
        {
            let pos = sorted[k].pos;
            proof {
                broadcast use vstd::seq_lib::group_to_multiset_ensures;
                assert(s[k as int] == item_view(sorted@[k as int]));
                assert(s.contains(s[k as int]));
                assert(s.to_multiset().count(s[k as int]) > 0);
                assert(src.contains(s[k as int]));
                let j = choose|j: int| 0 <= j < src.len() && src[j] == s[k as int];
                assert(0 <= src[j].0 < n);
            }
            let (u, e) = self.index.entry_at(pos);
            let ghost old_r = r@;
            r.push((u, e));
            proof {
                assert(s[k as int].0 == pos as int);
                assert forall|j: int| 0 <= j < k + 1 implies pair_at(self.index.pairs(), s[j].0, (#[trigger] r@[j]).0@, *r@[j].1) by {
                    if j < k {
                        assert(r@[j] == old_r[j]);
                    }
                }
            }
            k = k + 1;
        }
        r
    }
}

} // verus!
