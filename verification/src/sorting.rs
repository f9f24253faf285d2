//! Sorting the file list of a folder: by name, size or type (category, then
//! name), ascending or descending, or in the order files were added ("age").
//! The sort is stable: files that compare equal keep their order.

use vstd::prelude::*;
use vstd::string::*;

use crate::order::{compare_strs, lemma_seq_lt_total, lemma_seq_lt_transitive, seq_lt};

verus! {

/// What the file list is sorted by.
#[derive(Clone, Copy, Debug, PartialEq, Eq, Structural)]
pub enum SortKey {
    Name,
    Size,
    Type,
    /// The order files were added to the vault, oldest first when ascending.
    Age,
}

/// Ascending or descending.
#[derive(Clone, Copy, Debug, PartialEq, Eq, Structural)]
pub enum SortDir {
    Asc,
    Desc,
}

impl SortKey {
    /// The key after this one: Name, Size, Type, Age, then Name again.
    pub open spec fn next_spec(self) -> SortKey {
        match self {
            SortKey::Name => SortKey::Size,
            SortKey::Size => SortKey::Type,
            SortKey::Type => SortKey::Age,
            SortKey::Age => SortKey::Name,
        }
    }

    /// The label shown for this key.
    pub open spec fn label_spec(self) -> Seq<char> {
        match self {
            SortKey::Name => "Name"@,
            SortKey::Size => "Size"@,
            SortKey::Type => "Type"@,
            SortKey::Age => "Age"@,
        }
    }

    /// The label shown for this key.
    pub fn label(self) -> (r: &'static str)
        ensures
            r@ == self.label_spec(),
    {
        match self {
            SortKey::Name => "Name",
            SortKey::Size => "Size",
            SortKey::Type => "Type",
            SortKey::Age => "Age",
        }
    }

    /// The key after this one in the cycle.
    pub fn next(self) -> (r: SortKey)
        ensures
            r == self.next_spec(),
    {
        match self {
            SortKey::Name => SortKey::Size,
            SortKey::Size => SortKey::Type,
            SortKey::Type => SortKey::Age,
            SortKey::Age => SortKey::Name,
        }
    }
}

/// Cycling the sort key four times comes back to where it started, passing
/// through every key on the way.
pub proof fn lemma_sort_key_cycle(k: SortKey)
    ensures
        k.next_spec().next_spec().next_spec().next_spec() == k,
        k.next_spec() != k,
        k.next_spec().next_spec() != k,
        k.next_spec().next_spec().next_spec() != k,
{
}

impl SortDir {
    /// The other direction.
    pub open spec fn toggle_spec(self) -> SortDir {
        match self {
            SortDir::Asc => SortDir::Desc,
            SortDir::Desc => SortDir::Asc,
        }
    }

    /// The arrow shown for this direction.
    pub fn arrow(self) -> (r: &'static str)
        ensures
            r@ == (match self {
                SortDir::Asc => "↑"@,
                SortDir::Desc => "↓"@,
            }),
    {
        match self {
            SortDir::Asc => "↑",
            SortDir::Desc => "↓",
        }
    }

    /// The other direction.
    pub fn toggle(self) -> (r: SortDir)
        ensures
            r == self.toggle_spec(),
            r != self,
    {
        match self {
            SortDir::Asc => SortDir::Desc,
            SortDir::Desc => SortDir::Asc,
        }
    }
}

/// Toggling the direction twice gives it back.
pub proof fn lemma_toggle_involution(d: SortDir)
    ensures
        d.toggle_spec().toggle_spec() == d,
        d.toggle_spec() != d,
{
}

/// One file of the list with what it is sorted by: its position in the index,
/// its name, its size and its type category.
pub struct SortItem {
    pub pos: usize,
    pub name: String,
    pub size: u64,
    pub cat: u8,
}

/// A sort item as plain values: (position, name, size, category).
pub open spec fn item_view(i: SortItem) -> (int, Seq<char>, u64, u8) {
    (i.pos as int, i.name@, i.size, i.cat)
}

/// The views of a list of sort items.
pub open spec fn items_view(s: Seq<SortItem>) -> Seq<(int, Seq<char>, u64, u8)> {
    s.map_values(|i: SortItem| item_view(i))
}

/// `a` is strictly smaller than `b` by `key` (never, for `Age`).
pub open spec fn key_lt(a: (int, Seq<char>, u64, u8), b: (int, Seq<char>, u64, u8), key: SortKey) -> bool {
    match key {
        SortKey::Name => seq_lt(a.1, b.1),
        SortKey::Size => a.2 < b.2,
        SortKey::Type => a.3 < b.3 || (a.3 == b.3 && seq_lt(a.1, b.1)),
        SortKey::Age => false,
    }
}

/// `a` must come before `b` in a list sorted by `key` in direction `dir`.
pub open spec fn goes_before(a: (int, Seq<char>, u64, u8), b: (int, Seq<char>, u64, u8), key: SortKey, dir: SortDir) -> bool {
    match dir {
        SortDir::Asc => key_lt(a, b, key),
        SortDir::Desc => key_lt(b, a, key),
    }
}

/// Insert `x` into a sorted list after every element it need not precede.
pub open spec fn insert_item(s: Seq<(int, Seq<char>, u64, u8)>, x: (int, Seq<char>, u64, u8), key: SortKey, dir: SortDir)
    -> Seq<(int, Seq<char>, u64, u8)>
    decreases s.len(),
{
    if s.len() == 0 {
        seq![x]
    } else if goes_before(x, s.last(), key, dir) {
        insert_item(s.drop_last(), x, key, dir).push(s.last())
    } else {
        s.push(x)
    }
}

/// The stable sort of `s` by `key` in direction `dir`.
pub open spec fn sort_items(s: Seq<(int, Seq<char>, u64, u8)>, key: SortKey, dir: SortDir) -> Seq<(int, Seq<char>, u64, u8)>
    decreases s.len(),
{
    if s.len() == 0 {
        s
    } else {
        insert_item(sort_items(s.drop_last(), key, dir), s.last(), key, dir)
    }
}

/// `s` is in order: no element must come before an earlier one.
pub open spec fn in_order(s: Seq<(int, Seq<char>, u64, u8)>, key: SortKey, dir: SortDir) -> bool {
    forall|i: int, j: int| 0 <= i < j < s.len() ==> !goes_before(#[trigger] s[j], #[trigger] s[i], key, dir)
}

/// `goes_before` is a strict weak order.
pub proof fn lemma_goes_before_order(a: (int, Seq<char>, u64, u8), b: (int, Seq<char>, u64, u8), c: (int, Seq<char>, u64, u8), key: SortKey, dir: SortDir)
    ensures
        !goes_before(a, a, key, dir),
        goes_before(a, b, key, dir) ==> !goes_before(b, a, key, dir),
        goes_before(a, c, key, dir) ==> goes_before(a, b, key, dir) || goes_before(b, c, key, dir),
{
    lemma_seq_lt_total(a.1, b.1);
    lemma_seq_lt_total(b.1, c.1);
    lemma_seq_lt_total(a.1, c.1);
    if seq_lt(a.1, b.1) && seq_lt(b.1, c.1) {
        lemma_seq_lt_transitive(a.1, b.1, c.1);
    }
    if seq_lt(c.1, b.1) && seq_lt(b.1, a.1) {
        lemma_seq_lt_transitive(c.1, b.1, a.1);
    }
    if seq_lt(a.1, c.1) && seq_lt(c.1, b.1) {
        lemma_seq_lt_transitive(a.1, c.1, b.1);
    }
    if seq_lt(b.1, a.1) && seq_lt(a.1, c.1) {
        lemma_seq_lt_transitive(b.1, a.1, c.1);
    }
    if seq_lt(c.1, a.1) && seq_lt(b.1, c.1) {
        lemma_seq_lt_transitive(b.1, c.1, a.1);
    }
    if seq_lt(c.1, a.1) && seq_lt(a.1, b.1) {
        lemma_seq_lt_transitive(c.1, a.1, b.1);
    }
}

/// Inserting into an ordered list keeps it ordered.
proof fn lemma_insert_item_in_order(s: Seq<(int, Seq<char>, u64, u8)>, x: (int, Seq<char>, u64, u8), key: SortKey, dir: SortDir)
    requires
        in_order(s, key, dir),
    ensures
        in_order(insert_item(s, x, key, dir), key, dir),
        insert_item(s, x, key, dir).len() == s.len() + 1,
        insert_item(s, x, key, dir).to_multiset() == s.to_multiset().insert(x),
    decreases s.len(),
{
    let r = insert_item(s, x, key, dir);
    if s.len() == 0 {
        assert(r.to_multiset() =~= s.to_multiset().insert(x)) by {
            broadcast use vstd::seq_lib::group_to_multiset_ensures;
            broadcast use vstd::multiset::group_multiset_properties;
            assert(s =~= Seq::<(int, Seq<char>, u64, u8)>::empty());
            assert(r =~= Seq::<(int, Seq<char>, u64, u8)>::empty().push(x));
        }
    } else if goes_before(x, s.last(), key, dir) {
        let t = s.drop_last();
        assert(in_order(t, key, dir)) by {
            assert forall|i: int, j: int| 0 <= i < j < t.len() implies !goes_before(#[trigger] t[j], #[trigger] t[i], key, dir) by {
                assert(t[i] == s[i] && t[j] == s[j]);
            }
        }
        lemma_insert_item_in_order(t, x, key, dir);
        let u = insert_item(t, x, key, dir);
        assert(r == u.push(s.last()));
        // Every element of `u` is `x` or an element of `t`; none must follow `s.last()`.
        assert forall|i: int, j: int| 0 <= i < j < r.len() implies !goes_before(#[trigger] r[j], #[trigger] r[i], key, dir) by {
            if j == r.len() - 1 {
                assert(r[j] == s.last());
                assert(u.to_multiset().count(r[i]) > 0) by {
                    assert(u.contains(r[i])) by {
                        assert(u[i] == r[i]);
                    }
                    broadcast use vstd::seq_lib::group_to_multiset_ensures;
                }
                assert(t.to_multiset().insert(x).count(r[i]) > 0);
                if r[i] == x {
                    lemma_goes_before_order(x, s.last(), s.last(), key, dir);
                } else {
                    assert(t.to_multiset().count(r[i]) > 0);
                    broadcast use vstd::seq_lib::group_to_multiset_ensures;
                    assert(t.contains(r[i]));
                    let k = choose|k: int| 0 <= k < t.len() && t[k] == r[i];
                    assert(s[k] == r[i]);
                    assert(!goes_before(s[s.len() - 1], s[k], key, dir));
                }
            } else {
                assert(r[i] == u[i] && r[j] == u[j]);
            }
        }
        assert(r.to_multiset() =~= s.to_multiset().insert(x)) by {
            broadcast use vstd::seq_lib::group_to_multiset_ensures;
            broadcast use vstd::multiset::group_multiset_properties;
            assert(s =~= t.push(s.last()));
        }
    } else {
        assert forall|i: int, j: int| 0 <= i < j < r.len() implies !goes_before(#[trigger] r[j], #[trigger] r[i], key, dir) by {
            if j == r.len() - 1 {
                assert(r[j] == x);
                if i < s.len() - 1 {
                    assert(!goes_before(s.last(), s[i], key, dir)) by {
                        assert(s[s.len() - 1] == s.last());
                    }
                    lemma_goes_before_order(x, s.last(), s[i], key, dir);
                }
            } else {
                assert(r[i] == s[i] && r[j] == s[j]);
            }
        }
        assert(r.to_multiset() =~= s.to_multiset().insert(x)) by {
            broadcast use vstd::seq_lib::group_to_multiset_ensures;
        }
    }
}

/// The stable sort puts every element in order and keeps exactly the elements it was given.
pub proof fn lemma_sort_items_sorted(s: Seq<(int, Seq<char>, u64, u8)>, key: SortKey, dir: SortDir)
    ensures
        in_order(sort_items(s, key, dir), key, dir),
        sort_items(s, key, dir).len() == s.len(),
        sort_items(s, key, dir).to_multiset() == s.to_multiset(),
    decreases s.len(),
{
    if s.len() > 0 {
        lemma_sort_items_sorted(s.drop_last(), key, dir);
        lemma_insert_item_in_order(sort_items(s.drop_last(), key, dir), s.last(), key, dir);
        assert(s.to_multiset() =~= s.drop_last().to_multiset().insert(s.last())) by {
            broadcast use vstd::seq_lib::group_to_multiset_ensures;
            assert(s =~= s.drop_last().push(s.last()));
        }
    } else {
        assert(sort_items(s, key, dir) == s);
    }
}

/// What each sort key means for the sorted list: by name, names in order; by
/// size, sizes in order; by type, categories in order and, within a category,
/// names in order. Descending reverses each of these.
pub proof fn lemma_sort_orders(s: Seq<(int, Seq<char>, u64, u8)>, key: SortKey, dir: SortDir, i: int, j: int)
    requires
        0 <= i < j < s.len(),
    ensures
        ({
            let t = sort_items(s, key, dir);
            let (a, b) = if dir == SortDir::Asc { (t[i], t[j]) } else { (t[j], t[i]) };
            &&& key == SortKey::Name ==> !seq_lt(b.1, a.1)
            &&& key == SortKey::Size ==> a.2 <= b.2
            &&& key == SortKey::Type ==> a.3 <= b.3 && (a.3 == b.3 ==> !seq_lt(b.1, a.1))
        }),
{
    lemma_sort_items_sorted(s, key, dir);
    let t = sort_items(s, key, dir);
    assert(!goes_before(t[j], t[i], key, dir));
}

/// Sorting by age keeps the order the files were added in.
pub proof fn lemma_sort_by_age_identity(s: Seq<(int, Seq<char>, u64, u8)>, dir: SortDir)
    ensures
        sort_items(s, SortKey::Age, dir) == s,
    decreases s.len(),
{
    if s.len() > 0 {
        lemma_sort_by_age_identity(s.drop_last(), dir);
        assert(s.drop_last().push(s.last()) =~= s);
    }
}

/// Whether `a` must come before `b`.
pub fn item_goes_before(a: &SortItem, b: &SortItem, key: SortKey, dir: SortDir) -> (r: bool)
    ensures
        r == goes_before(item_view(*a), item_view(*b), key, dir),
{
    let (x, y) = match dir {
        SortDir::Asc => (a, b),
        SortDir::Desc => (b, a),
    };
    match key {
        SortKey::Name => compare_strs(x.name.as_str(), y.name.as_str()) < 0,
        SortKey::Size => x.size < y.size,
        SortKey::Type => x.cat < y.cat || (x.cat == y.cat && compare_strs(x.name.as_str(), y.name.as_str()) < 0),
        SortKey::Age => false,
    }
}

/// `insert_item` places `x` at the position `j` the backward scan stops at.
proof fn lemma_insert_item_at(s: Seq<(int, Seq<char>, u64, u8)>, x: (int, Seq<char>, u64, u8), key: SortKey, dir: SortDir, j: int)
    requires
        0 <= j <= s.len(),
        forall|k: int| j <= k < s.len() ==> goes_before(x, #[trigger] s[k], key, dir),
        j > 0 ==> !goes_before(x, s[j - 1], key, dir),
    ensures
        insert_item(s, x, key, dir) == s.insert(j, x),
    decreases s.len(),
{
    if s.len() == 0 {
        assert(s.insert(j, x) =~= seq![x]);
    } else if j == s.len() {
        assert(s.insert(j, x) =~= s.push(x));
    } else {
        assert(goes_before(x, s[s.len() - 1], key, dir));
        lemma_insert_item_at(s.drop_last(), x, key, dir, j);
        assert(s.drop_last().insert(j, x).push(s.last()) =~= s.insert(j, x));
    }
}

/// Stable sort of `items` by `key` in direction `dir` (insertion sort).
pub fn sort_by_key(items: Vec<SortItem>, key: SortKey, dir: SortDir) -> (r: Vec<SortItem>)
    ensures
        items_view(r@) == sort_items(items_view(items@), key, dir),
{
    let ghost src = items_view(items@);
    let mut out: Vec<SortItem> = Vec::new();
    let mut rest = items;
    let ghost n = src.len();
    assert(src.subrange(0, n as int) =~= src);
    while rest.len() > 0
        invariant
            n == src.len(),
            rest@.len() <= n,
            items_view(rest@) == src.subrange(n - rest@.len(), n as int),
            items_view(out@) == sort_items(src.subrange(0, n - rest@.len()), key, dir),
        decreases rest@.len(),
    {
        let ghost done = n - rest@.len();
        let ghost before_rest = rest@;
        let x = rest.remove(0);
        proof {
            assert(item_view(x) == items_view(before_rest)[0]);
            assert(item_view(x) == src[done]);
            assert(items_view(rest@) =~= src.subrange(done + 1, n as int)) by {
                assert(rest@ =~= before_rest.subrange(1, before_rest.len() as int));
                assert forall|k: int| 0 <= k < rest@.len() implies items_view(rest@)[k] == src[done + 1 + k] by {
                    assert(items_view(rest@)[k] == item_view(before_rest[k + 1]));
                    assert(items_view(before_rest)[k + 1] == src[done + 1 + k]);
                }
            }
        }
        let mut j: usize = out.len();
        while j > 0 && item_goes_before(&x, &out[j - 1], key, dir)
            invariant
                j <= out@.len(),
                forall|k: int| j <= k < out@.len() ==> goes_before(item_view(x), #[trigger] items_view(out@)[k], key, dir),
            decreases j,
        {
            j = j - 1;
        }
        proof {
            let s = items_view(out@);
            lemma_insert_item_at(s, item_view(x), key, dir, j as int);
            let pre = src.subrange(0, done + 1);
            assert(pre.drop_last() =~= src.subrange(0, done));
            assert(pre.last() == item_view(x));
        }
        let ghost before = out@;
        out.insert(j, x);
        proof {
            assert(items_view(out@) =~= items_view(before).insert(j as int, item_view(x)));
        }
    }
    assert(src.subrange(0, n as int) =~= src);
    out
}

} // verus!
