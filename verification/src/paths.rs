//! Virtual vault paths (`/`-separated folders without leading or trailing `/`,
//! the empty path being the root), file names, and joining disk paths.

use vstd::prelude::*;
use vstd::string::*;

use crate::fmt::{push_chars, push_str};
use crate::text::{copy_range, from_chars, last_index_in, lemma_last_index_of, push_char, to_chars};
use crate::text;

verus! {

/// `s` without its leading `/` characters.
pub open spec fn trim_start_slashes(s: Seq<char>) -> Seq<char>
    decreases s.len(),
{
    if s.len() > 0 && s[0] == '/' {
        trim_start_slashes(s.drop_first())
    } else {
        s
    }
}

/// `s` without its trailing `/` characters.
pub open spec fn trim_end_slashes(s: Seq<char>) -> Seq<char>
    decreases s.len(),
{
    if s.len() > 0 && s.last() == '/' {
        trim_end_slashes(s.drop_last())
    } else {
        s
    }
}

/// `s` without leading and trailing `/` (`str::trim_matches('/')`).
pub open spec fn trim_slashes(s: Seq<char>) -> Seq<char> {
    trim_end_slashes(trim_start_slashes(s))
}

/// Dropping leading slashes leaves a suffix that does not start with one.
proof fn lemma_trim_start(s: Seq<char>)
    ensures
        exists|k: int| 0 <= k <= s.len() && trim_start_slashes(s) == #[trigger] s.subrange(k, s.len() as int)
            && forall|j: int| 0 <= j < k ==> s[j] == '/',
        trim_start_slashes(s).len() > 0 ==> trim_start_slashes(s)[0] != '/',
    decreases s.len(),
{
    if s.len() > 0 && s[0] == '/' {
        lemma_trim_start(s.drop_first());
        let k = choose|k: int| 0 <= k <= s.drop_first().len()
            && trim_start_slashes(s.drop_first()) == #[trigger] s.drop_first().subrange(k, s.drop_first().len() as int)
            && forall|j: int| 0 <= j < k ==> s.drop_first()[j] == '/';
        assert(s.drop_first().subrange(k, s.drop_first().len() as int) =~= s.subrange(k + 1, s.len() as int));
        assert forall|j: int| 0 <= j < k + 1 implies s[j] == '/' by {
            if j > 0 {
                assert(s[j] == s.drop_first()[j - 1]);
            }
        }
    } else {
        assert(s.subrange(0, s.len() as int) =~= s);
    }
}

/// Dropping trailing slashes leaves a prefix that does not end with one.
proof fn lemma_trim_end(s: Seq<char>)
    ensures
        exists|k: int| 0 <= k <= s.len() && trim_end_slashes(s) == #[trigger] s.subrange(0, k)
            && forall|j: int| k <= j < s.len() ==> s[j] == '/',
        trim_end_slashes(s).len() > 0 ==> trim_end_slashes(s).last() != '/',
    decreases s.len(),
{
    if s.len() > 0 && s.last() == '/' {
        lemma_trim_end(s.drop_last());
        let k = choose|k: int| 0 <= k <= s.drop_last().len()
            && trim_end_slashes(s.drop_last()) == #[trigger] s.drop_last().subrange(0, k)
            && forall|j: int| k <= j < s.drop_last().len() ==> s.drop_last()[j] == '/';
        assert(s.drop_last().subrange(0, k) =~= s.subrange(0, k));
        assert forall|j: int| k <= j < s.len() implies s[j] == '/' by {
            if j < s.len() - 1 {
                assert(s[j] == s.drop_last()[j]);
            }
        }
        assert(trim_end_slashes(s) == s.subrange(0, k));
    } else {
        assert(s.subrange(0, s.len() as int) =~= s);
    }
}

/// A sequence that neither starts nor ends with `/` is its own trim.
proof fn lemma_trim_fixed(s: Seq<char>)
    requires
        s.len() > 0 ==> s[0] != '/' && s.last() != '/',
    ensures
        trim_slashes(s) == s,
{
    assert(trim_start_slashes(s) == s);
    assert(trim_end_slashes(s) == s);
}

/// Trimming slashes leaves no slash at either end, and trimming again changes nothing.
pub proof fn lemma_trim_slashes_idempotent(s: Seq<char>)
    ensures
        trim_slashes(s).len() > 0 ==> trim_slashes(s)[0] != '/' && trim_slashes(s).last() != '/',
        trim_slashes(trim_slashes(s)) == trim_slashes(s),
{
    let a = trim_start_slashes(s);
    lemma_trim_start(s);
    lemma_trim_end(a);
    let t = trim_end_slashes(a);
    let k = choose|k: int| 0 <= k <= a.len() && t == #[trigger] a.subrange(0, k)
        && forall|j: int| k <= j < a.len() ==> a[j] == '/';
    if t.len() > 0 {
        assert(t[0] == a[0]);
    }
    lemma_trim_fixed(t);
}

/// `p` with leading and trailing `/` removed.
pub fn trim_slashes_chars(p: &[char]) -> (r: Vec<char>)
    ensures
        r@ == trim_slashes(p@),
{
    let mut a: usize = 0;
    assert(p@.subrange(0, p@.len() as int) =~= p@);
    while a < p.len() && p[a] == '/'
        invariant
            a <= p@.len(),
            trim_start_slashes(p@) == trim_start_slashes(p@.subrange(a as int, p@.len() as int)),
        decreases p@.len() - a,
    {
        assert(p@.subrange(a as int, p@.len() as int).drop_first() =~= p@.subrange(a + 1, p@.len() as int));
        a = a + 1;
    }
    let ghost front = p@.subrange(a as int, p@.len() as int);
    assert(trim_start_slashes(front) == front);
    let mut b: usize = p.len();
    assert(front.subrange(0, (b - a) as int) =~= front);
    while b > a && p[b - 1] == '/'
        invariant
            a <= b <= p@.len(),
            front == p@.subrange(a as int, p@.len() as int),
            trim_end_slashes(front) == trim_end_slashes(p@.subrange(a as int, b as int)),
        decreases b,
    {
        assert(p@.subrange(a as int, b as int).drop_last() =~= p@.subrange(a as int, b - 1));
        b = b - 1;
    }
    copy_range(p, a, b)
}

/// Strip leading and trailing slashes from a vault path (`trim_matches('/')`).
pub fn normalize_vault_path(path: &str) -> (r: String)
    ensures
        r@ == trim_slashes(path@),
{
    let v = to_chars(path);
    let t = trim_slashes_chars(v.as_slice());
    from_chars(t.as_slice())
}

/// Strip leading and trailing slashes from a vault path component.
pub fn normalize_path(p: &str) -> (r: String)
    ensures
        r@ == trim_slashes(p@),
{
    normalize_vault_path(p)
}

/// The full virtual path of a file named `name` in `folder`.
pub open spec fn full_path_spec(folder: Seq<char>, name: Seq<char>) -> Seq<char> {
    if folder.len() == 0 {
        name
    } else {
        folder + seq!['/'] + name
    }
}

/// The full virtual path of a file named `name` in `folder`: `folder/name`, or
/// just `name` at the root.
pub fn full_path(folder: &str, name: &str) -> (r: String)
    ensures
        r@ == full_path_spec(folder@, name@),
{
    let mut r = String::new();
    if folder.unicode_len() != 0 {
        push_str(&mut r, folder);
        push_char(&mut r, '/');
    }
    push_str(&mut r, name);
    assert(r@ =~= full_path_spec(folder@, name@));
    r
}

/// `Path::new(base).join(seg)` on Unix: an absolute `seg` replaces `base`;
/// otherwise a separator is put between them unless `base` is empty or already
/// ends with one.
pub open spec fn joined(base: Seq<char>, seg: Seq<char>) -> Seq<char> {
    if seg.len() > 0 && seg[0] == '/' {
        seg
    } else if base.len() == 0 || base.last() == '/' {
        base + seg
    } else {
        base + seq!['/'] + seg
    }
}

/// Join a path segment onto a base path, as `Path::join` does.
pub fn join_path(base: &str, seg: &str) -> (r: String)
    ensures
        r@ == joined(base@, seg@),
{
    let n = base.unicode_len();
    let m = seg.unicode_len();
    let mut r = String::new();
    if m > 0 && seg.get_char(0) == '/' {
        push_str(&mut r, seg);
    } else if n == 0 || base.get_char(n - 1) == '/' {
        push_str(&mut r, base);
        push_str(&mut r, seg);
    } else {
        push_str(&mut r, base);
        push_char(&mut r, '/');
        push_str(&mut r, seg);
    }
    assert(r@ =~= joined(base@, seg@));
    r
}

/// The folder above a virtual path: everything before its last `/`, or the root.
pub open spec fn parent_folder(p: Seq<char>) -> Seq<char> {
    let k = text::last_index_of(p, '/');
    if k < 0 {
        Seq::empty()
    } else {
        p.subrange(0, k)
    }
}

/// The folder above `folder/name` is `folder` when `name` is a single segment:
/// going up from a sub-folder comes back where it was opened.
pub proof fn lemma_parent_of_child(folder: Seq<char>, name: Seq<char>)
    requires
        !name.contains('/'),
    ensures
        parent_folder(full_path_spec(folder, name)) == folder,
{
    let p = full_path_spec(folder, name);
    text::lemma_last_index_of(p, '/');
    let k = text::last_index_of(p, '/');
    if folder.len() == 0 {
        if k >= 0 {
            assert(name[k] == '/');
        }
    } else {
        assert(p[folder.len() as int] == '/');
        assert(k >= folder.len());
        if k > folder.len() {
            assert(name[k - folder.len() - 1] == '/');
        }
        assert(p.subrange(0, k) =~= folder);
    }
}

/// The folder above a virtual path.
pub fn parent_of(p: &str) -> (r: String)
    ensures
        r@ == parent_folder(p@),
{
    let v = to_chars(p);
    proof {
        lemma_last_index_of(v@, '/');
        assert(v@.subrange(0, v@.len() as int) =~= v@);
    }
    match last_index_in(v.as_slice(), v.len(), '/') {
        Some(k) => {
            let c = copy_range(v.as_slice(), 0, k);
            from_chars(c.as_slice())
        },
        None => String::new(),
    }
}

/// The last segment of a folder path, or `/` for the root.
pub open spec fn folder_display_name_spec(p: Seq<char>) -> Seq<char> {
    if p.len() == 0 {
        seq!['/']
    } else {
        p.subrange(text::last_index_of(p, '/') + 1, p.len() as int)
    }
}

/// Count of `c` in `s`.
pub open spec fn count_char(s: Seq<char>, c: char) -> nat
    decreases s.len(),
{
    if s.len() == 0 {
        0
    } else {
        count_char(s.drop_last(), c) + if s.last() == c { 1nat } else { 0nat }
    }
}

/// Depth of a folder path: 0 for the root, else one more than its `/` count.
pub open spec fn folder_depth_spec(p: Seq<char>) -> nat {
    if p.len() == 0 {
        0
    } else {
        count_char(p, '/') + 1
    }
}

/// The file-name part of `name` before its extension, and the extension: what
/// follows the last `.`, unless there is no dot or the only dot leads the name.
pub open spec fn split_name_spec(name: Seq<char>) -> (Seq<char>, Seq<char>) {
    let k = text::last_index_of(name, '.');
    if k > 0 {
        (name.subrange(0, k), name.subrange(k + 1, name.len() as int))
    } else {
        (name, Seq::empty())
    }
}

/// Split a file name into stem and extension; `(name, "")` when it has no
/// extension or its only dot is the first character.
pub fn split_name(name: &str) -> (r: (String, String))
    ensures
        r.0@ == split_name_spec(name@).0,
        r.1@ == split_name_spec(name@).1,
{
    let v = to_chars(name);
    proof {
        lemma_last_index_of(v@, '.');
        assert(v@.subrange(0, v@.len() as int) =~= v@);
    }
    match last_index_in(v.as_slice(), v.len(), '.') {
        Some(k) => {
            if k > 0 {
                let a = copy_range(v.as_slice(), 0, k);
                let b = copy_range(v.as_slice(), k + 1, v.len());
                (from_chars(a.as_slice()), from_chars(b.as_slice()))
            } else {
                (from_chars(v.as_slice()), String::new())
            }
        },
        None => (from_chars(v.as_slice()), String::new()),
    }
}

/// Putting the stem and the extension back together with a dot gives the name
/// again whenever there is an extension.
pub proof fn lemma_split_name_rejoin(name: Seq<char>)
    ensures
        text::last_index_of(name, '.') > 0
            ==> split_name_spec(name).0 + seq!['.'] + split_name_spec(name).1 == name,
        text::last_index_of(name, '.') <= 0 ==> split_name_spec(name).0 == name,
{
    text::lemma_last_index_of(name, '.');
    let k = text::last_index_of(name, '.');
    if k > 0 {
        assert(name.subrange(0, k) + seq!['.'] + name.subrange(k + 1, name.len() as int) =~= name);
    }
}

} // verus!
