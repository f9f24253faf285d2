//! Character-level string helpers with exact specifications.

use vstd::prelude::*;
use vstd::string::*;

verus! {

/// Append one character to a string (`String::push`).
#[verifier::external_body]
pub(crate) fn push_char(s: &mut String, c: char)
    ensures
        final(s)@ == old(s)@.push(c),
{
    s.push(c);
}

/// The characters of `s`, in order.
pub fn to_chars(s: &str) -> (r: Vec<char>)
    ensures
        r@ == s@,
{
    let n = s.unicode_len();
    let mut r: Vec<char> = Vec::new();
    let mut i: usize = 0;
    while i < n
        invariant
            n == s@.len(),
            i <= n,
            r@ == s@.subrange(0, i as int),
        decreases n - i,
    {
        let c = s.get_char(i);
        r.push(c);
        i = i + 1;
    }
    assert(r@ =~= s@);
    r
}

/// Build a string from a sequence of characters.
pub fn from_chars(v: &[char]) -> (r: String)
    ensures
        r@ == v@,
{
    let mut r = String::new();
    let mut i: usize = 0;
    while i < v.len()
        invariant
            i <= v@.len(),
            r@ == v@.subrange(0, i as int),
        decreases v@.len() - i,
    {
        push_char(&mut r, v[i]);
        i = i + 1;
    }
    assert(r@ =~= v@);
    r
}

/// Character-wise equality of two string slices.
pub fn str_eq(a: &str, b: &str) -> (r: bool)
    ensures
        r == (a@ == b@),
{
    let n = a.unicode_len();
    let m = b.unicode_len();
    if n != m {
        return false;
    }
    let mut i: usize = 0;
    while i < n
        invariant
            n == a@.len(),
            m == b@.len(),
            n == m,
            i <= n,
            forall|j: int| 0 <= j < i ==> a@[j] == b@[j],
        decreases n - i,
    {
        if a.get_char(i) != b.get_char(i) {
            return false;
        }
        i = i + 1;
    }
    assert(a@ =~= b@);
    true
}

} // verus!

verus! {

/// ASCII lower-casing of one character; other characters are unchanged.
pub open spec fn lower_char(c: char) -> char {
    if 'A' <= c && c <= 'Z' {
        ((c as u32) + 32) as char
    } else {
        c
    }
}

/// ASCII lower-casing of a character sequence.
pub open spec fn lower_seq(s: Seq<char>) -> Seq<char> {
    s.map_values(|c: char| lower_char(c))
}

/// `char::to_ascii_lowercase`.
pub fn ascii_lower(c: char) -> (r: char)
    ensures
        r == lower_char(c),
{
    if c >= 'A' && c <= 'Z' {
        let u = (c as u8) + 32;
        u as char
    } else {
        c
    }
}

} // verus!

verus! {

/// ASCII lower-cased copy of `s` (`str::to_ascii_lowercase`).
pub fn to_ascii_lowercase(s: &str) -> (r: String)
    ensures
        r@ == lower_seq(s@),
{
    let n = s.unicode_len();
    let mut r = String::new();
    let mut i: usize = 0;
    while i < n
        invariant
            n == s@.len(),
            i <= n,
            r@ == lower_seq(s@.subrange(0, i as int)),
        decreases n - i,
    {
        let c = s.get_char(i);
        push_char(&mut r, ascii_lower(c));
        proof {
            assert(lower_seq(s@.subrange(0, i + 1)) =~= lower_seq(s@.subrange(0, i as int)).push(lower_char(c)));
        }
        i = i + 1;
    }
    assert(s@.subrange(0, n as int) =~= s@);
    r
}

/// ASCII lower-cased copy of a character slice.
pub fn lower_chars(v: &[char]) -> (r: Vec<char>)
    ensures
        r@ == lower_seq(v@),
{
    let mut r: Vec<char> = Vec::new();
    let mut i: usize = 0;
    while i < v.len()
        invariant
            i <= v@.len(),
            r@ == lower_seq(v@.subrange(0, i as int)),
        decreases v@.len() - i,
    {
        r.push(ascii_lower(v[i]));
        proof {
            assert(lower_seq(v@.subrange(0, i + 1)) =~= lower_seq(v@.subrange(0, i as int)).push(lower_char(v@[i as int])));
        }
        i = i + 1;
    }
    assert(v@.subrange(0, v@.len() as int) =~= v@);
    r
}

/// `s` starts with `p`.
pub open spec fn seq_starts_with(s: Seq<char>, p: Seq<char>) -> bool {
    s.len() >= p.len() && s.subrange(0, p.len() as int) == p
}

/// `s` ends with `p`.
pub open spec fn seq_ends_with(s: Seq<char>, p: Seq<char>) -> bool {
    s.len() >= p.len() && s.subrange(s.len() - p.len(), s.len() as int) == p
}

/// `str::starts_with` for a string pattern.
pub fn starts_with(s: &str, p: &str) -> (r: bool)
    ensures
        r == seq_starts_with(s@, p@),
{
    let n = s.unicode_len();
    let m = p.unicode_len();
    if m > n {
        return false;
    }
    let mut i: usize = 0;
    while i < m
        invariant
            n == s@.len(),
            m == p@.len(),
            m <= n,
            i <= m,
            forall|j: int| 0 <= j < i ==> s@[j] == p@[j],
        decreases m - i,
    {
        if s.get_char(i) != p.get_char(i) {
            assert(s@.subrange(0, m as int)[i as int] != p@[i as int]);
            return false;
        }
        i = i + 1;
    }
    assert(s@.subrange(0, m as int) =~= p@);
    true
}

/// `str::ends_with` for a string pattern.
pub fn ends_with(s: &str, p: &str) -> (r: bool)
    ensures
        r == seq_ends_with(s@, p@),
{
    let n = s.unicode_len();
    let m = p.unicode_len();
    if m > n {
        return false;
    }
    let off = n - m;
    let mut i: usize = 0;
    while i < m
        invariant
            n == s@.len(),
            m == p@.len(),
            m <= n,
            off == n - m,
            i <= m,
            forall|j: int| 0 <= j < i ==> s@[off + j] == p@[j],
        decreases m - i,
    {
        if s.get_char(off + i) != p.get_char(i) {
            assert(s@.subrange(off as int, n as int)[i as int] != p@[i as int]);
            return false;
        }
        i = i + 1;
    }
    assert(s@.subrange(off as int, n as int) =~= p@);
    true
}

/// Index of the last `c` in `s`, or -1.
pub open spec fn last_index_of(s: Seq<char>, c: char) -> int
    decreases s.len(),
{
    if s.len() == 0 {
        -1
    } else if s.last() == c {
        s.len() - 1
    } else {
        last_index_of(s.drop_last(), c)
    }
}

/// The last index of `c` is in range, holds `c`, and nothing after it does.
pub proof fn lemma_last_index_of(s: Seq<char>, c: char)
    ensures
        -1 <= last_index_of(s, c) < s.len(),
        last_index_of(s, c) >= 0 ==> s[last_index_of(s, c)] == c,
        forall|j: int| last_index_of(s, c) < j < s.len() ==> s[j] != c,
    decreases s.len(),
{
    if s.len() > 0 && s.last() != c {
        lemma_last_index_of(s.drop_last(), c);
        assert forall|j: int| last_index_of(s, c) < j < s.len() implies s[j] != c by {
            if j < s.len() - 1 {
                assert(s[j] == s.drop_last()[j]);
            }
        }
    }
}

/// Position of the last `c` among the first `end` characters (`rfind`).
pub fn last_index_in(v: &[char], end: usize, c: char) -> (r: Option<usize>)
    requires
        end <= v@.len(),
    ensures
        match r {
            Some(k) => k as int == last_index_of(v@.subrange(0, end as int), c),
            None => last_index_of(v@.subrange(0, end as int), c) == -1,
        },
{
    let mut i: usize = end;
    while i > 0
        invariant
            i <= end,
            end <= v@.len(),
            last_index_of(v@.subrange(0, end as int), c) == last_index_of(v@.subrange(0, i as int), c),
        decreases i,
    {
        let ghost sub = v@.subrange(0, i as int);
        if v[i - 1] == c {
            assert(sub.last() == c);
            return Some(i - 1);
        }
        assert(sub.drop_last() =~= v@.subrange(0, i - 1));
        i = i - 1;
    }
    assert(v@.subrange(0, 0) =~= Seq::<char>::empty());
    None
}

/// The final component of a path, as `std::path::Path::file_name` finds it:
/// trailing separators and `.` components are skipped; `..`, the root and the
/// empty path have none.
#[verifier::opaque]
pub open spec fn file_name_of(s: Seq<char>) -> Option<Seq<char>>
    decreases s.len(),
{
    if s.len() == 0 {
        None
    } else if s.last() == '/' {
        file_name_of(s.drop_last())
    } else {
        let k = last_index_of(s, '/');
        let seg = s.subrange(k + 1, s.len() as int);
        if seg == seq!['.'] {
            if k < 0 {
                None
            } else {
                proof {
                    lemma_last_index_of(s, '/');
                }
                file_name_of(s.subrange(0, k))
            }
        } else if seg == seq!['.', '.'] {
            None
        } else {
            Some(seg)
        }
    }
}

/// The extension of a file name, as `Path::extension` finds it: what follows the
/// last `.`, unless there is none or the name starts with its only dot.
pub open spec fn extension_of(name: Seq<char>) -> Option<Seq<char>> {
    let k = last_index_of(name, '.');
    if k <= 0 {
        None
    } else {
        Some(name.subrange(k + 1, name.len() as int))
    }
}

/// The extension of a path (`Path::new(s).extension()`).
pub open spec fn path_extension_spec(s: Seq<char>) -> Option<Seq<char>> {
    match file_name_of(s) {
        Some(f) => extension_of(f),
        None => None,
    }
}

/// The extension of a path, or the empty sequence when it has none.
pub open spec fn ext_or_empty(s: Seq<char>) -> Seq<char> {
    match path_extension_spec(s) {
        Some(e) => e,
        None => Seq::empty(),
    }
}

/// `s` without its last character; an empty `s` stays empty (`String::pop`,
/// the removed character dropped).
pub fn pop_char(s: &mut String)
    ensures
        final(s)@ == drop_last_or_empty(old(s)@),
{
    let v = to_chars(s.as_str());
    let n = v.len();
    if n > 0 {
        let c = copy_range(v.as_slice(), 0, n - 1);
        *s = from_chars(c.as_slice());
        assert(c@ =~= v@.drop_last());
    }
}

/// `s` without its last character, or `s` itself when empty.
pub open spec fn drop_last_or_empty(s: Seq<char>) -> Seq<char> {
    if s.len() == 0 { s } else { s.drop_last() }
}

/// Copy of `v[from..to]`.
pub fn copy_range(v: &[char], from: usize, to: usize) -> (r: Vec<char>)
    requires
        from <= to <= v@.len(),
    ensures
        r@ == v@.subrange(from as int, to as int),
{
    let mut r: Vec<char> = Vec::new();
    let mut i: usize = from;
    while i < to
        invariant
            from <= i <= to,
            to <= v@.len(),
            r@ == v@.subrange(from as int, i as int),
        decreases to - i,
    {
        r.push(v[i]);
        assert(r@ =~= v@.subrange(from as int, i + 1));
        i = i + 1;
    }
    r
}

/// One step of `file_name_of`: a trailing separator is skipped; otherwise the
/// last segment decides.
pub proof fn lemma_file_name_unfold(s: Seq<char>)
    ensures
        s.len() == 0 ==> file_name_of(s) is None,
        s.len() > 0 && s.last() == '/' ==> file_name_of(s) == file_name_of(s.drop_last()),
        s.len() > 0 && s.last() != '/' ==> ({
            let k = last_index_of(s, '/');
            let seg = s.subrange(k + 1, s.len() as int);
            &&& (seg == seq!['.'] && k < 0) ==> file_name_of(s) is None
            &&& (seg == seq!['.'] && k >= 0) ==> file_name_of(s) == file_name_of(s.subrange(0, k))
            &&& seg == seq!['.', '.'] ==> file_name_of(s) is None
            &&& (seg != seq!['.'] && seg != seq!['.', '.']) ==> file_name_of(s) == Some(seg)
        }),
{
    reveal(file_name_of);
    lemma_last_index_of(s, '/');
    assert(seq!['.', '.'].len() == 2);
    assert(seq!['.'].len() == 1);
}

/// Which kind of path segment `v[start..end]` is: 1 for `.`, 2 for `..`, 0 otherwise.
fn segment_kind(v: &[char], start: usize, end: usize) -> (r: u8)
    requires
        start <= end <= v@.len(),
    ensures
        r == 1 <==> v@.subrange(start as int, end as int) == seq!['.'],
        r == 2 <==> v@.subrange(start as int, end as int) == seq!['.', '.'],
        r <= 2,
{
    let ghost seg = v@.subrange(start as int, end as int);
    if end - start == 1 && v[start] == '.' {
        assert(seg =~= seq!['.']);
        assert(seg != seq!['.', '.']);
        1
    } else if end - start == 2 && v[start] == '.' && v[start + 1] == '.' {
        assert(seg =~= seq!['.', '.']);
        assert(seg != seq!['.']);
        2
    } else {
        assert(seg != seq!['.']) by {
            if seg == seq!['.'] {
                assert(seg.len() == 1);
                assert(seg[0] == v@[start as int]);
            }
        }
        assert(seg != seq!['.', '.']) by {
            if seg == seq!['.', '.'] {
                assert(seg.len() == 2);
                assert(seg[0] == v@[start as int]);
                assert(seg[1] == v@[start + 1]);
            }
        }
        0
    }
}

/// The final path component of `v` as a range of positions.
pub fn file_name_range(v: &[char]) -> (r: Option<(usize, usize)>)
    ensures
        match r {
            Some((a, b)) => a <= b <= v@.len() && file_name_of(v@) == Some(v@.subrange(a as int, b as int)),
            None => file_name_of(v@) is None,
        },
{
    let mut end: usize = v.len();
    assert(v@.subrange(0, end as int) =~= v@);
    loop
        invariant
            end <= v@.len(),
            file_name_of(v@) == file_name_of(v@.subrange(0, end as int)),
        decreases end,
    {
        let ghost s = v@.subrange(0, end as int);
        proof {
            lemma_file_name_unfold(s);
        }
        if end == 0 {
            return None;
        }
        if v[end - 1] == '/' {
            assert(s.drop_last() =~= v@.subrange(0, end - 1));
            end = end - 1;
        } else {
            let k = last_index_in(v, end, '/');
            proof {
                lemma_last_index_of(s, '/');
            }
            let start: usize = match k {
                Some(k) => k + 1,
                None => 0,
            };
            assert(s.subrange(last_index_of(s, '/') + 1, s.len() as int) =~= v@.subrange(start as int, end as int));
            let kind = segment_kind(v, start, end);
            if kind == 1 {
                match k {
                    None => {
                        return None;
                    },
                    Some(k) => {
                        assert(s.subrange(0, k as int) =~= v@.subrange(0, k as int));
                        end = k;
                    },
                }
            } else if kind == 2 {
                return None;
            } else {
                return Some((start, end));
            }
        }
    }
}

/// The extension of the path `s`, if it has one (`Path::extension`).
pub fn path_extension(s: &str) -> (r: Option<Vec<char>>)
    ensures
        match r {
            Some(e) => path_extension_spec(s@) == Some(e@),
            None => path_extension_spec(s@) is None,
        },
{
    let v = to_chars(s);
    match file_name_range(v.as_slice()) {
        None => None,
        Some((a, b)) => {
            let f = copy_range(v.as_slice(), a, b);
            let k = last_index_in(f.as_slice(), f.len(), '.');
            assert(f@.subrange(0, f@.len() as int) =~= f@);
            match k {
                None => None,
                Some(k) => {
                    if k == 0 {
                        None
                    } else {
                        proof {
                            lemma_last_index_of(f@, '.');
                        }
                        Some(copy_range(f.as_slice(), k + 1, f.len()))
                    }
                },
            }
        },
    }
}

/// The lower-cased extension of the path `s`, empty when it has none.
pub fn lower_extension(s: &str) -> (r: Vec<char>)
    ensures
        r@ == lower_seq(ext_or_empty(s@)),
{
    match path_extension(s) {
        Some(e) => lower_chars(e.as_slice()),
        None => {
            let r: Vec<char> = Vec::new();
            assert(lower_seq(Seq::<char>::empty()) =~= Seq::<char>::empty());
            r
        },
    }
}

} // verus!

verus! {

/// Character-wise equality of a character slice and a string.
pub fn chars_eq_str(a: &[char], b: &str) -> (r: bool)
    ensures
        r == (a@ == b@),
{
    let m = b.unicode_len();
    if a.len() != m {
        return false;
    }
    let mut i: usize = 0;
    while i < m
        invariant
            m == b@.len(),
            a@.len() == m,
            i <= m,
            forall|j: int| 0 <= j < i ==> a@[j] == b@[j],
        decreases m - i,
    {
        if a[i] != b.get_char(i) {
            return false;
        }
        i = i + 1;
    }
    assert(a@ =~= b@);
    true
}

} // verus!
