//! The file name of a download, from its `Content-Disposition` header.

use vstd::prelude::*;
use vstd::string::*;

use crate::text::{copy_range, from_chars, push_char, seq_starts_with, to_chars};
use crate::vault_state::{char_is_space, is_space};

verus! {

/// The value of a hexadecimal digit (either case), if `c` is one (`char::to_digit(16)`).
pub open spec fn hex_value(c: char) -> Option<u32> {
    if '0' <= c && c <= '9' {
        Some((c as u32 - 48) as u32)
    } else if 'a' <= c && c <= 'f' {
        Some((c as u32 - 87) as u32)
    } else if 'A' <= c && c <= 'F' {
        Some((c as u32 - 55) as u32)
    } else {
        None
    }
}

/// Decode `%XX` escapes reading each as the character with that code (0 to 255);
/// a `%` not followed by two hexadecimal digits is dropped together with the
/// (up to two) characters after it.
pub open spec fn percent_latin1(s: Seq<char>) -> Seq<char>
    decreases s.len(),
{
    if s.len() == 0 {
        Seq::empty()
    } else if s[0] == '%' {
        let h1 = if s.len() > 1 { hex_value(s[1]) } else { None };
        let h2 = if s.len() > 2 { hex_value(s[2]) } else { None };
        let rest = s.subrange(if s.len() < 3 { s.len() as int } else { 3 }, s.len() as int);
        match (h1, h2) {
            (Some(a), Some(b)) => seq![((a * 16 + b) as u8) as char] + percent_latin1(rest),
            _ => percent_latin1(rest),
        }
    } else {
        seq![s[0]] + percent_latin1(s.drop_first())
    }
}

/// The bytes of `s` with `%XX` escapes decoded: each escape gives the byte
/// with that value, every other character its UTF-8 encoding; a `%` not
/// followed by two hexadecimal digits is dropped together with the (up to
/// two) characters after it.
pub open spec fn percent_bytes(s: Seq<char>) -> Seq<u8>
    decreases s.len(),
{
    if s.len() == 0 {
        Seq::empty()
    } else if s[0] == '%' {
        let h1 = if s.len() > 1 { hex_value(s[1]) } else { None };
        let h2 = if s.len() > 2 { hex_value(s[2]) } else { None };
        let rest = s.subrange(if s.len() < 3 { s.len() as int } else { 3 }, s.len() as int);
        match (h1, h2) {
            (Some(a), Some(b)) => seq![(a * 16 + b) as u8] + percent_bytes(rest),
            _ => percent_bytes(rest),
        }
    } else {
        vstd::utf8::encode_utf8(seq![s[0]]) + percent_bytes(s.drop_first())
    }
}

/// Percent-decoding as RFC 5987 asks: the decoded bytes read as UTF-8; when
/// they are not UTF-8, each escape stands for the character with that code.
pub open spec fn percent_decode_spec(s: Seq<char>) -> Seq<char> {
    if vstd::utf8::valid_utf8(percent_bytes(s)) {
        vstd::utf8::decode_utf8(percent_bytes(s))
    } else {
        percent_latin1(s)
    }
}

/// `String::from_utf8`: the text the bytes encode, or none when they are
/// not UTF-8, as its documentation says.
#[verifier::external_body]
fn utf8_string(bytes: Vec<u8>) -> (r: Option<String>)
    ensures
        match r {
            Some(t) => vstd::utf8::valid_utf8(bytes@) && t@ == vstd::utf8::decode_utf8(bytes@),
            None => !vstd::utf8::valid_utf8(bytes@),
        },
{
    String::from_utf8(bytes).ok()
}

/// The value of a hexadecimal digit.
fn hex_digit(c: char) -> (r: Option<u32>)
    ensures
        r == hex_value(c),
{
    if '0' <= c && c <= '9' {
        Some(c as u32 - 48)
    } else if 'a' <= c && c <= 'f' {
        Some(c as u32 - 87)
    } else if 'A' <= c && c <= 'F' {
        Some(c as u32 - 55)
    } else {
        None
    }
}

/// Decode `%XX` escapes: the decoded bytes, and the text read one
/// character per escape.
fn percent_parts(s: &str) -> (r: (Vec<u8>, String))
    ensures
        r.0@ == percent_bytes(s@),
        r.1@ == percent_latin1(s@),
{
    let v = to_chars(s);
    let mut out = String::new();
    let mut bytes: Vec<u8> = Vec::new();
    let mut i: usize = 0;
    assert(v@.subrange(0, v@.len() as int) =~= v@);
    assert(out@ + percent_latin1(s@) =~= percent_latin1(s@));
    assert(bytes@ + percent_bytes(s@) =~= percent_bytes(s@));
    while i < v.len()
        invariant
            i <= v@.len(),
            v@ == s@,
            out@ + percent_latin1(v@.subrange(i as int, v@.len() as int)) == percent_latin1(s@),
            bytes@ + percent_bytes(v@.subrange(i as int, v@.len() as int)) == percent_bytes(s@),
        decreases v@.len() - i,
    {
        let ghost t = v@.subrange(i as int, v@.len() as int);
        let c = v[i];
        assert(t[0] == c);
        if c == '%' {
            let h1 = if v.len() - i > 1 { hex_digit(v[i + 1]) } else { None };
            let h2 = if v.len() - i > 2 { hex_digit(v[i + 2]) } else { None };
            let next: usize = if v.len() - i < 3 { v.len() } else { i + 3 };
            proof {
                if i + 1 < v.len() {
                    assert(t[1] == v@[i + 1]);
                }
                if i + 2 < v.len() {
                    assert(t[2] == v@[i + 2]);
                }
                assert(t.subrange(if t.len() < 3 { t.len() as int } else { 3 }, t.len() as int) =~= v@.subrange(next as int, v@.len() as int));
            }
            match (h1, h2) {
                (Some(a), Some(b)) => {
                    let ghost before = out@;
                    let ghost bbefore = bytes@;
                    let code: u8 = (a * 16 + b) as u8;
                    push_char(&mut out, code as char);
                    bytes.push(code);
                    assert(out@ + percent_latin1(v@.subrange(next as int, v@.len() as int))
                        =~= before + percent_latin1(t));
                    assert(bytes@ + percent_bytes(v@.subrange(next as int, v@.len() as int))
                        =~= bbefore + percent_bytes(t));
                },
                _ => {},
            }
            i = next;
        } else {
            let ghost before = out@;
            let ghost bbefore = bytes@;
            push_char(&mut out, c);
            let mut one = String::new();
            push_char(&mut one, c);
            let enc = one.as_str().as_bytes();
            crate::bytes::extend_bytes(&mut bytes, enc);
            assert(one@ =~= seq![c]);
            assert(t.drop_first() =~= v@.subrange(i + 1, v@.len() as int));
            assert(out@ + percent_latin1(v@.subrange(i + 1, v@.len() as int)) =~= before + percent_latin1(t));
            assert(bytes@ + percent_bytes(v@.subrange(i + 1, v@.len() as int)) =~= bbefore + percent_bytes(t));
            i = i + 1;
        }
    }
    assert(v@.subrange(v@.len() as int, v@.len() as int) =~= Seq::<char>::empty());
    assert(out@ + Seq::<char>::empty() =~= out@);
    assert(bytes@ + Seq::<u8>::empty() =~= bytes@);
    assert(v@.subrange(0, v@.len() as int) =~= v@);
    (bytes, out)
}

/// Decode `%XX` escapes as UTF-8 (see `percent_decode_spec`).
pub fn percent_decode(s: &str) -> (r: String)
    ensures
        r@ == percent_decode_spec(s@),
{
    let (bytes, latin) = percent_parts(s);
    match utf8_string(bytes) {
        Some(t) => t,
        None => latin,
    }
}

/// `s` without its leading characters `c`.
pub open spec fn trim_start_char(s: Seq<char>, c: char) -> Seq<char>
    decreases s.len(),
{
    if s.len() > 0 && s[0] == c { trim_start_char(s.drop_first(), c) } else { s }
}

/// `s` without its trailing characters `c`.
pub open spec fn trim_end_char(s: Seq<char>, c: char) -> Seq<char>
    decreases s.len(),
{
    if s.len() > 0 && s.last() == c { trim_end_char(s.drop_last(), c) } else { s }
}

/// `str::trim_matches(c)`.
pub open spec fn trim_char(s: Seq<char>, c: char) -> Seq<char> {
    trim_end_char(trim_start_char(s, c), c)
}

/// `s` without leading white space.
pub open spec fn trim_start_ws(s: Seq<char>) -> Seq<char>
    decreases s.len(),
{
    if s.len() > 0 && is_space(s[0]) { trim_start_ws(s.drop_first()) } else { s }
}

/// `s` without trailing white space.
pub open spec fn trim_end_ws(s: Seq<char>) -> Seq<char>
    decreases s.len(),
{
    if s.len() > 0 && is_space(s.last()) { trim_end_ws(s.drop_last()) } else { s }
}

/// `str::trim`.
pub open spec fn trim_ws(s: Seq<char>) -> Seq<char> {
    trim_end_ws(trim_start_ws(s))
}

/// `v[from..to]` trimmed of `c` at both ends.
fn trim_char_chars(v: &[char], from: usize, to: usize, c: char) -> (r: Vec<char>)
    requires
        from <= to <= v@.len(),
    ensures
        r@ == trim_char(v@.subrange(from as int, to as int), c),
{
    let ghost s = v@.subrange(from as int, to as int);
    let mut a: usize = from;
    assert(v@.subrange(a as int, to as int) =~= s);
    while a < to && v[a] == c
        invariant
            from <= a <= to <= v@.len(),
            s == v@.subrange(from as int, to as int),
            trim_start_char(s, c) == trim_start_char(v@.subrange(a as int, to as int), c),
        decreases to - a,
    {
        assert(v@.subrange(a as int, to as int).drop_first() =~= v@.subrange(a + 1, to as int));
        a = a + 1;
    }
    let ghost front = v@.subrange(a as int, to as int);
    assert(trim_start_char(front, c) == front);
    let mut b: usize = to;
    while b > a && v[b - 1] == c
        invariant
            from <= a <= b <= to <= v@.len(),
            front == v@.subrange(a as int, to as int),
            trim_end_char(front, c) == trim_end_char(v@.subrange(a as int, b as int), c),
        decreases b,
    {
        assert(v@.subrange(a as int, b as int).drop_last() =~= v@.subrange(a as int, b - 1));
        b = b - 1;
    }
    assert(front.subrange(0, (to - a) as int) =~= front);
    copy_range(v, a, b)
}

/// `v[from..to]` trimmed of white space at both ends, as a range.
fn trim_ws_range(v: &[char], from: usize, to: usize) -> (r: (usize, usize))
    requires
        from <= to <= v@.len(),
    ensures
        from <= r.0 <= r.1 <= to,
        v@.subrange(r.0 as int, r.1 as int) == trim_ws(v@.subrange(from as int, to as int)),
{
    let ghost s = v@.subrange(from as int, to as int);
    let mut a: usize = from;
    assert(v@.subrange(a as int, to as int) =~= s);
    while a < to && char_is_space(v[a])
        invariant
            from <= a <= to <= v@.len(),
            s == v@.subrange(from as int, to as int),
            trim_start_ws(s) == trim_start_ws(v@.subrange(a as int, to as int)),
        decreases to - a,
    {
        assert(v@.subrange(a as int, to as int).drop_first() =~= v@.subrange(a + 1, to as int));
        a = a + 1;
    }
    let ghost front = v@.subrange(a as int, to as int);
    assert(trim_start_ws(front) == front);
    let mut b: usize = to;
    while b > a && char_is_space(v[b - 1])
        invariant
            from <= a <= b <= to <= v@.len(),
            front == v@.subrange(a as int, to as int),
            trim_end_ws(front) == trim_end_ws(v@.subrange(a as int, b as int)),
        decreases b,
    {
        assert(v@.subrange(a as int, b as int).drop_last() =~= v@.subrange(a as int, b - 1));
        b = b - 1;
    }
    assert(front.subrange(0, (to - a) as int) =~= front);
    (a, b)
}

/// Position of the first `c` in `s` at or after `from`, or `s.len()`.
pub open spec fn next_index(s: Seq<char>, c: char, from: int) -> int
    decreases s.len() - from,
{
    if from >= s.len() {
        s.len() as int
    } else if s[from] == c {
        from
    } else {
        next_index(s, c, from + 1)
    }
}

/// Facts about `next_index`.
pub proof fn lemma_next_index(s: Seq<char>, c: char, from: int)
    requires
        0 <= from <= s.len(),
    ensures
        from <= next_index(s, c, from) <= s.len(),
        next_index(s, c, from) < s.len() ==> s[next_index(s, c, from)] == c,
        forall|i: int| from <= i < next_index(s, c, from) ==> s[i] != c,
    decreases s.len() - from,
{
    if from < s.len() && s[from] != c {
        lemma_next_index(s, c, from + 1);
    }
}

/// The parts of `s` between `;` separators, from position `from` on (`str::split(';')`).
pub open spec fn split_parts(s: Seq<char>, from: int) -> Seq<Seq<char>>
    decreases s.len() - from,
{
    let e = next_index(s, ';', from);
    if from < 0 || from > s.len() {
        Seq::empty()
    } else if e >= s.len() {
        seq![s.subrange(from, s.len() as int)]
    } else {
        proof {
            lemma_next_index(s, ';', from);
        }
        seq![s.subrange(from, e)] + split_parts(s, e + 1)
    }
}

/// The file name the parts of a `Content-Disposition` value give: the first
/// `filename*=` part wins (`UTF-8''` then percent-encoding, or a quoted
/// name); otherwise the last `filename=` part (quotes trimmed).
pub open spec fn disposition_name(parts: Seq<Seq<char>>, plain: Option<Seq<char>>) -> Option<Seq<char>>
    decreases parts.len(),
{
    if parts.len() == 0 {
        plain
    } else {
        let t = trim_ws(parts[0]);
        if seq_starts_with(t, "filename*="@) {
            let rest = t.subrange(10, t.len() as int);
            if seq_starts_with(rest, "UTF-8''"@) {
                Some(percent_decode_spec(rest.subrange(7, rest.len() as int)))
            } else {
                Some(trim_char(rest, '"'))
            }
        } else if seq_starts_with(t, "filename="@) {
            disposition_name(parts.drop_first(), Some(trim_char(t.subrange(9, t.len() as int), '"')))
        } else {
            disposition_name(parts.drop_first(), plain)
        }
    }
}

/// Whether `v[from..to]` starts with `p`.
fn range_starts_with(v: &[char], from: usize, to: usize, p: &str) -> (r: bool)
    requires
        from <= to <= v@.len(),
    ensures
        r == seq_starts_with(v@.subrange(from as int, to as int), p@),
{
    let n = p.unicode_len();
    if to - from < n {
        return false;
    }
    let mut i: usize = 0;
    while i < n
        invariant
            n == p@.len(),
            from + n <= to <= v@.len(),
            i <= n,
            forall|j: int| 0 <= j < i ==> v@[from + j] == p@[j],
        decreases n - i,
    {
        if v[from + i] != p.get_char(i) {
            assert(v@.subrange(from as int, to as int).subrange(0, n as int)[i as int] == v@[from + i]);
            return false;
        }
        i = i + 1;
    }
    assert(v@.subrange(from as int, to as int).subrange(0, n as int) =~= p@);
    true
}

/// The file name a `Content-Disposition` header value gives, if any.
pub fn extract_filename_from_disposition(value: &str) -> (r: Option<String>)
    ensures
        match disposition_name(split_parts(value@, 0), None) {
            Some(n) => r matches Some(x) && x@ == n,
            None => r is None,
        },
{
    let v = to_chars(value);
    let len = v.len();
    let mut plain: Option<String> = None;
    let mut start: usize = 0;
    loop
        invariant
            v@ == value@,
            len == v@.len(),
            start <= len,
            disposition_name(split_parts(value@, 0), None)
                == disposition_name(split_parts(value@, start as int), match plain { Some(p) => Some(p@), None => None }),
        decreases len - start,
    {
        proof {
            reveal_strlit("filename*=");
            reveal_strlit("UTF-8''");
            reveal_strlit("filename=");
        }
        let mut end: usize = start;
        while end < len && v[end] != ';'
            invariant
                start <= end <= len,
                len == v@.len(),
                forall|i: int| start <= i < end ==> v@[i] != ';',
            decreases len - end,
        {
            end = end + 1;
        }
        proof {
            lemma_next_index(v@, ';', start as int);
            let e = next_index(v@, ';', start as int);
            assert(e == end) by {
                if e < end {
                    assert(v@[e] == ';');
                }
                if e > end {
                    assert(v@[end as int] != ';');
                }
            }
            let parts = split_parts(v@, start as int);
            assert(parts[0] == v@.subrange(start as int, end as int));
            if end < len {
                assert(parts.drop_first() == split_parts(v@, end + 1));
            } else {
                assert(parts.drop_first().len() == 0);
            }
        }
        let (a, b) = trim_ws_range(v.as_slice(), start, end);
        if range_starts_with(v.as_slice(), a, b, "filename*=") {
            let ghost t = v@.subrange(a as int, b as int);
            assert(t.subrange(10, t.len() as int) =~= v@.subrange(a + 10, b as int));
            if range_starts_with(v.as_slice(), a + 10, b, "UTF-8''") {
                let enc = copy_range(v.as_slice(), a + 17, b);
                let e = from_chars(enc.as_slice());
                assert(v@.subrange(a + 10, b as int).subrange(7, (b - a - 10) as int) =~= enc@);
                return Some(percent_decode(e.as_str()));
            } else {
                let q = trim_char_chars(v.as_slice(), a + 10, b, '"');
                return Some(from_chars(q.as_slice()));
            }
        }
        if range_starts_with(v.as_slice(), a, b, "filename=") {
            let q = trim_char_chars(v.as_slice(), a + 9, b, '"');
            proof {
                let t = v@.subrange(a as int, b as int);
                assert(t.subrange(9, t.len() as int) =~= v@.subrange(a + 9, b as int));
            }
            plain = Some(from_chars(q.as_slice()));
        }
        if end == len {
            return plain;
        }
        start = end + 1;
    }
}

} // verus!
