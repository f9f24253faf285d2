//! Standard Base64 (RFC 4648 alphabet, `=` padding) as a mathematical
//! function, with the facts the vault relies on: how long an encoding is, and
//! that decoding an encoding gives the bytes back.

use vstd::prelude::*;

verus! {

/// The character of a six-bit value in the standard Base64 alphabet.
#[verifier::opaque]
pub open spec fn base64_char(v: int) -> char {
    if v < 26 {
        (65 + v) as char
    } else if v < 52 {
        (97 + v - 26) as char
    } else if v < 62 {
        (48 + v - 52) as char
    } else if v == 62 {
        '+'
    } else {
        '/'
    }
}

/// Three bytes as four characters.
#[verifier::opaque]
pub open spec fn encode_group3(x0: u8, x1: u8, x2: u8) -> Seq<char> {
    let n = (x0 as int) * 65536 + (x1 as int) * 256 + (x2 as int);
    seq![base64_char(n / 262144), base64_char((n / 4096) % 64), base64_char((n / 64) % 64), base64_char(n % 64)]
}

/// Two last bytes as three characters and one `=`.
#[verifier::opaque]
pub open spec fn encode_group2(x0: u8, x1: u8) -> Seq<char> {
    let n = (x0 as int) * 256 + (x1 as int);
    seq![base64_char(n / 1024), base64_char((n / 16) % 64), base64_char((n % 16) * 4), '=']
}

/// One last byte as two characters and `==`.
#[verifier::opaque]
pub open spec fn encode_group1(x0: u8) -> Seq<char> {
    let n = x0 as int;
    seq![base64_char(n / 4), base64_char((n % 4) * 16), '=', '=']
}

/// Standard Base64 encoding with padding: each group of three bytes becomes
/// four characters; a last group of one or two bytes is padded with `=` to four.
pub open spec fn base64_encode_spec(b: Seq<u8>) -> Seq<char>
    decreases b.len(),
{
    if b.len() == 0 {
        Seq::empty()
    } else if b.len() == 1 {
        encode_group1(b[0])
    } else if b.len() == 2 {
        encode_group2(b[0], b[1])
    } else {
        encode_group3(b[0], b[1], b[2]) + base64_encode_spec(b.subrange(3, b.len() as int))
    }
}

/// Standard Base64 decoding with canonical padding and no stray bits: the
/// bytes whose encoding is exactly `text`, if there are any.
pub open spec fn base64_decode_spec(text: Seq<char>) -> Option<Seq<u8>> {
    if exists|b: Seq<u8>| base64_encode_spec(b) == text {
        Some(choose|b: Seq<u8>| base64_encode_spec(b) == text)
    } else {
        None
    }
}

proof fn lemma_base64_char(v: int, w: int)
    requires
        0 <= v < 64,
        0 <= w < 64,
    ensures
        base64_char(v) != '=',
        base64_char(v) == base64_char(w) ==> v == w,
{
    reveal(base64_char);
}

/// Each group is four characters; the third is `=` only for one byte, the
/// fourth only for one or two.
proof fn lemma_group_shapes(x0: u8, x1: u8, x2: u8)
    ensures
        encode_group3(x0, x1, x2).len() == 4,
        encode_group2(x0, x1).len() == 4,
        encode_group1(x0).len() == 4,
        encode_group3(x0, x1, x2)[2] != '=',
        encode_group3(x0, x1, x2)[3] != '=',
        encode_group2(x0, x1)[2] != '=',
        encode_group2(x0, x1)[3] == '=',
        encode_group1(x0)[2] == '=',
        encode_group1(x0)[3] == '=',
{
    reveal(encode_group3);
    reveal(encode_group2);
    reveal(encode_group1);
    let n = (x0 as int) * 65536 + (x1 as int) * 256 + (x2 as int);
    let m = (x0 as int) * 256 + (x1 as int);
    assert(0 <= (n / 64) % 64 < 64);
    assert(0 <= n % 64 < 64);
    assert(0 <= (m % 16) * 4 < 64);
    lemma_base64_char((n / 64) % 64, 0);
    lemma_base64_char(n % 64, 0);
    lemma_base64_char((m % 16) * 4, 0);
}

proof fn lemma_group3_injective(a0: u8, a1: u8, a2: u8, b0: u8, b1: u8, b2: u8)
    requires
        encode_group3(a0, a1, a2) == encode_group3(b0, b1, b2),
    ensures
        a0 == b0 && a1 == b1 && a2 == b2,
{
    reveal(encode_group3);
    let n = (a0 as int) * 65536 + (a1 as int) * 256 + (a2 as int);
    let m = (b0 as int) * 65536 + (b1 as int) * 256 + (b2 as int);
    assert(a0 * 65536 + a1 * 256 + a2 < 16777216) by (bit_vector);
    assert(b0 * 65536 + b1 * 256 + b2 < 16777216) by (bit_vector);
    assert(encode_group3(a0, a1, a2)[0] == encode_group3(b0, b1, b2)[0]);
    assert(encode_group3(a0, a1, a2)[1] == encode_group3(b0, b1, b2)[1]);
    assert(encode_group3(a0, a1, a2)[2] == encode_group3(b0, b1, b2)[2]);
    assert(encode_group3(a0, a1, a2)[3] == encode_group3(b0, b1, b2)[3]);
    lemma_base64_char(n / 262144, m / 262144);
    lemma_base64_char((n / 4096) % 64, (m / 4096) % 64);
    lemma_base64_char((n / 64) % 64, (m / 64) % 64);
    lemma_base64_char(n % 64, m % 64);
    assert(a0 == b0 && a1 == b1 && a2 == b2) by (bit_vector)
        requires
            (a0 * 65536 + a1 * 256 + a2) / 262144 == (b0 * 65536 + b1 * 256 + b2) / 262144,
            ((a0 * 65536 + a1 * 256 + a2) / 4096) % 64 == ((b0 * 65536 + b1 * 256 + b2) / 4096) % 64,
            ((a0 * 65536 + a1 * 256 + a2) / 64) % 64 == ((b0 * 65536 + b1 * 256 + b2) / 64) % 64,
            (a0 * 65536 + a1 * 256 + a2) % 64 == (b0 * 65536 + b1 * 256 + b2) % 64;
}

proof fn lemma_group2_injective(a0: u8, a1: u8, b0: u8, b1: u8)
    requires
        encode_group2(a0, a1) == encode_group2(b0, b1),
    ensures
        a0 == b0 && a1 == b1,
{
    reveal(encode_group2);
    let n = (a0 as int) * 256 + (a1 as int);
    let m = (b0 as int) * 256 + (b1 as int);
    assert(a0 * 256 + a1 < 65536) by (bit_vector);
    assert(b0 * 256 + b1 < 65536) by (bit_vector);
    assert(encode_group2(a0, a1)[0] == encode_group2(b0, b1)[0]);
    assert(encode_group2(a0, a1)[1] == encode_group2(b0, b1)[1]);
    assert(encode_group2(a0, a1)[2] == encode_group2(b0, b1)[2]);
    lemma_base64_char(n / 1024, m / 1024);
    lemma_base64_char((n / 16) % 64, (m / 16) % 64);
    lemma_base64_char((n % 16) * 4, (m % 16) * 4);
    assert(a0 == b0 && a1 == b1) by (bit_vector)
        requires
            (a0 * 256 + a1) / 1024 == (b0 * 256 + b1) / 1024,
            ((a0 * 256 + a1) / 16) % 64 == ((b0 * 256 + b1) / 16) % 64,
            ((a0 * 256 + a1) % 16) * 4 == ((b0 * 256 + b1) % 16) * 4;
}

proof fn lemma_group1_injective(a0: u8, b0: u8)
    requires
        encode_group1(a0) == encode_group1(b0),
    ensures
        a0 == b0,
{
    reveal(encode_group1);
    let n = a0 as int;
    let m = b0 as int;
    assert(encode_group1(a0)[0] == encode_group1(b0)[0]);
    assert(encode_group1(a0)[1] == encode_group1(b0)[1]);
    lemma_base64_char(n / 4, m / 4);
    lemma_base64_char((n % 4) * 16, (m % 4) * 16);
    assert(a0 == b0) by (bit_vector)
        requires
            a0 / 4 == b0 / 4,
            (a0 % 4) * 16 == (b0 % 4) * 16;
}

/// An encoding has four characters per started group of three bytes.
pub proof fn lemma_base64_len(b: Seq<u8>)
    ensures
        base64_encode_spec(b).len() == 4 * ((b.len() + 2) / 3),
    decreases b.len(),
{
    if b.len() > 0 {
        lemma_group_shapes(b[0], if b.len() > 1 { b[1] } else { 0u8 }, if b.len() > 2 { b[2] } else { 0u8 });
    }
    if b.len() >= 3 {
        lemma_base64_len(b.subrange(3, b.len() as int));
    }
}

/// Different bytes have different encodings.
pub proof fn lemma_base64_injective(a: Seq<u8>, b: Seq<u8>)
    requires
        base64_encode_spec(a) == base64_encode_spec(b),
    ensures
        a == b,
    decreases a.len(),
{
    let e = base64_encode_spec(a);
    lemma_base64_len(a);
    lemma_base64_len(b);
    if a.len() == 0 || b.len() == 0 {
        assert(a =~= b);
        return;
    }
    let a1: u8 = if a.len() > 1 { a[1] } else { 0u8 };
    let a2: u8 = if a.len() > 2 { a[2] } else { 0u8 };
    let b1: u8 = if b.len() > 1 { b[1] } else { 0u8 };
    let b2: u8 = if b.len() > 2 { b[2] } else { 0u8 };
    lemma_group_shapes(a[0], a1, a2);
    lemma_group_shapes(b[0], b1, b2);
    let first_a = e.subrange(0, 4);
    if a.len() >= 3 {
        assert(first_a =~= encode_group3(a[0], a[1], a[2]));
    } else if a.len() == 2 {
        assert(first_a =~= encode_group2(a[0], a[1]));
    } else {
        assert(first_a =~= encode_group1(a[0]));
    }
    if b.len() >= 3 {
        assert(first_a =~= encode_group3(b[0], b[1], b[2]));
    } else if b.len() == 2 {
        assert(first_a =~= encode_group2(b[0], b[1]));
    } else {
        assert(first_a =~= encode_group1(b[0]));
    }
    assert((a.len() == 1) == (b.len() == 1)) by {
        assert(first_a[2] == '=' <==> a.len() == 1);
        assert(first_a[2] == '=' <==> b.len() == 1);
    }
    assert((a.len() <= 2) == (b.len() <= 2)) by {
        assert(first_a[3] == '=' <==> a.len() <= 2);
        assert(first_a[3] == '=' <==> b.len() <= 2);
    }
    if a.len() >= 3 {
        lemma_group3_injective(a[0], a[1], a[2], b[0], b[1], b[2]);
        let ra = a.subrange(3, a.len() as int);
        let rb = b.subrange(3, b.len() as int);
        assert(base64_encode_spec(ra) =~= e.subrange(4, e.len() as int));
        assert(base64_encode_spec(rb) =~= e.subrange(4, e.len() as int));
        lemma_base64_injective(ra, rb);
        assert(a.len() == b.len());
        assert forall|i: int| 0 <= i < a.len() implies a[i] == b[i] by {
            if i >= 3 {
                assert(a[i] == ra[i - 3]);
                assert(b[i] == rb[i - 3]);
            }
        }
        assert(a =~= b);
    } else if a.len() == 2 {
        lemma_group2_injective(a[0], a[1], b[0], b[1]);
        assert(a =~= b);
    } else {
        lemma_group1_injective(a[0], b[0]);
        assert(a =~= b);
    }
}

/// Decoding an encoding gives back the bytes encoded.
pub proof fn lemma_base64_roundtrip(b: Seq<u8>)
    ensures
        base64_decode_spec(base64_encode_spec(b)) == Some(b),
{
    let t = base64_encode_spec(b);
    assert(exists|c: Seq<u8>| base64_encode_spec(c) == t);
    let c = choose|c: Seq<u8>| base64_encode_spec(c) == t;
    lemma_base64_injective(c, b);
}

} // verus!
