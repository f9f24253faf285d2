//! Building strings: concatenation, decimal and hexadecimal digits.

use vstd::prelude::*;
use vstd::string::*;

use crate::text::push_char;

verus! {

/// Append `t` to `s` (`String::push_str`).
pub fn push_str(s: &mut String, t: &str)
    ensures
        final(s)@ == old(s)@ + t@,
{
    let n = t.unicode_len();
    let mut i: usize = 0;
    while i < n
        invariant
            n == t@.len(),
            i <= n,
            s@ == old(s)@ + t@.subrange(0, i as int),
        decreases n - i,
    {
        push_char(s, t.get_char(i));
        assert(old(s)@ + t@.subrange(0, i + 1) =~= (old(s)@ + t@.subrange(0, i as int)).push(t@[i as int]));
        i = i + 1;
    }
    assert(t@.subrange(0, n as int) =~= t@);
}

/// Append the characters of `v` to `s`.
pub fn push_chars(s: &mut String, v: &[char])
    ensures
        final(s)@ == old(s)@ + v@,
{
    let mut i: usize = 0;
    while i < v.len()
        invariant
            i <= v@.len(),
            s@ == old(s)@ + v@.subrange(0, i as int),
        decreases v@.len() - i,
    {
        push_char(s, v[i]);
        assert(old(s)@ + v@.subrange(0, i + 1) =~= (old(s)@ + v@.subrange(0, i as int)).push(v@[i as int]));
        i = i + 1;
    }
    assert(v@.subrange(0, v@.len() as int) =~= v@);
}

/// `a` followed by `b`, as a new string.
pub fn concat(a: &str, b: &str) -> (r: String)
    ensures
        r@ == a@ + b@,
{
    let mut r = String::new();
    push_str(&mut r, a);
    push_str(&mut r, b);
    assert(Seq::<char>::empty() + a@ + b@ =~= a@ + b@);
    r
}

/// The digit character for `d < 16`, lower-case for ten and above.
pub open spec fn digit_char(d: nat) -> char {
    if d < 10 {
        ((d + 48) as u32) as char
    } else {
        ((d + 87) as u32) as char
    }
}

/// Decimal digits of `n`, most significant first, without leading zeros.
pub open spec fn decimal(n: nat) -> Seq<char>
    decreases n,
{
    if n < 10 {
        seq![digit_char(n)]
    } else {
        decimal(n / 10).push(digit_char(n % 10))
    }
}

/// Two lower-case hexadecimal digits of a byte (`{:02x}`).
pub open spec fn hex2(b: u8) -> Seq<char> {
    seq![digit_char((b / 16) as nat), digit_char((b % 16) as nat)]
}

/// The character of digit `d`.
pub fn digit(d: u8) -> (c: char)
    requires
        d < 16,
    ensures
        c == digit_char(d as nat),
{
    if d < 10 {
        ((d + 48) as u8) as char
    } else {
        ((d + 87) as u8) as char
    }
}

/// Decimal text of `n` (`n.to_string()`).
pub fn decimal_string(n: u64) -> (r: String)
    ensures
        r@ == decimal(n as nat),
{
    let mut digits: Vec<char> = Vec::new();
    let mut m: u64 = n;
    // Digits are produced least significant first, then reversed.
    while m >= 10
        invariant
            decimal(n as nat) == decimal(m as nat) + digits@.reverse(),
        decreases m,
    {
        let d = (m % 10) as u8;
        proof {
            assert(decimal(m as nat) == decimal((m / 10) as nat).push(digit_char((m % 10) as nat)));
            assert(digits@.push(digit_char(d as nat)).reverse() =~= seq![digit_char(d as nat)] + digits@.reverse());
            assert(decimal((m / 10) as nat).push(digit_char(d as nat)) + digits@.reverse()
                =~= decimal((m / 10) as nat) + (seq![digit_char(d as nat)] + digits@.reverse()));
        }
        digits.push(digit(d));
        m = m / 10;
    }
    digits.push(digit(m as u8));
    proof {
        assert(decimal(m as nat) == seq![digit_char(m as nat)]);
    }
    let mut r = String::new();
    let mut i: usize = digits.len();
    while i > 0
        invariant
            i <= digits@.len(),
            r@ == digits@.subrange(i as int, digits@.len() as int).reverse(),
        decreases i,
    {
        i = i - 1;
        push_char(&mut r, digits[i]);
        assert(digits@.subrange(i as int, digits@.len() as int).reverse()
            =~= digits@.subrange(i + 1, digits@.len() as int).reverse().push(digits@[i as int]));
    }
    assert(digits@.subrange(0, digits@.len() as int) =~= digits@);
    proof {
        let old_digits = digits@.drop_last();
        assert(digits@.reverse() =~= seq![digit_char(m as nat)] + old_digits.reverse());
    }
    r
}

/// Append the two hexadecimal digits of `b` to `s`.
pub fn push_hex2(s: &mut String, b: u8)
    ensures
        final(s)@ == old(s)@ + hex2(b),
{
    push_char(s, digit(b / 16));
    push_char(s, digit(b % 16));
    assert(old(s)@.push(digit_char((b / 16) as nat)).push(digit_char((b % 16) as nat)) =~= old(s)@ + hex2(b));
}

} // verus!
