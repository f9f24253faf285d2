//! Byte-sequence helpers: copying, big-endian length prefixes, concatenation.

use vstd::prelude::*;

verus! {

/// Append every byte of `src` to `dst`.
pub fn extend_bytes(dst: &mut Vec<u8>, src: &[u8])
    ensures
        final(dst)@ == old(dst)@ + src@,
{
    let ghost start = dst@;
    let mut i: usize = 0;
    while i < src.len()
        invariant
            i <= src@.len(),
            dst@ == start + src@.subrange(0, i as int),
        decreases src@.len() - i,
    {
        dst.push(src[i]);
        i = i + 1;
        assert(dst@ =~= start + src@.subrange(0, i as int));
    }
    assert(src@.subrange(0, src@.len() as int) =~= src@);
}

/// The four big-endian bytes of `n`.
pub open spec fn be32_bytes(n: nat) -> Seq<u8> {
    seq![
        ((n / 16777216) % 256) as u8,
        ((n / 65536) % 256) as u8,
        ((n / 256) % 256) as u8,
        (n % 256) as u8,
    ]
}

/// The number a four-byte big-endian prefix stands for.
pub open spec fn be32_value(b: Seq<u8>) -> nat {
    (b[0] as nat) * 16777216 + (b[1] as nat) * 65536 + (b[2] as nat) * 256 + (b[3] as nat)
}

/// Reading back a written big-endian prefix gives the number that was written.
pub proof fn lemma_be32_roundtrip(n: nat)
    requires
        n < 4294967296,
    ensures
        be32_bytes(n).len() == 4,
        be32_value(be32_bytes(n)) == n,
{
    let b = be32_bytes(n);
    assert(b[0] as nat == (n / 16777216) % 256);
    assert(b[1] as nat == (n / 65536) % 256);
    assert(b[2] as nat == (n / 256) % 256);
    assert(b[3] as nat == n % 256);
    assert((n / 16777216) % 256 == n / 16777216) by (nonlinear_arith)
        requires n < 4294967296;
    assert(((n / 16777216) * 16777216 + ((n / 65536) % 256) * 65536 + ((n / 256) % 256) * 256 + n % 256) == n)
        by (nonlinear_arith)
        requires n < 4294967296;
}

/// Append the big-endian four-byte form of `n` to `dst`.
pub fn push_be32(dst: &mut Vec<u8>, n: u32)
    ensures
        final(dst)@ == old(dst)@ + be32_bytes(n as nat),
{
    dst.push((n / 16777216) as u8);
    dst.push(((n / 65536) % 256) as u8);
    dst.push(((n / 256) % 256) as u8);
    dst.push((n % 256) as u8);
    assert((n / 16777216) < 256) by (nonlinear_arith)
        requires n < 4294967296;
    assert(final(dst)@ =~= old(dst)@ + be32_bytes(n as nat));
}

/// The concatenation of a sequence of byte sequences.
pub open spec fn concat_all(parts: Seq<Seq<u8>>) -> Seq<u8>
    decreases parts.len(),
{
    if parts.len() == 0 {
        Seq::<u8>::empty()
    } else {
        concat_all(parts.drop_last()) + parts.last()
    }
}

/// Concatenation splits at the first part.
pub proof fn lemma_concat_all_first(parts: Seq<Seq<u8>>)
    requires
        parts.len() > 0,
    ensures
        concat_all(parts) == parts[0] + concat_all(parts.drop_first()),
    decreases parts.len(),
{
    if parts.len() == 1 {
        assert(parts.drop_first() =~= Seq::<Seq<u8>>::empty());
        assert(parts.drop_last() =~= Seq::<Seq<u8>>::empty());
        assert(concat_all(parts.drop_last()) =~= Seq::<u8>::empty());
        assert(concat_all(parts.drop_first()) =~= Seq::<u8>::empty());
        assert(concat_all(parts) =~= parts[0]);
    } else {
        lemma_concat_all_first(parts.drop_last());
        assert(parts.drop_last().drop_first() =~= parts.drop_first().drop_last());
        assert(parts.drop_first().last() == parts.last());
        assert(parts.drop_last()[0] == parts[0]);
        assert(concat_all(parts) =~= parts[0] + concat_all(parts.drop_first()));
    }
}

} // verus!
