//! The order of strings (`str`'s `Ord`, which is the order of their characters'
//! code points, position by position) and sorted lists of distinct strings.

use vstd::prelude::*;
use vstd::string::*;

use crate::text::to_chars;

verus! {

/// `a` comes strictly before `b` in lexicographic order.
pub open spec fn seq_lt(a: Seq<char>, b: Seq<char>) -> bool
    decreases a.len(),
{
    if a.len() == 0 {
        b.len() > 0
    } else if b.len() == 0 {
        false
    } else if a[0] < b[0] {
        true
    } else if a[0] > b[0] {
        false
    } else {
        seq_lt(a.drop_first(), b.drop_first())
    }
}

/// Lexicographic order is a strict total order.
pub proof fn lemma_seq_lt_total(a: Seq<char>, b: Seq<char>)
    ensures
        !seq_lt(a, a),
        a != b ==> seq_lt(a, b) || seq_lt(b, a),
        !(seq_lt(a, b) && seq_lt(b, a)),
    decreases a.len(),
{
    if a.len() > 0 && b.len() > 0 {
        lemma_seq_lt_total(a.drop_first(), b.drop_first());
        lemma_seq_lt_total(a.drop_first(), a.drop_first());
        if a != b && a[0] == b[0] {
            assert(a.drop_first() != b.drop_first()) by {
                if a.drop_first() == b.drop_first() {
                    assert(a =~= seq![a[0]] + a.drop_first());
                    assert(b =~= seq![b[0]] + b.drop_first());
                }
            }
        }
    } else if a.len() > 0 {
        lemma_seq_lt_total(a.drop_first(), a.drop_first());
    } else if b.len() == 0 {
        assert(a =~= b);
    }
}

/// Lexicographic order is transitive.
pub proof fn lemma_seq_lt_transitive(a: Seq<char>, b: Seq<char>, c: Seq<char>)
    requires
        seq_lt(a, b),
        seq_lt(b, c),
    ensures
        seq_lt(a, c),
    decreases a.len(),
{
    if a.len() > 0 && b.len() > 0 && c.len() > 0 {
        if a[0] == b[0] && b[0] == c[0] {
            lemma_seq_lt_transitive(a.drop_first(), b.drop_first(), c.drop_first());
        }
    }
}

/// Three-way comparison of two character sequences: negative, zero or positive
/// as `a` comes before, equals, or comes after `b`.
pub fn compare_chars(a: &[char], b: &[char]) -> (r: i8)
    ensures
        r < 0 <==> seq_lt(a@, b@),
        r == 0 <==> a@ == b@,
        r > 0 <==> seq_lt(b@, a@),
{
    let mut i: usize = 0;
    proof {
        lemma_seq_lt_total(a@, b@);
        assert(a@.subrange(0, a@.len() as int) =~= a@);
        assert(b@.subrange(0, b@.len() as int) =~= b@);
        assert(a@.subrange(0, 0) =~= b@.subrange(0, 0));
    }
    while i < a.len() && i < b.len()
        invariant
            i <= a@.len(),
            i <= b@.len(),
            a@.subrange(0, i as int) == b@.subrange(0, i as int),
            seq_lt(a@, b@) == seq_lt(a@.subrange(i as int, a@.len() as int), b@.subrange(i as int, b@.len() as int)),
            seq_lt(b@, a@) == seq_lt(b@.subrange(i as int, b@.len() as int), a@.subrange(i as int, a@.len() as int)),
        decreases a@.len() - i,
    {
        let ghost sa = a@.subrange(i as int, a@.len() as int);
        let ghost sb = b@.subrange(i as int, b@.len() as int);
        assert(sa[0] == a@[i as int]);
        assert(sb[0] == b@[i as int]);
        if a[i] < b[i] {
            proof {
                lemma_seq_lt_total(a@, b@);
            }
            return -1;
        }
        if a[i] > b[i] {
            proof {
                lemma_seq_lt_total(a@, b@);
                assert(a@[i as int] != b@[i as int]);
                assert(a@ != b@);
            }
            return 1;
        }
        assert(a@[i as int] == b@[i as int]);
        assert(sa.drop_first() =~= a@.subrange(i + 1, a@.len() as int));
        assert(sb.drop_first() =~= b@.subrange(i + 1, b@.len() as int));
        assert(a@.subrange(0, i + 1) =~= a@.subrange(0, i as int).push(a@[i as int]));
        assert(b@.subrange(0, i + 1) =~= b@.subrange(0, i as int).push(b@[i as int]));
        i = i + 1;
    }
    proof {
        lemma_seq_lt_total(a@, b@);
    }
    if a.len() == b.len() {
        assert(a@ =~= a@.subrange(0, i as int));
        assert(b@ =~= b@.subrange(0, i as int));
        0
    } else if i == a.len() {
        assert(a@.subrange(i as int, a@.len() as int).len() == 0);
        -1
    } else {
        assert(b@.subrange(i as int, b@.len() as int).len() == 0);
        assert(a@ != b@) by {
            if a@ == b@ {
                assert(a@.len() == b@.len());
            }
        }
        1
    }
}

/// Three-way comparison of two strings by `str`'s order.
pub fn compare_strs(a: &str, b: &str) -> (r: i8)
    ensures
        r < 0 <==> seq_lt(a@, b@),
        r == 0 <==> a@ == b@,
        r > 0 <==> seq_lt(b@, a@),
{
    let x = to_chars(a);
    let y = to_chars(b);
    compare_chars(x.as_slice(), y.as_slice())
}

/// A list of strings in strictly increasing order (so without repeats).
pub open spec fn strictly_sorted(s: Seq<Seq<char>>) -> bool {
    forall|i: int, j: int| 0 <= i < j < s.len() ==> seq_lt(#[trigger] s[i], #[trigger] s[j])
}

/// Two strictly sorted lists with the same elements are the same list.
pub proof fn lemma_sorted_set_unique(a: Seq<Seq<char>>, b: Seq<Seq<char>>)
    requires
        strictly_sorted(a),
        strictly_sorted(b),
        a.to_set() == b.to_set(),
    ensures
        a == b,
    decreases a.len(),
{
    if a.len() == 0 {
        if b.len() > 0 {
            assert(b.to_set().contains(b[0]));
        }
        assert(a =~= b);
    } else {
        assert(a.to_set().contains(a[0]));
        assert(b.contains(a[0]));
        let k = choose|k: int| 0 <= k < b.len() && b[k] == a[0];
        assert(b.to_set().contains(b[0]));
        assert(a.contains(b[0]));
        let m = choose|m: int| 0 <= m < a.len() && a[m] == b[0];
        if a[0] != b[0] {
            assert(k > 0 && m > 0);
            assert(seq_lt(b[0], b[k]));
            assert(seq_lt(a[0], a[m]));
            lemma_seq_lt_total(a[0], b[0]);
        }
        let a1 = a.drop_first();
        let b1 = b.drop_first();
        assert forall|x: Seq<char>| a1.to_set().contains(x) <==> b1.to_set().contains(x) by {
            if a1.contains(x) {
                let i = choose|i: int| 0 <= i < a1.len() && a1[i] == x;
                assert(seq_lt(a[0], a[i + 1]));
                lemma_seq_lt_total(x, x);
                assert(a.contains(x));
                assert(b.to_set().contains(x));
                let j = choose|j: int| 0 <= j < b.len() && b[j] == x;
                assert(j != 0);
                assert(b1[j - 1] == x);
            }
            if b1.contains(x) {
                let i = choose|i: int| 0 <= i < b1.len() && b1[i] == x;
                assert(seq_lt(b[0], b[i + 1]));
                lemma_seq_lt_total(x, x);
                assert(b.contains(x));
                assert(a.to_set().contains(x));
                let j = choose|j: int| 0 <= j < a.len() && a[j] == x;
                assert(j != 0);
                assert(a1[j - 1] == x);
            }
        }
        assert(a1.to_set() =~= b1.to_set());
        assert(strictly_sorted(a1)) by {
            assert forall|i: int, j: int| 0 <= i < j < a1.len() implies seq_lt(#[trigger] a1[i], #[trigger] a1[j]) by {
                assert(seq_lt(a[i + 1], a[j + 1]));
            }
        }
        assert(strictly_sorted(b1)) by {
            assert forall|i: int, j: int| 0 <= i < j < b1.len() implies seq_lt(#[trigger] b1[i], #[trigger] b1[j]) by {
                assert(seq_lt(b[i + 1], b[j + 1]));
            }
        }
        lemma_sorted_set_unique(a1, b1);
        assert(a =~= b) by {
            assert(a.len() == b.len());
            assert forall|i: int| 0 <= i < a.len() implies a[i] == b[i] by {
                if i > 0 {
                    assert(a[i] == a1[i - 1]);
                    assert(b[i] == b1[i - 1]);
                }
            }
        }
    }
}

/// The views of a list of strings.
pub open spec fn views(v: Seq<String>) -> Seq<Seq<char>> {
    v.map_values(|s: String| s@)
}

/// Insert `s` into a strictly sorted list of strings unless it is already there.
pub fn insert_sorted_unique(v: &mut Vec<String>, s: String)
    requires
        strictly_sorted(views(old(v)@)),
    ensures
        strictly_sorted(views(final(v)@)),
        views(final(v)@).to_set() == views(old(v)@).to_set().insert(s@),
{
    let ghost old_v = views(v@);
    let mut i: usize = 0;
    while i < v.len()
        invariant
            i <= v@.len(),
            views(v@) == old_v,
            strictly_sorted(old_v),
            forall|j: int| 0 <= j < i ==> seq_lt(#[trigger] old_v[j], s@),
        ensures
            i <= v@.len(),
            views(v@) == old_v,
            forall|j: int| 0 <= j < i ==> seq_lt(#[trigger] old_v[j], s@),
            i == v@.len() || seq_lt(s@, old_v[i as int]),
        decreases v@.len() - i,
    {
        let c = compare_strs(v[i].as_str(), s.as_str());
        assert(old_v[i as int] == v@[i as int]@);
        if c == 0 {
            assert(old_v.to_set().insert(s@) =~= old_v.to_set()) by {
                assert(old_v.contains(s@)) by {
                    assert(old_v[i as int] == s@);
                }
            }
            return;
        }
        if c > 0 {
            break;
        }
        i = i + 1;
    }
    let ghost at = i;
    proof {
        assert forall|j: int| at <= j < old_v.len() implies seq_lt(s@, #[trigger] old_v[j]) by {
            if j > at {
                assert(seq_lt(old_v[at as int], old_v[j]));
                lemma_seq_lt_transitive(s@, old_v[at as int], old_v[j]);
            }
        }
    }
    v.insert(i, s);
    proof {
        let nv = views(v@);
        assert(nv =~= old_v.insert(at as int, s@));
        assert forall|a: int, b: int| 0 <= a < b < nv.len() implies seq_lt(#[trigger] nv[a], #[trigger] nv[b]) by {
            if b < at {
            } else if b == at {
            } else if a < at {
                assert(nv[b] == old_v[b - 1]);
                lemma_seq_lt_transitive(nv[a], s@, old_v[b - 1]);
            } else if a == at {
                assert(nv[b] == old_v[b - 1]);
            } else {
                assert(nv[a] == old_v[a - 1]);
                assert(nv[b] == old_v[b - 1]);
            }
        }
        assert(nv.to_set() =~= old_v.to_set().insert(s@)) by {
            assert forall|x: Seq<char>| nv.to_set().contains(x) <==> old_v.to_set().insert(s@).contains(x) by {
                if nv.contains(x) {
                    let k = choose|k: int| 0 <= k < nv.len() && nv[k] == x;
                    if k < at {
                        assert(old_v[k] == x);
                    } else if k > at {
                        assert(old_v[k - 1] == x);
                    }
                }
                if old_v.contains(x) {
                    let k = choose|k: int| 0 <= k < old_v.len() && old_v[k] == x;
                    if k < at {
                        assert(nv[k] == x);
                    } else {
                        assert(nv[k + 1] == x);
                    }
                }
                if x == s@ {
                    assert(nv[at as int] == x);
                }
            }
        }
    }
}

} // verus!
