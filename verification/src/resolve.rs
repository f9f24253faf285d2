//! Choosing names for files moved into a folder: a file keeps its name unless
//! another file in the destination has it; then `stem (1).ext`, `stem (2).ext`
//! and so on are tried until a free one is found.

use vstd::prelude::*;
use vstd::string::*;

use crate::fmt::{decimal, decimal_string, digit_char, push_str};
use crate::handle::VaultHandle;
use crate::index::{key_pos, VaultEntry};
use crate::paths::{split_name, split_name_spec};
use crate::text::{lemma_last_index_of, push_char, str_eq};
use crate::text;

verus! {

/// The `k`-th name tried for a file named `base`: `base` itself, then
/// `stem (k)` followed by `.ext` when the name has an extension.
pub open spec fn candidate(base: Seq<char>, k: nat) -> Seq<char> {
    if k == 0 {
        base
    } else {
        let (stem, ext) = split_name_spec(base);
        stem + seq![' ', '('] + decimal(k) + seq![')'] + if ext.len() == 0 { Seq::empty() } else { seq!['.'] + ext }
    }
}

/// Some file other than `uuid` is named `name` in folder `dest`.
pub open spec fn taken(pairs: Seq<(Seq<char>, VaultEntry)>, uuid: Seq<char>, dest: Seq<char>, name: Seq<char>) -> bool {
    exists|i: int| 0 <= i < pairs.len() && (#[trigger] pairs[i]).0 != uuid && pairs[i].1.path@ == dest && pairs[i].1.name@ == name
}

/// The names of the files other than `uuid` in folder `dest`.
pub open spec fn taken_names(pairs: Seq<(Seq<char>, VaultEntry)>, uuid: Seq<char>, dest: Seq<char>) -> Set<Seq<char>> {
    Set::new(|name: Seq<char>| taken(pairs, uuid, dest, name))
}

/// The current name of the file `uuid`, or the empty name when there is none.
pub open spec fn base_name(pairs: Seq<(Seq<char>, VaultEntry)>, uuid: Seq<char>) -> Seq<char> {
    if key_pos(pairs, uuid) >= 0 {
        pairs[key_pos(pairs, uuid)].1.name@
    } else {
        Seq::empty()
    }
}

/// `name` is the first free name tried for `uuid` moving to `dest`.
pub open spec fn is_resolved_name(pairs: Seq<(Seq<char>, VaultEntry)>, uuid: Seq<char>, dest: Seq<char>, name: Seq<char>) -> bool {
    exists|k: nat| {
        &&& name == #[trigger] candidate(base_name(pairs, uuid), k)
        &&& !taken(pairs, uuid, dest, name)
        &&& forall|j: nat| j < k ==> taken(pairs, uuid, dest, #[trigger] candidate(base_name(pairs, uuid), j))
    }
}

/// Every character of a decimal numeral is a digit.
proof fn lemma_decimal_digits(n: nat)
    ensures
        decimal(n).len() >= 1,
        forall|i: int| 0 <= i < decimal(n).len() ==> '0' <= #[trigger] decimal(n)[i] <= '9',
    decreases n,
{
    if n >= 10 {
        lemma_decimal_digits(n / 10);
        let d = decimal(n / 10);
        assert forall|i: int| 0 <= i < decimal(n).len() implies '0' <= #[trigger] decimal(n)[i] <= '9' by {
            if i < d.len() {
                assert(decimal(n)[i] == d[i]);
            }
        }
    }
}

/// The number a string of decimal digits stands for.
pub open spec fn digits_value(s: Seq<char>) -> int
    decreases s.len(),
{
    if s.len() == 0 {
        0
    } else {
        digits_value(s.drop_last()) * 10 + ((s.last() as u32) - 48)
    }
}

/// A decimal numeral stands for its number, so different numbers have different numerals.
proof fn lemma_decimal_value(n: nat)
    ensures
        digits_value(decimal(n)) == n,
    decreases n,
{
    let m = n % 10;
    assert((digit_char(m) as u32) == m + 48);
    if n >= 10 {
        lemma_decimal_value(n / 10);
        let d = decimal(n);
        assert(d.drop_last() == decimal(n / 10));
        assert(d.last() == digit_char(n % 10));
        assert(digits_value(d) == digits_value(d.drop_last()) * 10 + ((d.last() as u32) - 48));
        assert(n == (n / 10) * 10 + n % 10) by (nonlinear_arith);
    } else {
        let d = decimal(n);
        assert(d.drop_last() =~= Seq::<char>::empty());
        assert(d.last() == digit_char(n));
        assert(digits_value(d) == digits_value(d.drop_last()) * 10 + ((d.last() as u32) - 48));
    }
}

/// Different numbers give different tried names; each tried name after the
/// first is longer than the name itself.
proof fn lemma_candidates_distinct(base: Seq<char>, j: nat, k: nat)
    requires
        j < k,
    ensures
        candidate(base, j) != candidate(base, k),
{
    let (stem, ext) = split_name_spec(base);
    let tail: Seq<char> = if ext.len() == 0 { Seq::empty() } else { seq!['.'] + ext };
    lemma_decimal_digits(k);
    if j == 0 {
        lemma_last_index_of(base, '.');
        let d = text::last_index_of(base, '.');
        assert(base.len() <= stem.len() + 1 + tail.len());
        assert(candidate(base, k).len() >= stem.len() + 4 + tail.len());
    } else {
        lemma_decimal_digits(j);
        lemma_decimal_value(j);
        lemma_decimal_value(k);
        let p = stem + seq![' ', '('];
        let dj = decimal(j);
        let dk = decimal(k);
        let s = seq![')'] + tail;
        let cj = candidate(base, j);
        let ck = candidate(base, k);
        assert(cj =~= p + dj + s);
        assert(ck =~= p + dk + s);
        if cj == ck {
            if dj.len() == dk.len() {
                assert(dj =~= cj.subrange(p.len() as int, (p.len() + dj.len()) as int));
                assert(dk =~= ck.subrange(p.len() as int, (p.len() + dk.len()) as int));
                assert(false);
            } else if dj.len() < dk.len() {
                assert(cj[(p.len() + dj.len()) as int] == ')');
                assert(ck[(p.len() + dj.len()) as int] == dk[dj.len() as int]);
            } else {
                assert(ck[(p.len() + dk.len()) as int] == ')');
                assert(cj[(p.len() + dk.len()) as int] == dj[dk.len() as int]);
            }
        }
    }
}

/// The names tried before `k`.
spec fn tried(base: Seq<char>, k: nat) -> Set<Seq<char>> {
    Set::new(|x: Seq<char>| exists|j: nat| j < k && x == #[trigger] candidate(base, j))
}

/// `k` different names have been tried before `k`.
proof fn lemma_tried_len(base: Seq<char>, k: nat)
    ensures
        tried(base, k).finite(),
        tried(base, k).len() == k,
    decreases k,
{
    if k == 0 {
        assert(tried(base, 0) =~= Set::<Seq<char>>::empty());
    } else {
        let km = (k - 1) as nat;
        lemma_tried_len(base, km);
        assert(tried(base, k) =~= tried(base, km).insert(candidate(base, km)));
        assert(!tried(base, km).contains(candidate(base, km))) by {
            if tried(base, km).contains(candidate(base, km)) {
                let j = choose|j: nat| j < km && candidate(base, km) == #[trigger] candidate(base, j);
                lemma_candidates_distinct(base, j, km);
            }
        }
    }
}

/// The names taken in a folder are at most as many as the files.
proof fn lemma_taken_names_bound(pairs: Seq<(Seq<char>, VaultEntry)>, uuid: Seq<char>, dest: Seq<char>)
    ensures
        taken_names(pairs, uuid, dest).finite(),
        taken_names(pairs, uuid, dest).len() <= pairs.len(),
{
    let names = pairs.map_values(|p: (Seq<char>, VaultEntry)| p.1.name@).to_set();
    assert(taken_names(pairs, uuid, dest).subset_of(names)) by {
        assert forall|x: Seq<char>| taken_names(pairs, uuid, dest).contains(x) implies names.contains(x) by {
            let i = choose|i: int| 0 <= i < pairs.len() && (#[trigger] pairs[i]).0 != uuid && pairs[i].1.path@ == dest && pairs[i].1.name@ == x;
            assert(pairs.map_values(|p: (Seq<char>, VaultEntry)| p.1.name@)[i] == x);
        }
    }
    pairs.map_values(|p: (Seq<char>, VaultEntry)| p.1.name@).lemma_cardinality_of_set();
    vstd::set_lib::lemma_len_subset(taken_names(pairs, uuid, dest), names);
}

/// Whether some file other than `uuid` is named `name` in folder `dest`.
pub fn is_taken(handle: &VaultHandle, uuid: &str, dest: &str, name: &str) -> (r: bool)
    ensures
        r == taken(handle.index.pairs(), uuid@, dest@, name@),
{
    let n = handle.index.len();
    let mut i: usize = 0;
    while i < n
        invariant
            n == handle.index.pairs().len(),
            i <= n,
            forall|j: int| 0 <= j < i ==> !((#[trigger] handle.index.pairs()[j]).0 != uuid@
                && handle.index.pairs()[j].1.path@ == dest@ && handle.index.pairs()[j].1.name@ == name@),
        decreases n - i,
    {
        let (u, e) = handle.index.entry_at(i);
        if !str_eq(u.as_str(), uuid) && str_eq(e.path.as_str(), dest) && str_eq(e.name.as_str(), name) {
            return true;
        }
        i = i + 1;
    }
    false
}

/// The `k`-th tried name, for `k >= 1`, from the stem and extension of the name.
fn candidate_name(stem: &str, ext: &str, k: u32) -> (r: String)
    ensures
        r@ == stem@ + seq![' ', '('] + decimal(k as nat) + seq![')'] + if ext@.len() == 0 { Seq::empty() } else { seq!['.'] + ext@ },
{
    let mut r = String::new();
    push_str(&mut r, stem);
    push_char(&mut r, ' ');
    push_char(&mut r, '(');
    let d = decimal_string(k as u64);
    push_str(&mut r, d.as_str());
    push_char(&mut r, ')');
    if ext.unicode_len() != 0 {
        push_char(&mut r, '.');
        push_str(&mut r, ext);
    }
    assert(r@ =~= stem@ + seq![' ', '('] + decimal(k as nat) + seq![')'] + if ext@.len() == 0 { Seq::empty() } else { seq!['.'] + ext@ });
    r
}

/// The first free name for the file `uuid` moving to `dest`.
pub fn resolve_name(handle: &VaultHandle, uuid: &str, dest: &str) -> (r: String)
    requires
        handle.index.wf(),
        handle.index.pairs().len() < 4294967295,
    ensures
        is_resolved_name(handle.index.pairs(), uuid@, dest@, r@),
{
    let ghost pairs = handle.index.pairs();
    let base: String = match handle.index.get(uuid) {
        Some(e) => e.name.clone(),
        None => String::new(),
    };
    let ghost b = base_name(pairs, uuid@);
    assert(base@ == b);
    let (stem, ext) = split_name(base.as_str());
    let n = handle.index.len();
    let mut name = base.clone();
    let mut counter: u32 = 1;
    proof {
        lemma_taken_names_bound(pairs, uuid@, dest@);
    }
    loop
        invariant
            pairs == handle.index.pairs(),
            n == pairs.len(),
            n < 4294967295,
            1 <= counter <= n + 1,
            b == base_name(pairs, uuid@),
            stem@ == split_name_spec(b).0,
            ext@ == split_name_spec(b).1,
            name@ == candidate(b, (counter - 1) as nat),
            forall|j: nat| j < counter - 1 ==> taken(pairs, uuid@, dest@, #[trigger] candidate(b, j)),
            taken_names(pairs, uuid@, dest@).finite(),
            taken_names(pairs, uuid@, dest@).len() <= n,
        decreases n + 1 - counter,
    {
        if !is_taken(handle, uuid, dest, name.as_str()) {
            proof {
                assert(is_resolved_name(pairs, uuid@, dest@, name@)) by {
                    let k = (counter - 1) as nat;
                    assert(name@ == candidate(b, k));
                }
            }
            return name;
        }
        proof {
            // Every name tried so far is taken, and they are all different:
            // there cannot be more of them than files.
            lemma_tried_len(b, counter as nat);
            assert(tried(b, counter as nat).subset_of(taken_names(pairs, uuid@, dest@))) by {
                assert forall|x: Seq<char>| tried(b, counter as nat).contains(x) implies taken_names(pairs, uuid@, dest@).contains(x) by {
                    let j = choose|j: nat| j < counter && x == #[trigger] candidate(b, j);
                    if j < counter - 1 {
                        assert(taken(pairs, uuid@, dest@, candidate(b, j)));
                    }
                }
            }
            vstd::set_lib::lemma_len_subset(tried(b, counter as nat), taken_names(pairs, uuid@, dest@));
        }
        name = candidate_name(stem.as_str(), ext.as_str(), counter);
        counter = counter + 1;
    }
}

/// For each UUID, the first name under which it does not clash with another
/// file in `dest`, in the order of `uuids`.
pub fn resolve_names(uuids: &[String], dest: &str, handle: &VaultHandle) -> (r: Vec<(String, String)>)
    requires
        handle.index.wf(),
        handle.index.pairs().len() < 4294967295,
    ensures
        r@.len() == uuids@.len(),
        forall|i: int| 0 <= i < r@.len() ==> (#[trigger] r@[i]).0@ == uuids@[i]@
            && is_resolved_name(handle.index.pairs(), uuids@[i]@, dest@, r@[i].1@),
{
    let mut r: Vec<(String, String)> = Vec::new();
    let mut i: usize = 0;
    while i < uuids.len()
        invariant
            i <= uuids@.len(),
            handle.index.wf(),
            handle.index.pairs().len() < 4294967295,
            r@.len() == i,
            forall|j: int| 0 <= j < i ==> (#[trigger] r@[j]).0@ == uuids@[j]@
                && is_resolved_name(handle.index.pairs(), uuids@[j]@, dest@, r@[j].1@),
        decreases uuids@.len() - i,
    {
        let name = resolve_name(handle, uuids[i].as_str(), dest);
        r.push((uuids[i].clone(), name));
        i = i + 1;
    }
    r
}

} // verus!
