//! Fresh identifiers: a base name, or the base with the smallest numeric
//! suffix (`-2`, `-3`, ...) that is not taken yet.

use crate::text::{decimal, decimal_string, is_blank, is_blank_str};
use vstd::prelude::*;
use vstd::relations::injective_on;
use vstd::set_lib::*;
use vstd::string::*;

verus! {

/// The `i`-th alternative to `base`: `base-i`.
pub open spec fn candidate(base: Seq<char>, i: nat) -> Seq<char> {
    base + "-"@ + decimal(i)
}

/// `r` is the identifier chosen for `base` among the identifiers in `used`:
/// `base` itself when it is free, else `base-i` for the smallest `i >= 2`
/// that is free.
pub open spec fn fresh_id(used: Seq<Seq<char>>, base: Seq<char>, r: Seq<char>) -> bool {
    if !used.contains(base) {
        r == base
    } else {
        exists|i: nat|
            #![trigger candidate(base, i)]
            i >= 2 && r == candidate(base, i) && !used.contains(r) && forall|k: nat|
                2 <= k < i ==> used.contains(#[trigger] candidate(base, k))
    }
}

proof fn lemma_decimal_shape(n: nat)
    ensures
        decimal(n).len() >= 1,
        n < 10 ==> decimal(n).len() == 1,
        n >= 10 ==> decimal(n).len() >= 2,
        decimal(n).last() == (((n % 10) + 48) as u8) as char,
        n >= 10 ==> decimal(n).drop_last() == decimal(n / 10),
    decreases n,
{
    if n >= 10 {
        lemma_decimal_shape(n / 10);
    }
}

/// Different numbers have different decimal texts.
pub proof fn lemma_decimal_injective(a: nat, b: nat)
    requires
        decimal(a) == decimal(b),
    ensures
        a == b,
    decreases a,
{
    lemma_decimal_shape(a);
    lemma_decimal_shape(b);
    let ca = decimal(a).last();
    let cb = decimal(b).last();
    assert((((a % 10) + 48) as u8) as char == (((b % 10) + 48) as u8) as char);
    assert(((((a % 10) + 48) as u8) as char) as u32 == (a % 10) + 48);
    assert(((((b % 10) + 48) as u8) as char) as u32 == (b % 10) + 48);
    assert(a % 10 == b % 10);
    if a >= 10 && b >= 10 {
        lemma_decimal_injective(a / 10, b / 10);
    }
}

proof fn lemma_candidate_injective(base: Seq<char>, i: nat, j: nat)
    requires
        candidate(base, i) == candidate(base, j),
    ensures
        i == j,
{
    reveal_strlit("-");
    let n = base.len() + 1;
    assert(candidate(base, i).subrange(n as int, candidate(base, i).len() as int) =~= decimal(i));
    assert(candidate(base, j).subrange(n as int, candidate(base, j).len() as int) =~= decimal(j));
    lemma_decimal_injective(i, j);
}

/// Among `used.len() + 1` alternatives some is free.
proof fn lemma_some_candidate_free(used: Seq<Seq<char>>, base: Seq<char>)
    ensures
        exists|k: nat| 2 <= k <= used.len() + 2 && !used.contains(#[trigger] candidate(base, k)),
{
    if forall|k: nat| 2 <= k <= used.len() + 2 ==> used.contains(#[trigger] candidate(base, k)) {
        let lo: int = 2;
        let hi: int = used.len() as int + 3;
        let x = set_int_range(lo, hi);
        lemma_int_range(lo, hi);
        let f = |k: int| candidate(base, k as nat);
        assert(injective_on(f, x)) by {
            assert forall|a: int, b: int| x.contains(a) && x.contains(b) && #[trigger] f(a) == #[trigger] f(b) implies a == b by {
                lemma_candidate_injective(base, a as nat, b as nat);
            }
        }
        let y = x.map(f);
        lemma_map_size(x, y, f);
        let ids = used.to_set();
        assert(y.subset_of(ids)) by {
            assert forall|s: Seq<char>| y.contains(s) implies ids.contains(s) by {
                let k = choose|k: int| x.contains(k) && f(k) == s;
                assert(used.contains(candidate(base, k as nat)));
            }
        }
        used.lemma_cardinality_of_set();
        lemma_len_subset(y, ids);
        assert(false);
    }
}

/// Whether `id` is among `used`.
fn is_used(used: &Vec<String>, id: &String) -> (r: bool)
    ensures
        r == used@.map_values(|s: String| s@).contains(id@),
{
    let ghost views = used@.map_values(|s: String| s@);
    let mut i: usize = 0;
    while i < used.len()
        invariant
            i <= used.len(),
            views == used@.map_values(|s: String| s@),
            forall|j: int| 0 <= j < i ==> views[j] != id@,
        decreases used.len() - i,
    {
        if used[i] == *id {
            assert(views[i as int] == id@);
            return true;
        }
        i = i + 1;
    }
    proof {
        if views.contains(id@) {
            let j = choose|j: int| 0 <= j < views.len() && views[j] == id@;
        }
    }
    false
}

/// The identifier for `base` that none of `used` has: `base` itself, or
/// `base-i` with the smallest free `i >= 2`.
pub fn unique_id(used: &Vec<String>, base: &str) -> (r: String)
    ensures
        fresh_id(used@.map_values(|s: String| s@), base@, r@),
{
    let ghost views = used@.map_values(|s: String| s@);
    let base_owned = base.to_owned();
    if !is_used(used, &base_owned) {
        return base_owned;
    }
    proof {
        lemma_some_candidate_free(views, base@);
    }
    let count = used.len();
    let mut index: u128 = 2;
    loop
        invariant
            views == used@.map_values(|s: String| s@),
            views.len() == used@.len(),
            count == used@.len(),
            views.contains(base@),
            2 <= index <= views.len() + 2,
            exists|k: nat| 2 <= k <= views.len() + 2 && !views.contains(#[trigger] candidate(base@, k)),
            forall|k: nat| 2 <= k < index ==> views.contains(#[trigger] candidate(base@, k)),
        decreases views.len() + 2 - index,
    {
        let mut candidate_text = base.to_owned();
        candidate_text.append("-");
        let digits = decimal_string(index);
        candidate_text.append(digits.as_str());
        assert(candidate_text@ =~= candidate(base@, index as nat));
        if !is_used(used, &candidate_text) {
            assert(fresh_id(views, base@, candidate_text@)) by {
                assert(index >= 2 && candidate_text@ == candidate(base@, index as nat));
            }
            return candidate_text;
        }
        if index - 2 == count as u128 {
            proof {
                let k = choose|k: nat| 2 <= k <= views.len() + 2 && !views.contains(#[trigger] candidate(base@, k));
                assert(views.contains(candidate(base@, k)));
            }
            assert(false);
        }
        index = index + 1;
    }
}

/// `base`, or `fallback` when `base` is blank.
pub open spec fn normalized(base: Seq<char>, fallback: Seq<char>) -> Seq<char> {
    if is_blank(base) {
        fallback
    } else {
        base
    }
}

/// `base`, or `fallback` when `base` is blank.
pub fn normalize(base: &str, fallback: &str) -> (r: String)
    ensures
        r@ == normalized(base@, fallback@),
{
    if is_blank_str(base) {
        fallback.to_owned()
    } else {
        base.to_owned()
    }
}

} // verus!
