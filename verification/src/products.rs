//! Products of member scalars, and the algebraic laws of the accumulator:
//! a witness product times its member restores the full product, a stale
//! witness misses the extended product, and the full product depends only on
//! the multiset of members.

use vstd::prelude::*;
use crate::scalar::fr_order;

verus! {

/// The product of a sequence of natural numbers.
pub open spec fn prod(s: Seq<nat>) -> nat
    decreases s.len(),
{
    if s.len() == 0 {
        1
    } else {
        prod(s.drop_last()) * s.last()
    }
}

/// The product of all entries of `s` except the first occurrence of `x`.
pub open spec fn wprod(s: Seq<nat>, x: nat) -> nat
    decreases s.len(),
{
    if s.len() == 0 {
        1
    } else if !s.drop_last().contains(x) && s.last() == x {
        prod(s.drop_last())
    } else {
        wprod(s.drop_last(), x) * s.last()
    }
}

/// Appending an entry multiplies the product by it.
pub proof fn lemma_prod_push(s: Seq<nat>, y: nat)
    ensures
        prod(s.push(y)) == prod(s) * y,
{
    assert(s.push(y).drop_last() =~= s);
}

/// How the witness product grows when an entry is appended: the first entry
/// equal to `x` is absorbed, every other entry is multiplied in.
pub proof fn lemma_wprod_push(s: Seq<nat>, x: nat, y: nat)
    ensures
        !s.contains(x) && y == x ==> wprod(s.push(y), x) == prod(s),
        s.contains(x) || y != x ==> wprod(s.push(y), x) == wprod(s, x) * y,
{
    assert(s.push(y).drop_last() =~= s);
}

/// Removing one entry divides the product by it.
pub proof fn lemma_prod_remove(s: Seq<nat>, j: int)
    requires
        0 <= j < s.len(),
    ensures
        prod(s) == prod(s.remove(j)) * s[j],
    decreases s.len(),
{
    if j == s.len() - 1 {
        assert(s.remove(j) =~= s.drop_last());
    } else {
        let dl = s.drop_last();
        lemma_prod_remove(dl, j);
        assert(s.remove(j).drop_last() =~= dl.remove(j));
        assert(s.remove(j).last() == s.last());
        assert(prod(s.remove(j)) == prod(dl.remove(j)) * s.last());
        assert((prod(dl.remove(j)) * s[j]) * s.last() == (prod(dl.remove(j)) * s.last()) * s[j])
            by (nonlinear_arith);
    }
}

/// Completeness of witnesses: when `x` occurs in `s`, the product of all the
/// other entries times `x` is exactly the full product, so a witness built
/// from the other entries passes the accumulator's check.
pub proof fn lemma_witness_complete(s: Seq<nat>, x: nat)
    requires
        s.contains(x),
    ensures
        wprod(s, x) * x == prod(s),
        ((wprod(s, x) % fr_order()) * x) % fr_order() == prod(s) % fr_order(),
    decreases s.len(),
{
    let dl = s.drop_last();
    if !dl.contains(x) && s.last() == x {
        assert(wprod(s, x) * x == prod(dl) * s.last());
    } else {
        if s.last() != x {
            let i = choose|i: int| 0 <= i < s.len() && s[i] == x;
            assert(dl[i] == x);
            assert(dl.contains(x));
        }
        lemma_witness_complete(dl, x);
        assert((wprod(dl, x) * s.last()) * x == (wprod(dl, x) * x) * s.last())
            by (nonlinear_arith);
    }
    vstd::arithmetic::div_mod::lemma_mul_mod_noop_left(
        wprod(s, x) as int,
        x as int,
        fr_order() as int,
    );
}

/// Staleness rejection: a witness product that matched the old accumulator
/// no longer matches after a further member `y` is added, except when
/// multiplying by `y` happens to leave the product unchanged modulo the
/// field order (the negligible coincidence).
pub proof fn lemma_stale_witness_rejected(s: Seq<nat>, x: nat, y: nat, w: nat)
    requires
        (w * x) % fr_order() == prod(s) % fr_order(),
        (prod(s) * y) % fr_order() != prod(s) % fr_order(),
    ensures
        (w * x) % fr_order() != prod(s.push(y)) % fr_order(),
{
    lemma_prod_push(s, y);
}

/// Order-independence: the product of a sequence depends only on the
/// multiset of its entries, so adding the same members in any order yields
/// the same accumulated product.
pub proof fn lemma_prod_order_independent(s1: Seq<nat>, s2: Seq<nat>)
    requires
        s1.to_multiset() == s2.to_multiset(),
    ensures
        prod(s1) == prod(s2),
    decreases s1.len(),
{
    broadcast use vstd::seq_lib::group_to_multiset_ensures;

    if s1.len() == 0 {
        assert(s1.to_multiset().len() == s1.len());
        assert(s2.to_multiset().len() == s2.len());
        assert(s2.len() == 0);
    } else {
        let y = s1.last();
        assert(s1[s1.len() - 1] == y);
        assert(s1.contains(y));
        assert(s2.to_multiset().count(y) > 0);
        assert(s2.contains(y));
        let j = choose|j: int| 0 <= j < s2.len() && s2[j] == y;
        assert(s1.remove(s1.len() - 1) =~= s1.drop_last());
        assert(s1.drop_last().to_multiset() == s1.to_multiset().remove(y));
        assert(s2.remove(j).to_multiset() == s2.to_multiset().remove(y));
        lemma_prod_order_independent(s1.drop_last(), s2.remove(j));
        lemma_prod_remove(s2, j);
    }
}

} // verus!
