//! The accumulator: a single G1 element committing to the multiset of all
//! added members, with per-member witnesses and a pairing-based membership
//! check.

use vstd::prelude::*;
use crate::group::{g1_gen_pow, g1_generator, g1_mul, g2_gen_pow, g2_generator, pairing_eq, G1Elem, G2Elem};
use crate::products::{lemma_prod_order_independent, lemma_prod_push, lemma_wprod_push, prod, wprod};
use crate::scalar::{fr_mul, fr_one, fr_order, fr_reduce, hash_to_scalar_spec, keccak256, scalar_eq, Scalar};
use vstd::arithmetic::div_mod::{lemma_mod_twice, lemma_mul_mod_noop_left, lemma_small_mod};

verus! {

/// A cryptographic accumulator over the BN254 curve.
///
/// The accumulated value is always the G1 generator raised to the product of
/// all member scalars added so far; the member scalars themselves are
/// recorded in order of addition, duplicates included.
pub struct Bn254Accumulator {
    g1: G1Elem,
    g2: G2Elem,
    acc: G1Elem,
    members: Vec<Scalar>,
}

impl Bn254Accumulator {
    /// The values of the recorded member scalars, in order of addition.
    pub closed spec fn members_view(&self) -> Seq<nat> {
        self.members@.map_values(|s: Scalar| s.val())
    }

    /// The canonical encoding of the current accumulated value.
    pub closed spec fn acc_view(&self) -> Seq<u8> {
        self.acc@
    }

    #[verifier::type_invariant]
    spec fn wf(self) -> bool {
        &&& self.g1@ == g1_gen_pow(1)
        &&& self.g2@ == g2_gen_pow(1)
        &&& self.acc@ == g1_gen_pow(prod(self.members_view()) % fr_order())
    }

    /// A fresh accumulator: the generators are fixed, no member is recorded,
    /// and the accumulated value is the G1 generator itself (the empty
    /// product).
    pub fn new() -> (r: Self)
        ensures
            r.members_view() == Seq::<nat>::empty(),
            r.acc_view() == g1_gen_pow(1),
    {
        let g1 = g1_generator();
        let g2 = g2_generator();
        let members: Vec<Scalar> = Vec::new();
        proof {
            assert(members@.map_values(|s: Scalar| s.val()) =~= Seq::<nat>::empty());
            lemma_small_mod(1, fr_order());
        }
        let r = Bn254Accumulator { g1, g2, acc: g1, members };
        proof {
            assert(r.members_view() =~= Seq::<nat>::empty());
        }
        r
    }

    /// Maps an arbitrary byte string deterministically to a scalar: the
    /// Keccak-256 digest of the input, reduced modulo the scalar field
    /// order. Any input, the empty string included, yields a valid scalar.
    pub fn hash_to_scalar(input: &[u8]) -> (r: Scalar)
        ensures
            r.val() == hash_to_scalar_spec(input@),
    {
        let digest = keccak256(input);
        fr_reduce(&digest)
    }

    /// Adds a member: hashes the bytes to a scalar `x`, raises the
    /// accumulated value to `x`, appends `x` to the member record, and
    /// returns `x` so the caller can later request a witness for it.
    pub fn add_member(&mut self, member: &[u8]) -> (x: Scalar)
        ensures
            x.val() == hash_to_scalar_spec(member@),
            final(self).members_view() == old(self).members_view().push(x.val()),
            final(self).acc_view() == g1_gen_pow(
                prod(final(self).members_view()) % fr_order(),
            ),
    {
        proof {
            use_type_invariant(&*self);
        }
        let ghost old_view = self.members_view();
        let x = Self::hash_to_scalar(member);
        let new_acc = g1_mul(&self.acc, &x);
        proof {
            lemma_prod_push(old_view, x.val());
            lemma_mul_mod_noop_left(prod(old_view) as int, x.val() as int, fr_order() as int);
            assert(new_acc@ == g1_gen_pow(prod(old_view.push(x.val())) % fr_order()));
        }
        // The accumulated value and the member record must move together:
        // the type invariant ties them, so exchange whole well-formed values
        // instead of updating one field at a time.
        let mut tmp = Self::new();
        core::mem::swap(self, &mut tmp);
        let Bn254Accumulator { g1, g2, acc: _, members } = tmp;
        let mut members = members;
        members.push(x);
        proof {
            assert(members@.map_values(|s: Scalar| s.val()) =~= old_view.push(x.val()));
        }
        let next = Bn254Accumulator { g1, g2, acc: new_acc, members };
        *self = next;
        x
    }

    /// Computes the inclusion witness for a scalar `x`: the G1 generator
    /// raised to the product of every recorded member except the first
    /// occurrence of `x`. Returns the absence signal exactly when `x` was
    /// never recorded.
    pub fn membership_witness(&self, x: Scalar) -> (r: Option<G1Elem>)
        ensures
            r is Some <==> self.members_view().contains(x.val()),
            r matches Some(w) ==> w@ == g1_gen_pow(
                wprod(self.members_view(), x.val()) % fr_order(),
            ),
    {
        proof {
            use_type_invariant(&*self);
        }
        let ghost vals = self.members_view();
        let mut product = fr_one();
        let mut found = false;
        let mut i: usize = 0;
        proof {
            assert(vals.take(0) =~= Seq::<nat>::empty());
            lemma_small_mod(1, fr_order());
        }
        while i < self.members.len()
            invariant
                i <= self.members.len(),
                vals == self.members_view(),
                vals.len() == self.members@.len(),
                !found ==> !vals.take(i as int).contains(x.val()),
                !found ==> product.val() == prod(vals.take(i as int)) % fr_order(),
                found ==> vals.take(i as int).contains(x.val()),
                found ==> product.val() == wprod(vals.take(i as int), x.val()) % fr_order(),
            decreases self.members.len() - i,
        {
            let xi = self.members[i];
            proof {
                assert(vals[i as int] == xi.val());
                assert(vals.take(i as int + 1) =~= vals.take(i as int).push(vals[i as int]));
                lemma_wprod_push(vals.take(i as int), x.val(), vals[i as int]);
                lemma_prod_push(vals.take(i as int), vals[i as int]);
            }
            if !found && scalar_eq(&xi, &x) {
                found = true;
                proof {
                    assert(vals.take(i as int + 1)[i as int] == x.val());
                }
            } else {
                let next = fr_mul(&product, &xi);
                proof {
                    if found {
                        lemma_mul_mod_noop_left(
                            wprod(vals.take(i as int), x.val()) as int,
                            xi.val() as int,
                            fr_order() as int,
                        );
                    } else {
                        lemma_mul_mod_noop_left(
                            prod(vals.take(i as int)) as int,
                            xi.val() as int,
                            fr_order() as int,
                        );
                        assert(!vals.take(i as int + 1).contains(x.val())) by {
                            if vals.take(i as int + 1).contains(x.val()) {
                                let k = choose|k: int|
                                    0 <= k < i as int + 1 && #[trigger] vals.take(
                                        i as int + 1,
                                    )[k] == x.val();
                                if k < i as int {
                                    assert(vals.take(i as int)[k] == x.val());
                                    assert(vals.take(i as int).contains(x.val()));
                                }
                            }
                        }
                    }
                }
                product = next;
            }
            i += 1;
        }
        proof {
            assert(vals.take(i as int) =~= vals);
        }
        if found {
            let w = g1_mul(&self.g1, &product);
            proof {
                use_type_invariant(&product);
                lemma_small_mod(product.val(), fr_order());
                lemma_mod_twice(wprod(vals, x.val()) as int, fr_order() as int);
                assert(w@ == g1_gen_pow(wprod(vals, x.val()) % fr_order()));
            }
            Some(w)
        } else {
            None
        }
    }

    /// Checks a claimed witness for `x` against the current accumulated
    /// value: pairs the witness raised to `x` with the G2 generator, pairs
    /// the accumulated value with the G2 generator, and accepts exactly when
    /// the two pairing outputs agree — that is, exactly when the witness
    /// exponent times `x` equals the full member product modulo the field
    /// order. No state is read or written beyond the check itself.
    pub fn verify_membership(&self, x: Scalar, witness: G1Elem) -> (r: bool)
        ensures
            forall|ew: nat|
                witness@ == #[trigger] g1_gen_pow(ew) ==> r == ((ew * x.val()) % fr_order()
                    == prod(self.members_view()) % fr_order()),
    {
        proof {
            use_type_invariant(&*self);
            use_type_invariant(&witness);
        }
        let wx = g1_mul(&witness, &x);
        let r = pairing_eq(&wx, &self.acc, &self.g2);
        proof {
            let ea = prod(self.members_view()) % fr_order();
            lemma_mod_twice(prod(self.members_view()) as int, fr_order() as int);
            assert forall|ew: nat| witness@ == #[trigger] g1_gen_pow(ew) implies r == ((ew
                * x.val()) % fr_order() == ea) by {
                assert(wx@ == g1_gen_pow((ew * x.val()) % fr_order()));
                lemma_mod_twice((ew * x.val()) as int, fr_order() as int);
            }
        }
        r
    }

    /// The canonical compressed encoding of the current accumulated value.
    pub fn acc_bytes(&self) -> (r: Vec<u8>)
        ensures
            r@ == self.acc_view(),
    {
        self.acc.to_bytes()
    }
}

/// Order-independence of the final state: member sequences that hold the
/// same multiset of values lead to the same accumulated-value encoding, so
/// adding the same members in any order ends in the same accumulator.
pub proof fn lemma_acc_order_independent(s1: Seq<nat>, s2: Seq<nat>)
    requires
        s1.to_multiset() == s2.to_multiset(),
    ensures
        g1_gen_pow(prod(s1) % fr_order()) == g1_gen_pow(prod(s2) % fr_order()),
{
    lemma_prod_order_independent(s1, s2);
}

} // verus!
