//! Elements of the BN254 groups G1 and G2, held in `ark_serialize`'s
//! canonical compressed form, together with the trusted bridge to `ark_ec`'s
//! group arithmetic and pairing.
//!
//! Every G1 element this library handles is a multiple of the canonical G1
//! generator; `g1_gen_pow(e)` names the compressed encoding of `e` times that
//! generator, and `g2_gen_pow(e)` the same for G2.

use vstd::prelude::*;
use crate::scalar::Scalar;
use crate::scalar::fr_order;
use ark_ec::PrimeGroup;
use ark_ec::pairing::Pairing;
use ark_ff::PrimeField;
use ark_serialize::CanonicalDeserialize;
use ark_serialize::CanonicalSerialize;

verus! {

/// The canonical compressed encoding of `e` times the canonical G1 generator.
pub uninterp spec fn g1_gen_pow(e: nat) -> Seq<u8>;

/// The canonical compressed encoding of `e` times the canonical G2 generator.
pub uninterp spec fn g2_gen_pow(e: nat) -> Seq<u8>;

/// An element of G1, always a known multiple of the canonical generator.
#[derive(Clone, Copy)]
pub struct G1Elem {
    pub(crate) bytes: [u8; 32],
}

impl View for G1Elem {
    type V = Seq<u8>;

    closed spec fn view(&self) -> Seq<u8> {
        self.bytes@
    }
}

impl G1Elem {
    #[verifier::type_invariant]
    pub(crate) closed spec fn on_generator_line(self) -> bool {
        exists|e: nat| self.bytes@ == g1_gen_pow(e)
    }

    /// The canonical compressed encoding of this element.
    pub fn to_bytes(&self) -> (r: Vec<u8>)
        ensures
            r@ == self@,
    {
        let mut v: Vec<u8> = Vec::new();
        let mut i: usize = 0;
        while i < 32
            invariant
                i <= 32,
                v@ =~= self.bytes@.take(i as int),
            decreases 32 - i,
        {
            v.push(self.bytes[i]);
            proof {
                assert(v@ =~= self.bytes@.take(i as int + 1));
            }
            i += 1;
        }
        proof {
            assert(v@ =~= self.bytes@);
        }
        v
    }
}

/// An element of G2; this library only ever holds the canonical generator.
#[derive(Clone, Copy)]
pub struct G2Elem {
    pub(crate) bytes: [u8; 64],
}

impl View for G2Elem {
    type V = Seq<u8>;

    closed spec fn view(&self) -> Seq<u8> {
        self.bytes@
    }
}

impl G2Elem {
    #[verifier::type_invariant]
    pub(crate) closed spec fn is_generator(self) -> bool {
        self.bytes@ == g2_gen_pow(1)
    }
}

/// Relies on `ark_ec`'s `G1Projective::generator` for BN254 and on
/// `ark_serialize`'s compressed encoding, which is canonical (the point is
/// normalized to affine form before writing).
#[verifier::external_body]
pub(crate) fn g1_generator() -> (r: G1Elem)
    ensures
        r@ == g1_gen_pow(1),
{
    let p = ark_bn254::G1Projective::generator();
    let mut v: Vec<u8> = Vec::new();
    p.serialize_compressed(&mut v).unwrap();
    G1Elem { bytes: v.try_into().unwrap() }
}

/// Relies on `ark_ec`'s `G2Projective::generator` for BN254 and on
/// `ark_serialize`'s canonical compressed encoding.
#[verifier::external_body]
pub(crate) fn g2_generator() -> (r: G2Elem)
    ensures
        r@ == g2_gen_pow(1),
{
    let p = ark_bn254::G2Projective::generator();
    let mut v: Vec<u8> = Vec::new();
    p.serialize_compressed(&mut v).unwrap();
    G2Elem { bytes: v.try_into().unwrap() }
}

/// Relies on `ark_ec`'s scalar multiplication in G1: since the group is
/// cyclic of prime order `r` with the canonical generator `G`, multiplying
/// the point `e * G` by a scalar `s` yields `((e * s) mod r) * G`; the
/// compressed encoding of the result is canonical. Deserialization cannot
/// fail because every `G1Elem` holds the encoding of a point on the
/// generator line.
#[verifier::external_body]
pub(crate) fn g1_mul(p: &G1Elem, s: &Scalar) -> (r: G1Elem)
    ensures
        forall|e: nat| p@ == #[trigger] g1_gen_pow(e) ==> r@ == g1_gen_pow(
            (e * s.val()) % fr_order(),
        ),
{
    let point = ark_bn254::G1Projective::deserialize_compressed(&p.bytes[..]).unwrap();
    let x = ark_bn254::Fr::from_le_bytes_mod_order(&s.bytes);
    let q = point * x;
    let mut v: Vec<u8> = Vec::new();
    q.serialize_compressed(&mut v).unwrap();
    G1Elem { bytes: v.try_into().unwrap() }
}

/// Relies on `ark_ec`'s optimal ate pairing for BN254: the pairing is
/// bilinear and non-degenerate on the prime-order groups G1 and G2, so for
/// points `ea * G` and `eb * G` paired against the G2 generator the two
/// outputs are equal exactly when `ea` and `eb` agree modulo the group order
/// `r`; encodings are canonical, so deserialization cannot fail on values of
/// these types.
#[verifier::external_body]
pub(crate) fn pairing_eq(a: &G1Elem, b: &G1Elem, g: &G2Elem) -> (r: bool)
    ensures
        forall|ea: nat, eb: nat|
            a@ == #[trigger] g1_gen_pow(ea) && b@ == #[trigger] g1_gen_pow(eb) && g@ == g2_gen_pow(
                1,
            ) ==> r == ((ea % fr_order()) == (eb % fr_order())),
{
    let pa = ark_bn254::G1Projective::deserialize_compressed(&a.bytes[..]).unwrap();
    let pb = ark_bn254::G1Projective::deserialize_compressed(&b.bytes[..]).unwrap();
    let pg = ark_bn254::G2Projective::deserialize_compressed(&g.bytes[..]).unwrap();
    let lhs = ark_bn254::Bn254::pairing(pa, pg);
    let rhs = ark_bn254::Bn254::pairing(pb, pg);
    lhs == rhs
}

} // verus!
