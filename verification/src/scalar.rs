//! Elements of the BN254 scalar field, held in canonical 32-byte
//! little-endian form, together with the trusted bridge to `ark_ff`'s field
//! arithmetic and `tiny_keccak`'s digest.

use vstd::prelude::*;
use crate::encoding::le_val;
use crate::encoding::lemma_le_val_injective;
use ark_ff::BigInteger;
use ark_ff::PrimeField;
use tiny_keccak::Hasher;

verus! {

/// The prime order of the BN254 scalar field.
pub open spec fn fr_order() -> nat {
    21888242871839275222246405745257275088548364400416034343698204186575808495617nat
}

/// A scalar field element in canonical little-endian byte form.
///
/// Every value of this type holds the unique 32-byte encoding of a natural
/// number below the field order, so scalar equality is byte equality.
#[derive(Clone, Copy)]
pub struct Scalar {
    pub(crate) bytes: [u8; 32],
}

impl View for Scalar {
    type V = Seq<u8>;

    closed spec fn view(&self) -> Seq<u8> {
        self.bytes@
    }
}

impl Scalar {
    /// The natural number this scalar stands for.
    pub closed spec fn val(&self) -> nat {
        le_val(self.bytes@)
    }

    #[verifier::type_invariant]
    pub(crate) closed spec fn canonical(self) -> bool {
        le_val(self.bytes@) < fr_order()
    }
}

/// The 32-byte Keccak-256 digest of a byte sequence.
pub uninterp spec fn keccak256_spec(s: Seq<u8>) -> Seq<u8>;

/// Relies on `tiny_keccak`'s Keccak-256: a fixed 32-byte digest that is a
/// function of the input bytes alone.
#[verifier::external_body]
pub(crate) fn keccak256(input: &[u8]) -> (r: [u8; 32])
    ensures
        r@ == keccak256_spec(input@),
{
    let mut keccak = tiny_keccak::Keccak::v256();
    let mut hash = [0u8; 32];
    keccak.update(input);
    keccak.finalize(&mut hash);
    hash
}

/// Relies on `ark_ff`'s `Fr::from_le_bytes_mod_order`, which reduces the
/// little-endian value of the bytes modulo the field order, and on
/// `into_bigint().to_bytes_le()`, which returns the canonical 32-byte
/// little-endian form of the reduced element.
#[verifier::external_body]
pub(crate) fn fr_reduce(bytes: &[u8; 32]) -> (r: Scalar)
    ensures
        r.val() == le_val(bytes@) % fr_order(),
{
    let f = ark_bn254::Fr::from_le_bytes_mod_order(bytes);
    let out: [u8; 32] = f.into_bigint().to_bytes_le().try_into().unwrap();
    Scalar { bytes: out }
}

/// Relies on `ark_ff`'s multiplication in `Fr`: the product of two field
/// elements is their integer product reduced modulo the field order, and the
/// canonical little-endian form of that product is returned.
#[verifier::external_body]
pub(crate) fn fr_mul(a: &Scalar, b: &Scalar) -> (r: Scalar)
    ensures
        r.val() == (a.val() * b.val()) % fr_order(),
{
    let fa = ark_bn254::Fr::from_le_bytes_mod_order(&a.bytes);
    let fb = ark_bn254::Fr::from_le_bytes_mod_order(&b.bytes);
    let out: [u8; 32] = (fa * fb).into_bigint().to_bytes_le().try_into().unwrap();
    Scalar { bytes: out }
}

/// Relies on `ark_ff`'s `Fr::ONE`, the multiplicative identity of the field,
/// whose canonical little-endian form is returned.
#[verifier::external_body]
pub(crate) fn fr_one() -> (r: Scalar)
    ensures
        r.val() == 1,
{
    let f = <ark_bn254::Fr as ark_ff::Field>::ONE;
    let out: [u8; 32] = f.into_bigint().to_bytes_le().try_into().unwrap();
    Scalar { bytes: out }
}

/// What hashing to a scalar yields for a given input: the Keccak-256 digest
/// of the input read as a little-endian number, reduced modulo the field
/// order.
pub open spec fn hash_to_scalar_spec(s: Seq<u8>) -> nat {
    le_val(keccak256_spec(s)) % fr_order()
}

/// Determinism of hashing: two scalars whose values both equal the hash of
/// the same input bytes are byte-for-byte identical, whichever accumulator
/// instance produced them.
pub proof fn lemma_hash_deterministic(a: Scalar, b: Scalar, input: Seq<u8>)
    requires
        a.val() == hash_to_scalar_spec(input),
        b.val() == hash_to_scalar_spec(input),
    ensures
        a@ == b@,
{
    lemma_le_val_injective(a.bytes@, b.bytes@);
}

/// Two scalars are equal exactly when they stand for the same number.
pub fn scalar_eq(a: &Scalar, b: &Scalar) -> (r: bool)
    ensures
        r == (a.val() == b.val()),
{
    let mut i: usize = 0;
    while i < 32
        invariant
            0 <= i <= 32,
            forall|j: int| 0 <= j < i ==> a.bytes@[j] == b.bytes@[j],
        decreases 32 - i,
    {
        if a.bytes[i] != b.bytes[i] {
            proof {
                if a.val() == b.val() {
                    lemma_le_val_injective(a.bytes@, b.bytes@);
                }
            }
            return false;
        }
        i += 1;
    }
    proof {
        assert(a.bytes@ =~= b.bytes@);
    }
    true
}

} // verus!
