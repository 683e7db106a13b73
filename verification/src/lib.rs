//! A pairing-based cryptographic accumulator over the BN254 curve.
//!
//! The accumulator commits to a multiset of members with a single group
//! element: the canonical G1 generator raised to the product of all member
//! scalars. Arbitrary byte strings are mapped to scalars by hashing, a
//! witness for one member is the generator raised to the product of all the
//! other members, and membership is checked with a bilinear pairing.

pub mod encoding;
pub mod scalar;
pub mod group;
pub mod products;
pub mod accumulator;

pub use accumulator::Bn254Accumulator;
pub use group::G1Elem;
pub use group::G2Elem;
pub use scalar::Scalar;
