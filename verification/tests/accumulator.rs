use ec_accumulator::scalar::scalar_eq;
use ec_accumulator::Bn254Accumulator;
use ec_accumulator::Scalar;

#[test]
fn test_membership_proof() {
    let mut acc = Bn254Accumulator::new();

    let members: Vec<&[u8]> = vec![b"alice", b"bob", b"charlie"];
    let scalars: Vec<Scalar> = members.iter().map(|m| acc.add_member(*m)).collect();

    for (i, x) in scalars.iter().enumerate() {
        let witness = acc.membership_witness(*x).unwrap();
        let valid = acc.verify_membership(*x, witness);
        assert!(valid, "Proof failed for member index {}", i);
    }
}

#[test]
fn test_non_member_should_fail() {
    let mut acc = Bn254Accumulator::new();

    let _ = acc.add_member(b"alice");
    let _ = acc.add_member(b"bob");

    let fake = Bn254Accumulator::hash_to_scalar(b"mallory");
    let fake_witness = acc.membership_witness(fake);

    assert!(fake_witness.is_none(), "Non-member should not have a witness");
}

#[test]
fn test_concrete_scenario() {
    let mut acc = Bn254Accumulator::new();

    let x_alice = acc.add_member(b"alice");
    let x_bob = acc.add_member(b"bob");
    let x_charlie = acc.add_member(b"charlie");

    for x in [x_alice, x_bob, x_charlie] {
        let witness = acc.membership_witness(x).expect("member must have a witness");
        assert!(acc.verify_membership(x, witness));
    }

    let x_mallory = Bn254Accumulator::hash_to_scalar(b"mallory");
    assert!(acc.membership_witness(x_mallory).is_none());
}

#[test]
fn test_hash_deterministic() {
    let a = Bn254Accumulator::hash_to_scalar(b"alice");
    let b = Bn254Accumulator::hash_to_scalar(b"alice");
    assert!(scalar_eq(&a, &b));

    // A fresh accumulator changes nothing: hashing has no hidden state.
    let mut other = Bn254Accumulator::new();
    let c = other.add_member(b"alice");
    assert!(scalar_eq(&a, &c));

    let d = Bn254Accumulator::hash_to_scalar(b"alicf");
    assert!(!scalar_eq(&a, &d));
}

#[test]
fn test_hash_is_not_the_raw_input() {
    // A 32-byte input equal to the zero-padded short input must hash
    // differently: the digest is not the padded input itself.
    let short = Bn254Accumulator::hash_to_scalar(b"alice");
    let mut padded = [0u8; 32];
    padded[..5].copy_from_slice(b"alice");
    let long = Bn254Accumulator::hash_to_scalar(&padded);
    assert!(!scalar_eq(&short, &long));
}

#[test]
fn test_empty_input_is_a_member_like_any_other() {
    let mut acc = Bn254Accumulator::new();
    let x = acc.add_member(b"");
    let witness = acc.membership_witness(x).unwrap();
    assert!(acc.verify_membership(x, witness));
}

#[test]
fn test_single_member_witness_verifies() {
    let mut acc = Bn254Accumulator::new();
    let x = acc.add_member(b"alice");
    let witness = acc.membership_witness(x).unwrap();
    assert!(acc.verify_membership(x, witness));
}

#[test]
fn test_stale_witness_rejected() {
    let mut acc = Bn254Accumulator::new();
    let x = acc.add_member(b"alice");
    let stale = acc.membership_witness(x).unwrap();
    assert!(acc.verify_membership(x, stale));

    let _ = acc.add_member(b"bob");
    assert!(!acc.verify_membership(x, stale), "stale witness must fail");
}

#[test]
fn test_mismatched_witness_rejected() {
    let mut acc = Bn254Accumulator::new();
    let x_alice = acc.add_member(b"alice");
    let x_bob = acc.add_member(b"bob");

    let w_alice = acc.membership_witness(x_alice).unwrap();
    assert!(!acc.verify_membership(x_bob, w_alice));
}

#[test]
fn test_order_independence_of_final_state() {
    let mut acc1 = Bn254Accumulator::new();
    acc1.add_member(b"alice");
    acc1.add_member(b"bob");
    acc1.add_member(b"charlie");

    let mut acc2 = Bn254Accumulator::new();
    acc2.add_member(b"charlie");
    acc2.add_member(b"alice");
    acc2.add_member(b"bob");

    assert_eq!(acc1.acc_bytes(), acc2.acc_bytes());

    let mut acc3 = Bn254Accumulator::new();
    acc3.add_member(b"alice");
    acc3.add_member(b"bob");
    assert_ne!(acc1.acc_bytes(), acc3.acc_bytes());
}

#[test]
fn test_duplicate_member_witness_verifies() {
    let mut acc = Bn254Accumulator::new();
    let x1 = acc.add_member(b"alice");
    let x2 = acc.add_member(b"alice");
    assert!(scalar_eq(&x1, &x2));

    let witness = acc.membership_witness(x1).unwrap();
    assert!(acc.verify_membership(x1, witness));
}

#[test]
fn test_accumulated_value_moves_with_each_addition() {
    let mut acc = Bn254Accumulator::new();
    let before = acc.acc_bytes();
    acc.add_member(b"alice");
    let after_one = acc.acc_bytes();
    acc.add_member(b"alice");
    let after_two = acc.acc_bytes();
    assert_ne!(before, after_one);
    assert_ne!(after_one, after_two);
}
