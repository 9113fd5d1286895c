use private_currency::crypto::{Commitment, SimpleRangeProof};

#[test]
fn zero_blinding_commitment_is_deterministic() {
    let c = Commitment::with_no_blinding(42);
    assert_eq!(c, Commitment { value: 42, blinding: 0 });
    assert_eq!(Commitment::with_no_blinding(42), c);
}

#[test]
fn commitment_algebra_is_componentwise_and_wraps() {
    let a = Commitment { value: 30, blinding: 7 };
    let b = Commitment { value: 12, blinding: 2 };
    assert_eq!(a.sub(&b), Commitment { value: 18, blinding: 5 });
    assert_eq!(a.add(&b), Commitment { value: 42, blinding: 9 });
    // subtraction is total: it wraps modulo 2^64 like the group it models
    assert_eq!(b.sub(&a), Commitment { value: u64::MAX - 17, blinding: u64::MAX - 4 });
    assert_eq!(b.sub(&a).add(&a), b);
    // commitments hide amounts only up to blinding: same value, different
    // blinding, different commitment
    assert_ne!(Commitment { value: 5, blinding: 1 }, Commitment { value: 5, blinding: 2 });
}

#[test]
fn range_proof_binds_to_its_commitment() {
    let c = Commitment { value: 10, blinding: 4 };
    let proof = SimpleRangeProof { target: c };
    assert!(proof.verify(&c));
    // a proof for one commitment says nothing about another
    assert!(!proof.verify(&Commitment { value: 10, blinding: 5 }));
    assert!(!proof.verify(&Commitment { value: 11, blinding: 4 }));
}

#[test]
fn range_proof_rejects_wrapped_negative_values() {
    // 3 - 5 wraps to a residue at the top of the group: a "negative" hidden
    // amount, which no range proof accepts
    let c = Commitment { value: 3, blinding: 0 }.sub(&Commitment { value: 5, blinding: 0 });
    assert_eq!(c.value, u64::MAX - 1);
    let proof = SimpleRangeProof { target: c };
    assert!(!proof.verify(&c));
    // the largest in-range residue is accepted, the smallest out-of-range
    // one is not
    let top = Commitment { value: (1u64 << 63) - 1, blinding: 0 };
    assert!(SimpleRangeProof { target: top }.verify(&top));
    let over = Commitment { value: 1u64 << 63, blinding: 0 };
    assert!(!SimpleRangeProof { target: over }.verify(&over));
}
