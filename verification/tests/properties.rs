use safemask_core::commitments::{
    add_commitment_bytes, commit_value, subtract_commitment_bytes, verify_opening_bytes,
    Commitment, PedersenCommitment, RangeProof,
};
use safemask_core::group::{blake2b, mul_base, random_scalar, Scalar};
use safemask_core::CoreError;

const GROUP_ORDER_BYTES: [u8; 32] = [
    0xed, 0xd3, 0xf5, 0x5c, 0x1a, 0x63, 0x12, 0x58, 0xd6, 0x9c, 0xf7, 0xa2, 0xde, 0xf9, 0xde,
    0x14, 0x00, 0x00, 0x00, 0x00, 0x00, 0x00, 0x00, 0x00, 0x00, 0x00, 0x00, 0x00, 0x00, 0x00,
    0x00, 0x10,
];

const GROUP_ORDER_MINUS_ONE_BYTES: [u8; 32] = [
    0xec, 0xd3, 0xf5, 0x5c, 0x1a, 0x63, 0x12, 0x58, 0xd6, 0x9c, 0xf7, 0xa2, 0xde, 0xf9, 0xde,
    0x14, 0x00, 0x00, 0x00, 0x00, 0x00, 0x00, 0x00, 0x00, 0x00, 0x00, 0x00, 0x00, 0x00, 0x00,
    0x00, 0x10,
];

#[test]
fn test_range_proof_boundaries() {
    // prove(2^n - 1, b, n) succeeds and prove(2^n, b, n) is rejected as out
    // of range, for widths below 64.
    let blinding = random_scalar();
    for n in [8usize, 16, 32, 63] {
        let max_in_range = (1u64 << n) - 1;
        let first_out_of_range = 1u64 << n;
        assert!(RangeProof::prove(max_in_range, &blinding, n).is_ok());
        let err = RangeProof::prove(first_out_of_range, &blinding, n).unwrap_err();
        assert!(matches!(err, CoreError::InvalidParameter(_)));
    }
    // Every value fits a 64-bit range.
    assert!(RangeProof::prove(u64::MAX, &blinding, 64).is_ok());
}

#[test]
fn test_range_proof_shape() {
    let blinding = random_scalar();
    let proof = RangeProof::prove(7, &blinding, 8).unwrap();
    assert_eq!(proof.bit_length, 8);
    assert_eq!(proof.proof_bytes.len(), 672);
    assert!(proof.proof_bytes.iter().all(|&b| b == 0));
}

#[test]
fn test_range_proof_wire_round_trip() {
    let blinding = random_scalar();
    let proof = RangeProof::prove(1000, &blinding, 32).unwrap();
    let wire = proof.to_wire_bytes();
    assert_eq!(wire.len(), 8 + 672);
    assert_eq!(&wire[0..4], &[32, 0, 0, 0]); // bit length, little endian
    assert_eq!(&wire[4..8], &[160, 2, 0, 0]); // body length 672, little endian
    let back = RangeProof::from_wire_bytes(&wire).unwrap();
    assert_eq!(back.bit_length, 32);
    assert_eq!(back.proof_bytes, proof.proof_bytes);
}

#[test]
fn test_range_proof_wire_rejects_malformed() {
    let err = RangeProof::from_wire_bytes(&[1, 2, 3]).unwrap_err();
    assert!(matches!(err, CoreError::Serialization(_)));
    let blinding = random_scalar();
    let proof = RangeProof::prove(5, &blinding, 16).unwrap();
    let mut wire = proof.to_wire_bytes();
    wire.pop(); // the truncated body no longer matches the length prefix
    let err = RangeProof::from_wire_bytes(&wire).unwrap_err();
    assert!(matches!(err, CoreError::Serialization(_)));
}

#[test]
fn test_verify_batch_length_mismatch_fails_closed() {
    let blinding = random_scalar();
    let pedersen = PedersenCommitment::new();
    let proof = RangeProof::prove(5, &blinding, 64).unwrap();
    let commitment = pedersen.commit(5, &blinding);
    let proofs = vec![proof.clone(), proof.clone()];
    let commitments = vec![commitment.clone()];
    assert!(!RangeProof::verify_batch(&proofs, &commitments));
    assert!(RangeProof::verify_batch(&proofs[..1], &commitments));
    assert!(RangeProof::verify_batch(&[], &[]));
}

#[test]
fn test_from_bytes_rejects_invalid_encoding() {
    // The all-0xff string encodes a field value above the modulus: not a
    // canonical encoding, so decoding must fail.
    let err = Commitment::from_bytes(&[0xffu8; 32]).unwrap_err();
    assert!(matches!(err, CoreError::Commitment(_)));
}

#[test]
fn test_from_bytes_accepts_identity_encoding() {
    // The all-zero string is the canonical encoding of the identity
    // element, so it decodes, and decodes with no secret fields.
    let c = Commitment::from_bytes(&[0u8; 32]).unwrap();
    assert!(c.value.is_none());
    assert!(c.blinding.is_none());
    assert_eq!(c.to_bytes(), [0u8; 32]);
}

#[test]
fn test_opening_soundness_random_trials() {
    // verify_opening accepts exactly the committed pair; random wrong
    // values or blindings are rejected across many trials.
    let pedersen = PedersenCommitment::new();
    let value = 424242u64;
    let blinding = random_scalar();
    let commitment = pedersen.commit(value, &blinding);
    assert!(pedersen.verify_opening(&commitment, value, &blinding));
    for i in 1..=50u64 {
        assert!(!pedersen.verify_opening(&commitment, value.wrapping_add(i), &blinding));
        assert!(!pedersen.verify_opening(&commitment, value, &random_scalar()));
    }
}

#[test]
fn test_verify_opening_bytes_matches_in_memory() {
    let (commitment, blinding) = commit_value(777);
    let bytes = commitment.to_bytes();
    assert!(verify_opening_bytes(&bytes, 777, &blinding).unwrap());
    assert!(!verify_opening_bytes(&bytes, 778, &blinding).unwrap());
    let err = verify_opening_bytes(&[0xffu8; 32], 777, &blinding).unwrap_err();
    assert!(matches!(err, CoreError::Commitment(_)));
}

#[test]
fn test_add_commitment_bytes_homomorphic() {
    let (c1, b1) = commit_value(41);
    let (c2, b2) = commit_value(1);
    let sum = add_commitment_bytes(&c1.to_bytes(), &c2.to_bytes()).unwrap();
    assert!(sum.value.is_none());
    assert!(sum.blinding.is_none());
    assert!(verify_opening_bytes(&sum.to_bytes(), 42, &b1.add(&b2)).unwrap());
    assert!(add_commitment_bytes(&[0xffu8; 32], &c2.to_bytes()).is_err());
}

#[test]
fn test_subtract_commitment_bytes_homomorphic() {
    let (c1, b1) = commit_value(99);
    let (c2, b2) = commit_value(33);
    let diff = subtract_commitment_bytes(&c1.to_bytes(), &c2.to_bytes()).unwrap();
    assert!(verify_opening_bytes(&diff.to_bytes(), 66, &b1.sub(&b2)).unwrap());
    assert!(subtract_commitment_bytes(&c1.to_bytes(), &[0xffu8; 32]).is_err());
}

#[test]
fn test_subtraction_underflow_leaves_value_unknown() {
    // Underflow on the secret-value side yields an absent value while the
    // point difference is still well defined.
    let pedersen = PedersenCommitment::new();
    let (c1, b1) = pedersen.commit_with_random_blinding(200);
    let (c2, b2) = pedersen.commit_with_random_blinding(500);
    let diff = PedersenCommitment::subtract_commitments(&c1, &c2);
    assert!(diff.value.is_none());
    assert!(diff.blinding.is_some());
    // The point still opens to the modular difference of the blindings at
    // value l - 300 embedded, but never to any u64 claim of 300.
    assert!(!pedersen.verify_opening(&diff, 300, &b1.sub(&b2)));
}

#[test]
fn test_addition_overflow_leaves_value_unknown() {
    let pedersen = PedersenCommitment::new();
    let (c1, _) = pedersen.commit_with_random_blinding(u64::MAX);
    let (c2, _) = pedersen.commit_with_random_blinding(1);
    let sum = PedersenCommitment::add_commitments(&c1, &c2);
    assert!(sum.value.is_none());
    assert!(sum.blinding.is_some());
}

#[test]
fn test_commitments_missing_secrets_combine_to_unknown() {
    let (c1, _) = commit_value(10);
    let public_only = Commitment::from_bytes(&c1.to_bytes()).unwrap();
    let (c2, _) = commit_value(20);
    let sum = PedersenCommitment::add_commitments(&public_only, &c2);
    assert!(sum.value.is_none());
    assert!(sum.blinding.is_none());
}

#[test]
fn test_scalar_arithmetic_exact() {
    let two = Scalar::from_u64(2);
    let three = Scalar::from_u64(3);
    assert_eq!(two.add(&three), Scalar::from_u64(5));
    assert_eq!(three.sub(&two), Scalar::from_u64(1));
    // Subtraction wraps modulo the group order: 0 - 1 == l - 1.
    let zero = Scalar::from_u64(0);
    let one = Scalar::from_u64(1);
    assert_eq!(zero.sub(&one).to_bytes(), GROUP_ORDER_MINUS_ONE_BYTES);
    // Reduction: the group order itself reduces to zero.
    assert_eq!(Scalar::from_bytes_mod_order(GROUP_ORDER_BYTES), zero);
}

#[test]
fn test_blake2b_known_vector() {
    // Blake2b-512 of the empty message.
    let digest = blake2b(&[]);
    let expected_prefix = [
        0x78u8, 0x6a, 0x02, 0xf7, 0x42, 0x01, 0x59, 0x03, 0xc6, 0xc6, 0xfd, 0x85, 0x25, 0x52,
        0xd2, 0x72,
    ];
    assert_eq!(&digest[..16], &expected_prefix);
    assert_eq!(
        &digest[48..],
        &[
            0x90u8, 0x3a, 0x68, 0x5b, 0x14, 0x48, 0xb7, 0x55, 0xd5, 0x6f, 0x70, 0x1a, 0xfe,
            0x9b, 0xe2, 0xce
        ]
    );
}

#[test]
fn test_generators_fixed_and_distinct() {
    // Every scheme instance derives the identical generator pair, and the
    // blinding generator differs from the base point.
    let a = PedersenCommitment::new();
    let b = PedersenCommitment::new();
    assert_eq!(a.g, b.g);
    assert_eq!(a.h, b.h);
    assert_ne!(a.g, a.h);
    // Commitments from different instances are mutually verifiable.
    let blinding = random_scalar();
    let c = a.commit(9, &blinding);
    assert!(b.verify_opening(&c, 9, &blinding));
}

#[test]
fn test_mul_base_of_one_is_basepoint() {
    let one = Scalar::from_u64(1);
    let g = safemask_core::group::basepoint();
    assert_eq!(mul_base(&one), g);
    // The canonical encoding of the conventional Ristretto255 base point.
    let expected = [
        0xe2u8, 0xf2, 0xae, 0x0a, 0x6a, 0xbc, 0x4e, 0x71, 0xa8, 0x84, 0xa9, 0x61, 0xc5, 0x00,
        0x51, 0x5f, 0x58, 0xe3, 0x0b, 0x6a, 0xa5, 0x82, 0xdd, 0x8d, 0xb6, 0xa6, 0x59, 0x45,
        0xe0, 0x8d, 0x2d, 0x76,
    ];
    assert_eq!(g.as_bytes(), expected);
}

#[test]
fn test_hash_to_scalar_known_vector() {
    // Blake2b-512 of the empty message, read little-endian and reduced
    // modulo the group order.
    let s = safemask_core::group::hash_to_scalar(&[]);
    let expected = [
        0x4du8, 0x31, 0xff, 0x25, 0x2e, 0xc7, 0x27, 0xff, 0xb1, 0x94, 0xa0, 0x55, 0x74, 0x82,
        0xc6, 0x59, 0xe4, 0x37, 0x6e, 0x76, 0xe8, 0x14, 0x81, 0x34, 0x67, 0x84, 0x60, 0xcb,
        0x24, 0x22, 0x3e, 0x06,
    ];
    assert_eq!(s.to_bytes(), expected);
}

#[test]
fn test_random_scalars_independent() {
    let a = random_scalar();
    let b = random_scalar();
    assert_ne!(a, b);
}
