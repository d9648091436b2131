use safemask_core::commitments::{BalanceCommitment, Commitment, PedersenCommitment, RangeProof};
use safemask_core::group::random_scalar;

#[test]
fn test_pedersen_commit_and_verify() {
    let pedersen = PedersenCommitment::new();
    let value = 1000u64;
    let blinding = random_scalar();

    let commitment = pedersen.commit(value, &blinding);

    // Verify correct opening
    assert!(pedersen.verify_opening(&commitment, value, &blinding));

    // Verify incorrect opening fails
    assert!(!pedersen.verify_opening(&commitment, value + 1, &blinding));
    assert!(!pedersen.verify_opening(&commitment, value, &random_scalar()));
}

#[test]
fn test_homomorphic_addition() {
    let pedersen = PedersenCommitment::new();

    let (c1, b1) = pedersen.commit_with_random_blinding(100);
    let (c2, b2) = pedersen.commit_with_random_blinding(200);

    let c_sum = PedersenCommitment::add_commitments(&c1, &c2);

    // Verify the sum commitment
    assert!(pedersen.verify_opening(&c_sum, 300, &b1.add(&b2)));
}

#[test]
fn test_homomorphic_subtraction() {
    let pedersen = PedersenCommitment::new();

    let (c1, b1) = pedersen.commit_with_random_blinding(500);
    let (c2, b2) = pedersen.commit_with_random_blinding(200);

    let c_diff = PedersenCommitment::subtract_commitments(&c1, &c2);

    // Verify the difference commitment
    assert!(pedersen.verify_opening(&c_diff, 300, &b1.sub(&b2)));
}

#[test]
fn test_commitment_serialization() {
    let pedersen = PedersenCommitment::new();
    let (commitment, _) = pedersen.commit_with_random_blinding(12345);

    // Serialize to bytes
    let bytes = commitment.to_bytes();

    // Deserialize from bytes
    let deserialized = Commitment::from_bytes(&bytes).unwrap();

    assert_eq!(commitment.point, deserialized.point);
}

#[test]
fn test_range_proof_in_range() {
    let value = 1000u64;
    let blinding = random_scalar();

    let proof = RangeProof::prove(value, &blinding, 64).unwrap();

    let pedersen = PedersenCommitment::new();
    let commitment = pedersen.commit(value, &blinding);

    assert!(proof.verify(&commitment));
}

#[test]
fn test_balance_commitment() {
    let balance = 50000u64;
    let blinding = random_scalar();

    let balance_commitment = BalanceCommitment::new(balance, &blinding).unwrap();

    assert!(balance_commitment.verify());
}

#[test]
fn test_transaction_balance_equation() {
    let pedersen = PedersenCommitment::new();

    // Input commitments
    let (input1, b1) = pedersen.commit_with_random_blinding(5000);
    let (input2, b2) = pedersen.commit_with_random_blinding(3000);

    // Calculate total input blinding factor
    let total_blinding_in = b1.add(&b2);

    // For outputs, we need to use blinding factors that sum to total_blinding_in
    let b3 = random_scalar();
    let b4 = total_blinding_in.sub(&b3); // This ensures b3 + b4 = b1 + b2

    let output1 = pedersen.commit(7000, &b3);
    let output2 = pedersen.commit(1000, &b4);

    // Sum of inputs
    let sum_inputs = PedersenCommitment::add_commitments(&input1, &input2);

    // Sum of outputs
    let sum_outputs = PedersenCommitment::add_commitments(&output1, &output2);

    // Verify balance equation: sum(inputs) = sum(outputs)
    // This should pass because both value and blinding factor sums match
    assert_eq!(sum_inputs.point, sum_outputs.point);
}
