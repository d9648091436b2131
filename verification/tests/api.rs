use safemask_core::api::{
    generate_zk_proof, verify_transaction, verify_zk_proof, ProofInput, Transaction,
};
use safemask_core::{AUTHORS, VERSION};

#[test]
fn test_version() {
    assert!(!VERSION.is_empty());
    assert!(!AUTHORS.is_empty());
}

fn sample_transaction(signature: Vec<u8>, amount: u64) -> Transaction {
    Transaction {
        from: "addr-from".to_string(),
        to: "addr-to".to_string(),
        amount,
        fee: 1000,
        nonce: 0,
        signature,
        privacy: None,
    }
}

#[test]
fn test_verify_transaction() {
    assert!(verify_transaction(sample_transaction(vec![1, 2, 3], 5)));
    assert!(!verify_transaction(sample_transaction(vec![], 5)));
    assert!(!verify_transaction(sample_transaction(vec![1, 2, 3], 0)));
}

#[test]
fn test_zk_proof_round_trip() {
    let input = ProofInput {
        public_inputs: vec![9, 8, 7],
        private_inputs: vec![1, 2, 3],
        circuit_type: "transfer".to_string(),
    };
    let proof = generate_zk_proof(input).unwrap();
    assert_eq!(proof.proof.len(), 256);
    assert!(proof.proof.iter().all(|&b| b == 0));
    assert_eq!(proof.public_inputs, vec![9, 8, 7]);
    assert_eq!(proof.proof_type, "transfer");
    assert!(verify_zk_proof(proof.clone(), vec![9, 8, 7]));
    assert!(!verify_zk_proof(proof, vec![9, 8, 6]));
}

#[test]
fn test_zk_proof_wrong_size_rejected() {
    let input = ProofInput {
        public_inputs: vec![],
        private_inputs: vec![],
        circuit_type: "transfer".to_string(),
    };
    let mut proof = generate_zk_proof(input).unwrap();
    proof.proof.truncate(100);
    assert!(!verify_zk_proof(proof, vec![]));
}
