//! Plain data records and checks exposed at the wallet's outer interface:
//! transaction and proof records exchanged with callers, and the validations
//! this core can perform on them without touching wallet state.

use vstd::prelude::*;

verus! {

/// Handle identifying an open wallet in a caller-side registry.
#[derive(Debug, Clone, Copy)]
pub struct WalletHandle {
    pub id: u64,
}

/// Summary of a wallet's public state.
#[derive(Debug, Clone)]
pub struct WalletInfo {
    pub address: String,
    pub balance: u64,
    pub account_count: u32,
    pub public_key: String,
}

/// Confidential extras attached to a transaction.
#[derive(Debug, Clone)]
pub struct PrivacyData {
    pub commitment: Vec<u8>,
    pub range_proof: Vec<u8>,
    pub stealth_address: Option<String>,
    pub nullifier: Option<Vec<u8>>,
}

/// A transaction record as exchanged with callers.
#[derive(Debug, Clone)]
pub struct Transaction {
    pub from: String,
    pub to: String,
    pub amount: u64,
    pub fee: u64,
    pub nonce: u64,
    pub signature: Vec<u8>,
    pub privacy: Option<PrivacyData>,
}

/// A stealth address package handed to a payer.
#[derive(Debug, Clone)]
pub struct StealthAddress {
    pub address: String,
    pub scan_key: Vec<u8>,
    pub spend_key: Vec<u8>,
}

/// Inputs to a zero-knowledge proof request.
#[derive(Debug, Clone)]
pub struct ProofInput {
    pub public_inputs: Vec<u8>,
    pub private_inputs: Vec<u8>,
    pub circuit_type: String,
}

/// A zero-knowledge proof together with its public inputs.
#[derive(Debug, Clone)]
pub struct ZkProof {
    pub proof: Vec<u8>,
    pub public_inputs: Vec<u8>,
    pub proof_type: String,
}

/// Errors surfaced at the wallet's outer interface.
#[derive(Debug, Clone, PartialEq, Eq)]
pub enum SafeMaskError {
    InvalidMnemonic,
    InvalidPassword,
    InvalidAddress,
    InsufficientFunds,
    InvalidSignature,
    ProofGenerationFailed,
    ProofVerificationFailed,
    WalletNotFound,
    KeyDerivationFailed,
}

/// Compare two byte vectors for equality of their contents.
fn bytes_eq(a: &Vec<u8>, b: &Vec<u8>) -> (r: bool)
    ensures
        r <==> a@ == b@,
{
    if a.len() != b.len() {
        return false;
    }
    let n = a.len();
    let mut i: usize = 0;
    while i < n
        invariant
            0 <= i <= n,
            n == a@.len(),
            n == b@.len(),
            forall|j: int| 0 <= j < i ==> a@[j] == b@[j],
        decreases n - i,
    {
        if a[i] != b[i] {
            return false;
        }
        i += 1;
    }
    proof {
        assert(a@ =~= b@);
    }
    true
}

/// The length of a proof body emitted by `generate_zk_proof`.
pub open spec fn zk_proof_len() -> nat {
    256
}

/// A vector of `n` zero bytes.
fn zero_vec(n: usize) -> (r: Vec<u8>)
    ensures
        r@ == Seq::new(n as nat, |i: int| 0u8),
{
    let mut v: Vec<u8> = Vec::new();
    let mut i: usize = 0;
    while i < n
        invariant
            0 <= i <= n,
            v@ == Seq::new(i as nat, |j: int| 0u8),
        decreases n - i,
    {
        v.push(0u8);
        i += 1;
        proof {
            assert(v@ =~= Seq::new(i as nat, |j: int| 0u8));
        }
    }
    v
}

/// Surface check of a transaction record: it carries a signature and moves
/// a positive amount.  Signature validity and commitment balance are
/// checked elsewhere.
pub fn verify_transaction(tx: Transaction) -> (r: bool)
    ensures
        r <==> (tx.signature@.len() > 0 && tx.amount > 0),
{
    tx.signature.len() > 0 && tx.amount > 0
}

/// Produce a proof record for the requested circuit: a fixed-size proof
/// body carrying the request's public inputs and circuit type.
pub fn generate_zk_proof(input: ProofInput) -> (r: Result<ZkProof, SafeMaskError>)
    ensures
        r is Ok,
        r matches Ok(p) ==> {
            &&& p.proof@ == Seq::new(zk_proof_len(), |i: int| 0u8)
            &&& p.public_inputs@ == input.public_inputs@
            &&& p.proof_type@ == input.circuit_type@
        },
{
    Ok(
        ZkProof {
            proof: zero_vec(256),
            public_inputs: input.public_inputs,
            proof_type: input.circuit_type,
        },
    )
}

/// Check a proof record against public inputs: the record must carry
/// exactly the given public inputs and a proof body of the expected size.
pub fn verify_zk_proof(proof: ZkProof, public_inputs: Vec<u8>) -> (r: bool)
    ensures
        r <==> (proof.public_inputs@ == public_inputs@ && proof.proof@.len() == zk_proof_len()),
{
    bytes_eq(&proof.public_inputs, &public_inputs) && proof.proof.len() == 256
}

} // verus!
