//! Confidential-value core of a privacy-preserving wallet: Pedersen value
//! commitments with homomorphic algebra, a range-proof contract, a dual-key
//! stealth-address protocol, and a fixed-size wire codec for group elements.

pub mod api;
pub mod commitments;
pub mod group;
pub mod stealth;

pub use commitments::{PedersenCommitment, RangeProof};

use vstd::prelude::*;

verus! {

/// Core error types surfaced by fallible operations of this crate.
#[derive(Debug, Clone)]
pub enum CoreError {
    InvalidMnemonic(String),
    KeyDerivation(String),
    Commitment(String),
    Storage(String),
    Crypto(String),
    Serialization(String),
    InvalidParameter(String),
}

pub const VERSION: &'static str = "0.1.0";

pub const AUTHORS: &'static str = "SafeMask contributors";

} // verus!
