//! What the library asks of the chain that hosts it.

use vstd::prelude::*;
use crate::primitives::{AuthorityId, OwnerId};

verus! {

/// The services of the host chain. The library promises nothing of what
/// they answer: it states what it does with each answer.
pub trait Trait {
    /// Checks a proof that a key belongs to an owner, and names the owner
    /// where it holds.
    fn check_proof(&self, key: &AuthorityId, proof: &Vec<u8>) -> Option<OwnerId>;

    /// Tells whether `signature` is the signature of `signer` on `message`.
    fn verify_signature(&self, signature: &Vec<u8>, message: &Vec<u8>, signer: &AuthorityId)
        -> bool;
}

} // verus!
