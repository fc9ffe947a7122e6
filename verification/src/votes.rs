//! Votes, the headers that connect them, and sets of both.

use vstd::prelude::*;
use crate::primitives::{AuthorityId, Block, BlockHash, BlockNumber};

verus! {

/// The two kinds of vote that an authority casts in a round.
#[derive(Clone, Copy, Debug, PartialEq, Eq, Structural)]
pub enum VoteKind {
    Prevote,
    Precommit,
}

/// What a vote says: its kind and the block it is cast for.
#[derive(Clone, Copy, Debug, PartialEq, Eq)]
pub struct Message {
    pub kind: VoteKind,
    pub target_hash: BlockHash,
    pub target_number: BlockNumber,
}

impl Message {
    /// The block that the vote is cast for.
    pub open spec fn target(&self) -> Block {
        Block { hash: self.target_hash, number: self.target_number }
    }

    /// The block that the vote is cast for.
    pub fn target_block(&self) -> (block: Block)
        ensures
            block == self.target(),
    {
        Block { hash: self.target_hash, number: self.target_number }
    }

    /// Whether two votes say the same.
    pub fn same_as(&self, other: &Message) -> (same: bool)
        ensures
            same == (*self == *other),
    {
        let same_kind = match (self.kind, other.kind) {
            (VoteKind::Prevote, VoteKind::Prevote) => true,
            (VoteKind::Precommit, VoteKind::Precommit) => true,
            _ => false,
        };
        same_kind && self.target_hash == other.target_hash && self.target_number
            == other.target_number
    }
}

/// What the library reads of a block header: the block's own hash, its
/// parent's hash and its height.
#[derive(Clone, Copy, Debug, PartialEq, Eq)]
pub struct Header {
    pub hash: BlockHash,
    pub parent_hash: BlockHash,
    pub number: BlockNumber,
}

/// A vote together with the authority that cast it and its signature.
#[derive(Clone, Debug, PartialEq, Eq)]
pub struct ChallengedVote {
    pub vote: Message,
    pub authority: AuthorityId,
    pub signature: Vec<u8>,
}

/// The votes of one round, with the headers that connect their targets.
#[derive(Clone, Debug, PartialEq, Eq)]
pub struct VoteSet {
    pub round: u64,
    pub votes: Vec<ChallengedVote>,
    pub headers: Vec<Header>,
}

} // verus!
