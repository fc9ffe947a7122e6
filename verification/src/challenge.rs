//! Challenges of finality claims, and the sessions in which they stand
//! open.

use vstd::prelude::*;
use crate::primitives::{AuthorityId, Block, BlockHash, BlockNumber};
use crate::votes::{ChallengedVote, VoteSet};

verus! {

/// For how many blocks a challenge session stays open.
pub const CHALLENGE_SESSION_LENGTH: BlockNumber = 50;

/// A claim that the proof of a block's finality does not hold.
#[derive(Clone, Debug, PartialEq, Eq)]
pub struct Challenge {
    /// The block whose finality is disputed.
    pub finalized_block: Block,
    /// The votes that were given as the proof of its finality.
    pub finalized_block_proof: VoteSet,
    /// The votes that speak against it.
    pub rejecting_set: VoteSet,
    /// The session that this challenge answers, if it answers one.
    pub previous_challenge: Option<BlockHash>,
    /// The voters that the challenge names.
    pub targets: Vec<AuthorityId>,
    /// A proof of key ownership for each of the named voters, in their
    /// order.
    pub targets_proof: Option<Vec<Vec<u8>>>,
}

/// A challenge that was accepted in the current block and opens its session
/// at the end of it.
#[derive(Clone, Debug, PartialEq, Eq)]
pub struct StoredPendingChallenge {
    pub challenge: Challenge,
}

/// An open challenge session.
#[derive(Clone, Debug, PartialEq, Eq)]
pub struct StoredChallengeSession {
    /// The round of the rejecting set that opened the session.
    pub rejecting_set_round: u64,
    /// The hash under which the session is kept: that of the disputed block.
    pub challenge_hash: BlockHash,
    /// The disputed block.
    pub reference_block: Block,
    /// The parent of the block in which the session was opened.
    pub parent_hash: BlockHash,
    /// The block in which the session was opened.
    pub scheduled_at: BlockNumber,
    /// The number of blocks after which the session runs out.
    pub delay: BlockNumber,
    /// The authorities whose votes make up the rejecting set: they are the
    /// ones to slash when the session runs out unanswered.
    pub voters: Vec<AuthorityId>,
}

/// What an open challenge session holds.
pub struct SessionView {
    pub rejecting_set_round: u64,
    pub challenge_hash: BlockHash,
    pub reference_block: Block,
    pub parent_hash: BlockHash,
    pub scheduled_at: BlockNumber,
    pub delay: BlockNumber,
    pub voters: Seq<AuthorityId>,
}

impl View for StoredChallengeSession {
    type V = SessionView;

    open spec fn view(&self) -> SessionView {
        SessionView {
            rejecting_set_round: self.rejecting_set_round,
            challenge_hash: self.challenge_hash,
            reference_block: self.reference_block,
            parent_hash: self.parent_hash,
            scheduled_at: self.scheduled_at,
            delay: self.delay,
            voters: self.voters@,
        }
    }
}

/// The authorities that cast the given votes, in the order of the votes.
pub open spec fn authorities_of(votes: Seq<ChallengedVote>) -> Seq<AuthorityId> {
    Seq::new(votes.len(), |i: int| votes[i].authority)
}

/// The session that a challenge opens in block `now`, whose parent is
/// `parent_hash`.
pub open spec fn session_of(challenge: Challenge, now: BlockNumber, parent_hash: BlockHash)
    -> SessionView {
    SessionView {
        rejecting_set_round: challenge.rejecting_set.round,
        challenge_hash: challenge.finalized_block.hash,
        reference_block: challenge.finalized_block,
        parent_hash,
        scheduled_at: now,
        delay: CHALLENGE_SESSION_LENGTH,
        voters: authorities_of(challenge.rejecting_set.votes@),
    }
}

/// Lists the authorities that cast the given votes.
pub fn collect_authorities(votes: &Vec<ChallengedVote>) -> (voters: Vec<AuthorityId>)
    ensures
        voters@ == authorities_of(votes@),
{
    let mut voters: Vec<AuthorityId> = Vec::new();
    let mut i: usize = 0;
    while i < votes.len()
        invariant
            i <= votes.len(),
            voters@ == authorities_of(votes@.take(i as int)),
        decreases votes.len() - i,
    {
        voters.push(votes[i].authority);
        i += 1;
        assert(voters@ =~= authorities_of(votes@.take(i as int)));
    }
    assert(votes@.take(votes.len() as int) =~= votes@);
    voters
}

/// Opens the session of a challenge in block `now`, whose parent is
/// `parent_hash`.
pub fn open_session(challenge: &Challenge, now: BlockNumber, parent_hash: BlockHash) -> (session:
    StoredChallengeSession)
    ensures
        session@ == session_of(*challenge, now, parent_hash),
{
    StoredChallengeSession {
        rejecting_set_round: challenge.rejecting_set.round,
        challenge_hash: challenge.finalized_block.hash,
        reference_block: challenge.finalized_block,
        parent_hash,
        scheduled_at: now,
        delay: CHALLENGE_SESSION_LENGTH,
        voters: collect_authorities(&challenge.rejecting_set.votes),
    }
}

} // verus!
