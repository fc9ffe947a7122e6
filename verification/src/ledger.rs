//! Taking up challenges: the checks that a challenge has to pass, the
//! session that it answers, and the queue that it joins.

use vstd::prelude::*;
use crate::challenge::{Challenge, SessionView, StoredChallengeSession, StoredPendingChallenge};
use crate::config::Trait;
use crate::error::Error;
use crate::justification::{justification, verify, GhostOutcome, VerifyError};
use crate::laws::lemma_challenge_keeps_ledger;
use crate::primitives::{Block, BlockHash, OwnerId};
use crate::store::{has_session, session_index, session_views, Module, ModuleView};

verus! {

/// Whether a set of votes agrees on another block than `claimed`.
pub open spec fn refutes(outcome: Result<GhostOutcome, VerifyError>, claimed: Block) -> bool {
    outcome matches Ok(ghost) && ghost != claimed
}

/// Whether every one of the named voters of a challenge has an owner.
pub open spec fn owners_proven(challenge: Challenge, owners: Seq<Option<OwnerId>>) -> bool {
    &&& owners.len() == challenge.targets@.len()
    &&& forall|i: int| 0 <= i < owners.len() ==> (#[trigger] owners[i]) is Some
}

impl ModuleView {
    /// What a challenge gets, given what the check of each key-ownership
    /// proof has answered.
    ///
    /// It needs a proof for each voter it names, and each proof has to hold.
    /// Its round must not be below that of the claim it answers. With equal
    /// rounds the votes of both sets are counted, and neither may agree on
    /// another block than the disputed one. With a greater round it is an
    /// answer: the session it names has to be open with a lesser round, and
    /// the session of the disputed block must not have run out before.
    pub open spec fn challenge_verdict(
        &self,
        challenge: Challenge,
        owners: Seq<Option<OwnerId>>,
    ) -> Result<(), Error> {
        let round_s = challenge.rejecting_set.round;
        let round_b = challenge.finalized_block_proof.round;
        if challenge.targets_proof is None {
            Err(Error::MissingChallengeProof)
        } else if challenge.targets_proof->0@.len() != challenge.targets@.len() {
            Err(Error::MissingChallengeProof)
        } else if !owners_proven(challenge, owners) {
            Err(Error::BadSessionKeyProof)
        } else if round_s < round_b {
            Err(Error::RoundTooLow)
        } else if round_s == round_b {
            if refutes(
                justification(
                    challenge.finalized_block,
                    challenge.finalized_block_proof.headers@,
                    challenge.finalized_block_proof.votes@,
                    self.authorities,
                ),
                challenge.finalized_block,
            ) || refutes(
                justification(
                    challenge.finalized_block,
                    challenge.rejecting_set.headers@,
                    challenge.rejecting_set.votes@,
                    self.authorities,
                ),
                challenge.finalized_block,
            ) {
                Err(Error::InvalidFinalityProof)
            } else {
                Ok(())
            }
        } else if challenge.previous_challenge is Some && !has_session(
            self.sessions,
            challenge.previous_challenge->0,
        ) {
            Err(Error::UnknownChallenge)
        } else if challenge.previous_challenge is Some && self.sessions[session_index(
            self.sessions,
            challenge.previous_challenge->0,
            0,
        )].rejecting_set_round >= round_s {
            Err(Error::RoundNotGreater)
        } else if self.history.contains(challenge.finalized_block.hash) {
            Err(Error::ChallengeClosed)
        } else {
            Ok(())
        }
    }

    /// Whether the challenge joins the queue: it is accepted and has a
    /// greater round than the claim it answers.
    pub open spec fn queues(&self, challenge: Challenge, owners: Seq<Option<OwnerId>>) -> bool {
        &&& self.challenge_verdict(challenge, owners) is Ok
        &&& challenge.rejecting_set.round > challenge.finalized_block_proof.round
    }

    /// The store after a challenge. One that joins the queue closes the
    /// session that it answers; any other leaves the store as it was.
    pub open spec fn after_challenge(&self, challenge: Challenge, owners: Seq<Option<OwnerId>>)
        -> ModuleView {
        if self.queues(challenge, owners) {
            ModuleView {
                sessions: match challenge.previous_challenge {
                    Some(previous) => self.sessions.remove(
                        session_index(self.sessions, previous, 0),
                    ),
                    None => self.sessions,
                },
                pending_challenges: self.pending_challenges.push(
                    StoredPendingChallenge { challenge },
                ),
                ..*self
            }
        } else {
            *self
        }
    }
}

/// The first position from `from` on holds the session of a block exactly
/// where the block has a session there.
pub proof fn lemma_session_index(sessions: Seq<SessionView>, hash: BlockHash, from: int)
    requires
        0 <= from <= sessions.len(),
    ensures
        from <= session_index(sessions, hash, from) <= sessions.len(),
        session_index(sessions, hash, from) < sessions.len() ==> sessions[session_index(
            sessions,
            hash,
            from,
        )].challenge_hash == hash,
        forall|i: int|
            from <= i < session_index(sessions, hash, from) ==> (
            #[trigger] sessions[i]).challenge_hash != hash,
    decreases sessions.len() - from,
{
    if from < sessions.len() && sessions[from].challenge_hash != hash {
        lemma_session_index(sessions, hash, from + 1);
    }
}

/// Finds the open session of the block with the given hash.
pub fn find_session(sessions: &Vec<StoredChallengeSession>, hash: &BlockHash) -> (index: usize)
    ensures
        index == session_index(session_views(sessions@), *hash, 0),
        index <= sessions.len(),
        index < sessions.len() <==> has_session(session_views(sessions@), *hash),
{
    let ghost views = session_views(sessions@);
    let mut i: usize = 0;
    while i < sessions.len()
        invariant
            i <= sessions.len(),
            views == session_views(sessions@),
            session_index(views, *hash, 0) == session_index(views, *hash, i as int),
            forall|k: int| 0 <= k < i ==> (#[trigger] views[k]).challenge_hash != *hash,
        decreases sessions.len() - i,
    {
        if sessions[i].challenge_hash == *hash {
            assert(views[i as int].challenge_hash == *hash);
            return i;
        }
        i += 1;
    }
    i
}

/// Tells whether `hash` stands in the list.
pub fn contains_hash(list: &Vec<BlockHash>, hash: &BlockHash) -> (found: bool)
    ensures
        found == list@.contains(*hash),
{
    let mut i: usize = 0;
    while i < list.len()
        invariant
            i <= list.len(),
            forall|k: int| 0 <= k < i ==> list@[k] != *hash,
        decreases list.len() - i,
    {
        if list[i] == *hash {
            return true;
        }
        i += 1;
    }
    false
}

/// Tells whether every one of the named voters of a challenge has an owner.
fn check_owners(challenge: &Challenge, owners: &Vec<Option<OwnerId>>) -> (proven: bool)
    ensures
        proven == owners_proven(*challenge, owners@),
{
    if owners.len() != challenge.targets.len() {
        return false;
    }
    let mut i: usize = 0;
    while i < owners.len()
        invariant
            i <= owners.len(),
            forall|k: int| 0 <= k < i ==> (#[trigger] owners@[k]) is Some,
        decreases owners.len() - i,
    {
        if owners[i].is_none() {
            return false;
        }
        i += 1;
    }
    true
}

impl Module {
    /// The open session of the block with the given hash.
    pub fn challenge_session(&self, hash: &BlockHash) -> (session: Option<&StoredChallengeSession>)
        ensures
            session is Some <==> has_session(self@.sessions, *hash),
            session matches Some(found) ==> found@ == self@.sessions[session_index(
                self@.sessions,
                *hash,
                0,
            )],
    {
        let index = find_session(&self.challenge_sessions, hash);
        if index < self.challenge_sessions.len() {
            Some(&self.challenge_sessions[index])
        } else {
            None
        }
    }

    /// Whether the session of the block with the given hash has run out.
    pub fn is_closed(&self, hash: &BlockHash) -> (closed: bool)
        ensures
            closed == self@.history.contains(*hash),
    {
        contains_hash(&self.historical_challenge_sessions, hash)
    }

    /// Decides on a challenge, given what the check of each key-ownership
    /// proof has answered, without changing the store.
    pub fn judge_challenge(&self, challenge: &Challenge, owners: &Vec<Option<OwnerId>>) -> (result:
        Result<(), Error>)
        ensures
            result == self@.challenge_verdict(*challenge, owners@),
    {
        let round_s = challenge.rejecting_set.round;
        let round_b = challenge.finalized_block_proof.round;
        match &challenge.targets_proof {
            None => {
                return Err(Error::MissingChallengeProof);
            },
            Some(proofs) => {
                if proofs.len() != challenge.targets.len() {
                    return Err(Error::MissingChallengeProof);
                }
            },
        }
        if !check_owners(challenge, owners) {
            return Err(Error::BadSessionKeyProof);
        }
        if round_s < round_b {
            return Err(Error::RoundTooLow);
        }
        if round_s == round_b {
            // Check that block proof contains supermajority for B.
            match verify(
                challenge.finalized_block,
                &challenge.finalized_block_proof.headers,
                &challenge.finalized_block_proof.votes,
                &self.authorities,
            ) {
                Ok(ghost) => {
                    if ghost != challenge.finalized_block {
                        return Err(Error::InvalidFinalityProof);
                    }
                },
                Err(_) => {},
            }
            // Check that rejecting set doesn't have supermajority for
            // another block.
            match verify(
                challenge.finalized_block,
                &challenge.rejecting_set.headers,
                &challenge.rejecting_set.votes,
                &self.authorities,
            ) {
                Ok(ghost) => {
                    if ghost != challenge.finalized_block {
                        return Err(Error::InvalidFinalityProof);
                    }
                },
                Err(_) => {},
            }
            return Ok(());
        }
        match challenge.previous_challenge {
            Some(previous) => {
                let index = find_session(&self.challenge_sessions, &previous);
                if index >= self.challenge_sessions.len() {
                    return Err(Error::UnknownChallenge);
                }
                if self.challenge_sessions[index].rejecting_set_round >= round_s {
                    return Err(Error::RoundNotGreater);
                }
            },
            None => {},
        }
        if contains_hash(&self.historical_challenge_sessions, &challenge.finalized_block.hash) {
            return Err(Error::ChallengeClosed);
        }
        Ok(())
    }

    /// Takes up a challenge, given what the check of each key-ownership
    /// proof has answered.
    pub fn apply_challenge(&mut self, challenge: Challenge, owners: &Vec<Option<OwnerId>>) -> (result:
        Result<(), Error>)
        ensures
            result == old(self)@.challenge_verdict(challenge, owners@),
            final(self)@ == old(self)@.after_challenge(challenge, owners@),
            old(self)@.wf() ==> final(self)@.wf(),
    {
        proof {
            if old(self)@.wf() {
                lemma_challenge_keeps_ledger(old(self)@, challenge, owners@);
            }
        }
        let result = self.judge_challenge(&challenge, owners);
        if result.is_ok() && challenge.rejecting_set.round > challenge.finalized_block_proof.round {
            // Mark previous challenge as answered.
            match challenge.previous_challenge {
                Some(previous) => {
                    let index = find_session(&self.challenge_sessions, &previous);
                    let _ = self.challenge_sessions.remove(index);
                    assert(session_views(self.challenge_sessions@) =~= session_views(
                        old(self).challenge_sessions@,
                    ).remove(index as int));
                },
                None => {},
            }
            // Push a new pending challenge.
            self.pending_challenges.push(StoredPendingChallenge { challenge });
        }
        result
    }

    /// Report rejecting set of prevotes: has the host check the proof of key
    /// ownership of each voter that the challenge names, and takes up the
    /// challenge with the answers, one for each voter. A challenge that
    /// names no voter asks the host nothing.
    pub fn report_rejecting_set<T: Trait>(&mut self, system: &T, challenge: Challenge) -> (result:
        Result<(), Error>)
        ensures
            challenge.targets_proof is None ==> result == Err::<(), Error>(
                Error::MissingChallengeProof,
            ),
            challenge.targets@.len() == 0 ==> result == old(self)@.challenge_verdict(
                challenge,
                Seq::empty(),
            ) && final(self)@ == old(self)@.after_challenge(challenge, Seq::empty()),
            exists|owners: Seq<Option<OwnerId>>|
                owners.len() == challenge.targets@.len()
                    && result == #[trigger] old(self)@.challenge_verdict(challenge, owners)
                    && final(self)@ == old(self)@.after_challenge(challenge, owners),
            old(self)@.wf() ==> final(self)@.wf(),
    {
        let mut owners: Vec<Option<OwnerId>> = Vec::new();
        let mut asked: bool = false;
        match &challenge.targets_proof {
            Some(proofs) => {
                if proofs.len() == challenge.targets.len() {
                    let mut i: usize = 0;
                    while i < proofs.len()
                        invariant
                            i <= proofs.len() == challenge.targets.len(),
                            owners@.len() == i,
                        decreases proofs.len() - i,
                    {
                        owners.push(system.check_proof(&challenge.targets[i], &proofs[i]));
                        i += 1;
                    }
                    asked = true;
                }
            },
            None => {},
        }
        proof {
            if challenge.targets@.len() == 0 {
                assert(owners@ =~= Seq::empty());
            }
            if !asked {
                // without the proofs in the right number no answer matters
                let unasked = Seq::new(challenge.targets@.len(), |i: int| None::<OwnerId>);
                let store = old(self)@;
                assert(store.challenge_verdict(challenge, unasked) == store.challenge_verdict(
                    challenge,
                    owners@,
                ));
                assert(store.after_challenge(challenge, unasked) == store.after_challenge(
                    challenge,
                    owners@,
                ));
            }
        }
        self.apply_challenge(challenge, &owners)
    }
}

} // verus!
