//! Equivocations: two votes of one authority in one round that say
//! different things.

use vstd::prelude::*;
use vstd::bytes::spec_u64_to_le_bytes;
use parity_codec::Encode;
use crate::config::Trait;
use crate::error::Error;
use crate::primitives::{AuthorityId, OwnerId};
use crate::store::Module;
use crate::votes::{Message, VoteKind};

verus! {

/// A vote as it was signed: in a round, with a signature.
#[derive(Clone, Debug, PartialEq, Eq)]
pub struct SignedVote {
    /// The round that the vote itself names.
    pub round: u64,
    /// What the vote says.
    pub message: Message,
    /// The signature on the vote.
    pub signature: Vec<u8>,
}

/// The claim that an authority has voted twice in one round.
#[derive(Clone, Debug, PartialEq, Eq)]
pub struct Equivocation {
    /// The round in which the authority is said to have voted twice.
    pub round_number: u64,
    /// The number of the authority set that voted.
    pub set_id: u64,
    /// The authority that is said to have voted twice.
    pub identity: AuthorityId,
    /// The proof that the key of the authority belongs to an owner.
    pub identity_proof: Option<Vec<u8>>,
    /// The first of the two votes.
    pub first: SignedVote,
    /// The second of the two votes.
    pub second: SignedVote,
}

/// The byte that stands for a kind of vote in what is signed.
pub open spec fn kind_tag(kind: VoteKind) -> u8 {
    match kind {
        VoteKind::Prevote => 0,
        VoteKind::Precommit => 1,
    }
}

/// What an authority signs when it casts a vote: the kind of the vote, the
/// hash and the height of its target, the round and the number of the
/// authority set, the numbers as eight bytes each, lowest first.
pub open spec fn signed_payload(message: Message, round: u64, set_id: u64) -> Seq<u8> {
    seq![kind_tag(message.kind)] + message.target_hash.0@ + spec_u64_to_le_bytes(
        message.target_number,
    ) + spec_u64_to_le_bytes(round) + spec_u64_to_le_bytes(set_id)
}

/// Encodes the parts of a signed vote with `parity_codec`'s `Encode::encode`
/// on a tuple. The codec writes the members of a tuple one after the other:
/// an array of bytes as it stands, and a `u64` as its eight bytes, lowest
/// first.
#[verifier::external_body]
fn encode_payload(tag: u8, target_hash: &[u8; 32], target_number: u64, round: u64, set_id: u64)
    -> (payload: Vec<u8>)
    ensures
        payload@ == seq![tag] + target_hash@ + spec_u64_to_le_bytes(target_number)
            + spec_u64_to_le_bytes(round) + spec_u64_to_le_bytes(set_id),
{
    ([tag], *target_hash, target_number, round, set_id).encode()
}

/// Builds what an authority signs when it casts the vote `message` in
/// `round`, as a member of the authority set `set_id`.
pub fn localized_payload(round: u64, set_id: u64, message: &Message) -> (payload: Vec<u8>)
    ensures
        payload@ == signed_payload(*message, round, set_id),
{
    let tag: u8 = match message.kind {
        VoteKind::Prevote => 0,
        VoteKind::Precommit => 1,
    };
    encode_payload(tag, &message.target_hash.0, message.target_number, round, set_id)
}

impl Equivocation {
    /// Whether both votes name the round of the equivocation.
    pub open spec fn rounds_agree(&self) -> bool {
        self.first.round == self.round_number && self.second.round == self.round_number
    }

    /// Whether the two votes make an equivocation, given whether each of
    /// them bears the signature of the authority: both name the round, both
    /// are signed, and they say different things.
    pub open spec fn proves(&self, first_signed: bool, second_signed: bool) -> bool {
        self.rounds_agree() && first_signed && second_signed && self.first.message
            != self.second.message
    }

    /// Tells whether both votes name the round of the equivocation.
    pub fn check_rounds(&self) -> (agree: bool)
        ensures
            agree == self.rounds_agree(),
    {
        self.first.round == self.round_number && self.second.round == self.round_number
    }

    /// Decides whether the two votes make an equivocation, given whether
    /// each of them bears the signature of the authority.
    pub fn judge(&self, first_signed: bool, second_signed: bool) -> (valid: bool)
        ensures
            valid == self.proves(first_signed, second_signed),
    {
        self.check_rounds() && first_signed && second_signed && !self.first.message.same_as(
            &self.second.message,
        )
    }

    /// Checks the equivocation: the rounds first, then the signature of
    /// each vote on what the authority has signed, by the host.
    pub fn is_valid<T: Trait>(&self, system: &T) -> (valid: bool)
        ensures
            !self.rounds_agree() ==> !valid,
            self.first.message == self.second.message ==> !valid,
            exists|first_signed: bool, second_signed: bool|
                valid == #[trigger] self.proves(first_signed, second_signed),
    {
        if !self.check_rounds() {
            assert(!self.proves(false, false));
            return false;
        }
        let first_payload = localized_payload(self.round_number, self.set_id, &self.first.message);
        let first_signed = system.verify_signature(
            &self.first.signature,
            &first_payload,
            &self.identity,
        );
        let second_payload = localized_payload(
            self.round_number,
            self.set_id,
            &self.second.message,
        );
        let second_signed = system.verify_signature(
            &self.second.signature,
            &second_payload,
            &self.identity,
        );
        let valid = self.judge(first_signed, second_signed);
        assert(valid == self.proves(first_signed, second_signed));
        valid
    }

    /// What a report of the equivocation gets, given the owner that the
    /// proof of key ownership names, if it holds, and whether each vote
    /// bears the signature of the authority: the owner to slash, or the
    /// reason for which the report is refused.
    pub open spec fn report_verdict(
        &self,
        owner: Option<OwnerId>,
        first_signed: bool,
        second_signed: bool,
    ) -> Result<OwnerId, Error> {
        if self.identity_proof is None {
            Err(Error::MissingEquivocationProof)
        } else if owner is None {
            Err(Error::BadSessionKeyProof)
        } else if !self.proves(first_signed, second_signed) {
            Err(Error::NotEquivocation)
        } else {
            Ok(owner->0)
        }
    }

    /// Decides on a report of the equivocation, given what the host has
    /// answered.
    pub fn judge_report(&self, owner: Option<OwnerId>, first_signed: bool, second_signed: bool)
        -> (result: Result<OwnerId, Error>)
        ensures
            result == self.report_verdict(owner, first_signed, second_signed),
    {
        if self.identity_proof.is_none() {
            return Err(Error::MissingEquivocationProof);
        }
        match owner {
            None => Err(Error::BadSessionKeyProof),
            Some(owner) => {
                if self.judge(first_signed, second_signed) {
                    Ok(owner)
                } else {
                    Err(Error::NotEquivocation)
                }
            },
        }
    }
}

impl Module {
    /// Report equivocation: has the host check the proof of key ownership
    /// and the signatures, and names the owner to slash.
    pub fn report_equivocation<T: Trait>(&self, system: &T, equivocation: &Equivocation) -> (result:
        Result<OwnerId, Error>)
        ensures
            equivocation.identity_proof is None ==> result == Err::<OwnerId, Error>(
                Error::MissingEquivocationProof,
            ),
            result is Ok ==> equivocation.proves(true, true),
            exists|owner: Option<OwnerId>, first_signed: bool, second_signed: bool|
                result == #[trigger] equivocation.report_verdict(
                    owner,
                    first_signed,
                    second_signed,
                ),
    {
        match &equivocation.identity_proof {
            None => {
                assert(equivocation.report_verdict(None, false, false) == Err::<OwnerId, Error>(
                    Error::MissingEquivocationProof,
                ));
                Err(Error::MissingEquivocationProof)
            },
            Some(proof) => {
                let owner = system.check_proof(&equivocation.identity, proof);
                if owner.is_none() {
                    assert(equivocation.report_verdict(owner, false, false) == Err::<
                        OwnerId,
                        Error,
                    >(Error::BadSessionKeyProof));
                    return Err(Error::BadSessionKeyProof);
                }
                let valid = equivocation.is_valid(system);
                let ghost (first_signed, second_signed) = choose|
                    first_signed: bool,
                    second_signed: bool,
                |
                    valid == #[trigger] equivocation.proves(first_signed, second_signed);
                let result = if valid {
                    Ok(owner.unwrap())
                } else {
                    Err(Error::NotEquivocation)
                };
                assert(result == equivocation.report_verdict(owner, first_signed, second_signed));
                result
            },
        }
    }
}

} // verus!
