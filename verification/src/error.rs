//! The reasons for which a request is refused.

use vstd::prelude::*;

verus! {

/// Why a request was refused. A refused request changes nothing.
#[derive(Clone, Copy, Debug, PartialEq, Eq, Structural)]
pub enum Error {
    /// A change of the authority set is already pending.
    ChangePending,
    /// A forced change was asked for before the last one allows it.
    ForcedChangeTooSoon,
    /// A pause was asked for while the authority set is not live.
    NotLive,
    /// A resume was asked for while the authority set is not paused.
    NotPaused,
    /// An equivocation came without a proof of key ownership.
    MissingEquivocationProof,
    /// A challenge came without a proof of key ownership for each voter it
    /// names.
    MissingChallengeProof,
    /// A proof of key ownership does not hold.
    BadSessionKeyProof,
    /// The two votes of an equivocation are no provable double vote.
    NotEquivocation,
    /// The votes of a challenge agree on another block than the one it
    /// claims to be final.
    InvalidFinalityProof,
    /// A challenge argues an earlier round than the claim it answers.
    RoundTooLow,
    /// A challenge answers a session that is not open.
    UnknownChallenge,
    /// A challenge answers a session whose round is not below its own.
    RoundNotGreater,
    /// A challenge is about a block whose session has run out before.
    ChallengeClosed,
}

impl Error {
    /// The text of the message that goes with the error.
    pub open spec fn text(&self) -> Seq<char> {
        match self {
            Error::ChangePending => "Attempt to signal GRANDPA change with one already pending."@,
            Error::ForcedChangeTooSoon => "Cannot signal forced change so soon after last."@,
            Error::NotLive => "Attempt to signal GRANDPA pause when the authority set isn't live (either paused or already pending pause)."@,
            Error::NotPaused => "Attempt to signal GRANDPA resume when the authority set isn't paused (either live or already pending resume)."@,
            Error::MissingEquivocationProof => "Equivocation does not have inclusion proof"@,
            Error::MissingChallengeProof => "Challenge does not have proof of inclusion"@,
            Error::BadSessionKeyProof => "Bad session key proof"@,
            Error::NotEquivocation => "Votes are not a provable equivocation"@,
            Error::InvalidFinalityProof => "Invalid proof of finalized block"@,
            Error::RoundTooLow => "Challenge must not have a lower round than the claim it answers"@,
            Error::UnknownChallenge => "Answered challenge is not open"@,
            Error::RoundNotGreater => "Answer to challenge must have a greater round"@,
            Error::ChallengeClosed => "Challenge session was closed before"@,
        }
    }

    /// The message that goes with the error.
    pub fn message(&self) -> (message: &'static str)
        ensures
            message@ == self.text(),
    {
        match self {
            Error::ChangePending => "Attempt to signal GRANDPA change with one already pending.",
            Error::ForcedChangeTooSoon => "Cannot signal forced change so soon after last.",
            Error::NotLive => "Attempt to signal GRANDPA pause when the authority set isn't live (either paused or already pending pause).",
            Error::NotPaused => "Attempt to signal GRANDPA resume when the authority set isn't paused (either live or already pending resume).",
            Error::MissingEquivocationProof => "Equivocation does not have inclusion proof",
            Error::MissingChallengeProof => "Challenge does not have proof of inclusion",
            Error::BadSessionKeyProof => "Bad session key proof",
            Error::NotEquivocation => "Votes are not a provable equivocation",
            Error::InvalidFinalityProof => "Invalid proof of finalized block",
            Error::RoundTooLow => "Challenge must not have a lower round than the claim it answers",
            Error::UnknownChallenge => "Answered challenge is not open",
            Error::RoundNotGreater => "Answer to challenge must have a greater round",
            Error::ChallengeClosed => "Challenge session was closed before",
        }
    }
}

} // verus!
