//! The entries that the library writes to the consensus log, and the
//! events it deposits.

use vstd::prelude::*;
use crate::challenge::Challenge;
use crate::primitives::{AuthorityId, AuthorityWeight, BlockNumber};

verus! {

/// The tag of this engine's entries in a block's digest.
pub const GRANDPA_ENGINE_ID: [u8; 4] = [70, 82, 78, 75];

/// A scheduled change of the authority set.
#[derive(Clone, Debug, PartialEq, Eq)]
pub struct ScheduledChange {
    /// The new authorities after the change, along with their respective
    /// weights.
    pub next_authorities: Vec<(AuthorityId, AuthorityWeight)>,
    /// The number of blocks to delay.
    pub delay: BlockNumber,
}

/// What a scheduled change holds.
pub struct ScheduledChangeView {
    pub next_authorities: Seq<(AuthorityId, AuthorityWeight)>,
    pub delay: BlockNumber,
}

impl View for ScheduledChange {
    type V = ScheduledChangeView;

    open spec fn view(&self) -> ScheduledChangeView {
        ScheduledChangeView { next_authorities: self.next_authorities@, delay: self.delay }
    }
}

/// An entry of the consensus log.
#[derive(Clone, Debug, PartialEq, Eq)]
pub enum ConsensusLog {
    /// A change of the authority set was scheduled in this block.
    ScheduledChange(ScheduledChange),
    /// A forced change was scheduled in this block; the number is the median
    /// of the last finalized blocks when it was signaled.
    ForcedChange(BlockNumber, ScheduledChange),
    /// The authority with the given index was disabled.
    OnDisabled(u64),
    /// A pause was scheduled in this block, to take effect after the given
    /// number of blocks.
    Pause(BlockNumber),
    /// A resume was scheduled in this block, to take effect after the given
    /// number of blocks.
    Resume(BlockNumber),
    /// The challenges that were accepted in this block.
    Challenges(Vec<Challenge>),
}

/// What an entry of the consensus log holds.
pub enum ConsensusLogView {
    ScheduledChange(ScheduledChangeView),
    ForcedChange(BlockNumber, ScheduledChangeView),
    OnDisabled(u64),
    Pause(BlockNumber),
    Resume(BlockNumber),
    Challenges(Seq<Challenge>),
}

impl View for ConsensusLog {
    type V = ConsensusLogView;

    open spec fn view(&self) -> ConsensusLogView {
        match self {
            ConsensusLog::ScheduledChange(change) => ConsensusLogView::ScheduledChange(change@),
            ConsensusLog::ForcedChange(median, change) => ConsensusLogView::ForcedChange(
                *median,
                change@,
            ),
            ConsensusLog::OnDisabled(index) => ConsensusLogView::OnDisabled(*index),
            ConsensusLog::Pause(delay) => ConsensusLogView::Pause(*delay),
            ConsensusLog::Resume(delay) => ConsensusLogView::Resume(*delay),
            ConsensusLog::Challenges(challenges) => ConsensusLogView::Challenges(challenges@),
        }
    }
}

impl ConsensusLog {
    /// The scheduled change that the entry announces, if that is what it
    /// does.
    pub fn try_into_change(self) -> (change: Option<ScheduledChange>)
        ensures
            change == match self {
                ConsensusLog::ScheduledChange(change) => Some(change),
                _ => None,
            },
    {
        match self {
            ConsensusLog::ScheduledChange(change) => Some(change),
            _ => None,
        }
    }

    /// The forced change that the entry announces, with its median, if that
    /// is what it does.
    pub fn try_into_forced_change(self) -> (change: Option<(BlockNumber, ScheduledChange)>)
        ensures
            change == match self {
                ConsensusLog::ForcedChange(median, change) => Some((median, change)),
                _ => None,
            },
    {
        match self {
            ConsensusLog::ForcedChange(median, change) => Some((median, change)),
            _ => None,
        }
    }

    /// The delay of the pause that the entry announces, if that is what it
    /// does.
    pub fn try_into_pause(self) -> (delay: Option<BlockNumber>)
        ensures
            delay == match self {
                ConsensusLog::Pause(delay) => Some(delay),
                _ => None,
            },
    {
        match self {
            ConsensusLog::Pause(delay) => Some(delay),
            _ => None,
        }
    }

    /// The delay of the resume that the entry announces, if that is what it
    /// does.
    pub fn try_into_resume(self) -> (delay: Option<BlockNumber>)
        ensures
            delay == match self {
                ConsensusLog::Resume(delay) => Some(delay),
                _ => None,
            },
    {
        match self {
            ConsensusLog::Resume(delay) => Some(delay),
            _ => None,
        }
    }

    /// The challenges that the entry carries, if that is what it does.
    pub fn try_into_challenges(self) -> (challenges: Option<Vec<Challenge>>)
        ensures
            challenges == match self {
                ConsensusLog::Challenges(challenges) => Some(challenges),
                _ => None,
            },
    {
        match self {
            ConsensusLog::Challenges(challenges) => Some(challenges),
            _ => None,
        }
    }
}

/// What the library tells the rest of the chain.
#[derive(Clone, Debug, PartialEq, Eq)]
pub enum Event {
    /// New authority set has been applied.
    NewAuthorities(Vec<(AuthorityId, AuthorityWeight)>),
    /// Current authority set has been paused.
    Paused,
    /// Current authority set has been resumed.
    Resumed,
    /// A challenge names the given authorities.
    NewChallenge(Vec<AuthorityId>),
    /// A challenge against the given authorities was answered.
    ChallengeResponded(Vec<AuthorityId>),
}

/// What an event holds.
pub enum EventView {
    NewAuthorities(Seq<(AuthorityId, AuthorityWeight)>),
    Paused,
    Resumed,
    NewChallenge(Seq<AuthorityId>),
    ChallengeResponded(Seq<AuthorityId>),
}

impl View for Event {
    type V = EventView;

    open spec fn view(&self) -> EventView {
        match self {
            Event::NewAuthorities(authorities) => EventView::NewAuthorities(authorities@),
            Event::Paused => EventView::Paused,
            Event::Resumed => EventView::Resumed,
            Event::NewChallenge(authorities) => EventView::NewChallenge(authorities@),
            Event::ChallengeResponded(authorities) => EventView::ChallengeResponded(authorities@),
        }
    }
}

} // verus!
