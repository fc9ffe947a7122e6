//! The stored state of the authority set: whether it is live, and the
//! change that is scheduled for it.

use vstd::prelude::*;
use crate::primitives::{AuthorityId, AuthorityWeight, BlockNumber};

verus! {

/// Current state of the authority set. The states follow each other in the
/// order in which they stand here, and after the last comes the first
/// again: `Paused` implies a prior `PendingPause`.
#[derive(Clone, Copy, Debug, PartialEq, Eq, Structural)]
pub enum StoredState {
    /// The current authority set is live, and voting is enabled.
    Live,
    /// There is a pending pause event which will be enacted at the given
    /// block height.
    PendingPause {
        /// Block at which the intention to pause was scheduled.
        scheduled_at: BlockNumber,
        /// Number of blocks after which the change will be enacted.
        delay: BlockNumber,
    },
    /// The current authority set is paused.
    Paused,
    /// There is a pending resume event which will be enacted at the given
    /// block height.
    PendingResume {
        /// Block at which the intention to resume was scheduled.
        scheduled_at: BlockNumber,
        /// Number of blocks after which the change will be enacted.
        delay: BlockNumber,
    },
}

/// A stored pending change, in the layout that has no `forced` field.
#[derive(Clone, Debug, PartialEq, Eq)]
pub struct OldStoredPendingChange {
    /// The block number this was scheduled at.
    pub scheduled_at: BlockNumber,
    /// The delay in blocks until it will be applied.
    pub delay: BlockNumber,
    /// The next authority set.
    pub next_authorities: Vec<(AuthorityId, AuthorityWeight)>,
}

/// A stored pending change.
#[derive(Clone, Debug, PartialEq, Eq)]
pub struct StoredPendingChange {
    /// The block number this was scheduled at.
    pub scheduled_at: BlockNumber,
    /// The delay in blocks until it will be applied.
    pub delay: BlockNumber,
    /// The next authority set.
    pub next_authorities: Vec<(AuthorityId, AuthorityWeight)>,
    /// If defined it means the change was forced and the given block number
    /// indicates the median last finalized block when the change was
    /// signaled.
    pub forced: Option<BlockNumber>,
}

/// What a stored pending change holds.
pub struct PendingChangeView {
    pub scheduled_at: BlockNumber,
    pub delay: BlockNumber,
    pub next_authorities: Seq<(AuthorityId, AuthorityWeight)>,
    pub forced: Option<BlockNumber>,
}

impl View for OldStoredPendingChange {
    type V = PendingChangeView;

    open spec fn view(&self) -> PendingChangeView {
        PendingChangeView {
            scheduled_at: self.scheduled_at,
            delay: self.delay,
            next_authorities: self.next_authorities@,
            forced: None,
        }
    }
}

impl View for StoredPendingChange {
    type V = PendingChangeView;

    open spec fn view(&self) -> PendingChangeView {
        PendingChangeView {
            scheduled_at: self.scheduled_at,
            delay: self.delay,
            next_authorities: self.next_authorities@,
            forced: self.forced,
        }
    }
}

/// Whether `now` is the block `delay` blocks after `scheduled_at`.
pub open spec fn is_due(scheduled_at: BlockNumber, delay: BlockNumber, now: BlockNumber) -> bool {
    now == scheduled_at + delay
}

/// Tells whether `now` is the block `delay` blocks after `scheduled_at`.
pub fn check_due(scheduled_at: BlockNumber, delay: BlockNumber, now: BlockNumber) -> (due: bool)
    ensures
        due == is_due(scheduled_at, delay, now),
{
    now >= scheduled_at && now - scheduled_at == delay
}

} // verus!
