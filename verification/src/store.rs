//! The store of the authority set and of the challenges, and the requests
//! that schedule a change, a pause or a resume.

use vstd::prelude::*;
use crate::challenge::{SessionView, StoredChallengeSession, StoredPendingChallenge};
use crate::error::Error;
use crate::log::ConsensusLog;
use crate::primitives::{
    copy_authorities, same_authorities, AuthorityId, AuthorityWeight, BlockHash, BlockNumber,
};
use crate::state::{PendingChangeView, StoredPendingChange, StoredState};

verus! {

/// All that the library keeps from block to block.
#[derive(Clone, Debug, PartialEq, Eq)]
pub struct Module {
    /// The current authority set.
    pub authorities: Vec<(AuthorityId, AuthorityWeight)>,
    /// State of the current authority set.
    pub state: StoredState,
    /// The change of the authority set that is scheduled, if one is.
    pub pending_change: Option<StoredPendingChange>,
    /// The open challenge sessions, no two for one block.
    pub challenge_sessions: Vec<StoredChallengeSession>,
    /// The blocks whose challenge session has run out.
    pub historical_challenge_sessions: Vec<BlockHash>,
    /// The challenges accepted in the current block.
    pub pending_challenges: Vec<StoredPendingChallenge>,
    /// Next block number where a change can be forced.
    pub next_forced: Option<BlockNumber>,
    /// Set while finality is stalled: how long to wait further, and the
    /// median of the last finalized blocks.
    pub stalled: Option<(BlockNumber, BlockNumber)>,
}

/// What the store holds.
pub struct ModuleView {
    pub authorities: Seq<(AuthorityId, AuthorityWeight)>,
    pub state: StoredState,
    pub pending_change: Option<PendingChangeView>,
    pub sessions: Seq<SessionView>,
    pub history: Seq<BlockHash>,
    pub pending_challenges: Seq<StoredPendingChallenge>,
    pub next_forced: Option<BlockNumber>,
    pub stalled: Option<(BlockNumber, BlockNumber)>,
}

/// What a list of sessions holds.
pub open spec fn session_views(sessions: Seq<StoredChallengeSession>) -> Seq<SessionView> {
    sessions.map_values(|session: StoredChallengeSession| session@)
}

/// The position of the open session for the block with the given hash,
/// looked for from `from` on; the number of sessions where there is none.
pub open spec fn session_index(sessions: Seq<SessionView>, hash: BlockHash, from: int) -> int
    decreases sessions.len() - from,
{
    if from < 0 || from >= sessions.len() {
        sessions.len() as int
    } else if sessions[from].challenge_hash == hash {
        from
    } else {
        session_index(sessions, hash, from + 1)
    }
}

/// Whether no identity stands twice in a list of authorities.
pub open spec fn unique_identities(authorities: Seq<(AuthorityId, AuthorityWeight)>) -> bool {
    forall|i: int, j: int|
        0 <= i < j < authorities.len() ==> (#[trigger] authorities[i]).0 != (
        #[trigger] authorities[j]).0
}

/// Whether no two of the sessions are for one block.
pub open spec fn distinct_blocks(sessions: Seq<SessionView>) -> bool {
    forall|i: int, j: int|
        0 <= i < j < sessions.len() ==> (#[trigger] sessions[i]).challenge_hash != (
        #[trigger] sessions[j]).challenge_hash
}

/// Whether none of the sessions is for a block of the list `closed`.
pub open spec fn none_closed(sessions: Seq<SessionView>, closed: Seq<BlockHash>) -> bool {
    forall|i: int|
        0 <= i < sessions.len() ==> !closed.contains((#[trigger] sessions[i]).challenge_hash)
}

/// Whether a session is open for the block with the given hash.
pub open spec fn has_session(sessions: Seq<SessionView>, hash: BlockHash) -> bool {
    exists|i: int| 0 <= i < sessions.len() && (#[trigger] sessions[i]).challenge_hash == hash
}

impl View for Module {
    type V = ModuleView;

    open spec fn view(&self) -> ModuleView {
        ModuleView {
            authorities: self.authorities@,
            state: self.state,
            pending_change: match self.pending_change {
                Some(change) => Some(change@),
                None => None,
            },
            sessions: session_views(self.challenge_sessions@),
            history: self.historical_challenge_sessions@,
            pending_challenges: self.pending_challenges@,
            next_forced: self.next_forced,
            stalled: self.stalled,
        }
    }
}

impl ModuleView {
    /// The store of a chain that starts with the given authorities.
    pub open spec fn genesis(authorities: Seq<(AuthorityId, AuthorityWeight)>) -> ModuleView {
        ModuleView {
            authorities,
            state: StoredState::Live,
            pending_change: None,
            sessions: Seq::empty(),
            history: Seq::empty(),
            pending_challenges: Seq::empty(),
            next_forced: None,
            stalled: None,
        }
    }

    /// The invariant of the challenge ledger: no two open sessions are for
    /// one block, and none is for a block whose session has run out.
    pub open spec fn wf(&self) -> bool {
        &&& distinct_blocks(self.sessions)
        &&& none_closed(self.sessions, self.history)
    }

    /// Whether the identities are unique in the authority set, and in the
    /// one that is to follow it. The library keeps this so as long as every
    /// set that it is given is so.
    pub open spec fn identities_unique(&self) -> bool {
        &&& unique_identities(self.authorities)
        &&& self.pending_change matches Some(change) ==> unique_identities(change.next_authorities)
    }

    /// What a request to pause gets: it is refused unless the authority set
    /// is live.
    pub open spec fn schedule_pause_verdict(&self) -> Result<(), Error> {
        if self.state == StoredState::Live {
            Ok(())
        } else {
            Err(Error::NotLive)
        }
    }

    /// What a request to resume gets: it is refused unless the authority
    /// set is paused.
    pub open spec fn schedule_resume_verdict(&self) -> Result<(), Error> {
        if self.state == StoredState::Paused {
            Ok(())
        } else {
            Err(Error::NotPaused)
        }
    }

    /// What a request to schedule a change gets in block `now`: it is
    /// refused while a change is pending, and a forced one also before the
    /// block that the last forced change has set.
    pub open spec fn schedule_change_verdict(
        &self,
        forced: Option<BlockNumber>,
        now: BlockNumber,
    ) -> Result<(), Error> {
        if self.pending_change is Some {
            Err(Error::ChangePending)
        } else if forced is Some && self.next_forced is Some && self.next_forced->0 > now {
            Err(Error::ForcedChangeTooSoon)
        } else {
            Ok(())
        }
    }

    /// Whether the block from which the next forced change is allowed has a
    /// number, where the request sets one: an accepted forced change needs
    /// the block twice its delay after `now`.
    pub open spec fn forced_window_fits(
        &self,
        in_blocks: BlockNumber,
        forced: Option<BlockNumber>,
        now: BlockNumber,
    ) -> bool {
        forced is Some && self.schedule_change_verdict(forced, now) is Ok ==> now + 2 * in_blocks
            <= u64::MAX
    }

    /// The store after a request to schedule a change in block `now`. An
    /// accepted request stores the change, and a forced one bars further
    /// forced changes until twice its delay has passed.
    pub open spec fn after_schedule_change(
        &self,
        next_authorities: Seq<(AuthorityId, AuthorityWeight)>,
        in_blocks: BlockNumber,
        forced: Option<BlockNumber>,
        now: BlockNumber,
    ) -> ModuleView {
        if self.schedule_change_verdict(forced, now) is Ok {
            ModuleView {
                pending_change: Some(
                    PendingChangeView {
                        scheduled_at: now,
                        delay: in_blocks,
                        next_authorities,
                        forced,
                    },
                ),
                next_forced: if forced is Some {
                    Some((now + 2 * in_blocks) as u64)
                } else {
                    self.next_forced
                },
                ..*self
            }
        } else {
            *self
        }
    }

    /// The store after a request to pause in block `now`.
    pub open spec fn after_schedule_pause(&self, in_blocks: BlockNumber, now: BlockNumber)
        -> ModuleView {
        if self.state == StoredState::Live {
            ModuleView {
                state: StoredState::PendingPause { scheduled_at: now, delay: in_blocks },
                ..*self
            }
        } else {
            *self
        }
    }

    /// The store after a request to resume in block `now`.
    pub open spec fn after_schedule_resume(&self, in_blocks: BlockNumber, now: BlockNumber)
        -> ModuleView {
        if self.state == StoredState::Paused {
            ModuleView {
                state: StoredState::PendingResume { scheduled_at: now, delay: in_blocks },
                ..*self
            }
        } else {
            *self
        }
    }

    /// The store after the notice of a stall.
    pub open spec fn after_stalled(&self, further_wait: BlockNumber, median: BlockNumber)
        -> ModuleView {
        ModuleView { stalled: Some((further_wait, median)), ..*self }
    }

    /// Whether the start of a session of validators in block `now` asks for
    /// no forced change whose window has no end: see `forced_window_fits`.
    pub open spec fn new_session_fits(
        &self,
        changed: bool,
        validators: Seq<(u64, AuthorityId)>,
        now: BlockNumber,
    ) -> bool {
        changed && session_authorities(validators) != self.authorities ==> (
        self.stalled matches Some((further_wait, median)) ==> self.forced_window_fits(
            further_wait,
            Some(median),
            now,
        ))
    }

    /// The store after the start of a session of validators in block `now`.
    /// Where the authorities differ from the current ones, a change is
    /// requested: a forced one with the parameters of a stall that was
    /// noted, which is thereby used up, or else one without delay.
    pub open spec fn after_new_session(
        &self,
        changed: bool,
        validators: Seq<(u64, AuthorityId)>,
        now: BlockNumber,
    ) -> ModuleView {
        let next_authorities = session_authorities(validators);
        if changed && next_authorities != self.authorities {
            match self.stalled {
                Some((further_wait, median)) => ModuleView {
                    stalled: None,
                    ..*self
                }.after_schedule_change(next_authorities, further_wait, Some(median), now),
                None => self.after_schedule_change(next_authorities, 0, None, now),
            }
        } else {
            *self
        }
    }
}

/// The authority set that a session of validators makes: its authorities in
/// their order, each with weight one.
pub open spec fn session_authorities(validators: Seq<(u64, AuthorityId)>) -> Seq<
    (AuthorityId, AuthorityWeight),
> {
    Seq::new(validators.len(), |i: int| (validators[i].1, 1u64))
}

impl Module {
    /// The store of a chain that starts with the given authorities.
    pub fn new(authorities: Vec<(AuthorityId, AuthorityWeight)>) -> (module: Module)
        ensures
            module@ == ModuleView::genesis(authorities@),
            module@.wf(),
            unique_identities(authorities@) ==> module@.identities_unique(),
    {
        let module = Module {
            authorities,
            state: StoredState::Live,
            pending_change: None,
            challenge_sessions: Vec::new(),
            historical_challenge_sessions: Vec::new(),
            pending_challenges: Vec::new(),
            next_forced: None,
            stalled: None,
        };
        assert(module@.sessions =~= Seq::empty());
        module
    }

    /// Schedule a pause of the authority set, `in_blocks` after the block
    /// `now`. Refused unless the authority set is live.
    pub fn schedule_pause(&mut self, in_blocks: BlockNumber, now: BlockNumber) -> (result: Result<
        (),
        Error,
    >)
        ensures
            result == old(self)@.schedule_pause_verdict(),
            final(self)@ == old(self)@.after_schedule_pause(in_blocks, now),
            old(self)@.wf() ==> final(self)@.wf(),
    {
        match self.state {
            StoredState::Live => {
                self.state = StoredState::PendingPause { scheduled_at: now, delay: in_blocks };
                Ok(())
            },
            _ => Err(Error::NotLive),
        }
    }

    /// Schedule a resume of the authority set, `in_blocks` after the block
    /// `now`. Refused unless the authority set is paused.
    pub fn schedule_resume(&mut self, in_blocks: BlockNumber, now: BlockNumber) -> (result: Result<
        (),
        Error,
    >)
        ensures
            result == old(self)@.schedule_resume_verdict(),
            final(self)@ == old(self)@.after_schedule_resume(in_blocks, now),
            old(self)@.wf() ==> final(self)@.wf(),
    {
        match self.state {
            StoredState::Paused => {
                self.state = StoredState::PendingResume { scheduled_at: now, delay: in_blocks };
                Ok(())
            },
            _ => Err(Error::NotPaused),
        }
    }

    /// Schedule a change in the authorities.
    ///
    /// The change will be applied at the end of execution of the block
    /// `in_blocks` after the block `now`. This value may be 0, in which case
    /// the change is applied at the end of the current block.
    ///
    /// If the `forced` parameter is defined, this indicates that the current
    /// set has been synchronously determined to be offline and that after
    /// `in_blocks` the given change should be applied. The given block
    /// number indicates the median last finalized block number and it should
    /// be used as the canon block when starting the new voter.
    ///
    /// No change should be signaled while any change is pending. Returns an
    /// error if a change is already pending.
    pub fn schedule_change(
        &mut self,
        next_authorities: Vec<(AuthorityId, AuthorityWeight)>,
        in_blocks: BlockNumber,
        forced: Option<BlockNumber>,
        now: BlockNumber,
    ) -> (result: Result<(), Error>)
        requires
            old(self)@.forced_window_fits(in_blocks, forced, now),
        ensures
            result == old(self)@.schedule_change_verdict(forced, now),
            final(self)@ == old(self)@.after_schedule_change(
                next_authorities@,
                in_blocks,
                forced,
                now,
            ),
            old(self)@.wf() ==> final(self)@.wf(),
            old(self)@.identities_unique() && unique_identities(next_authorities@)
                ==> final(self)@.identities_unique(),
    {
        if self.pending_change.is_some() {
            return Err(Error::ChangePending);
        }
        if forced.is_some() {
            match self.next_forced {
                Some(next) => {
                    if next > now {
                        return Err(Error::ForcedChangeTooSoon);
                    }
                },
                None => {},
            }
            // only allow the next forced change when twice the window has
            // passed since this one.
            self.next_forced = Some(now + in_blocks * 2);
        }
        self.pending_change = Some(
            StoredPendingChange { delay: in_blocks, scheduled_at: now, next_authorities, forced },
        );
        Ok(())
    }

    /// Schedules a change as `schedule_change` does, but gives `None` and
    /// changes nothing where a forced change would be accepted whose delay
    /// is so long that the block from which the next one is allowed has no
    /// number.
    pub fn try_schedule_change(
        &mut self,
        next_authorities: Vec<(AuthorityId, AuthorityWeight)>,
        in_blocks: BlockNumber,
        forced: Option<BlockNumber>,
        now: BlockNumber,
    ) -> (result: Option<Result<(), Error>>)
        ensures
            result == if old(self)@.forced_window_fits(in_blocks, forced, now) {
                Some(old(self)@.schedule_change_verdict(forced, now))
            } else {
                None
            },
            final(self)@ == if result is None {
                old(self)@
            } else {
                old(self)@.after_schedule_change(next_authorities@, in_blocks, forced, now)
            },
            old(self)@.wf() ==> final(self)@.wf(),
            old(self)@.identities_unique() && unique_identities(next_authorities@)
                ==> final(self)@.identities_unique(),
    {
        if forced.is_some() && self.pending_change.is_none() && (in_blocks > u64::MAX / 2 || now
            > u64::MAX - in_blocks * 2) {
            let throttled = match self.next_forced {
                Some(next) => next > now,
                None => false,
            };
            if !throttled {
                return None;
            }
        }
        Some(self.schedule_change(next_authorities, in_blocks, forced, now))
    }

    /// Notes that finality has stalled, for the next session of validators
    /// to act on.
    pub fn on_stalled(&mut self, further_wait: BlockNumber, median: BlockNumber)
        ensures
            final(self)@ == old(self)@.after_stalled(further_wait, median),
            old(self)@.wf() ==> final(self)@.wf(),
    {
        // when we record old authority sets, we can use the median to figure
        // out _who_ failed. until then, we can't meaningfully guard against
        // `next == last` the way that normal session changes do.
        self.stalled = Some((further_wait, median));
    }

    /// Takes up the validators of a new session, each an account with its
    /// authority, in block `now`.
    pub fn on_new_session(&mut self, changed: bool, validators: &Vec<(u64, AuthorityId)>, now:
        BlockNumber)
        requires
            old(self)@.new_session_fits(changed, validators@, now),
        ensures
            final(self)@ == old(self)@.after_new_session(changed, validators@, now),
            old(self)@.wf() ==> final(self)@.wf(),
            old(self)@.identities_unique() && unique_identities(session_authorities(validators@))
                ==> final(self)@.identities_unique(),
    {
        // instant changes
        if changed {
            let next_authorities = authorities_of_session(validators);
            if !same_authorities(&next_authorities, &self.authorities) {
                match self.stalled.take() {
                    Some((further_wait, median)) => {
                        let _ = self.schedule_change(
                            next_authorities,
                            further_wait,
                            Some(median),
                            now,
                        );
                    },
                    None => {
                        let _ = self.schedule_change(next_authorities, 0, None, now);
                    },
                }
            }
        }
    }

    /// Takes up the validators of a new session as `on_new_session` does,
    /// but gives `None` and changes nothing where that would accept a forced
    /// change whose delay is so long that the block from which the next one
    /// is allowed has no number.
    pub fn try_on_new_session(
        &mut self,
        changed: bool,
        validators: &Vec<(u64, AuthorityId)>,
        now: BlockNumber,
    ) -> (done: Option<()>)
        ensures
            done is Some <==> old(self)@.new_session_fits(changed, validators@, now),
            final(self)@ == if done is Some {
                old(self)@.after_new_session(changed, validators@, now)
            } else {
                old(self)@
            },
            old(self)@.wf() ==> final(self)@.wf(),
            old(self)@.identities_unique() && unique_identities(session_authorities(validators@))
                ==> final(self)@.identities_unique(),
    {
        if changed {
            match self.stalled {
                Some((further_wait, _)) => {
                    let throttled = match self.next_forced {
                        Some(next) => next > now,
                        None => false,
                    };
                    if self.pending_change.is_none() && !throttled && (further_wait > u64::MAX / 2
                        || now > u64::MAX - further_wait * 2) {
                        let next_authorities = authorities_of_session(validators);
                        if !same_authorities(&next_authorities, &self.authorities) {
                            return None;
                        }
                    }
                },
                None => {},
            }
        }
        self.on_new_session(changed, validators, now);
        Some(())
    }

    /// The entry of the consensus log that tells of a disabled authority.
    pub fn on_disabled(i: usize) -> (log: ConsensusLog)
        ensures
            log@ == crate::log::ConsensusLogView::OnDisabled(i as u64),
    {
        ConsensusLog::OnDisabled(i as u64)
    }

    /// The state of the current authority set.
    pub fn state(&self) -> (state: StoredState)
        ensures
            state == self@.state,
    {
        self.state
    }

    /// Whether a change of the authority set is pending.
    pub fn has_pending_change(&self) -> (pending: bool)
        ensures
            pending == self@.pending_change is Some,
    {
        self.pending_change.is_some()
    }

    /// Next block number where a change can be forced, if one was forced
    /// before.
    pub fn next_forced(&self) -> (next: Option<BlockNumber>)
        ensures
            next == self@.next_forced,
    {
        self.next_forced
    }

    /// The stall that was noted and not yet acted on.
    pub fn stalled(&self) -> (stalled: Option<(BlockNumber, BlockNumber)>)
        ensures
            stalled == self@.stalled,
    {
        self.stalled
    }

    /// Get the current set of authorities, along with their respective
    /// weights.
    pub fn grandpa_authorities(&self) -> (authorities: Vec<(AuthorityId, AuthorityWeight)>)
        ensures
            authorities@ == self@.authorities,
    {
        copy_authorities(&self.authorities)
    }
}

/// Makes the authority set of a session of validators.
pub fn authorities_of_session(validators: &Vec<(u64, AuthorityId)>) -> (authorities: Vec<
    (AuthorityId, AuthorityWeight),
>)
    ensures
        authorities@ == session_authorities(validators@),
{
    let mut authorities: Vec<(AuthorityId, AuthorityWeight)> = Vec::new();
    let mut i: usize = 0;
    while i < validators.len()
        invariant
            i <= validators.len(),
            authorities@ == session_authorities(validators@.take(i as int)),
        decreases validators.len() - i,
    {
        authorities.push((validators[i].1, 1));
        i += 1;
        assert(authorities@ =~= session_authorities(validators@.take(i as int)));
    }
    assert(validators@.take(validators.len() as int) =~= validators@);
    authorities
}

} // verus!
