//! The end of a block: the step that enacts what is due, in a fixed order,
//! and tells what it has done.

use vstd::prelude::*;
use crate::challenge::{
    open_session, session_of, Challenge, SessionView, StoredChallengeSession,
    StoredPendingChallenge,
};
use crate::laws::lemma_finalize_keeps_ledger;
use crate::ledger::{contains_hash, find_session};
use crate::log::{
    ConsensusLog, ConsensusLogView, Event, EventView, ScheduledChange, ScheduledChangeView,
};
use crate::primitives::{copy_authorities, BlockHash, BlockNumber};
use crate::state::{check_due, is_due, StoredState};
use crate::store::{has_session, session_index, session_views, Module, ModuleView};

verus! {

/// What the end of a block has done.
#[derive(Clone, Debug, PartialEq, Eq)]
pub struct FinalizeOutcome {
    /// The entries for the consensus log, in the order of the steps that
    /// made them.
    pub logs: Vec<ConsensusLog>,
    /// The events to deposit.
    pub events: Vec<Event>,
    /// The sessions that have run out unanswered: each is the signal to
    /// slash its voters.
    pub expired: Vec<StoredChallengeSession>,
}

/// What the outcome of the end of a block holds.
pub struct FinalizeOutcomeView {
    pub logs: Seq<ConsensusLogView>,
    pub events: Seq<EventView>,
    pub expired: Seq<SessionView>,
}

/// What a list of log entries holds.
pub open spec fn log_views(logs: Seq<ConsensusLog>) -> Seq<ConsensusLogView> {
    logs.map_values(|log: ConsensusLog| log@)
}

/// What a list of events holds.
pub open spec fn event_views(events: Seq<Event>) -> Seq<EventView> {
    events.map_values(|event: Event| event@)
}

impl View for FinalizeOutcome {
    type V = FinalizeOutcomeView;

    open spec fn view(&self) -> FinalizeOutcomeView {
        FinalizeOutcomeView {
            logs: log_views(self.logs@),
            events: event_views(self.events@),
            expired: session_views(self.expired@),
        }
    }
}

/// The list of what is there: one item or none.
pub open spec fn item<T>(option: Option<T>) -> Seq<T> {
    match option {
        Some(value) => seq![value],
        None => Seq::empty(),
    }
}

/// The test for a session to run out at the end of block `now`.
pub open spec fn runs_out_at(now: BlockNumber) -> spec_fn(SessionView) -> bool {
    |session: SessionView| is_due(session.scheduled_at, session.delay, now)
}

/// The test for a session to stay open at the end of block `now`.
pub open spec fn stays_open_at(now: BlockNumber) -> spec_fn(SessionView) -> bool {
    |session: SessionView| !is_due(session.scheduled_at, session.delay, now)
}

/// The blocks that the given sessions are about.
pub open spec fn hashes_of(sessions: Seq<SessionView>) -> Seq<BlockHash> {
    sessions.map_values(|session: SessionView| session.challenge_hash)
}

/// The challenges that wait in the queue.
pub open spec fn challenges_of(pending: Seq<StoredPendingChallenge>) -> Seq<Challenge> {
    pending.map_values(|pending: StoredPendingChallenge| pending.challenge)
}

/// The open sessions after a challenge has been taken up in block `now`.
/// The challenge opens a session for its block, which takes the place of
/// the open session of that block where that has a lesser round. It opens
/// none where the block's session has run out before, nor where the open
/// session of the block has no lesser round.
pub open spec fn promoted_one(
    sessions: Seq<SessionView>,
    history: Seq<BlockHash>,
    challenge: Challenge,
    now: BlockNumber,
    parent_hash: BlockHash,
) -> Seq<SessionView> {
    let hash = challenge.finalized_block.hash;
    let at = session_index(sessions, hash, 0);
    if history.contains(hash) {
        sessions
    } else if !has_session(sessions, hash) {
        sessions.push(session_of(challenge, now, parent_hash))
    } else if sessions[at].rejecting_set_round < challenge.rejecting_set.round {
        sessions.update(at, session_of(challenge, now, parent_hash))
    } else {
        sessions
    }
}

/// The open sessions after the first `n` challenges of the queue have been
/// taken up in block `now`, one after the other.
pub open spec fn promoted(
    sessions: Seq<SessionView>,
    history: Seq<BlockHash>,
    pending: Seq<StoredPendingChallenge>,
    now: BlockNumber,
    parent_hash: BlockHash,
    n: nat,
) -> Seq<SessionView>
    decreases n,
{
    if n == 0 || n > pending.len() {
        sessions
    } else {
        promoted_one(
            promoted(sessions, history, pending, now, parent_hash, (n - 1) as nat),
            history,
            pending[n - 1].challenge,
            now,
            parent_hash,
        )
    }
}

impl ModuleView {
    /// Whether the pending change is to be enacted at the end of block
    /// `now`.
    pub open spec fn change_due(&self, now: BlockNumber) -> bool {
        self.pending_change matches Some(change) && is_due(change.scheduled_at, change.delay, now)
    }

    /// The entry that announces the pending change, in the block that
    /// scheduled it.
    pub open spec fn change_log(&self, now: BlockNumber) -> Option<ConsensusLogView> {
        match self.pending_change {
            Some(change) => if now == change.scheduled_at {
                let scheduled = ScheduledChangeView {
                    next_authorities: change.next_authorities,
                    delay: change.delay,
                };
                match change.forced {
                    Some(median) => Some(ConsensusLogView::ForcedChange(median, scheduled)),
                    None => Some(ConsensusLogView::ScheduledChange(scheduled)),
                }
            } else {
                None
            },
            None => None,
        }
    }

    /// The entry that carries the challenges accepted in the block.
    pub open spec fn challenges_log(&self) -> Option<ConsensusLogView> {
        if self.pending_challenges.len() > 0 {
            Some(ConsensusLogView::Challenges(challenges_of(self.pending_challenges)))
        } else {
            None
        }
    }

    /// The entry that announces a pause or a resume, in the block that
    /// scheduled it.
    pub open spec fn lifecycle_log(&self, now: BlockNumber) -> Option<ConsensusLogView> {
        match self.state {
            StoredState::PendingPause { scheduled_at, delay } => if now == scheduled_at {
                Some(ConsensusLogView::Pause(delay))
            } else {
                None
            },
            StoredState::PendingResume { scheduled_at, delay } => if now == scheduled_at {
                Some(ConsensusLogView::Resume(delay))
            } else {
                None
            },
            _ => None,
        }
    }

    /// The state of the authority set after the end of block `now`: a
    /// pending pause or resume takes effect when its delay has passed.
    pub open spec fn state_after(&self, now: BlockNumber) -> StoredState {
        match self.state {
            StoredState::PendingPause { scheduled_at, delay } => if is_due(
                scheduled_at,
                delay,
                now,
            ) {
                StoredState::Paused
            } else {
                self.state
            },
            StoredState::PendingResume { scheduled_at, delay } => if is_due(
                scheduled_at,
                delay,
                now,
            ) {
                StoredState::Live
            } else {
                self.state
            },
            _ => self.state,
        }
    }

    /// The event of a pause or a resume that takes effect at the end of
    /// block `now`.
    pub open spec fn lifecycle_event(&self, now: BlockNumber) -> Option<EventView> {
        match self.state {
            StoredState::PendingPause { scheduled_at, delay } => if is_due(
                scheduled_at,
                delay,
                now,
            ) {
                Some(EventView::Paused)
            } else {
                None
            },
            StoredState::PendingResume { scheduled_at, delay } => if is_due(
                scheduled_at,
                delay,
                now,
            ) {
                Some(EventView::Resumed)
            } else {
                None
            },
            _ => None,
        }
    }

    /// The blocks whose session has run out, after the end of block `now`.
    pub open spec fn history_after(&self, now: BlockNumber) -> Seq<BlockHash> {
        self.history + hashes_of(self.sessions.filter(runs_out_at(now)))
    }

    /// The store after the end of block `now`, whose parent is
    /// `parent_hash`: a change of the authority set that is due is enacted;
    /// the sessions that run out are closed for good; the challenges of the
    /// queue open their sessions, and the queue is emptied; a pause or a
    /// resume that is due takes effect.
    pub open spec fn after_finalize(&self, now: BlockNumber, parent_hash: BlockHash)
        -> ModuleView {
        ModuleView {
            authorities: if self.change_due(now) {
                self.pending_change->0.next_authorities
            } else {
                self.authorities
            },
            state: self.state_after(now),
            pending_change: if self.change_due(now) {
                None
            } else {
                self.pending_change
            },
            sessions: promoted(
                self.sessions.filter(stays_open_at(now)),
                self.history_after(now),
                self.pending_challenges,
                now,
                parent_hash,
                self.pending_challenges.len(),
            ),
            history: self.history_after(now),
            pending_challenges: Seq::empty(),
            next_forced: self.next_forced,
            stalled: self.stalled,
        }
    }

    /// What the end of block `now` tells: at most one log entry of each
    /// step, in the order of the steps; the events of what took effect; and
    /// the sessions that ran out.
    pub open spec fn finalize_outcome(&self, now: BlockNumber) -> FinalizeOutcomeView {
        FinalizeOutcomeView {
            logs: item(self.change_log(now)) + item(self.challenges_log()) + item(
                self.lifecycle_log(now),
            ),
            events: item(
                if self.change_due(now) {
                    Some(EventView::NewAuthorities(self.pending_change->0.next_authorities))
                } else {
                    None
                },
            ) + item(self.lifecycle_event(now)),
            expired: self.sessions.filter(runs_out_at(now)),
        }
    }
}

/// Filtering one item more keeps it or leaves it out.
proof fn lemma_filter_next<T>(list: Seq<T>, keep: spec_fn(T) -> bool, i: int)
    requires
        0 <= i < list.len(),
    ensures
        list.take(i + 1).filter(keep) == if keep(list[i]) {
            list.take(i).filter(keep).push(list[i])
        } else {
            list.take(i).filter(keep)
        },
{
    reveal(Seq::filter);
    assert(list.take(i + 1).drop_last() =~= list.take(i));
}

impl Module {
    /// Enacts the pending change of the authority set where it is due, and
    /// announces it in the block that scheduled it.
    fn advance_change(&mut self, now: BlockNumber, outcome: &mut FinalizeOutcome)
        requires
            old(outcome).logs@.len() == 0,
            old(outcome).events@.len() == 0,
        ensures
            final(self)@ == (ModuleView {
                authorities: if old(self)@.change_due(now) {
                    old(self)@.pending_change->0.next_authorities
                } else {
                    old(self)@.authorities
                },
                pending_change: if old(self)@.change_due(now) {
                    None
                } else {
                    old(self)@.pending_change
                },
                ..old(self)@
            }),
            final(self).challenge_sessions == old(self).challenge_sessions,
            final(outcome).expired == old(outcome).expired,
            log_views(final(outcome).logs@) == item(old(self)@.change_log(now)),
            event_views(final(outcome).events@) == item(
                if old(self)@.change_due(now) {
                    Some(EventView::NewAuthorities(old(self)@.pending_change->0.next_authorities))
                } else {
                    None
                },
            ),
    {
        match self.pending_change.take() {
            Some(change) => {
                // emit signal if we're at the block that scheduled the change
                if now == change.scheduled_at {
                    let scheduled = ScheduledChange {
                        delay: change.delay,
                        next_authorities: copy_authorities(&change.next_authorities),
                    };
                    match change.forced {
                        Some(median) => {
                            outcome.logs.push(ConsensusLog::ForcedChange(median, scheduled));
                        },
                        None => {
                            outcome.logs.push(ConsensusLog::ScheduledChange(scheduled));
                        },
                    }
                }
                // enact the change if we've reached the enacting block
                if check_due(change.scheduled_at, change.delay, now) {
                    self.authorities = copy_authorities(&change.next_authorities);
                    outcome.events.push(Event::NewAuthorities(change.next_authorities));
                } else {
                    self.pending_change = Some(change);
                }
            },
            None => {},
        }
        assert(log_views(outcome.logs@) =~= item(old(self)@.change_log(now)));
        assert(event_views(outcome.events@) =~= item(
            if old(self)@.change_due(now) {
                Some(EventView::NewAuthorities(old(self)@.pending_change->0.next_authorities))
            } else {
                None
            },
        ));
    }

    /// Closes the sessions that run out at the end of block `now`.
    fn expire_sessions(&mut self, now: BlockNumber, outcome: &mut FinalizeOutcome)
        requires
            old(outcome).expired@.len() == 0,
        ensures
            final(self)@ == (ModuleView {
                sessions: old(self)@.sessions.filter(stays_open_at(now)),
                history: old(self)@.history_after(now),
                ..old(self)@
            }),
            session_views(final(outcome).expired@) == old(self)@.sessions.filter(runs_out_at(now)),
            final(outcome).logs == old(outcome).logs,
            final(outcome).events == old(outcome).events,
    {
        let mut sessions: Vec<StoredChallengeSession> = Vec::new();
        core::mem::swap(&mut sessions, &mut self.challenge_sessions);
        let ghost all = session_views(sessions@);
        let ghost history = self.historical_challenge_sessions@;
        let ghost before = *self;
        let mut i: usize = 0;
        let total = sessions.len();
        proof {
            // nothing is sorted yet
            reveal(Seq::filter);
            assert(all.take(0) =~= Seq::empty());
            assert(hashes_of(Seq::<SessionView>::empty()) =~= Seq::empty());
            assert(history + Seq::<BlockHash>::empty() =~= history);
            assert(session_views(self.challenge_sessions@) =~= Seq::empty());
            assert(session_views(outcome.expired@) =~= Seq::empty());
        }
        while i < total
            invariant
                i <= total == all.len(),
                sessions@.len() == total - i,
                session_views(sessions@) == all.skip(i as int),
                session_views(self.challenge_sessions@) == all.take(i as int).filter(
                    stays_open_at(now),
                ),
                session_views(outcome.expired@) == all.take(i as int).filter(runs_out_at(now)),
                self.historical_challenge_sessions@ == history + hashes_of(
                    all.take(i as int).filter(runs_out_at(now)),
                ),
                outcome.logs == old(outcome).logs,
                outcome.events == old(outcome).events,
                self.authorities == before.authorities,
                self.state == before.state,
                self.pending_change == before.pending_change,
                self.pending_challenges == before.pending_challenges,
                self.next_forced == before.next_forced,
                self.stalled == before.stalled,
            decreases total - i,
        {
            let ghost rest = sessions@;
            let ghost open = self.challenge_sessions@;
            let ghost closed = outcome.expired@;
            let session = sessions.remove(0);
            proof {
                lemma_filter_next(all, stays_open_at(now), i as int);
                lemma_filter_next(all, runs_out_at(now), i as int);
                assert(session_views(rest)[0] == rest[0]@);
                assert(session@ == all.skip(i as int)[0]);
                assert(session_views(sessions@) =~= session_views(rest).remove(0));
                assert(all.skip(i as int).remove(0) =~= all.skip(i as int + 1));
            }
            if check_due(session.scheduled_at, session.delay, now) {
                self.historical_challenge_sessions.push(session.challenge_hash);
                outcome.expired.push(session);
                proof {
                    assert(session_views(outcome.expired@) =~= session_views(closed).push(session@));
                    assert(self.historical_challenge_sessions@ =~= history + hashes_of(
                        all.take(i as int + 1).filter(runs_out_at(now)),
                    ));
                }
            } else {
                self.challenge_sessions.push(session);
                proof {
                    assert(session_views(self.challenge_sessions@) =~= session_views(open).push(
                        session@,
                    ));
                }
            }
            i += 1;
        }
        assert(all.take(total as int) =~= all);
    }

    /// Opens the sessions of the challenges in the queue, announces the
    /// challenges, and empties the queue.
    fn promote_challenges(
        &mut self,
        now: BlockNumber,
        parent_hash: BlockHash,
        outcome: &mut FinalizeOutcome,
    )
        ensures
            final(self)@ == (ModuleView {
                sessions: promoted(
                    old(self)@.sessions,
                    old(self)@.history,
                    old(self)@.pending_challenges,
                    now,
                    parent_hash,
                    old(self)@.pending_challenges.len(),
                ),
                pending_challenges: Seq::empty(),
                ..old(self)@
            }),
            log_views(final(outcome).logs@) == log_views(old(outcome).logs@) + item(
                old(self)@.challenges_log(),
            ),
            final(outcome).events == old(outcome).events,
            final(outcome).expired == old(outcome).expired,
    {
        let mut pending: Vec<StoredPendingChallenge> = Vec::new();
        core::mem::swap(&mut pending, &mut self.pending_challenges);
        let ghost queue = pending@;
        let ghost before = *self;
        let ghost first = session_views(self.challenge_sessions@);
        if pending.len() > 0 {
            // Store challenge sessions.
            let mut i: usize = 0;
            while i < pending.len()
                invariant
                    i <= pending.len(),
                    pending@ == queue,
                    session_views(self.challenge_sessions@) == promoted(
                        first,
                        before.historical_challenge_sessions@,
                        queue,
                        now,
                        parent_hash,
                        i as nat,
                    ),
                    self.authorities == before.authorities,
                    self.state == before.state,
                    self.pending_change == before.pending_change,
                    self.historical_challenge_sessions == before.historical_challenge_sessions,
                    self.pending_challenges == before.pending_challenges,
                    self.next_forced == before.next_forced,
                    self.stalled == before.stalled,
                decreases pending.len() - i,
            {
                let ghost open = self.challenge_sessions@;
                let hash = pending[i].challenge.finalized_block.hash;
                if !contains_hash(&self.historical_challenge_sessions, &hash) {
                    let at = find_session(&self.challenge_sessions, &hash);
                    if at >= self.challenge_sessions.len() {
                        let session = open_session(&pending[i].challenge, now, parent_hash);
                        self.challenge_sessions.push(session);
                        proof {
                            assert(session_views(self.challenge_sessions@) =~= session_views(
                                open,
                            ).push(session@));
                        }
                    } else if self.challenge_sessions[at].rejecting_set_round
                        < pending[i].challenge.rejecting_set.round {
                        let session = open_session(&pending[i].challenge, now, parent_hash);
                        self.challenge_sessions.set(at, session);
                        proof {
                            assert(session_views(self.challenge_sessions@) =~= session_views(
                                open,
                            ).update(at as int, session@));
                        }
                    }
                }
                i += 1;
            }
            // Push a digest item with the challenges.
            let mut challenges: Vec<Challenge> = Vec::new();
            let total = pending.len();
            let mut k: usize = 0;
            assert(challenges_of(queue.take(0)) =~= Seq::empty());
            while k < total
                invariant
                    k <= total == queue.len(),
                    pending@ == queue.skip(k as int),
                    challenges@ == challenges_of(queue.take(k as int)),
                decreases total - k,
            {
                let entry = pending.remove(0);
                challenges.push(entry.challenge);
                k += 1;
                proof {
                    assert(pending@ =~= queue.skip(k as int));
                    assert(challenges@ =~= challenges_of(queue.take(k as int)));
                }
            }
            assert(queue.take(total as int) =~= queue);
            let ghost logs = outcome.logs@;
            outcome.logs.push(ConsensusLog::Challenges(challenges));
            assert(log_views(outcome.logs@) =~= log_views(logs) + item(
                old(self)@.challenges_log(),
            ));
        } else {
            assert(log_views(outcome.logs@) =~= log_views(outcome.logs@) + item(
                old(self)@.challenges_log(),
            ));
        }
        assert(self.pending_challenges@ =~= Seq::empty());
    }

    /// Lets a pause or a resume take effect where it is due, and announces
    /// it in the block that scheduled it.
    fn advance_state(&mut self, now: BlockNumber, outcome: &mut FinalizeOutcome)
        ensures
            final(self)@ == (ModuleView { state: old(self)@.state_after(now), ..old(self)@ }),
            log_views(final(outcome).logs@) == log_views(old(outcome).logs@) + item(
                old(self)@.lifecycle_log(now),
            ),
            event_views(final(outcome).events@) == event_views(old(outcome).events@) + item(
                old(self)@.lifecycle_event(now),
            ),
            final(outcome).expired == old(outcome).expired,
    {
        let ghost logs = outcome.logs@;
        let ghost events = outcome.events@;
        match self.state {
            StoredState::PendingPause { scheduled_at, delay } => {
                // signal change to pause
                if now == scheduled_at {
                    outcome.logs.push(ConsensusLog::Pause(delay));
                }
                // enact change to paused state
                if check_due(scheduled_at, delay, now) {
                    self.state = StoredState::Paused;
                    outcome.events.push(Event::Paused);
                }
            },
            StoredState::PendingResume { scheduled_at, delay } => {
                // signal change to resume
                if now == scheduled_at {
                    outcome.logs.push(ConsensusLog::Resume(delay));
                }
                // enact change to live state
                if check_due(scheduled_at, delay, now) {
                    self.state = StoredState::Live;
                    outcome.events.push(Event::Resumed);
                }
            },
            _ => {},
        }
        assert(log_views(outcome.logs@) =~= log_views(logs) + item(
            old(self)@.lifecycle_log(now),
        ));
        assert(event_views(outcome.events@) =~= event_views(events) + item(
            old(self)@.lifecycle_event(now),
        ));
    }

    /// Ends the block `now`, whose parent is `parent_hash`. To be called
    /// once per block, after all its requests.
    pub fn on_finalize(&mut self, now: BlockNumber, parent_hash: BlockHash) -> (outcome:
        FinalizeOutcome)
        ensures
            final(self)@ == old(self)@.after_finalize(now, parent_hash),
            outcome@ == old(self)@.finalize_outcome(now),
            old(self)@.wf() ==> final(self)@.wf(),
            old(self)@.identities_unique() ==> final(self)@.identities_unique(),
    {
        proof {
            if old(self)@.wf() {
                lemma_finalize_keeps_ledger(old(self)@, now, parent_hash);
            }
        }
        let mut outcome = FinalizeOutcome {
            logs: Vec::new(),
            events: Vec::new(),
            expired: Vec::new(),
        };
        // check for scheduled pending authority set changes
        self.advance_change(now, &mut outcome);
        // Clean expired challenges (and maybe slash).
        self.expire_sessions(now, &mut outcome);
        // Process pending challenges.
        self.promote_challenges(now, parent_hash, &mut outcome);
        // check for scheduled pending state changes
        self.advance_state(now, &mut outcome);
        outcome
    }
}

} // verus!
