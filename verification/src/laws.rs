//! What holds of the library as a whole: the laws that relate its
//! requests to each other and to the end of a block.

use vstd::prelude::*;
use crate::challenge::{Challenge, SessionView, StoredPendingChallenge};
use crate::equivocation::Equivocation;
use crate::error::Error;
use crate::finalize::{
    challenges_of, hashes_of, promoted, promoted_one, runs_out_at, stays_open_at,
};
use crate::ledger::{lemma_session_index, owners_proven};
use crate::log::ConsensusLogView;
use crate::primitives::{AuthorityId, AuthorityWeight, BlockHash, BlockNumber, OwnerId};
use crate::state::{is_due, PendingChangeView, StoredState};
use crate::store::{
    distinct_blocks, has_session, none_closed, session_authorities, session_index,
    unique_identities, ModuleView,
};

verus! {

/// While no change is pending, an accepted request to schedule one stores
/// exactly that change, and any further request is refused as already
/// pending and changes nothing.
pub proof fn lemma_one_change_at_a_time(
    store: ModuleView,
    next_authorities: Seq<(AuthorityId, AuthorityWeight)>,
    in_blocks: BlockNumber,
    forced: Option<BlockNumber>,
    now: BlockNumber,
    later_authorities: Seq<(AuthorityId, AuthorityWeight)>,
    later_in_blocks: BlockNumber,
    later_forced: Option<BlockNumber>,
    later: BlockNumber,
)
    requires
        store.pending_change is None,
        store.schedule_change_verdict(forced, now) is Ok,
    ensures
        store.after_schedule_change(next_authorities, in_blocks, forced, now).pending_change
            == Some(
            PendingChangeView { scheduled_at: now, delay: in_blocks, next_authorities, forced },
        ),
        store.after_schedule_change(
            next_authorities,
            in_blocks,
            forced,
            now,
        ).schedule_change_verdict(later_forced, later) == Err::<(), Error>(Error::ChangePending),
        store.after_schedule_change(next_authorities, in_blocks, forced, now).after_schedule_change(
            later_authorities,
            later_in_blocks,
            later_forced,
            later,
        ) == store.after_schedule_change(next_authorities, in_blocks, forced, now),
{
}

/// While no change is pending, a forced change is refused before the block
/// that the last forced change has set, and changes nothing; from that
/// block on, and where none was forced before, it is accepted and allows the
/// next one from the block twice its delay later.
pub proof fn lemma_forced_change_throttle(
    store: ModuleView,
    next_authorities: Seq<(AuthorityId, AuthorityWeight)>,
    in_blocks: BlockNumber,
    median: BlockNumber,
    now: BlockNumber,
)
    requires
        store.pending_change is None,
        store.forced_window_fits(in_blocks, Some(median), now),
    ensures
        (store.next_forced matches Some(next) && now < next) ==> {
            &&& store.schedule_change_verdict(Some(median), now) == Err::<(), Error>(
                Error::ForcedChangeTooSoon,
            )
            &&& store.after_schedule_change(next_authorities, in_blocks, Some(median), now)
                == store
        },
        !(store.next_forced matches Some(next) && now < next) ==> {
            &&& store.schedule_change_verdict(Some(median), now) is Ok
            &&& store.after_schedule_change(
                next_authorities,
                in_blocks,
                Some(median),
                now,
            ).next_forced == Some((now + 2 * in_blocks) as u64)
        },
{
}

/// The identities of the authority set stay unique, and those of the set
/// that is to follow it, as long as every set that is scheduled has unique
/// identities: through requests, sessions of validators and the end of a
/// block.
pub proof fn lemma_identities_stay_unique(
    store: ModuleView,
    next_authorities: Seq<(AuthorityId, AuthorityWeight)>,
    in_blocks: BlockNumber,
    forced: Option<BlockNumber>,
    changed: bool,
    validators: Seq<(u64, AuthorityId)>,
    now: BlockNumber,
    parent_hash: BlockHash,
)
    requires
        store.identities_unique(),
    ensures
        unique_identities(next_authorities) ==> store.after_schedule_change(
            next_authorities,
            in_blocks,
            forced,
            now,
        ).identities_unique(),
        unique_identities(session_authorities(validators)) ==> store.after_new_session(
            changed,
            validators,
            now,
        ).identities_unique(),
        store.after_finalize(now, parent_hash).identities_unique(),
{
}

/// A pause is accepted exactly when the authority set is live, and a resume
/// exactly when it is paused; a refused request changes nothing.
pub proof fn lemma_pause_and_resume_in_turn(
    store: ModuleView,
    in_blocks: BlockNumber,
    now: BlockNumber,
)
    ensures
        store.schedule_pause_verdict() is Ok <==> store.state == StoredState::Live,
        store.schedule_pause_verdict() is Err ==> store.after_schedule_pause(in_blocks, now)
            == store,
        store.schedule_resume_verdict() is Ok <==> store.state == StoredState::Paused,
        store.schedule_resume_verdict() is Err ==> store.after_schedule_resume(in_blocks, now)
            == store,
{
}

/// The end of a block moves the state of the authority set only from a
/// pending pause to paused and from a pending resume to live, and only in
/// the block that is the delay after the one that scheduled it.
pub proof fn lemma_pending_state_takes_effect(
    store: ModuleView,
    now: BlockNumber,
    parent_hash: BlockHash,
)
    ensures
        store.after_finalize(now, parent_hash).state == match store.state {
            StoredState::PendingPause { scheduled_at, delay } => if now == scheduled_at + delay {
                StoredState::Paused
            } else {
                store.state
            },
            StoredState::PendingResume { scheduled_at, delay } => if now == scheduled_at + delay {
                StoredState::Live
            } else {
                store.state
            },
            _ => store.state,
        },
{
}

/// The states follow each other in a cycle: a live authority set that is
/// asked to pause is paused when the delay has passed, and one that is then
/// asked to resume is live again when that delay has passed.
pub proof fn lemma_lifecycle_cycle(
    store: ModuleView,
    pause_at: BlockNumber,
    pause_delay: BlockNumber,
    resume_at: BlockNumber,
    resume_delay: BlockNumber,
    parent_hash: BlockHash,
)
    requires
        store.state == StoredState::Live,
        pause_at + pause_delay <= u64::MAX,
        resume_at + resume_delay <= u64::MAX,
    ensures
        ({
            let pausing = store.after_schedule_pause(pause_delay, pause_at);
            let paused = pausing.after_finalize((pause_at + pause_delay) as u64, parent_hash);
            let resuming = paused.after_schedule_resume(resume_delay, resume_at);
            let resumed = resuming.after_finalize((resume_at + resume_delay) as u64, parent_hash);
            &&& pausing.state == StoredState::PendingPause {
                scheduled_at: pause_at,
                delay: pause_delay,
            }
            &&& paused.state == StoredState::Paused
            &&& resuming.state == StoredState::PendingResume {
                scheduled_at: resume_at,
                delay: resume_delay,
            }
            &&& resumed.state == StoredState::Live
        }),
{
}

/// Two votes that say the same prove no equivocation, whatever their
/// signatures.
pub proof fn lemma_equal_votes_prove_nothing(
    equivocation: Equivocation,
    first_signed: bool,
    second_signed: bool,
)
    requires
        equivocation.first.message == equivocation.second.message,
    ensures
        !equivocation.proves(first_signed, second_signed),
{
}

/// Two votes of the round that say different things, both signed by the
/// authority, prove an equivocation.
pub proof fn lemma_double_vote_proves(equivocation: Equivocation)
    requires
        equivocation.rounds_agree(),
        equivocation.first.message != equivocation.second.message,
    ensures
        equivocation.proves(true, true),
{
}

/// The order of the two votes does not matter.
pub proof fn lemma_vote_order_is_irrelevant(
    equivocation: Equivocation,
    first_signed: bool,
    second_signed: bool,
)
    ensures
        equivocation.proves(first_signed, second_signed) == (Equivocation {
            first: equivocation.second,
            second: equivocation.first,
            ..equivocation
        }).proves(second_signed, first_signed),
{
}

/// A challenge that names an open session whose round is not below its own
/// leaves the session as it is, with all the rest; and where it is an
/// answer, of a greater round than the claim it answers, it is refused.
pub proof fn lemma_answer_needs_greater_round(
    store: ModuleView,
    challenge: Challenge,
    owners: Seq<Option<OwnerId>>,
)
    requires
        challenge.previous_challenge is Some,
        has_session(store.sessions, challenge.previous_challenge->0),
        store.sessions[session_index(
            store.sessions,
            challenge.previous_challenge->0,
            0,
        )].rejecting_set_round >= challenge.rejecting_set.round,
    ensures
        challenge.rejecting_set.round > challenge.finalized_block_proof.round
            ==> store.challenge_verdict(challenge, owners) is Err,
        store.after_challenge(challenge, owners) == store,
{
}

/// An answer to an open session is accepted where it has a greater round
/// than the session and than the claim it answers, every voter it names has
/// a proof that holds, and the session of its own block has not run out. It
/// closes the session it answers and joins the queue.
pub proof fn lemma_answer_of_greater_round_is_accepted(
    store: ModuleView,
    challenge: Challenge,
    owners: Seq<Option<OwnerId>>,
)
    requires
        challenge.targets_proof is Some,
        challenge.targets_proof->0@.len() == challenge.targets@.len(),
        owners_proven(challenge, owners),
        challenge.rejecting_set.round > challenge.finalized_block_proof.round,
        challenge.previous_challenge is Some,
        has_session(store.sessions, challenge.previous_challenge->0),
        store.sessions[session_index(
            store.sessions,
            challenge.previous_challenge->0,
            0,
        )].rejecting_set_round < challenge.rejecting_set.round,
        !store.history.contains(challenge.finalized_block.hash),
    ensures
        store.challenge_verdict(challenge, owners) is Ok,
        store.after_challenge(challenge, owners).sessions == store.sessions.remove(
            session_index(store.sessions, challenge.previous_challenge->0, 0),
        ),
        store.after_challenge(challenge, owners).pending_challenges
            == store.pending_challenges.push(StoredPendingChallenge { challenge }),
{
}

/// In a block with no other challenge, in which no change, pause or resume
/// is scheduled, the log holds exactly the challenge where it has joined
/// the queue, and nothing where it has not.
pub proof fn lemma_queued_challenge_is_announced(
    store: ModuleView,
    challenge: Challenge,
    owners: Seq<Option<OwnerId>>,
    now: BlockNumber,
)
    requires
        store.pending_challenges.len() == 0,
        store.change_log(now) is None,
        store.lifecycle_log(now) is None,
    ensures
        store.after_challenge(challenge, owners).finalize_outcome(now).logs == if store.queues(
            challenge,
            owners,
        ) {
            seq![ConsensusLogView::Challenges(seq![challenge])]
        } else {
            Seq::empty()
        },
{
    let after = store.after_challenge(challenge, owners);
    let logs = after.finalize_outcome(now).logs;
    assert(after.change_log(now) is None);
    assert(after.lifecycle_log(now) is None);
    if store.queues(challenge, owners) {
        assert(after.pending_challenges =~= seq![StoredPendingChallenge { challenge }]);
        assert(challenges_of(after.pending_challenges) =~= seq![challenge]);
        assert(logs =~= seq![ConsensusLogView::Challenges(seq![challenge])]);
    } else {
        assert(logs =~= Seq::empty());
    }
}

/// Once a session has run out, an answer to it is refused: no session is
/// open for its block any more.
pub proof fn lemma_answer_after_expiry_is_refused(
    store: ModuleView,
    now: BlockNumber,
    parent_hash: BlockHash,
    i: int,
    challenge: Challenge,
    owners: Seq<Option<OwnerId>>,
)
    requires
        store.wf(),
        0 <= i < store.sessions.len(),
        is_due(store.sessions[i].scheduled_at, store.sessions[i].delay, now),
        challenge.previous_challenge == Some(store.sessions[i].challenge_hash),
        challenge.rejecting_set.round > challenge.finalized_block_proof.round,
    ensures
        !has_session(
            store.after_finalize(now, parent_hash).sessions,
            store.sessions[i].challenge_hash,
        ),
        store.after_finalize(now, parent_hash).challenge_verdict(challenge, owners) is Err,
        store.after_finalize(now, parent_hash).after_challenge(challenge, owners)
            == store.after_finalize(now, parent_hash),
{
    lemma_expired_is_recorded(store, now, parent_hash, i);
    lemma_finalize_keeps_ledger(store, now, parent_hash);
}

/// A refused challenge changes nothing.
pub proof fn lemma_refused_challenge_changes_nothing(
    store: ModuleView,
    challenge: Challenge,
    owners: Seq<Option<OwnerId>>,
)
    requires
        store.challenge_verdict(challenge, owners) is Err,
    ensures
        store.after_challenge(challenge, owners) == store,
{
}

/// A challenge closes no session but the one it answers, and that one only
/// with a greater round.
pub proof fn lemma_challenge_closes_by_rule(
    store: ModuleView,
    challenge: Challenge,
    owners: Seq<Option<OwnerId>>,
    i: int,
)
    requires
        0 <= i < store.sessions.len(),
    ensures
        store.after_challenge(challenge, owners).sessions.contains(store.sessions[i]) || {
            &&& challenge.previous_challenge == Some(store.sessions[i].challenge_hash)
            &&& store.sessions[i].rejecting_set_round < challenge.rejecting_set.round
            &&& store.challenge_verdict(challenge, owners) is Ok
        },
{
    let after = store.after_challenge(challenge, owners);
    if store.queues(challenge, owners) && challenge.previous_challenge is Some {
        let previous = challenge.previous_challenge->0;
        let at = session_index(store.sessions, previous, 0);
        lemma_session_index(store.sessions, previous, 0);
        if i < at {
            assert(after.sessions[i] == store.sessions[i]);
        } else if i > at {
            assert(after.sessions[i - 1] == store.sessions[i]);
        }
    } else {
        assert(after.sessions[i] == store.sessions[i]);
    }
}

/// What is kept of a list was in the list and passes the test.
pub proof fn lemma_kept_was_there<T>(list: Seq<T>, keep: spec_fn(T) -> bool, k: int) -> (i: int)
    requires
        0 <= k < list.filter(keep).len(),
    ensures
        0 <= i < list.len(),
        list[i] == list.filter(keep)[k],
        keep(list[i]),
    decreases list.len(),
{
    reveal(Seq::filter);
    let rest = list.drop_last();
    if keep(list.last()) && k == rest.filter(keep).len() {
        list.len() - 1
    } else {
        lemma_kept_was_there(rest, keep, k)
    }
}

/// What passes the test is kept.
pub proof fn lemma_passing_is_kept<T>(list: Seq<T>, keep: spec_fn(T) -> bool, i: int)
    requires
        0 <= i < list.len(),
        keep(list[i]),
    ensures
        list.filter(keep).contains(list[i]),
{
    list.lemma_filter_contains(keep, i);
}

/// Sessions for different blocks stay so when some are left out.
pub proof fn lemma_kept_are_distinct(sessions: Seq<SessionView>, keep: spec_fn(SessionView) -> bool)
    requires
        distinct_blocks(sessions),
    ensures
        distinct_blocks(sessions.filter(keep)),
    decreases sessions.len(),
{
    reveal(Seq::filter);
    if sessions.len() > 0 {
        let rest = sessions.drop_last();
        assert(distinct_blocks(rest)) by {
            assert forall|i: int, j: int| 0 <= i < j < rest.len() implies (
            #[trigger] rest[i]).challenge_hash != (#[trigger] rest[j]).challenge_hash by {
                assert(sessions[i].challenge_hash != sessions[j].challenge_hash);
            }
        }
        lemma_kept_are_distinct(rest, keep);
        let kept = sessions.filter(keep);
        assert forall|a: int, b: int| 0 <= a < b < kept.len() implies (
        #[trigger] kept[a]).challenge_hash != (#[trigger] kept[b]).challenge_hash by {
            if b == rest.filter(keep).len() {
                let i = lemma_kept_was_there(rest, keep, a);
                assert(sessions[i].challenge_hash != sessions[sessions.len() - 1].challenge_hash);
            }
        }
    }
}

/// Whether `after` is the session `before` or one that has taken its place:
/// a session for the same block with a greater round.
pub open spec fn same_or_superseded(before: SessionView, after: SessionView) -> bool {
    after == before || (after.challenge_hash == before.challenge_hash
        && after.rejecting_set_round > before.rejecting_set_round)
}

/// Taking up a challenge keeps each open session in its place, or puts in
/// its place one for the same block with a greater round, and keeps the
/// invariant of the ledger.
pub proof fn lemma_promoted_one_keeps_ledger(
    sessions: Seq<SessionView>,
    history: Seq<BlockHash>,
    challenge: Challenge,
    now: BlockNumber,
    parent_hash: BlockHash,
)
    requires
        distinct_blocks(sessions),
        none_closed(sessions, history),
    ensures
        distinct_blocks(promoted_one(sessions, history, challenge, now, parent_hash)),
        none_closed(promoted_one(sessions, history, challenge, now, parent_hash), history),
        sessions.len() <= promoted_one(sessions, history, challenge, now, parent_hash).len(),
        forall|i: int|
            0 <= i < sessions.len() ==> same_or_superseded(
                sessions[i],
                #[trigger] promoted_one(sessions, history, challenge, now, parent_hash)[i],
            ),
{
    let hash = challenge.finalized_block.hash;
    let after = promoted_one(sessions, history, challenge, now, parent_hash);
    lemma_session_index(sessions, hash, 0);
    if !history.contains(hash) && has_session(sessions, hash) {
        let at = session_index(sessions, hash, 0);
        let k = choose|k: int| 0 <= k < sessions.len() && (#[trigger] sessions[k]).challenge_hash
            == hash;
        assert(at < sessions.len());
        assert forall|i: int, j: int| 0 <= i < j < after.len() implies (
        #[trigger] after[i]).challenge_hash != (#[trigger] after[j]).challenge_hash by {
            assert(sessions[i].challenge_hash != sessions[j].challenge_hash);
        }
        assert forall|i: int| 0 <= i < after.len() implies !history.contains(
            (#[trigger] after[i]).challenge_hash,
        ) by {
            assert(!history.contains(sessions[i].challenge_hash));
        }
    }
}

/// Taking up the challenges of the queue keeps each open session in its
/// place, or puts in its place one for the same block with a greater round,
/// and keeps the invariant of the ledger.
pub proof fn lemma_promoted_keeps_ledger(
    sessions: Seq<SessionView>,
    history: Seq<BlockHash>,
    pending: Seq<StoredPendingChallenge>,
    now: BlockNumber,
    parent_hash: BlockHash,
    n: nat,
)
    requires
        distinct_blocks(sessions),
        none_closed(sessions, history),
    ensures
        distinct_blocks(promoted(sessions, history, pending, now, parent_hash, n)),
        none_closed(promoted(sessions, history, pending, now, parent_hash, n), history),
        sessions.len() <= promoted(sessions, history, pending, now, parent_hash, n).len(),
        forall|i: int|
            0 <= i < sessions.len() ==> same_or_superseded(
                sessions[i],
                #[trigger] promoted(sessions, history, pending, now, parent_hash, n)[i],
            ),
    decreases n,
{
    if n != 0 && n <= pending.len() {
        let before = promoted(sessions, history, pending, now, parent_hash, (n - 1) as nat);
        lemma_promoted_keeps_ledger(sessions, history, pending, now, parent_hash, (n - 1) as nat);
        lemma_promoted_one_keeps_ledger(before, history, pending[n - 1].challenge, now, parent_hash);
        let after = promoted(sessions, history, pending, now, parent_hash, n);
        assert forall|i: int| 0 <= i < sessions.len() implies same_or_superseded(
            sessions[i],
            #[trigger] after[i],
        ) by {
            assert(same_or_superseded(sessions[i], before[i]));
            assert(same_or_superseded(before[i], after[i]));
        }
    }
}

/// The end of a block closes no session but those that run out in it, and
/// puts nothing in the place of a session that stays open but a session for
/// the same block with a greater round.
pub proof fn lemma_finalize_closes_by_rule(
    store: ModuleView,
    now: BlockNumber,
    parent_hash: BlockHash,
    i: int,
)
    requires
        store.wf(),
        0 <= i < store.sessions.len(),
    ensures
        is_due(store.sessions[i].scheduled_at, store.sessions[i].delay, now) || exists|k: int|
            0 <= k < store.after_finalize(now, parent_hash).sessions.len() && same_or_superseded(
                store.sessions[i],
                #[trigger] store.after_finalize(now, parent_hash).sessions[k],
            ),
{
    let session = store.sessions[i];
    if !is_due(session.scheduled_at, session.delay, now) {
        let open = store.sessions.filter(stays_open_at(now));
        lemma_passing_is_kept(store.sessions, stays_open_at(now), i);
        let k = choose|k: int| 0 <= k < open.len() && open[k] == session;
        lemma_kept_are_distinct(store.sessions, stays_open_at(now));
        lemma_open_are_not_closed(store, now);
        lemma_promoted_keeps_ledger(
            open,
            store.history_after(now),
            store.pending_challenges,
            now,
            parent_hash,
            store.pending_challenges.len(),
        );
        assert(same_or_superseded(session, store.after_finalize(now, parent_hash).sessions[k]));
    }
}

/// None of the sessions that stay open at the end of a block is for a block
/// whose session has run out, in that block or before.
pub proof fn lemma_open_are_not_closed(store: ModuleView, now: BlockNumber)
    requires
        store.wf(),
    ensures
        none_closed(store.sessions.filter(stays_open_at(now)), store.history_after(now)),
{
    let open = store.sessions.filter(stays_open_at(now));
    let closed = store.sessions.filter(runs_out_at(now));
    assert forall|k: int| 0 <= k < open.len() implies !store.history_after(now).contains(
        (#[trigger] open[k]).challenge_hash,
    ) by {
        let i = lemma_kept_was_there(store.sessions, stays_open_at(now), k);
        if store.history_after(now).contains(open[k].challenge_hash) {
            let at = choose|at: int|
                0 <= at < store.history_after(now).len() && store.history_after(now)[at]
                    == open[k].challenge_hash;
            if at < store.history.len() {
                assert(store.history[at] == open[k].challenge_hash);
                assert(store.history.contains(store.sessions[i].challenge_hash));
            } else {
                let c = at - store.history.len();
                assert(hashes_of(closed)[c] == closed[c].challenge_hash);
                let j = lemma_kept_was_there(store.sessions, runs_out_at(now), c);
                if i < j {
                    assert(store.sessions[i].challenge_hash != store.sessions[j].challenge_hash);
                } else if j < i {
                    assert(store.sessions[j].challenge_hash != store.sessions[i].challenge_hash);
                }
            }
        }
    }
}

/// A block whose session has run out stays in the list of such blocks: no
/// request and no end of a block takes it out.
pub proof fn lemma_history_only_grows(
    store: ModuleView,
    challenge: Challenge,
    owners: Seq<Option<OwnerId>>,
    now: BlockNumber,
    parent_hash: BlockHash,
    hash: BlockHash,
)
    requires
        store.history.contains(hash),
    ensures
        store.after_challenge(challenge, owners).history.contains(hash),
        store.after_finalize(now, parent_hash).history.contains(hash),
{
    let at = choose|at: int| 0 <= at < store.history.len() && store.history[at] == hash;
    assert(store.history_after(now)[at] == hash);
}

/// A session that runs out at the end of a block puts its block on the list
/// of those whose session has run out.
pub proof fn lemma_expired_is_recorded(
    store: ModuleView,
    now: BlockNumber,
    parent_hash: BlockHash,
    i: int,
)
    requires
        0 <= i < store.sessions.len(),
        is_due(store.sessions[i].scheduled_at, store.sessions[i].delay, now),
    ensures
        store.finalize_outcome(now).expired.contains(store.sessions[i]),
        store.after_finalize(now, parent_hash).history.contains(store.sessions[i].challenge_hash),
{
    let closed = store.sessions.filter(runs_out_at(now));
    lemma_passing_is_kept(store.sessions, runs_out_at(now), i);
    let k = choose|k: int| 0 <= k < closed.len() && closed[k] == store.sessions[i];
    assert(hashes_of(closed)[k] == store.sessions[i].challenge_hash);
    assert(store.history_after(now)[store.history.len() + k] == store.sessions[i].challenge_hash);
}

/// A challenge about a block whose session has run out never joins the
/// queue, and changes nothing.
pub proof fn lemma_closed_block_is_refused(
    store: ModuleView,
    challenge: Challenge,
    owners: Seq<Option<OwnerId>>,
)
    requires
        store.history.contains(challenge.finalized_block.hash),
    ensures
        !store.queues(challenge, owners),
        challenge.rejecting_set.round > challenge.finalized_block_proof.round
            ==> store.challenge_verdict(challenge, owners) is Err,
        store.after_challenge(challenge, owners) == store,
{
}

/// A challenge keeps the invariant of the ledger.
pub proof fn lemma_challenge_keeps_ledger(
    store: ModuleView,
    challenge: Challenge,
    owners: Seq<Option<OwnerId>>,
)
    requires
        store.wf(),
    ensures
        store.after_challenge(challenge, owners).wf(),
{
    let after = store.after_challenge(challenge, owners);
    if store.queues(challenge, owners) && challenge.previous_challenge is Some {
        let at = session_index(store.sessions, challenge.previous_challenge->0, 0);
        lemma_session_index(store.sessions, challenge.previous_challenge->0, 0);
        assert forall|i: int, j: int| 0 <= i < j < after.sessions.len() implies (
        #[trigger] after.sessions[i]).challenge_hash != (
        #[trigger] after.sessions[j]).challenge_hash by {
            let a = if i < at {
                i
            } else {
                i + 1
            };
            let b = if j < at {
                j
            } else {
                j + 1
            };
            assert(store.sessions[a].challenge_hash != store.sessions[b].challenge_hash);
        }
        assert forall|i: int| 0 <= i < after.sessions.len() implies !after.history.contains(
            (#[trigger] after.sessions[i]).challenge_hash,
        ) by {
            let a = if i < at {
                i
            } else {
                i + 1
            };
            assert(!store.history.contains(store.sessions[a].challenge_hash));
        }
    }
}

/// The end of a block keeps the invariant of the ledger: in particular no
/// session is open afterwards for a block whose session has run out, not
/// even for a challenge that was accepted before it ran out.
pub proof fn lemma_finalize_keeps_ledger(store: ModuleView, now: BlockNumber, parent_hash: BlockHash)
    requires
        store.wf(),
    ensures
        store.after_finalize(now, parent_hash).wf(),
{
    lemma_kept_are_distinct(store.sessions, stays_open_at(now));
    lemma_open_are_not_closed(store, now);
    lemma_promoted_keeps_ledger(
        store.sessions.filter(stays_open_at(now)),
        store.history_after(now),
        store.pending_challenges,
        now,
        parent_hash,
        store.pending_challenges.len(),
    );
}

/// The store of a new chain meets the invariant of the ledger.
pub proof fn lemma_genesis_is_well_formed(authorities: Seq<(AuthorityId, AuthorityWeight)>)
    ensures
        ModuleView::genesis(authorities).wf(),
{
}

} // verus!
