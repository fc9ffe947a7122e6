use srml_grandpa::error::Error;
use srml_grandpa::log::{ConsensusLog, Event, ScheduledChange};
use srml_grandpa::primitives::{AuthorityId, BlockHash};
use srml_grandpa::state::{StoredPendingChange, StoredState};
use srml_grandpa::store::Module;

fn id(n: u8) -> AuthorityId {
    AuthorityId([n; 32])
}

fn set(ids: &[u8]) -> Vec<(AuthorityId, u64)> {
    ids.iter().map(|n| (id(*n), 1)).collect()
}

fn parent() -> BlockHash {
    BlockHash([0; 32])
}

#[test]
fn instant_change_without_delay_is_enacted_in_its_block() {
    let mut module = Module::new(set(&[1, 2, 3, 4]));
    assert_eq!(module.schedule_change(set(&[1, 2, 3]), 0, None, 5), Ok(()));
    assert_eq!(module.grandpa_authorities().len(), 4);

    let outcome = module.on_finalize(5, parent());
    assert_eq!(
        outcome.logs,
        vec![ConsensusLog::ScheduledChange(ScheduledChange {
            next_authorities: set(&[1, 2, 3]),
            delay: 0,
        })]
    );
    assert_eq!(outcome.events, vec![Event::NewAuthorities(set(&[1, 2, 3]))]);
    assert_eq!(module.grandpa_authorities(), set(&[1, 2, 3]));
    assert_eq!(module.pending_change, None);
}

#[test]
fn delayed_change_is_announced_once_and_enacted_later() {
    let mut module = Module::new(set(&[1, 2]));
    assert_eq!(module.schedule_change(set(&[3]), 2, None, 7), Ok(()));

    let outcome = module.on_finalize(7, parent());
    assert_eq!(outcome.logs.len(), 1);
    assert!(outcome.events.is_empty());
    assert_eq!(module.grandpa_authorities(), set(&[1, 2]));

    let outcome = module.on_finalize(8, parent());
    assert!(outcome.logs.is_empty());
    assert!(outcome.events.is_empty());
    assert!(module.pending_change.is_some());

    let outcome = module.on_finalize(9, parent());
    assert!(outcome.logs.is_empty());
    assert_eq!(outcome.events, vec![Event::NewAuthorities(set(&[3]))]);
    assert_eq!(module.grandpa_authorities(), set(&[3]));
    assert_eq!(module.pending_change, None);
}

#[test]
fn second_change_is_refused_while_one_is_pending() {
    let mut module = Module::new(set(&[1, 2]));
    assert_eq!(module.schedule_change(set(&[3]), 4, None, 1), Ok(()));
    let stored = module.clone();

    assert_eq!(module.schedule_change(set(&[4]), 1, None, 1), Err(Error::ChangePending));
    assert_eq!(module.schedule_change(set(&[4]), 1, Some(0), 2), Err(Error::ChangePending));
    assert_eq!(module, stored);
    assert_eq!(
        module.pending_change,
        Some(StoredPendingChange {
            scheduled_at: 1,
            delay: 4,
            next_authorities: set(&[3]),
            forced: None,
        })
    );
}

#[test]
fn forced_change_is_throttled() {
    let mut module = Module::new(set(&[1, 2, 3]));
    assert_eq!(module.schedule_change(set(&[1, 2]), 4, Some(8), 10), Ok(()));
    assert_eq!(module.next_forced, Some(18));

    let outcome = module.on_finalize(10, parent());
    assert_eq!(
        outcome.logs,
        vec![ConsensusLog::ForcedChange(
            8,
            ScheduledChange { next_authorities: set(&[1, 2]), delay: 4 }
        )]
    );

    // a second attempt at height 12 fails
    assert!(module.schedule_change(set(&[1]), 4, Some(9), 12).is_err());

    let outcome = module.on_finalize(14, parent());
    assert_eq!(outcome.events, vec![Event::NewAuthorities(set(&[1, 2]))]);

    // the change is enacted, but the throttle still holds
    let stored = module.clone();
    assert_eq!(
        module.schedule_change(set(&[1]), 4, Some(9), 17),
        Err(Error::ForcedChangeTooSoon)
    );
    assert_eq!(module, stored);

    // an instant change is not throttled
    let mut other = module.clone();
    assert_eq!(other.schedule_change(set(&[1]), 4, None, 17), Ok(()));
    assert_eq!(other.next_forced, Some(18));

    // one at height 19 succeeds
    assert_eq!(module.schedule_change(set(&[1]), 4, Some(9), 19), Ok(()));
    assert_eq!(module.next_forced, Some(27));
}

#[test]
fn forced_change_is_allowed_at_the_throttle_height() {
    let mut module = Module::new(set(&[1, 2, 3]));
    module.next_forced = Some(18);
    assert_eq!(module.schedule_change(set(&[1]), 3, Some(9), 18), Ok(()));
    assert_eq!(module.next_forced, Some(24));
}

#[test]
fn try_schedule_change_refuses_a_delay_without_a_throttle_height() {
    let mut module = Module::new(set(&[1, 2, 3]));
    let stored = module.clone();
    assert_eq!(module.try_schedule_change(set(&[1]), u64::MAX / 2 + 1, Some(0), 0), None);
    assert_eq!(module.try_schedule_change(set(&[1]), 2, Some(0), u64::MAX - 3), None);
    assert_eq!(module, stored);
    assert_eq!(module.try_schedule_change(set(&[1]), 2, Some(0), u64::MAX - 4), Some(Ok(())));
    assert_eq!(module.next_forced, Some(u64::MAX));
    assert_eq!(
        module.try_schedule_change(set(&[1]), u64::MAX, None, u64::MAX),
        Some(Err(Error::ChangePending))
    );
    // a request that is refused anyway sets no throttle height
    assert_eq!(
        module.try_schedule_change(set(&[1]), u64::MAX, Some(0), u64::MAX),
        Some(Err(Error::ChangePending))
    );
    let _ = module.on_finalize(u64::MAX - 2, parent());
    assert_eq!(module.pending_change, None);
    assert_eq!(
        module.try_schedule_change(set(&[1]), u64::MAX, Some(0), u64::MAX - 1),
        Some(Err(Error::ForcedChangeTooSoon))
    );
    assert_eq!(module.try_schedule_change(set(&[1]), u64::MAX, Some(0), u64::MAX), None);
    assert_eq!(module.try_schedule_change(set(&[1]), u64::MAX, None, u64::MAX), Some(Ok(())));
}

#[test]
fn lifecycle_goes_round() {
    let mut module = Module::new(set(&[1]));
    assert_eq!(module.state, StoredState::Live);

    assert_eq!(module.schedule_resume(1, 1), Err(Error::NotPaused));
    assert_eq!(module.schedule_pause(2, 1), Ok(()));
    assert_eq!(module.state, StoredState::PendingPause { scheduled_at: 1, delay: 2 });
    assert_eq!(module.schedule_pause(2, 1), Err(Error::NotLive));
    assert_eq!(module.schedule_resume(2, 1), Err(Error::NotPaused));
    assert_eq!(module.state, StoredState::PendingPause { scheduled_at: 1, delay: 2 });

    let outcome = module.on_finalize(1, parent());
    assert_eq!(outcome.logs, vec![ConsensusLog::Pause(2)]);
    assert!(outcome.events.is_empty());
    let outcome = module.on_finalize(2, parent());
    assert!(outcome.logs.is_empty());
    assert_eq!(module.state, StoredState::PendingPause { scheduled_at: 1, delay: 2 });
    let outcome = module.on_finalize(3, parent());
    assert!(outcome.logs.is_empty());
    assert_eq!(outcome.events, vec![Event::Paused]);
    assert_eq!(module.state, StoredState::Paused);

    assert_eq!(module.schedule_pause(1, 4), Err(Error::NotLive));
    assert_eq!(module.state, StoredState::Paused);
    assert_eq!(module.schedule_resume(0, 4), Ok(()));
    assert_eq!(module.state, StoredState::PendingResume { scheduled_at: 4, delay: 0 });
    assert_eq!(module.schedule_resume(0, 4), Err(Error::NotPaused));
    assert_eq!(module.schedule_pause(0, 4), Err(Error::NotLive));

    let outcome = module.on_finalize(4, parent());
    assert_eq!(outcome.logs, vec![ConsensusLog::Resume(0)]);
    assert_eq!(outcome.events, vec![Event::Resumed]);
    assert_eq!(module.state, StoredState::Live);
}

#[test]
fn pending_pause_does_not_wrap_around() {
    let mut module = Module::new(set(&[1]));
    assert_eq!(module.schedule_pause(u64::MAX, 5), Ok(()));
    let _ = module.on_finalize(4, parent());
    assert_eq!(module.state, StoredState::PendingPause { scheduled_at: 5, delay: u64::MAX });
}

#[test]
fn new_session_schedules_an_instant_change() {
    let mut module = Module::new(set(&[1, 2, 3]));
    let same = vec![(10, id(1)), (11, id(2)), (12, id(3))];
    let other = vec![(10, id(1)), (11, id(2)), (12, id(4))];

    module.on_new_session(false, &other, 3);
    assert_eq!(module.pending_change, None);
    module.on_new_session(true, &same, 3);
    assert_eq!(module.pending_change, None);

    module.on_new_session(true, &other, 3);
    assert_eq!(
        module.pending_change,
        Some(StoredPendingChange {
            scheduled_at: 3,
            delay: 0,
            next_authorities: set(&[1, 2, 4]),
            forced: None,
        })
    );
    assert_eq!(module.next_forced, None);
}

#[test]
fn new_session_uses_up_a_stall() {
    let mut module = Module::new(set(&[1, 2, 3]));
    module.on_stalled(6, 2);
    assert_eq!(module.stalled, Some((6, 2)));

    // nothing changes: the stall is kept
    module.on_new_session(true, &vec![(10, id(1)), (11, id(2)), (12, id(3))], 4);
    assert_eq!(module.stalled, Some((6, 2)));

    module.on_new_session(true, &vec![(10, id(1))], 4);
    assert_eq!(module.stalled, None);
    assert_eq!(
        module.pending_change,
        Some(StoredPendingChange {
            scheduled_at: 4,
            delay: 6,
            next_authorities: set(&[1]),
            forced: Some(2),
        })
    );
    assert_eq!(module.next_forced, Some(16));
}

#[test]
fn new_session_is_not_taken_up_without_a_throttle_height() {
    let mut module = Module::new(set(&[1, 2, 3]));
    module.on_stalled(u64::MAX / 2 + 1, 2);
    let stored = module.clone();

    // a forced change would be accepted, but its window has no end
    assert_eq!(module.try_on_new_session(true, &vec![(10, id(1))], 4), None);
    assert_eq!(module, stored);

    // nothing is asked for where the set stays, or has not changed
    let same = vec![(10, id(1)), (11, id(2)), (12, id(3))];
    assert_eq!(module.try_on_new_session(true, &same, 4), Some(()));
    assert_eq!(module.try_on_new_session(false, &vec![(10, id(1))], 4), Some(()));
    assert_eq!(module, stored);

    // a forced change that is refused anyway sets no throttle height
    let mut throttled = stored.clone();
    throttled.next_forced = Some(5);
    assert_eq!(throttled.try_on_new_session(true, &vec![(10, id(1))], 4), Some(()));
    assert_eq!(throttled.stalled, None);
    assert_eq!(throttled.pending_change, None);
    assert_eq!(throttled.next_forced, Some(5));

    // a window that ends at the last block is taken
    let mut module = Module::new(set(&[1, 2, 3]));
    module.on_stalled(3, 2);
    assert_eq!(module.try_on_new_session(true, &vec![(10, id(1))], u64::MAX - 5), None);
    assert_eq!(module.try_on_new_session(true, &vec![(10, id(1))], u64::MAX - 6), Some(()));
    assert_eq!(module.next_forced, Some(u64::MAX));
    assert_eq!(module.stalled, None);
}

#[test]
fn new_session_loses_the_stall_when_refused() {
    let mut module = Module::new(set(&[1, 2, 3]));
    assert_eq!(module.schedule_change(set(&[2]), 9, None, 1), Ok(()));
    module.on_stalled(6, 2);
    module.on_new_session(true, &vec![(10, id(1))], 4);
    assert_eq!(module.stalled, None);
    assert_eq!(module.next_forced, None);
    assert_eq!(module.pending_change.map(|change| change.next_authorities), Some(set(&[2])));
}

#[test]
fn store_answers_what_it_holds() {
    let mut module = Module::new(set(&[1, 2]));
    assert_eq!(module.state(), StoredState::Live);
    assert!(!module.has_pending_change());
    assert_eq!(module.next_forced(), None);
    assert_eq!(module.stalled(), None);
    assert_eq!(module.schedule_change(set(&[3]), 2, Some(1), 7), Ok(()));
    module.on_stalled(3, 4);
    assert_eq!(module.schedule_pause(1, 7), Ok(()));
    assert_eq!(module.state(), StoredState::PendingPause { scheduled_at: 7, delay: 1 });
    assert!(module.has_pending_change());
    assert_eq!(module.next_forced(), Some(11));
    assert_eq!(module.stalled(), Some((3, 4)));
    assert_eq!(module.grandpa_authorities(), set(&[1, 2]));
}

#[test]
fn disabled_authority_is_logged() {
    assert_eq!(Module::on_disabled(3), ConsensusLog::OnDisabled(3));
}

#[test]
fn every_error_has_its_message() {
    assert_eq!(
        Error::ChangePending.message(),
        "Attempt to signal GRANDPA change with one already pending."
    );
    assert_eq!(
        Error::ForcedChangeTooSoon.message(),
        "Cannot signal forced change so soon after last."
    );
    assert_eq!(
        Error::MissingEquivocationProof.message(),
        "Equivocation does not have inclusion proof"
    );
    assert_eq!(
        Error::MissingChallengeProof.message(),
        "Challenge does not have proof of inclusion"
    );
    assert_eq!(Error::BadSessionKeyProof.message(), "Bad session key proof");
    assert_eq!(Error::InvalidFinalityProof.message(), "Invalid proof of finalized block");
    assert!(Error::NotLive.message().starts_with("Attempt to signal GRANDPA pause"));
    assert!(Error::NotPaused.message().starts_with("Attempt to signal GRANDPA resume"));
    let rest = [
        Error::NotEquivocation,
        Error::RoundTooLow,
        Error::UnknownChallenge,
        Error::RoundNotGreater,
        Error::ChallengeClosed,
    ];
    for (i, one) in rest.iter().enumerate() {
        assert!(!one.message().is_empty());
        for other in &rest[i + 1..] {
            assert_ne!(one.message(), other.message());
        }
    }
}
