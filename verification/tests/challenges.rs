use srml_grandpa::challenge::{
    Challenge, StoredChallengeSession, StoredPendingChallenge, CHALLENGE_SESSION_LENGTH,
};
use srml_grandpa::config::Trait;
use srml_grandpa::digest::deposit_logs;
use srml_grandpa::error::Error;
use srml_grandpa::log::ConsensusLog;
use srml_grandpa::primitives::{AuthorityId, Block, BlockHash};
use srml_grandpa::store::Module;
use srml_grandpa::votes::{ChallengedVote, Header, Message, VoteKind, VoteSet};

struct Host;

impl Trait for Host {
    fn check_proof(&self, key: &AuthorityId, proof: &Vec<u8>) -> Option<u64> {
        if proof.len() == 1 && proof[0] == key.0[0] {
            Some(key.0[0] as u64)
        } else {
            None
        }
    }

    fn verify_signature(&self, _: &Vec<u8>, _: &Vec<u8>, _: &AuthorityId) -> bool {
        false
    }
}

fn id(n: u8) -> AuthorityId {
    AuthorityId([n; 32])
}

fn hash(n: u8) -> BlockHash {
    BlockHash([n; 32])
}

fn block(n: u8, number: u64) -> Block {
    Block { hash: hash(n), number }
}

fn vote(voter: u8, kind: VoteKind, target: Block) -> ChallengedVote {
    ChallengedVote {
        vote: Message { kind, target_hash: target.hash, target_number: target.number },
        authority: id(voter),
        signature: vec![],
    }
}

fn votes(round: u64, kind: VoteKind, cast: &[(u8, Block)]) -> VoteSet {
    VoteSet {
        round,
        votes: cast.iter().map(|(voter, target)| vote(*voter, kind, *target)).collect(),
        headers: vec![Header { hash: hash(20), parent_hash: hash(10), number: 2 }],
    }
}

fn authorities() -> Vec<(AuthorityId, u64)> {
    vec![(id(1), 1), (id(2), 1), (id(3), 1), (id(4), 1)]
}

/// A challenge of the finality of block 10, with the given rounds.
fn challenge(round_s: u64, round_b: u64, previous: Option<BlockHash>) -> Challenge {
    let disputed = block(10, 1);
    Challenge {
        finalized_block: disputed,
        finalized_block_proof: votes(
            round_b,
            VoteKind::Precommit,
            &[(1, disputed), (2, disputed), (3, disputed)],
        ),
        rejecting_set: votes(round_s, VoteKind::Prevote, &[(1, disputed), (4, disputed)]),
        previous_challenge: previous,
        targets: vec![id(1), id(2)],
        targets_proof: Some(vec![vec![1], vec![2]]),
    }
}

fn session(n: u8, round: u64, scheduled_at: u64) -> StoredChallengeSession {
    StoredChallengeSession {
        rejecting_set_round: round,
        challenge_hash: hash(n),
        reference_block: block(n, 1),
        parent_hash: hash(0),
        scheduled_at,
        delay: CHALLENGE_SESSION_LENGTH,
        voters: vec![id(1), id(4)],
    }
}

#[test]
fn challenge_needs_proofs_of_ownership() {
    let mut module = Module::new(authorities());
    let stored = module.clone();

    let mut missing = challenge(6, 5, None);
    missing.targets_proof = None;
    assert_eq!(module.report_rejecting_set(&Host, missing), Err(Error::MissingChallengeProof));

    let mut short = challenge(6, 5, None);
    short.targets_proof = Some(vec![vec![1]]);
    assert_eq!(module.report_rejecting_set(&Host, short), Err(Error::MissingChallengeProof));

    let mut long = challenge(6, 5, None);
    long.targets_proof = Some(vec![vec![1], vec![2], vec![3]]);
    assert_eq!(module.report_rejecting_set(&Host, long), Err(Error::MissingChallengeProof));

    let mut bad = challenge(6, 5, None);
    bad.targets_proof = Some(vec![vec![1], vec![3]]);
    assert_eq!(module.report_rejecting_set(&Host, bad), Err(Error::BadSessionKeyProof));

    assert_eq!(module, stored);

    // the answers of the host decide, one for each voter
    assert_eq!(
        module.judge_challenge(&challenge(6, 5, None), &vec![Some(1)]),
        Err(Error::BadSessionKeyProof)
    );
    assert_eq!(
        module.judge_challenge(&challenge(6, 5, None), &vec![Some(1), None]),
        Err(Error::BadSessionKeyProof)
    );
    assert_eq!(module.judge_challenge(&challenge(6, 5, None), &vec![Some(1), Some(2)]), Ok(()));
}

#[test]
fn challenge_with_a_lower_round_is_refused() {
    let mut module = Module::new(authorities());
    let stored = module.clone();
    assert_eq!(
        module.report_rejecting_set(&Host, challenge(4, 5, None)),
        Err(Error::RoundTooLow)
    );
    assert_eq!(module, stored);
}

#[test]
fn challenge_of_the_same_round_checks_both_sets() {
    let mut module = Module::new(authorities());
    let stored = module.clone();
    // both sets agree on the disputed block, or on none: nothing is queued
    assert_eq!(module.report_rejecting_set(&Host, challenge(5, 5, None)), Ok(()));
    assert_eq!(module, stored);
}

#[test]
fn challenge_of_the_same_round_with_another_ghost_is_invalid() {
    let mut module = Module::new(authorities());
    let stored = module.clone();
    let descendant = block(20, 2);

    // the rejecting set agrees on a descendant of the disputed block
    let mut rejecting = challenge(5, 5, None);
    rejecting.rejecting_set = votes(
        5,
        VoteKind::Prevote,
        &[(1, descendant), (2, descendant), (3, descendant)],
    );
    assert_eq!(
        module.report_rejecting_set(&Host, rejecting),
        Err(Error::InvalidFinalityProof)
    );

    // so does the proof of finality
    let mut proving = challenge(5, 5, None);
    proving.finalized_block_proof = votes(
        5,
        VoteKind::Precommit,
        &[(1, descendant), (2, descendant), (4, descendant)],
    );
    assert_eq!(module.report_rejecting_set(&Host, proving), Err(Error::InvalidFinalityProof));

    assert_eq!(module, stored);
    assert!(module.challenge_sessions.is_empty());
    let outcome = module.on_finalize(1, hash(0));
    assert!(outcome.logs.is_empty());
    assert!(module.challenge_sessions.is_empty());
}

#[test]
fn challenge_with_a_greater_round_is_queued_and_opens_a_session() {
    let mut module = Module::new(authorities());
    assert_eq!(module.report_rejecting_set(&Host, challenge(6, 5, None)), Ok(()));
    assert_eq!(
        module.pending_challenges,
        vec![StoredPendingChallenge { challenge: challenge(6, 5, None) }]
    );
    assert!(module.challenge_sessions.is_empty());

    let outcome = module.on_finalize(100, hash(9));
    assert_eq!(outcome.logs, vec![ConsensusLog::Challenges(vec![challenge(6, 5, None)])]);
    assert!(outcome.expired.is_empty());
    assert!(module.pending_challenges.is_empty());
    assert_eq!(
        module.challenge_sessions,
        vec![StoredChallengeSession {
            rejecting_set_round: 6,
            challenge_hash: hash(10),
            reference_block: block(10, 1),
            parent_hash: hash(9),
            scheduled_at: 100,
            delay: 50,
            voters: vec![id(1), id(4)],
        }]
    );
}

#[test]
fn session_runs_out_and_is_archived() {
    let mut module = Module::new(authorities());
    assert_eq!(module.report_rejecting_set(&Host, challenge(6, 5, None)), Ok(()));
    let _ = module.on_finalize(100, hash(9));
    let open = module.challenge_sessions.clone();
    assert_eq!(open.len(), 1);

    for now in 101..150 {
        let outcome = module.on_finalize(now, hash(9));
        assert!(outcome.expired.is_empty());
        assert_eq!(module.challenge_sessions, open);
        assert!(module.historical_challenge_sessions.is_empty());
    }

    let outcome = module.on_finalize(150, hash(9));
    assert_eq!(outcome.expired, open);
    assert_eq!(outcome.expired[0].voters, vec![id(1), id(4)]);
    assert!(outcome.logs.is_empty());
    assert!(module.challenge_sessions.is_empty());
    assert_eq!(module.historical_challenge_sessions, vec![hash(10)]);
}

#[test]
fn archived_session_is_never_opened_again() {
    let mut module = Module::new(authorities());
    assert_eq!(module.report_rejecting_set(&Host, challenge(6, 5, None)), Ok(()));
    let _ = module.on_finalize(100, hash(9));
    let _ = module.on_finalize(150, hash(9));
    let stored = module.clone();

    // the identical challenge
    assert_eq!(
        module.report_rejecting_set(&Host, challenge(6, 5, None)),
        Err(Error::ChallengeClosed)
    );
    // and one of a greater round
    assert_eq!(
        module.report_rejecting_set(&Host, challenge(9, 5, None)),
        Err(Error::ChallengeClosed)
    );
    assert_eq!(module, stored);

    let _ = module.on_finalize(151, hash(9));
    assert!(module.challenge_sessions.is_empty());
    assert_eq!(module.historical_challenge_sessions, vec![hash(10)]);
}

#[test]
fn challenge_queued_before_its_session_ran_out_opens_none() {
    let mut module = Module::new(authorities());
    module.challenge_sessions.push(session(10, 6, 100));
    // accepted in block 150, in which the session of the block runs out
    assert_eq!(module.report_rejecting_set(&Host, challenge(7, 5, None)), Ok(()));
    let outcome = module.on_finalize(150, hash(9));
    assert_eq!(outcome.expired, vec![session(10, 6, 100)]);
    assert_eq!(outcome.logs, vec![ConsensusLog::Challenges(vec![challenge(7, 5, None)])]);
    assert!(module.challenge_sessions.is_empty());
    assert!(module.pending_challenges.is_empty());
    assert_eq!(module.historical_challenge_sessions, vec![hash(10)]);
}

#[test]
fn open_session_gives_way_to_a_challenge_of_a_greater_round_only() {
    // a greater round: the session of the block is opened anew
    let mut module = Module::new(authorities());
    module.challenge_sessions.push(session(30, 1, 90));
    module.challenge_sessions.push(session(10, 3, 100));
    assert_eq!(module.report_rejecting_set(&Host, challenge(8, 5, None)), Ok(()));
    let outcome = module.on_finalize(120, hash(9));
    assert_eq!(outcome.logs, vec![ConsensusLog::Challenges(vec![challenge(8, 5, None)])]);
    assert_eq!(
        module.challenge_sessions,
        vec![
            session(30, 1, 90),
            StoredChallengeSession { parent_hash: hash(9), ..session(10, 8, 120) },
        ]
    );

    // the same round: the session stays as it is
    let mut module = Module::new(authorities());
    module.challenge_sessions.push(session(10, 6, 100));
    assert_eq!(module.report_rejecting_set(&Host, challenge(6, 5, None)), Ok(()));
    let _ = module.on_finalize(120, hash(9));
    assert_eq!(module.challenge_sessions, vec![session(10, 6, 100)]);

    // a lesser round: the session stays as it is
    let mut module = Module::new(authorities());
    module.challenge_sessions.push(session(10, 7, 100));
    assert_eq!(module.report_rejecting_set(&Host, challenge(6, 5, None)), Ok(()));
    let _ = module.on_finalize(120, hash(9));
    assert_eq!(module.challenge_sessions, vec![session(10, 7, 100)]);
}

#[test]
fn answer_needs_a_strictly_greater_round() {
    let mut module = Module::new(authorities());
    module.challenge_sessions.push(session(30, 3, 90));
    module.challenge_sessions.push(session(10, 6, 100));
    let stored = module.clone();

    // a lower round
    assert_eq!(
        module.report_rejecting_set(&Host, challenge(5, 4, Some(hash(10)))),
        Err(Error::RoundNotGreater)
    );
    // the same round
    assert_eq!(
        module.report_rejecting_set(&Host, challenge(6, 4, Some(hash(10)))),
        Err(Error::RoundNotGreater)
    );
    assert_eq!(module, stored);

    // the next round
    assert_eq!(module.report_rejecting_set(&Host, challenge(7, 4, Some(hash(10)))), Ok(()));
    assert_eq!(module.challenge_sessions, vec![session(30, 3, 90)]);
    assert_eq!(
        module.pending_challenges,
        vec![StoredPendingChallenge { challenge: challenge(7, 4, Some(hash(10))) }]
    );

    // the answer opens its own session at the end of the block
    let _ = module.on_finalize(120, hash(8));
    assert_eq!(module.challenge_sessions.len(), 2);
    assert_eq!(module.challenge_sessions[0], session(30, 3, 90));
    assert_eq!(module.challenge_sessions[1].rejecting_set_round, 7);
    assert_eq!(module.challenge_sessions[1].scheduled_at, 120);
    assert_eq!(module.challenge_sessions[1].challenge_hash, hash(10));
}

#[test]
fn answer_to_a_session_that_is_not_open_is_refused() {
    let mut module = Module::new(authorities());
    module.challenge_sessions.push(session(30, 3, 90));
    let stored = module.clone();
    assert_eq!(
        module.report_rejecting_set(&Host, challenge(7, 4, Some(hash(10)))),
        Err(Error::UnknownChallenge)
    );
    assert_eq!(module, stored);
}

#[test]
fn two_challenges_of_one_block_open_one_session() {
    let mut module = Module::new(authorities());
    assert_eq!(module.report_rejecting_set(&Host, challenge(6, 5, None)), Ok(()));
    assert_eq!(module.report_rejecting_set(&Host, challenge(8, 5, None)), Ok(()));
    let outcome = module.on_finalize(100, hash(9));
    assert_eq!(
        outcome.logs,
        vec![ConsensusLog::Challenges(vec![challenge(6, 5, None), challenge(8, 5, None)])]
    );
    assert_eq!(module.challenge_sessions.len(), 1);
    assert_eq!(module.challenge_sessions[0].rejecting_set_round, 8);

    let mut module = Module::new(authorities());
    assert_eq!(module.report_rejecting_set(&Host, challenge(8, 5, None)), Ok(()));
    assert_eq!(module.report_rejecting_set(&Host, challenge(6, 5, None)), Ok(()));
    let _ = module.on_finalize(100, hash(9));
    assert_eq!(module.challenge_sessions.len(), 1);
    assert_eq!(module.challenge_sessions[0].rejecting_set_round, 8);
}

#[test]
fn challenge_that_names_no_voter_asks_the_host_nothing() {
    let mut unnamed = challenge(6, 5, None);
    unnamed.targets = vec![];
    unnamed.targets_proof = Some(vec![]);

    let mut module = Module::new(authorities());
    assert_eq!(module.report_rejecting_set(&Host, unnamed.clone()), Ok(()));
    assert_eq!(
        module.pending_challenges,
        vec![StoredPendingChallenge { challenge: unnamed.clone() }]
    );

    // it goes on to the rounds
    let mut low = unnamed.clone();
    low.rejecting_set.round = 4;
    assert_eq!(module.report_rejecting_set(&Host, low), Err(Error::RoundTooLow));

    // proofs for voters that are not named are one too many
    let mut extra = unnamed.clone();
    extra.targets_proof = Some(vec![vec![1]]);
    assert_eq!(module.report_rejecting_set(&Host, extra), Err(Error::MissingChallengeProof));
}

/// What is read back from the digest of the block `now`, in which the
/// challenge is the only request.
fn announced(module: &mut Module, answer: Challenge, now: u64) -> Option<Vec<Challenge>> {
    let _ = module.report_rejecting_set(&Host, answer);
    let outcome = module.on_finalize(now, hash(9));
    let digest = deposit_logs(outcome.logs);
    assert_eq!(
        Module::grandpa_log(digest.clone()).map(|log| log.try_into_challenges()),
        Module::grandpa_challenges(digest.clone()).map(Some)
    );
    Module::grandpa_challenges(digest)
}

#[test]
fn answer_is_announced_only_with_a_greater_round() {
    let open = || {
        let mut module = Module::new(authorities());
        module.challenge_sessions.push(session(10, 6, 100));
        module
    };

    let mut module = open();
    let answer = challenge(7, 4, Some(hash(10)));
    assert_eq!(announced(&mut module, answer.clone(), 120), Some(vec![answer]));
    assert_eq!(module.challenge_sessions.len(), 1);
    assert_eq!(module.challenge_sessions[0].rejecting_set_round, 7);
    assert_eq!(module.challenge_sessions[0].scheduled_at, 120);

    let mut module = open();
    assert_eq!(announced(&mut module, challenge(6, 4, Some(hash(10))), 120), None);
    assert_eq!(module.challenge_sessions, vec![session(10, 6, 100)]);

    let mut module = open();
    assert_eq!(announced(&mut module, challenge(5, 4, Some(hash(10))), 120), None);
    assert_eq!(module.challenge_sessions, vec![session(10, 6, 100)]);
}

#[test]
fn answer_comes_in_time_or_not_at_all() {
    let opened = || {
        let mut module = Module::new(authorities());
        assert_eq!(module.report_rejecting_set(&Host, challenge(6, 5, None)), Ok(()));
        let _ = module.on_finalize(100, hash(9));
        for now in 101..149 {
            let _ = module.on_finalize(now, hash(9));
        }
        module
    };
    let answer = challenge(7, 5, Some(hash(10)));

    // in block 149 the session is still open
    let mut module = opened();
    assert_eq!(announced(&mut module, answer.clone(), 149), Some(vec![answer.clone()]));
    assert_eq!(module.challenge_sessions.len(), 1);
    assert_eq!(module.challenge_sessions[0].scheduled_at, 149);
    let outcome = module.on_finalize(150, hash(9));
    assert!(outcome.expired.is_empty());
    assert!(module.historical_challenge_sessions.is_empty());

    // in block 151 it has run out
    let mut module = opened();
    let _ = module.on_finalize(149, hash(9));
    let outcome = module.on_finalize(150, hash(9));
    assert_eq!(outcome.expired.len(), 1);
    assert_eq!(outcome.expired[0].voters, vec![id(1), id(4)]);
    assert_eq!(module.historical_challenge_sessions, vec![hash(10)]);
    let stored = module.clone();
    assert_eq!(
        module.report_rejecting_set(&Host, answer.clone()),
        Err(Error::UnknownChallenge)
    );
    assert_eq!(module, stored);
    assert_eq!(announced(&mut module, answer, 151), None);
    assert!(module.challenge_sessions.is_empty());
}

#[test]
fn end_of_block_does_its_steps_in_order() {
    let mut module = Module::new(authorities());
    assert_eq!(module.schedule_change(vec![(id(1), 1)], 0, None, 150), Ok(()));
    assert_eq!(module.schedule_pause(0, 150), Ok(()));
    module.challenge_sessions.push(session(30, 3, 100));
    assert_eq!(module.report_rejecting_set(&Host, challenge(6, 5, None)), Ok(()));

    let outcome = module.on_finalize(150, hash(9));
    assert_eq!(outcome.logs.len(), 3);
    assert!(matches!(outcome.logs[0], ConsensusLog::ScheduledChange(_)));
    assert!(matches!(outcome.logs[1], ConsensusLog::Challenges(_)));
    assert_eq!(outcome.logs[2], ConsensusLog::Pause(0));
    assert_eq!(outcome.events.len(), 2);
    assert_eq!(outcome.expired, vec![session(30, 3, 100)]);
    assert_eq!(module.grandpa_authorities(), vec![(id(1), 1)]);
    assert_eq!(module.historical_challenge_sessions, vec![hash(30)]);
    assert_eq!(module.challenge_sessions.len(), 1);
}

#[test]
fn challenge_is_taken_up_with_the_answers_it_is_given() {
    let mut module = Module::new(authorities());
    let stored = module.clone();
    assert_eq!(
        module.apply_challenge(challenge(6, 5, None), &vec![Some(1), None]),
        Err(Error::BadSessionKeyProof)
    );
    assert_eq!(module, stored);
    assert_eq!(module.apply_challenge(challenge(6, 5, None), &vec![Some(1), Some(2)]), Ok(()));
    assert_eq!(module.pending_challenges.len(), 1);
    assert!(module.challenge_session(&hash(10)).is_none());
    let _ = module.on_finalize(3, hash(2));
    assert_eq!(module.challenge_session(&hash(10)).map(|session| session.scheduled_at), Some(3));
    assert!(module.challenge_session(&hash(11)).is_none());
    assert!(!module.is_closed(&hash(10)));
    let _ = module.on_finalize(53, hash(2));
    assert!(module.is_closed(&hash(10)));
    assert!(module.challenge_session(&hash(10)).is_none());
}
