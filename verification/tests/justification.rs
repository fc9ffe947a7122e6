use srml_grandpa::ancestry::{find_ancestor, find_header, is_descendant};
use srml_grandpa::justification::{
    count_total, count_weight, exceeds_two_thirds, find_duplicate_voter, verify, VerifyError,
};
use srml_grandpa::primitives::{AuthorityId, Block, BlockHash};
use srml_grandpa::votes::{ChallengedVote, Header, Message, VoteKind};

fn id(n: u8) -> AuthorityId {
    AuthorityId([n; 32])
}

fn hash(n: u8) -> BlockHash {
    BlockHash([n; 32])
}

fn block(n: u8, number: u64) -> Block {
    Block { hash: hash(n), number }
}

fn header(n: u8, parent: u8, number: u64) -> Header {
    Header { hash: hash(n), parent_hash: hash(parent), number }
}

fn vote(voter: u8, target: Block) -> ChallengedVote {
    ChallengedVote {
        vote: Message {
            kind: VoteKind::Precommit,
            target_hash: target.hash,
            target_number: target.number,
        },
        authority: id(voter),
        signature: vec![voter],
    }
}

fn voters(weights: &[u64]) -> Vec<(AuthorityId, u64)> {
    weights.iter().enumerate().map(|(i, w)| (id(i as u8 + 1), *w)).collect()
}

// 10 <- 20 <- 30 <- 40
//          \- 31 <- 41
fn tree() -> Vec<Header> {
    vec![
        header(20, 10, 2),
        header(30, 20, 3),
        header(40, 30, 4),
        header(31, 20, 3),
        header(41, 31, 4),
    ]
}

#[test]
fn ancestors_are_found_along_the_headers() {
    let headers = tree();
    assert_eq!(find_header(&headers, &hash(31)), Some(header(31, 20, 3)));
    assert_eq!(find_header(&headers, &hash(10)), None);
    assert_eq!(find_ancestor(&headers, block(41, 4), 4), Some(hash(41)));
    assert_eq!(find_ancestor(&headers, block(41, 4), 3), Some(hash(31)));
    assert_eq!(find_ancestor(&headers, block(41, 4), 1), Some(hash(10)));
    // the walk ends where the headers end
    assert_eq!(find_ancestor(&headers, block(41, 4), 0), None);
    // nothing is above the block itself
    assert_eq!(find_ancestor(&headers, block(41, 4), 5), None);
    // a header that gives another height breaks the walk
    assert_eq!(find_ancestor(&headers, block(41, 5), 3), None);
    assert!(is_descendant(&headers, block(40, 4), block(20, 2)));
    assert!(is_descendant(&headers, block(40, 4), block(40, 4)));
    assert!(!is_descendant(&headers, block(40, 4), block(31, 3)));
    assert!(!is_descendant(&headers, block(20, 2), block(40, 4)));
}

#[test]
fn first_header_of_a_block_counts() {
    let headers = vec![header(20, 10, 2), header(20, 11, 2)];
    assert_eq!(find_ancestor(&headers, block(20, 2), 1), Some(hash(10)));
}

#[test]
fn two_thirds_must_be_exceeded() {
    assert!(!exceeds_two_thirds(0, 0));
    assert!(exceeds_two_thirds(1, 1));
    assert!(!exceeds_two_thirds(2, 3));
    assert!(exceeds_two_thirds(3, 3));
    assert!(!exceeds_two_thirds(2, 4));
    assert!(exceeds_two_thirds(3, 4));
    assert!(!exceeds_two_thirds(3, 5));
    assert!(exceeds_two_thirds(4, 5));
    assert!(!exceeds_two_thirds(66, 100));
    assert!(exceeds_two_thirds(67, 100));
    assert!(!exceeds_two_thirds(u128::MAX / 3 * 2, u128::MAX));
    assert!(exceeds_two_thirds(u128::MAX / 3 * 2 + 1, u128::MAX));
}

#[test]
fn weights_are_counted_once_per_voter() {
    let headers = tree();
    let votes = vec![vote(1, block(40, 4)), vote(2, block(41, 4)), vote(3, block(30, 3))];
    let voters = voters(&[5, 7, 11, 13]);
    assert_eq!(count_total(&voters), 36);
    assert_eq!(count_weight(&headers, &votes, &voters, block(10, 1)), 23);
    assert_eq!(count_weight(&headers, &votes, &voters, block(20, 2)), 23);
    assert_eq!(count_weight(&headers, &votes, &voters, block(30, 3)), 16);
    assert_eq!(count_weight(&headers, &votes, &voters, block(40, 4)), 5);
    assert_eq!(count_weight(&headers, &votes, &voters, block(31, 3)), 7);
    assert_eq!(count_weight(&headers, &votes, &voters, block(41, 5)), 0);
    // weights do not overflow
    let heavy = vec![(id(1), u64::MAX), (id(2), u64::MAX)];
    assert_eq!(count_total(&heavy), 2 * (u64::MAX as u128));
}

#[test]
fn ghost_is_the_highest_block_with_a_supermajority() {
    let headers = tree();
    let voters = voters(&[1, 1, 1, 1]);
    let votes = vec![
        vote(1, block(40, 4)),
        vote(2, block(40, 4)),
        vote(3, block(30, 3)),
        vote(4, block(41, 4)),
    ];
    assert_eq!(verify(block(10, 1), &headers, &votes, &voters), Ok(block(30, 3)));
    assert_eq!(verify(block(20, 2), &headers, &votes, &voters), Ok(block(30, 3)));

    let votes = vec![vote(1, block(40, 4)), vote(2, block(40, 4)), vote(3, block(40, 4))];
    assert_eq!(verify(block(20, 2), &headers, &votes, &voters), Ok(block(40, 4)));

    let votes = vec![vote(1, block(20, 2)), vote(2, block(20, 2)), vote(3, block(20, 2))];
    assert_eq!(verify(block(20, 2), &headers, &votes, &voters), Ok(block(20, 2)));
}

#[test]
fn ghost_stops_where_the_votes_part() {
    let headers = tree();
    let voters = voters(&[1, 1, 1, 1]);
    let votes = vec![
        vote(1, block(40, 4)),
        vote(2, block(40, 4)),
        vote(3, block(41, 4)),
        vote(4, block(41, 4)),
    ];
    assert_eq!(verify(block(10, 1), &headers, &votes, &voters), Ok(block(20, 2)));
}

#[test]
fn ghost_goes_by_weight() {
    let headers = tree();
    let voters = voters(&[10, 1, 1, 1]);
    let votes = vec![vote(1, block(41, 4)), vote(2, block(40, 4)), vote(3, block(40, 4))];
    assert_eq!(verify(block(20, 2), &headers, &votes, &voters), Ok(block(41, 4)));
}

#[test]
fn ghost_does_not_depend_on_the_order_of_the_votes() {
    let headers = tree();
    let voters = voters(&[1, 1, 1, 1]);
    let votes = vec![
        vote(1, block(40, 4)),
        vote(2, block(30, 3)),
        vote(3, block(40, 4)),
        vote(4, block(41, 4)),
    ];
    let expected = verify(block(10, 1), &headers, &votes, &voters);
    assert_eq!(expected, Ok(block(30, 3)));
    for a in 0..4 {
        for b in 0..4 {
            for c in 0..4 {
                for d in 0..4 {
                    if a != b && a != c && a != d && b != c && b != d && c != d {
                        let shuffled = vec![
                            votes[a].clone(),
                            votes[b].clone(),
                            votes[c].clone(),
                            votes[d].clone(),
                        ];
                        assert_eq!(verify(block(10, 1), &headers, &shuffled, &voters), expected);
                    }
                }
            }
        }
    }
}

#[test]
fn votes_without_a_supermajority_justify_nothing() {
    let headers = tree();
    let voters = voters(&[1, 1, 1]);
    let votes = vec![vote(1, block(40, 4)), vote(2, block(40, 4))];
    assert_eq!(
        verify(block(20, 2), &headers, &votes, &voters),
        Err(VerifyError::NoSupermajority)
    );
    assert_eq!(verify(block(20, 2), &headers, &vec![], &voters), Err(VerifyError::NoSupermajority));
    assert_eq!(verify(block(20, 2), &headers, &vec![], &vec![]), Err(VerifyError::NoSupermajority));
    // votes of strangers have no weight
    let votes = vec![vote(1, block(40, 4)), vote(8, block(40, 4)), vote(9, block(40, 4))];
    assert_eq!(
        verify(block(20, 2), &headers, &votes, &voters),
        Err(VerifyError::NoSupermajority)
    );
}

#[test]
fn votes_off_the_claimed_block_are_disconnected() {
    let headers = tree();
    let voters = voters(&[1, 1, 1]);
    let votes = vec![vote(1, block(40, 4)), vote(2, block(40, 4)), vote(3, block(41, 4))];
    assert_eq!(
        verify(block(30, 3), &headers, &votes, &voters),
        Err(VerifyError::DisconnectedAncestry)
    );
    // a vote below the claimed block
    let votes = vec![vote(1, block(40, 4)), vote(2, block(40, 4)), vote(3, block(20, 2))];
    assert_eq!(
        verify(block(30, 3), &headers, &votes, &voters),
        Err(VerifyError::DisconnectedAncestry)
    );
    // a vote for a block without a header
    let votes = vec![vote(1, block(40, 4)), vote(2, block(40, 4)), vote(3, block(50, 5))];
    assert_eq!(
        verify(block(30, 3), &headers, &votes, &voters),
        Err(VerifyError::DisconnectedAncestry)
    );
}

#[test]
fn two_votes_of_one_authority_are_refused_first() {
    let headers = tree();
    let voters = voters(&[1, 1, 1]);
    let votes = vec![vote(1, block(40, 4)), vote(2, block(40, 4)), vote(1, block(41, 4))];
    assert!(find_duplicate_voter(&votes));
    assert_eq!(verify(block(30, 3), &headers, &votes, &voters), Err(VerifyError::DuplicateVoter));
    let votes = vec![vote(1, block(40, 4)), vote(2, block(40, 4)), vote(3, block(40, 4))];
    assert!(!find_duplicate_voter(&votes));
}

#[test]
fn ghost_at_the_greatest_height() {
    let top = block(2, u64::MAX);
    let headers = vec![header(2, 1, u64::MAX)];
    let voters = voters(&[1]);
    let votes = vec![vote(1, top)];
    assert_eq!(verify(block(1, u64::MAX - 1), &headers, &votes, &voters), Ok(top));
}
