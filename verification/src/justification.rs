//! Checking that a set of votes justifies a block, and finding the ghost:
//! the highest block that a supermajority of the voters, by weight, has
//! voted for or for a descendant of.

use vstd::prelude::*;
use crate::ancestry::{
    ancestor_at, descends_from, find_ancestor, is_descendant, lemma_ancestor_between,
    lemma_ancestor_of_ancestor,
};
use crate::primitives::{AuthorityId, AuthorityWeight, Block};
use crate::votes::{ChallengedVote, Header};

verus! {

/// Why a set of votes justifies no block.
#[derive(Clone, Copy, Debug, PartialEq, Eq, Structural)]
pub enum VerifyError {
    /// The claimed block has no supermajority behind it.
    NoSupermajority,
    /// The headers do not lead from some vote's target to the claimed block.
    DisconnectedAncestry,
    /// Two votes come from one authority.
    DuplicateVoter,
}

/// The block that a supermajority agrees on.
pub type GhostOutcome = Block;

/// Whether the authority `voter` has cast a vote for `block` or for one of
/// its descendants.
pub open spec fn voted_for(
    headers: Seq<Header>,
    votes: Seq<ChallengedVote>,
    voter: AuthorityId,
    block: Block,
) -> bool {
    exists|i: int|
        0 <= i < votes.len() && (#[trigger] votes[i]).authority == voter && descends_from(
            headers,
            votes[i].vote.target(),
            block,
        )
}

/// The weight of those among the first `n` voters that have voted for
/// `block` or for a descendant of it. Every entry of the voter list counts
/// once, whatever the order of the votes.
pub open spec fn weight_among(
    headers: Seq<Header>,
    votes: Seq<ChallengedVote>,
    voters: Seq<(AuthorityId, AuthorityWeight)>,
    block: Block,
    n: nat,
) -> nat
    decreases n,
{
    if n == 0 || n > voters.len() {
        0
    } else {
        let rest = weight_among(headers, votes, voters, block, (n - 1) as nat);
        if voted_for(headers, votes, voters[n - 1].0, block) {
            rest + voters[n - 1].1 as nat
        } else {
            rest
        }
    }
}

/// The weight behind `block`: that of all voters that have voted for it or
/// for a descendant of it.
pub open spec fn weight_behind(
    headers: Seq<Header>,
    votes: Seq<ChallengedVote>,
    voters: Seq<(AuthorityId, AuthorityWeight)>,
    block: Block,
) -> nat {
    weight_among(headers, votes, voters, block, voters.len())
}

/// The weight of the first `n` voters.
pub open spec fn weight_of_first(voters: Seq<(AuthorityId, AuthorityWeight)>, n: nat) -> nat
    decreases n,
{
    if n == 0 || n > voters.len() {
        0
    } else {
        weight_of_first(voters, (n - 1) as nat) + voters[n - 1].1 as nat
    }
}

/// The weight of all voters.
pub open spec fn total_weight(voters: Seq<(AuthorityId, AuthorityWeight)>) -> nat {
    weight_of_first(voters, voters.len())
}

/// Whether `weight` is more than two thirds of `total`.
pub open spec fn is_supermajority(weight: nat, total: nat) -> bool {
    3 * weight > 2 * total
}

/// Whether more than two thirds of the voters, by weight, have voted for
/// `block` or for a descendant of it.
pub open spec fn has_supermajority(
    headers: Seq<Header>,
    votes: Seq<ChallengedVote>,
    voters: Seq<(AuthorityId, AuthorityWeight)>,
    block: Block,
) -> bool {
    is_supermajority(weight_behind(headers, votes, voters, block), total_weight(voters))
}

/// Whether two of the votes come from one authority.
pub open spec fn has_duplicate_voter(votes: Seq<ChallengedVote>) -> bool {
    exists|i: int, j: int|
        0 <= i < j < votes.len() && (#[trigger] votes[i]).authority == (
        #[trigger] votes[j]).authority
}

/// Whether every vote is for `claimed` or for a descendant of it.
pub open spec fn all_connected(
    headers: Seq<Header>,
    votes: Seq<ChallengedVote>,
    claimed: Block,
) -> bool {
    forall|i: int|
        0 <= i < votes.len() ==> descends_from(headers, (#[trigger] votes[i]).vote.target(), claimed)
}

/// Whether `block` is the ghost: it has a supermajority behind it, and no
/// block with a supermajority behind it is higher.
pub open spec fn is_ghost(
    headers: Seq<Header>,
    votes: Seq<ChallengedVote>,
    voters: Seq<(AuthorityId, AuthorityWeight)>,
    block: Block,
) -> bool {
    &&& has_supermajority(headers, votes, voters, block)
    &&& forall|other: Block| #[trigger]
        has_supermajority(headers, votes, voters, other) ==> other.number <= block.number
}

/// What a set of votes says of the claim that `claimed` is final.
///
/// The votes are refused if two come from one authority, then if one of
/// them is not for the claimed block or a descendant of it, then if the
/// claimed block has no supermajority behind it. Otherwise the result is the
/// ghost, which `lemma_ghost_unique` shows to be the only one.
pub open spec fn justification(
    claimed: Block,
    headers: Seq<Header>,
    votes: Seq<ChallengedVote>,
    voters: Seq<(AuthorityId, AuthorityWeight)>,
) -> Result<GhostOutcome, VerifyError> {
    if has_duplicate_voter(votes) {
        Err(VerifyError::DuplicateVoter)
    } else if !all_connected(headers, votes, claimed) {
        Err(VerifyError::DisconnectedAncestry)
    } else if !has_supermajority(headers, votes, voters, claimed) {
        Err(VerifyError::NoSupermajority)
    } else {
        Ok(choose|block: Block| is_ghost(headers, votes, voters, block))
    }
}

/// The weight of the first `n` voters fits in 128 bits with room to spare.
pub proof fn lemma_total_bounded(voters: Seq<(AuthorityId, AuthorityWeight)>, n: nat)
    ensures
        weight_of_first(voters, n) <= n * 0xffff_ffff_ffff_ffff,
    decreases n,
{
    if n != 0 && n <= voters.len() {
        lemma_total_bounded(voters, (n - 1) as nat);
        assert((n - 1) * 0xffff_ffff_ffff_ffff + 0xffff_ffff_ffff_ffff == n * 0xffff_ffff_ffff_ffff)
            by (nonlinear_arith);
    } else {
        assert(0 <= n * 0xffff_ffff_ffff_ffff) by (nonlinear_arith);
    }
}

/// The weight behind a block is at most the weight of the voters counted.
pub proof fn lemma_weight_bounded(
    headers: Seq<Header>,
    votes: Seq<ChallengedVote>,
    voters: Seq<(AuthorityId, AuthorityWeight)>,
    block: Block,
    n: nat,
)
    ensures
        weight_among(headers, votes, voters, block, n) <= weight_of_first(voters, n),
    decreases n,
{
    if n != 0 && n <= voters.len() {
        lemma_weight_bounded(headers, votes, voters, block, (n - 1) as nat);
    }
}

/// Where every voter behind `upper` is also behind `lower`, `lower` has at
/// least the weight of `upper`.
pub proof fn lemma_weight_monotone(
    headers: Seq<Header>,
    votes: Seq<ChallengedVote>,
    voters: Seq<(AuthorityId, AuthorityWeight)>,
    upper: Block,
    lower: Block,
    n: nat,
)
    requires
        forall|voter: AuthorityId| #[trigger]
            voted_for(headers, votes, voter, upper) ==> voted_for(headers, votes, voter, lower),
    ensures
        weight_among(headers, votes, voters, upper, n) <= weight_among(
            headers,
            votes,
            voters,
            lower,
            n,
        ),
    decreases n,
{
    if n != 0 && n <= voters.len() {
        lemma_weight_monotone(headers, votes, voters, upper, lower, (n - 1) as nat);
    }
}

/// A block with weight behind it has a voter behind it.
pub proof fn lemma_weight_has_voter(
    headers: Seq<Header>,
    votes: Seq<ChallengedVote>,
    voters: Seq<(AuthorityId, AuthorityWeight)>,
    block: Block,
    n: nat,
)
    requires
        weight_among(headers, votes, voters, block, n) > 0,
    ensures
        exists|i: int|
            0 <= i < votes.len() && descends_from(
                headers,
                (#[trigger] votes[i]).vote.target(),
                block,
            ),
    decreases n,
{
    if n != 0 && n <= voters.len() {
        if voted_for(headers, votes, voters[n - 1].0, block) {
        } else {
            lemma_weight_has_voter(headers, votes, voters, block, (n - 1) as nat);
        }
    }
}

/// Two different blocks of one height share no voter, where no authority
/// has voted twice: together they have at most the weight of the voters
/// counted.
pub proof fn lemma_weight_disjoint(
    headers: Seq<Header>,
    votes: Seq<ChallengedVote>,
    voters: Seq<(AuthorityId, AuthorityWeight)>,
    one: Block,
    other: Block,
    n: nat,
)
    requires
        !has_duplicate_voter(votes),
        one.number == other.number,
        one != other,
    ensures
        weight_among(headers, votes, voters, one, n) + weight_among(
            headers,
            votes,
            voters,
            other,
            n,
        ) <= weight_of_first(voters, n),
    decreases n,
{
    if n != 0 && n <= voters.len() {
        lemma_weight_disjoint(headers, votes, voters, one, other, (n - 1) as nat);
        let voter = voters[n - 1].0;
        if voted_for(headers, votes, voter, one) && voted_for(headers, votes, voter, other) {
            let i = choose|i: int|
                0 <= i < votes.len() && (#[trigger] votes[i]).authority == voter && descends_from(
                    headers,
                    votes[i].vote.target(),
                    one,
                );
            let j = choose|j: int|
                0 <= j < votes.len() && (#[trigger] votes[j]).authority == voter && descends_from(
                    headers,
                    votes[j].vote.target(),
                    other,
                );
            if i < j {
                assert(votes[i].authority == votes[j].authority);
            } else if j < i {
                assert(votes[j].authority == votes[i].authority);
            }
            assert(i == j);
            assert(one.hash == other.hash);
            assert(false);
        }
    }
}

/// At any height at most one block has a supermajority behind it, where no
/// authority has voted twice.
pub proof fn lemma_supermajority_unique(
    headers: Seq<Header>,
    votes: Seq<ChallengedVote>,
    voters: Seq<(AuthorityId, AuthorityWeight)>,
    one: Block,
    other: Block,
)
    requires
        !has_duplicate_voter(votes),
        one.number == other.number,
        has_supermajority(headers, votes, voters, one),
        has_supermajority(headers, votes, voters, other),
    ensures
        one == other,
{
    if one != other {
        lemma_weight_disjoint(headers, votes, voters, one, other, voters.len());
    }
}

/// There is at most one ghost, where no authority has voted twice.
pub proof fn lemma_ghost_unique(
    headers: Seq<Header>,
    votes: Seq<ChallengedVote>,
    voters: Seq<(AuthorityId, AuthorityWeight)>,
    one: Block,
    other: Block,
)
    requires
        !has_duplicate_voter(votes),
        is_ghost(headers, votes, voters, one),
        is_ghost(headers, votes, voters, other),
    ensures
        one == other,
{
    lemma_supermajority_unique(headers, votes, voters, one, other);
}

/// Where some block has a supermajority behind it, there is a ghost.
pub proof fn lemma_ghost_exists(
    headers: Seq<Header>,
    votes: Seq<ChallengedVote>,
    voters: Seq<(AuthorityId, AuthorityWeight)>,
    block: Block,
)
    requires
        has_supermajority(headers, votes, voters, block),
    ensures
        exists|ghost: Block| is_ghost(headers, votes, voters, ghost),
    decreases u64::MAX - block.number,
{
    if exists|other: Block| #[trigger]
        has_supermajority(headers, votes, voters, other) && other.number > block.number {
        let other = choose|other: Block| #[trigger]
            has_supermajority(headers, votes, voters, other) && other.number > block.number;
        lemma_ghost_exists(headers, votes, voters, other);
    } else {
        assert(is_ghost(headers, votes, voters, block));
    }
}

/// Tells whether two of the votes come from one authority.
pub fn find_duplicate_voter(votes: &Vec<ChallengedVote>) -> (found: bool)
    ensures
        found == has_duplicate_voter(votes@),
{
    let mut j: usize = 0;
    while j < votes.len()
        invariant
            j <= votes.len(),
            forall|a: int, b: int|
                0 <= a < b < j ==> (#[trigger] votes@[a]).authority != (
                #[trigger] votes@[b]).authority,
        decreases votes.len() - j,
    {
        let mut i: usize = 0;
        while i < j
            invariant
                i <= j < votes.len(),
                forall|a: int|
                    0 <= a < i ==> (#[trigger] votes@[a]).authority != votes@[j as int].authority,
            decreases j - i,
        {
            if votes[i].authority == votes[j].authority {
                return true;
            }
            i += 1;
        }
        j += 1;
    }
    false
}

/// Tells whether every vote is for `claimed` or for a descendant of it.
pub fn check_connected(headers: &Vec<Header>, votes: &Vec<ChallengedVote>, claimed: Block) -> (yes:
    bool)
    ensures
        yes == all_connected(headers@, votes@, claimed),
{
    let mut i: usize = 0;
    while i < votes.len()
        invariant
            i <= votes.len(),
            forall|k: int|
                0 <= k < i ==> descends_from(
                    headers@,
                    (#[trigger] votes@[k]).vote.target(),
                    claimed,
                ),
        decreases votes.len() - i,
    {
        if !is_descendant(headers, votes[i].vote.target_block(), claimed) {
            return false;
        }
        i += 1;
    }
    true
}

/// Tells whether `voter` has voted for `block` or for a descendant of it.
pub fn has_voted_for(
    headers: &Vec<Header>,
    votes: &Vec<ChallengedVote>,
    voter: &AuthorityId,
    block: Block,
) -> (yes: bool)
    ensures
        yes == voted_for(headers@, votes@, *voter, block),
{
    let mut i: usize = 0;
    while i < votes.len()
        invariant
            i <= votes.len(),
            forall|k: int|
                0 <= k < i ==> !((#[trigger] votes@[k]).authority == *voter && descends_from(
                    headers@,
                    votes@[k].vote.target(),
                    block,
                )),
        decreases votes.len() - i,
    {
        if votes[i].authority == *voter && is_descendant(
            headers,
            votes[i].vote.target_block(),
            block,
        ) {
            return true;
        }
        i += 1;
    }
    false
}

/// Adds up the weight of the voters behind `block`.
pub fn count_weight(
    headers: &Vec<Header>,
    votes: &Vec<ChallengedVote>,
    voters: &Vec<(AuthorityId, AuthorityWeight)>,
    block: Block,
) -> (weight: u128)
    ensures
        weight == weight_behind(headers@, votes@, voters@, block),
{
    let mut weight: u128 = 0;
    let mut n: usize = 0;
    while n < voters.len()
        invariant
            n <= voters.len(),
            weight == weight_among(headers@, votes@, voters@, block, n as nat),
        decreases voters.len() - n,
    {
        proof {
            lemma_weight_bounded(headers@, votes@, voters@, block, (n + 1) as nat);
            lemma_total_bounded(voters@, (n + 1) as nat);
            assert((n + 1) * 0xffff_ffff_ffff_ffff <= u128::MAX) by (nonlinear_arith)
                requires
                    n + 1 <= 0xffff_ffff_ffff_ffff,
            ;
        }
        if has_voted_for(headers, votes, &voters[n].0, block) {
            weight = weight + voters[n].1 as u128;
        }
        n += 1;
    }
    weight
}

/// Adds up the weight of all voters.
pub fn count_total(voters: &Vec<(AuthorityId, AuthorityWeight)>) -> (weight: u128)
    ensures
        weight == total_weight(voters@),
{
    let mut weight: u128 = 0;
    let mut n: usize = 0;
    while n < voters.len()
        invariant
            n <= voters.len(),
            weight == weight_of_first(voters@, n as nat),
        decreases voters.len() - n,
    {
        proof {
            lemma_total_bounded(voters@, (n + 1) as nat);
            assert((n + 1) * 0xffff_ffff_ffff_ffff <= u128::MAX) by (nonlinear_arith)
                requires
                    n + 1 <= 0xffff_ffff_ffff_ffff,
            ;
        }
        weight = weight + voters[n].1 as u128;
        n += 1;
    }
    weight
}

/// Tells whether `weight` is more than two thirds of `total`.
pub fn exceeds_two_thirds(weight: u128, total: u128) -> (yes: bool)
    ensures
        yes == is_supermajority(weight as nat, total as nat),
{
    let third: u128 = total / 3;
    let left: u128 = total % 3;
    // the largest weight that is no supermajority: two thirds of the total, rounded down
    let most: u128 = if left == 2 {
        third + third + 1
    } else {
        third + third
    };
    weight > most
}

/// Tells whether `block` has a supermajority behind it, given the weight of
/// all voters.
fn check_supermajority(
    headers: &Vec<Header>,
    votes: &Vec<ChallengedVote>,
    voters: &Vec<(AuthorityId, AuthorityWeight)>,
    block: Block,
    total: u128,
) -> (yes: bool)
    requires
        total == total_weight(voters@),
    ensures
        yes == has_supermajority(headers@, votes@, voters@, block),
{
    exceeds_two_thirds(count_weight(headers, votes, voters, block), total)
}

/// The block on the chain of vote `i` at `height`, where there is one.
pub open spec fn on_chain_of(
    headers: Seq<Header>,
    votes: Seq<ChallengedVote>,
    i: int,
    height: u64,
) -> Option<Block> {
    match ancestor_at(headers, votes[i].vote.target(), height) {
        Some(hash) => Some(Block { hash, number: height }),
        None => None,
    }
}

/// Where no block on the chain of any vote has a supermajority behind it at
/// the height just above `block`, none has above `block` at all.
proof fn lemma_nothing_higher(
    headers: Seq<Header>,
    votes: Seq<ChallengedVote>,
    voters: Seq<(AuthorityId, AuthorityWeight)>,
    claimed: Block,
    block: Block,
    other: Block,
)
    requires
        all_connected(headers, votes, claimed),
        claimed.number <= block.number,
        forall|i: int|
            0 <= i < votes.len() && block.number < u64::MAX ==> match #[trigger] on_chain_of(
                headers,
                votes,
                i,
                (block.number + 1) as u64,
            ) {
                Some(next) => !has_supermajority(headers, votes, voters, next),
                None => true,
            },
        has_supermajority(headers, votes, voters, other),
    ensures
        other.number <= block.number,
{
    if other.number > block.number {
        let height = (block.number + 1) as u64;
        lemma_weight_has_voter(headers, votes, voters, other, voters.len());
        let i = choose|i: int|
            0 <= i < votes.len() && descends_from(
                headers,
                (#[trigger] votes[i]).vote.target(),
                other,
            );
        let target = votes[i].vote.target();
        assert(descends_from(headers, target, claimed));
        lemma_ancestor_between(headers, target, claimed.number, height);
        let next = on_chain_of(headers, votes, i, height)->0;
        lemma_ancestor_of_ancestor(headers, target, other.number, height);
        assert(descends_from(headers, other, next));
        assert forall|voter: AuthorityId| #[trigger]
            voted_for(headers, votes, voter, other) implies voted_for(
            headers,
            votes,
            voter,
            next,
        ) by {
            let k = choose|k: int|
                0 <= k < votes.len() && (#[trigger] votes[k]).authority == voter && descends_from(
                    headers,
                    votes[k].vote.target(),
                    other,
                );
            lemma_ancestor_of_ancestor(headers, votes[k].vote.target(), other.number, height);
            assert(descends_from(headers, votes[k].vote.target(), next));
        }
        lemma_weight_monotone(headers, votes, voters, other, next, voters.len());
        assert(has_supermajority(headers, votes, voters, next));
    }
}

/// Looks, among the blocks on the chains of the votes, for one just above
/// `block` with a supermajority behind it.
fn find_next(
    headers: &Vec<Header>,
    votes: &Vec<ChallengedVote>,
    voters: &Vec<(AuthorityId, AuthorityWeight)>,
    block: Block,
    total: u128,
) -> (found: Option<Block>)
    requires
        total == total_weight(voters@),
    ensures
        match found {
            Some(next) => has_supermajority(headers@, votes@, voters@, next) && next.number
                == block.number + 1,
            None => forall|i: int|
                0 <= i < votes.len() && block.number < u64::MAX ==> match #[trigger] on_chain_of(
                    headers@,
                    votes@,
                    i,
                    (block.number + 1) as u64,
                ) {
                    Some(next) => !has_supermajority(headers@, votes@, voters@, next),
                    None => true,
                },
        },
{
    if block.number == u64::MAX {
        return None;
    }
    let height: u64 = block.number + 1;
    let mut i: usize = 0;
    while i < votes.len()
        invariant
            i <= votes.len(),
            height == block.number + 1,
            total == total_weight(voters@),
            forall|k: int|
                0 <= k < i ==> match #[trigger] on_chain_of(headers@, votes@, k, height) {
                    Some(next) => !has_supermajority(headers@, votes@, voters@, next),
                    None => true,
                },
        decreases votes.len() - i,
    {
        match find_ancestor(headers, votes[i].vote.target_block(), height) {
            Some(hash) => {
                let next = Block { hash, number: height };
                if check_supermajority(headers, votes, voters, next, total) {
                    return Some(next);
                }
            },
            None => {},
        }
        i += 1;
    }
    None
}

/// Checks the claim that `claimed` is final against a set of votes, and
/// finds the ghost.
pub fn verify(
    claimed: Block,
    headers: &Vec<Header>,
    votes: &Vec<ChallengedVote>,
    voters: &Vec<(AuthorityId, AuthorityWeight)>,
) -> (outcome: Result<GhostOutcome, VerifyError>)
    ensures
        outcome == justification(claimed, headers@, votes@, voters@),
        outcome matches Ok(ghost) ==> is_ghost(headers@, votes@, voters@, ghost),
{
    if find_duplicate_voter(votes) {
        return Err(VerifyError::DuplicateVoter);
    }
    if !check_connected(headers, votes, claimed) {
        return Err(VerifyError::DisconnectedAncestry);
    }
    let total = count_total(voters);
    if !check_supermajority(headers, votes, voters, claimed, total) {
        return Err(VerifyError::NoSupermajority);
    }
    let mut ghost = claimed;
    loop
        invariant_except_break
            has_supermajority(headers@, votes@, voters@, ghost),
        invariant
            total == total_weight(voters@),
            !has_duplicate_voter(votes@),
            all_connected(headers@, votes@, claimed),
            claimed.number <= ghost.number,
        ensures
            is_ghost(headers@, votes@, voters@, ghost),
        decreases u64::MAX - ghost.number,
    {
        match find_next(headers, votes, voters, ghost, total) {
            Some(next) => {
                ghost = next;
            },
            None => {
                proof {
                    assert forall|other: Block| #[trigger]
                        has_supermajority(headers@, votes@, voters@, other) implies other.number
                        <= ghost.number by {
                        lemma_nothing_higher(headers@, votes@, voters@, claimed, ghost, other);
                    }
                }
                break ;
            },
        }
    }
    proof {
        let chosen = choose|block: Block| is_ghost(headers@, votes@, voters@, block);
        lemma_ghost_unique(headers@, votes@, voters@, ghost, chosen);
    }
    Ok(ghost)
}

/// A vote of one sequence stands somewhere in any reordering of it.
proof fn lemma_member_of_reordering(
    votes: Seq<ChallengedVote>,
    shuffled: Seq<ChallengedVote>,
    i: int,
) -> (k: int)
    requires
        votes.to_multiset() == shuffled.to_multiset(),
        0 <= i < votes.len(),
    ensures
        0 <= k < shuffled.len(),
        shuffled[k] == votes[i],
{
    votes.to_multiset_ensures();
    shuffled.to_multiset_ensures();
    assert(votes.contains(votes[i]));
    assert(votes.to_multiset().count(votes[i]) > 0);
    assert(shuffled.to_multiset().count(votes[i]) > 0);
    assert(shuffled.contains(votes[i]));
    choose|k: int| 0 <= k < shuffled.len() && shuffled[k] == votes[i]
}

/// Reordering the votes keeps a duplicate voter.
proof fn lemma_duplicate_in_reordering(votes: Seq<ChallengedVote>, shuffled: Seq<ChallengedVote>)
    requires
        votes.to_multiset() == shuffled.to_multiset(),
        has_duplicate_voter(votes),
    ensures
        has_duplicate_voter(shuffled),
{
    let (i, j) = choose|i: int, j: int|
        0 <= i < j < votes.len() && (#[trigger] votes[i]).authority == (
        #[trigger] votes[j]).authority;
    let a = lemma_member_of_reordering(votes, shuffled, i);
    let rest = votes.remove(i);
    let shuffled_rest = shuffled.remove(a);
    votes.to_multiset_ensures();
    shuffled.to_multiset_ensures();
    assert(rest.to_multiset() == shuffled_rest.to_multiset());
    assert(rest[j - 1] == votes[j]);
    let k = lemma_member_of_reordering(rest, shuffled_rest, j - 1);
    let b = if k < a {
        k
    } else {
        k + 1
    };
    assert(shuffled[b] == votes[j]);
    if a < b {
        assert(shuffled[a].authority == shuffled[b].authority);
    } else {
        assert(shuffled[b].authority == shuffled[a].authority);
    }
}

/// Reordering the votes keeps who has voted for what.
proof fn lemma_voted_for_in_reordering(
    headers: Seq<Header>,
    votes: Seq<ChallengedVote>,
    shuffled: Seq<ChallengedVote>,
    voter: AuthorityId,
    block: Block,
)
    requires
        votes.to_multiset() == shuffled.to_multiset(),
        voted_for(headers, votes, voter, block),
    ensures
        voted_for(headers, shuffled, voter, block),
{
    let i = choose|i: int|
        0 <= i < votes.len() && (#[trigger] votes[i]).authority == voter && descends_from(
            headers,
            votes[i].vote.target(),
            block,
        );
    let k = lemma_member_of_reordering(votes, shuffled, i);
    assert(shuffled[k].authority == voter);
}

/// Reordering the votes keeps the weight behind every block.
proof fn lemma_weight_in_reordering(
    headers: Seq<Header>,
    votes: Seq<ChallengedVote>,
    shuffled: Seq<ChallengedVote>,
    voters: Seq<(AuthorityId, AuthorityWeight)>,
    block: Block,
    n: nat,
)
    requires
        votes.to_multiset() == shuffled.to_multiset(),
    ensures
        weight_among(headers, votes, voters, block, n) == weight_among(
            headers,
            shuffled,
            voters,
            block,
            n,
        ),
    decreases n,
{
    if n != 0 && n <= voters.len() {
        lemma_weight_in_reordering(headers, votes, shuffled, voters, block, (n - 1) as nat);
        let voter = voters[n - 1].0;
        if voted_for(headers, votes, voter, block) {
            lemma_voted_for_in_reordering(headers, votes, shuffled, voter, block);
        }
        if voted_for(headers, shuffled, voter, block) {
            lemma_voted_for_in_reordering(headers, shuffled, votes, voter, block);
        }
    }
}

/// Reordering the votes keeps a ghost a ghost.
proof fn lemma_ghost_in_reordering(
    headers: Seq<Header>,
    votes: Seq<ChallengedVote>,
    shuffled: Seq<ChallengedVote>,
    voters: Seq<(AuthorityId, AuthorityWeight)>,
    ghost: Block,
)
    requires
        votes.to_multiset() == shuffled.to_multiset(),
        is_ghost(headers, votes, voters, ghost),
    ensures
        is_ghost(headers, shuffled, voters, ghost),
{
    lemma_weight_in_reordering(headers, votes, shuffled, voters, ghost, voters.len());
    assert forall|other: Block| #[trigger]
        has_supermajority(headers, shuffled, voters, other) implies other.number
        <= ghost.number by {
        lemma_weight_in_reordering(headers, votes, shuffled, voters, other, voters.len());
        assert(has_supermajority(headers, votes, voters, other));
    }
}

/// The order of the votes does not matter: a reordering of the votes gets
/// the same verdict, and where that is a ghost, the same ghost.
pub proof fn lemma_justification_ignores_order(
    claimed: Block,
    headers: Seq<Header>,
    votes: Seq<ChallengedVote>,
    shuffled: Seq<ChallengedVote>,
    voters: Seq<(AuthorityId, AuthorityWeight)>,
)
    requires
        votes.to_multiset() == shuffled.to_multiset(),
    ensures
        justification(claimed, headers, votes, voters) == justification(
            claimed,
            headers,
            shuffled,
            voters,
        ),
{
    if has_duplicate_voter(votes) {
        lemma_duplicate_in_reordering(votes, shuffled);
    }
    if has_duplicate_voter(shuffled) {
        lemma_duplicate_in_reordering(shuffled, votes);
    }
    if !has_duplicate_voter(votes) {
        if all_connected(headers, votes, claimed) {
            assert forall|k: int| 0 <= k < shuffled.len() implies descends_from(
                headers,
                (#[trigger] shuffled[k]).vote.target(),
                claimed,
            ) by {
                let i = lemma_member_of_reordering(shuffled, votes, k);
            }
        }
        if all_connected(headers, shuffled, claimed) {
            assert forall|i: int| 0 <= i < votes.len() implies descends_from(
                headers,
                (#[trigger] votes[i]).vote.target(),
                claimed,
            ) by {
                let k = lemma_member_of_reordering(votes, shuffled, i);
            }
        }
        lemma_weight_in_reordering(headers, votes, shuffled, voters, claimed, voters.len());
        if all_connected(headers, votes, claimed) && has_supermajority(
            headers,
            votes,
            voters,
            claimed,
        ) {
            lemma_ghost_exists(headers, votes, voters, claimed);
            lemma_ghost_exists(headers, shuffled, voters, claimed);
            let one = choose|block: Block| is_ghost(headers, votes, voters, block);
            let other = choose|block: Block| is_ghost(headers, shuffled, voters, block);
            lemma_ghost_in_reordering(headers, shuffled, votes, voters, other);
            lemma_ghost_unique(headers, votes, voters, one, other);
        }
    }
}

} // verus!
