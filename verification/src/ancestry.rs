//! Walking from a block towards the genesis along a set of headers.

use vstd::prelude::*;
use crate::primitives::{Block, BlockHash, BlockNumber};
use crate::votes::Header;

verus! {

/// The first header at or after position `from` that belongs to the block
/// with the given hash.
pub open spec fn header_of(headers: Seq<Header>, hash: BlockHash, from: int) -> Option<Header>
    decreases headers.len() - from,
{
    if from < 0 || from >= headers.len() {
        None
    } else if headers[from].hash == hash {
        Some(headers[from])
    } else {
        header_of(headers, hash, from + 1)
    }
}

/// The hash of the ancestor of `block` at `height`, found by following the
/// parent links of `headers`. `None` where `height` is above the block, or
/// where the walk meets a block without a header, or with a header that
/// gives another height than the walk has reached.
pub open spec fn ancestor_at(headers: Seq<Header>, block: Block, height: BlockNumber) -> Option<
    BlockHash,
>
    decreases block.number - height,
{
    if block.number < height {
        None
    } else if block.number == height {
        Some(block.hash)
    } else {
        match header_of(headers, block.hash, 0) {
            Some(header) => if header.number == block.number {
                ancestor_at(
                    headers,
                    Block { hash: header.parent_hash, number: (block.number - 1) as u64 },
                    height,
                )
            } else {
                None
            },
            None => None,
        }
    }
}

/// Whether `block` is `base` or one of its descendants, as far as `headers`
/// show.
pub open spec fn descends_from(headers: Seq<Header>, block: Block, base: Block) -> bool {
    ancestor_at(headers, block, base.number) == Some(base.hash)
}

/// Finds the first header of the block with the given hash.
pub fn find_header(headers: &Vec<Header>, hash: &BlockHash) -> (found: Option<Header>)
    ensures
        found == header_of(headers@, *hash, 0),
{
    let mut i: usize = 0;
    while i < headers.len()
        invariant
            i <= headers.len(),
            header_of(headers@, *hash, 0) == header_of(headers@, *hash, i as int),
        decreases headers.len() - i,
    {
        if headers[i].hash == *hash {
            return Some(headers[i]);
        }
        i += 1;
    }
    None
}

/// Walks from `block` down to `height` and returns the hash found there.
pub fn find_ancestor(headers: &Vec<Header>, block: Block, height: BlockNumber) -> (found: Option<
    BlockHash,
>)
    ensures
        found == ancestor_at(headers@, block, height),
{
    let mut current = block;
    while current.number > height
        invariant
            ancestor_at(headers@, block, height) == ancestor_at(headers@, current, height),
        decreases current.number,
    {
        match find_header(headers, &current.hash) {
            Some(header) => {
                if header.number != current.number {
                    return None;
                }
                current = Block { hash: header.parent_hash, number: current.number - 1 };
            },
            None => {
                return None;
            },
        }
    }
    if current.number == height {
        Some(current.hash)
    } else {
        None
    }
}

/// Tells whether `block` is `base` or one of its descendants.
pub fn is_descendant(headers: &Vec<Header>, block: Block, base: Block) -> (yes: bool)
    ensures
        yes == descends_from(headers@, block, base),
{
    match find_ancestor(headers, block, base.number) {
        Some(hash) => hash == base.hash,
        None => false,
    }
}

/// The ancestor of an ancestor is an ancestor: a walk that reaches `upper`
/// goes on from there exactly as a walk that starts there.
pub proof fn lemma_ancestor_of_ancestor(
    headers: Seq<Header>,
    block: Block,
    upper: BlockNumber,
    lower: BlockNumber,
)
    requires
        lower <= upper,
        ancestor_at(headers, block, upper) is Some,
    ensures
        ancestor_at(headers, block, lower) == ancestor_at(
            headers,
            Block { hash: ancestor_at(headers, block, upper)->0, number: upper },
            lower,
        ),
    decreases block.number - upper,
{
    if block.number > upper {
        let header = header_of(headers, block.hash, 0)->0;
        let parent = Block { hash: header.parent_hash, number: (block.number - 1) as u64 };
        lemma_ancestor_of_ancestor(headers, parent, upper, lower);
    }
}

/// A walk that reaches `lower` passes every height between `lower` and the
/// block it starts from.
pub proof fn lemma_ancestor_between(
    headers: Seq<Header>,
    block: Block,
    lower: BlockNumber,
    height: BlockNumber,
)
    requires
        lower <= height <= block.number,
        ancestor_at(headers, block, lower) is Some,
    ensures
        ancestor_at(headers, block, height) is Some,
    decreases block.number - height,
{
    if block.number > height {
        let header = header_of(headers, block.hash, 0)->0;
        let parent = Block { hash: header.parent_hash, number: (block.number - 1) as u64 };
        lemma_ancestor_between(headers, parent, lower, height);
    }
}

} // verus!
