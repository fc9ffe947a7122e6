//! Identifiers shared by every part of the library.

use vstd::prelude::*;
use vstd::std_specs::cmp::PartialEqSpecImpl;

verus! {

/// The weight of an authority's vote.
pub type AuthorityWeight = u64;

/// The height of a block.
pub type BlockNumber = u64;

/// The identity that the key-ownership system holds accountable for a key.
pub type OwnerId = u64;

/// The public key that identifies a voting authority.
#[derive(Clone, Copy, Debug, Eq)]
pub struct AuthorityId(pub [u8; 32]);

/// The hash that identifies a block.
#[derive(Clone, Copy, Debug, Eq)]
pub struct BlockHash(pub [u8; 32]);

/// A block, named by its hash and its height.
#[derive(Clone, Copy, Debug, Eq)]
pub struct Block {
    pub hash: BlockHash,
    pub number: BlockNumber,
}

/// Compares two 32-byte strings byte by byte.
fn same_bytes(left: &[u8; 32], right: &[u8; 32]) -> (same: bool)
    ensures
        same == (*left == *right),
{
    let mut i: usize = 0;
    while i < 32
        invariant
            i <= 32,
            forall|k: int| 0 <= k < i ==> left[k] == right[k],
        decreases 32 - i,
    {
        if left[i] != right[i] {
            return false;
        }
        i += 1;
    }
    assert(*left =~= *right);
    true
}

impl PartialEq for AuthorityId {
    fn eq(&self, other: &AuthorityId) -> (r: bool) {
        same_bytes(&self.0, &other.0)
    }
}

impl PartialEqSpecImpl for AuthorityId {
    open spec fn obeys_eq_spec() -> bool {
        true
    }

    open spec fn eq_spec(&self, other: &AuthorityId) -> bool {
        *self == *other
    }
}

impl PartialEq for BlockHash {
    fn eq(&self, other: &BlockHash) -> (r: bool) {
        same_bytes(&self.0, &other.0)
    }
}

impl PartialEqSpecImpl for BlockHash {
    open spec fn obeys_eq_spec() -> bool {
        true
    }

    open spec fn eq_spec(&self, other: &BlockHash) -> bool {
        *self == *other
    }
}

impl PartialEq for Block {
    fn eq(&self, other: &Block) -> (r: bool) {
        self.hash == other.hash && self.number == other.number
    }
}

impl PartialEqSpecImpl for Block {
    open spec fn obeys_eq_spec() -> bool {
        true
    }

    open spec fn eq_spec(&self, other: &Block) -> bool {
        *self == *other
    }
}

/// Compares two weighted authority lists entry by entry.
pub fn same_authorities(
    left: &Vec<(AuthorityId, AuthorityWeight)>,
    right: &Vec<(AuthorityId, AuthorityWeight)>,
) -> (same: bool)
    ensures
        same == (left@ == right@),
{
    if left.len() != right.len() {
        return false;
    }
    let mut i: usize = 0;
    while i < left.len()
        invariant
            i <= left.len(),
            left.len() == right.len(),
            forall|k: int| 0 <= k < i ==> left@[k] == right@[k],
        decreases left.len() - i,
    {
        if !(left[i].0 == right[i].0 && left[i].1 == right[i].1) {
            return false;
        }
        i += 1;
    }
    assert(left@ =~= right@);
    true
}

/// Copies a weighted authority list.
pub fn copy_authorities(list: &Vec<(AuthorityId, AuthorityWeight)>) -> (copy: Vec<
    (AuthorityId, AuthorityWeight),
>)
    ensures
        copy@ == list@,
{
    let mut copy: Vec<(AuthorityId, AuthorityWeight)> = Vec::new();
    let mut i: usize = 0;
    while i < list.len()
        invariant
            i <= list.len(),
            copy@ == list@.take(i as int),
        decreases list.len() - i,
    {
        copy.push(list[i]);
        i += 1;
        assert(copy@ =~= list@.take(i as int));
    }
    assert(list@.take(list.len() as int) =~= list@);
    copy
}

} // verus!
