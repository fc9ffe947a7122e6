//! Reports of skipped block-production slots.
//!
//! Block authors take turns, one slot each, in the order of the validator
//! list. When a run of slots passes without a block, the authors of those
//! slots are the ones to punish, unless the run is so long that every
//! validator was skipped.

use vstd::prelude::*;

verus! {

/// A run of consecutive skipped slots.
#[derive(Clone, Copy, Debug, PartialEq, Eq)]
pub struct AuraReport {
    /// The first skipped slot.
    pub start_slot: usize,
    /// How many slots in a row were skipped.
    pub skipped: usize,
}

impl AuraReport {
    /// The punishments that this report calls for among `validator_count`
    /// validators: one entry `(validator index, count)` per skipped slot, in
    /// slot order. A run that covers every validator punishes nobody.
    pub open spec fn punishments(&self, validator_count: usize) -> Seq<(usize, usize)> {
        if self.skipped < validator_count {
            Seq::new(
                self.skipped as nat,
                |i: int| (((self.start_slot + i) % (validator_count as int)) as usize, 1usize),
            )
        } else {
            Seq::empty()
        }
    }

    /// Lists the validators to punish, each with the number of punishments
    /// it earns for one skipped slot.
    pub fn punish(&self, validator_count: usize) -> (out: Vec<(usize, usize)>)
        ensures
            out@ == self.punishments(validator_count),
    {
        let mut out: Vec<(usize, usize)> = Vec::new();
        if self.skipped < validator_count {
            let base: usize = self.start_slot % validator_count;
            let room: usize = validator_count - base;
            let mut index: usize = 0;
            while index < self.skipped
                invariant
                    index <= self.skipped < validator_count,
                    base == self.start_slot % validator_count,
                    room == validator_count - base,
                    out@ == Seq::new(
                        index as nat,
                        |i: int| (((self.start_slot + i) % (validator_count as int)) as usize, 1usize),
                    ),
                decreases self.skipped - index,
            {
                let slot: usize = if index >= room {
                    index - room
                } else {
                    base + index
                };
                proof {
                    lemma_wrapped_slot(self.start_slot as int, index as int, validator_count as int);
                }
                out.push((slot, 1));
                index += 1;
            }
        }
        out
    }
}

/// Adding an offset below `n` to a slot and reducing modulo `n` wraps around
/// at most once.
proof fn lemma_wrapped_slot(start: int, offset: int, n: int)
    requires
        0 <= start,
        0 <= offset < n,
    ensures
        (start + offset) % n == if offset >= n - start % n {
            offset - (n - start % n)
        } else {
            start % n + offset
        },
{
    let base = start % n;
    let q = start / n;
    assert(start == q * n + base && 0 <= base < n) by (nonlinear_arith)
        requires
            q == start / n,
            base == start % n,
            n > 0,
    ;
    if offset >= n - base {
        assert((start + offset) % n == base + offset - n) by (nonlinear_arith)
            requires
                start == q * n + base,
                0 <= base + offset - n < n,
                n > 0,
        ;
    } else {
        assert((start + offset) % n == base + offset) by (nonlinear_arith)
            requires
                start == q * n + base,
                0 <= base + offset < n,
                n > 0,
        ;
    }
}

} // verus!
