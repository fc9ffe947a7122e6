//! Reading a stored pending change from its bytes.
//!
//! The bytes hold, one after the other: the block that scheduled the change
//! and the delay, eight bytes each, lowest first; the number of authorities
//! in the codec's compact form; each authority as the 32 bytes of its key
//! and the eight bytes of its weight. This much is the layout of old. After
//! it may stand the field that tells of a forced change: a zero byte for
//! none, or a one byte and the eight bytes of the median. Where that field
//! is missing or cannot be read, the change counts as not forced.

use vstd::prelude::*;
use vstd::bytes::{spec_u16_from_le_bytes, spec_u32_from_le_bytes, spec_u64_from_le_bytes};
use vstd::slice::slice_subrange;
use parity_codec::{Compact, Decode};
use crate::primitives::{AuthorityId, AuthorityWeight, BlockNumber};
use crate::state::{OldStoredPendingChange, PendingChangeView, StoredPendingChange};

verus! {

/// The number that stands at the start of `bytes`: eight bytes, lowest
/// first.
pub open spec fn wire_u64(bytes: Seq<u8>) -> Option<u64> {
    if bytes.len() >= 8 {
        Some(spec_u64_from_le_bytes(bytes.subrange(0, 8)))
    } else {
        None
    }
}

/// The compact number that stands at the start of `bytes`, and how many
/// bytes it takes. The two lowest bits of the first byte tell the form: one
/// byte, two bytes or four bytes, which hold the number above those two
/// bits; or a byte without further bits, followed by the four bytes of the
/// number.
pub open spec fn wire_compact(bytes: Seq<u8>) -> Option<(u32, nat)> {
    if bytes.len() == 0 {
        None
    } else if bytes[0] % 4 == 0 {
        Some(((bytes[0] / 4) as u32, 1))
    } else if bytes[0] % 4 == 1 {
        if bytes.len() >= 2 {
            Some(((spec_u16_from_le_bytes(bytes.subrange(0, 2)) / 4) as u32, 2))
        } else {
            None
        }
    } else if bytes[0] % 4 == 2 {
        if bytes.len() >= 4 {
            Some(((spec_u32_from_le_bytes(bytes.subrange(0, 4)) / 4) as u32, 4))
        } else {
            None
        }
    } else if bytes[0] / 4 == 0 && bytes.len() >= 5 {
        Some((spec_u32_from_le_bytes(bytes.subrange(1, 5)), 5))
    } else {
        None
    }
}

/// The optional number that stands at the start of `bytes`: a zero byte for
/// none, or a one byte and the number.
pub open spec fn wire_optional_u64(bytes: Seq<u8>) -> Option<Option<u64>> {
    if bytes.len() == 0 {
        None
    } else if bytes[0] == 0 {
        Some(None)
    } else if bytes[0] == 1 {
        match wire_u64(bytes.skip(1)) {
            Some(value) => Some(Some(value)),
            None => None,
        }
    } else {
        None
    }
}

/// Reads a number with `parity_codec`'s `Decode::decode` for `u64`, which
/// takes eight bytes, lowest first, and fails where fewer are left.
#[verifier::external_body]
fn read_u64(bytes: &[u8]) -> (read: Option<u64>)
    ensures
        read == wire_u64(bytes@),
{
    u64::decode(&mut &bytes[..])
}

/// Reads a compact number with `parity_codec`'s `Decode::decode` for
/// `Compact<u32>`, which goes by the two lowest bits of the first byte as
/// `wire_compact` says, and fails where bytes are missing or the first byte
/// of the longest form has further bits.
#[verifier::external_body]
fn read_compact(bytes: &[u8]) -> (read: Option<u32>)
    ensures
        read == match wire_compact(bytes@) {
            Some((value, used)) => Some(value),
            None => None,
        },
{
    Compact::<u32>::decode(&mut &bytes[..]).map(|compact| compact.0)
}

/// Reads an optional number with `parity_codec`'s `Decode::decode` for
/// `Option<u64>`, which takes a zero byte for none and a one byte before a
/// number, and fails on any other byte or where bytes are missing.
#[verifier::external_body]
fn read_optional_u64(bytes: &[u8]) -> (read: Option<Option<u64>>)
    ensures
        read == wire_optional_u64(bytes@),
{
    Option::<u64>::decode(&mut &bytes[..])
}

/// Reads a key with `parity_codec`'s `Decode::decode` for `[u8; 32]`, which
/// takes the next 32 bytes as they stand and fails where fewer are left.
#[verifier::external_body]
fn read_key(bytes: &[u8]) -> (read: Option<[u8; 32]>)
    ensures
        read is Some <==> bytes@.len() >= 32,
        read matches Some(key) ==> key@ == bytes@.subrange(0, 32),
{
    <[u8; 32]>::decode(&mut &bytes[..])
}

/// How many bytes the layout of old takes at the start of `bytes`; `None`
/// where the bytes do not hold it in full.
pub open spec fn legacy_len(bytes: Seq<u8>) -> Option<nat> {
    if bytes.len() < 16 {
        None
    } else {
        match wire_compact(bytes.skip(16)) {
            Some((count, used)) => if bytes.len() >= 16 + used + 40 * count {
                Some((16 + used + 40 * count) as nat)
            } else {
                None
            },
            None => None,
        }
    }
}

/// Where the list of authorities starts in bytes that hold the layout of
/// old.
pub open spec fn authorities_start(bytes: Seq<u8>) -> nat {
    match wire_compact(bytes.skip(16)) {
        Some((count, used)) => 16 + used,
        None => 16,
    }
}

/// How many authorities stand in bytes that hold the layout of old.
pub open spec fn authorities_count(bytes: Seq<u8>) -> nat {
    match wire_compact(bytes.skip(16)) {
        Some((count, used)) => count as nat,
        None => 0,
    }
}

/// Whether `authorities` are the first authorities that stand in `bytes`
/// from `start` on, 40 bytes each: the key, then the weight.
pub open spec fn encodes_authorities(
    bytes: Seq<u8>,
    start: nat,
    authorities: Seq<(AuthorityId, AuthorityWeight)>,
) -> bool {
    forall|i: int|
        0 <= i < authorities.len() ==> {
            &&& (#[trigger] authorities[i]).0.0@ == bytes.subrange(
                start + 40 * i,
                start + 40 * i + 32,
            )
            &&& Some(authorities[i].1) == wire_u64(bytes.skip(start + 40 * i + 32))
        }
}

/// Whether `change` is what the layout of old holds at the start of
/// `bytes`.
pub open spec fn encodes_legacy_change(bytes: Seq<u8>, change: PendingChangeView) -> bool {
    &&& legacy_len(bytes) is Some
    &&& Some(change.scheduled_at) == wire_u64(bytes)
    &&& Some(change.delay) == wire_u64(bytes.skip(8))
    &&& change.next_authorities.len() == authorities_count(bytes)
    &&& encodes_authorities(bytes, authorities_start(bytes), change.next_authorities)
    &&& change.forced is None
}

/// The forced field that stands at the start of `bytes`: the optional
/// number there, and none where it cannot be read.
pub open spec fn wire_forced(bytes: Seq<u8>) -> Option<BlockNumber> {
    match wire_optional_u64(bytes) {
        Some(forced) => forced,
        None => None,
    }
}

/// Whether `change` is what `bytes` hold: the layout of old, and after it
/// the forced field.
pub open spec fn encodes_change(bytes: Seq<u8>, change: PendingChangeView) -> bool {
    &&& encodes_legacy_change(bytes, PendingChangeView { forced: None, ..change })
    &&& change.forced == wire_forced(bytes.skip(legacy_len(bytes)->0 as int))
}

/// Bytes hold at most one change.
pub proof fn lemma_encoding_unique(bytes: Seq<u8>, one: PendingChangeView, other: PendingChangeView)
    requires
        encodes_change(bytes, one),
        encodes_change(bytes, other),
    ensures
        one == other,
{
    assert forall|i: int| 0 <= i < one.next_authorities.len() implies one.next_authorities[i]
        == other.next_authorities[i] by {
        let a = one.next_authorities[i];
        let b = other.next_authorities[i];
        assert(a.0.0@ == b.0.0@);
        assert(a.0.0 =~= b.0.0);
        assert(a.1 == b.1);
    }
    assert(one.next_authorities =~= other.next_authorities);
}

impl OldStoredPendingChange {
    /// Reads a change in the layout of old from the start of `bytes`, and
    /// tells how many bytes it took.
    pub fn decode(bytes: &[u8]) -> (read: Option<(OldStoredPendingChange, usize)>)
        ensures
            read is Some <==> legacy_len(bytes@) is Some,
            read matches Some((change, used)) ==> encodes_legacy_change(bytes@, change@) && Some(
                used as nat,
            ) == legacy_len(bytes@),
    {
        let len = bytes.len();
        if len < 16 {
            return None;
        }
        proof {
            assert(bytes@.subrange(0, len as int) =~= bytes@);
        }
        let scheduled_at = match read_u64(bytes) {
            Some(value) => value,
            None => {
                return None;
            },
        };
        let delay = match read_u64(slice_subrange(bytes, 8, len)) {
            Some(value) => value,
            None => {
                return None;
            },
        };
        let tail = slice_subrange(bytes, 16, len);
        proof {
            assert(bytes@.subrange(8, len as int) =~= bytes@.skip(8));
            assert(tail@ =~= bytes@.skip(16));
        }
        let count = match read_compact(tail) {
            Some(value) => value,
            None => {
                return None;
            },
        };
        let form = tail[0] % 4;
        let used: usize = if form == 0 {
            1
        } else if form == 1 {
            2
        } else if form == 2 {
            4
        } else {
            5
        };
        let start: usize = 16 + used;
        let mut next_authorities: Vec<(AuthorityId, AuthorityWeight)> = Vec::new();
        let mut at: usize = start;
        let mut i: u32 = 0;
        while i < count
            invariant
                i <= count,
                len == bytes@.len(),
                start == authorities_start(bytes@),
                start <= len,
                at == start + 40 * i,
                at <= len,
                wire_compact(bytes@.skip(16)) == Some((count, used as nat)),
                next_authorities@.len() == i,
                encodes_authorities(bytes@, start as nat, next_authorities@),
            decreases count - i,
        {
            if len - at < 40 {
                return None;
            }
            let key = match read_key(slice_subrange(bytes, at, at + 32)) {
                Some(key) => key,
                None => {
                    return None;
                },
            };
            let weight = match read_u64(slice_subrange(bytes, at + 32, len)) {
                Some(weight) => weight,
                None => {
                    return None;
                },
            };
            proof {
                assert(bytes@.subrange(at as int, at + 32).subrange(0, 32) =~= bytes@.subrange(
                    start + 40 * i,
                    start + 40 * i + 32,
                ));
                assert(bytes@.subrange(at + 32, len as int) =~= bytes@.skip(start + 40 * i + 32));
            }
            next_authorities.push((AuthorityId(key), weight));
            at = at + 40;
            i = i + 1;
        }
        Some((OldStoredPendingChange { scheduled_at, delay, next_authorities }, at))
    }
}

impl StoredPendingChange {
    /// Reads a change from `bytes`: first the layout of old, then the forced
    /// field, which counts as none where it is missing or cannot be read.
    pub fn decode(bytes: &[u8]) -> (read: Option<StoredPendingChange>)
        ensures
            read is Some <==> legacy_len(bytes@) is Some,
            read matches Some(change) ==> encodes_change(bytes@, change@),
    {
        let (old, used) = match OldStoredPendingChange::decode(bytes) {
            Some(read) => read,
            None => {
                return None;
            },
        };
        let rest = slice_subrange(bytes, used, bytes.len());
        proof {
            assert(rest@ =~= bytes@.skip(used as int));
        }
        let forced = match read_optional_u64(rest) {
            Some(forced) => forced,
            None => None,
        };
        Some(
            StoredPendingChange {
                scheduled_at: old.scheduled_at,
                delay: old.delay,
                next_authorities: old.next_authorities,
                forced,
            },
        )
    }
}

} // verus!
