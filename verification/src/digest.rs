//! Finding this engine's entry in the digest of a block.

use vstd::prelude::*;
use crate::challenge::Challenge;
use crate::log::{ConsensusLog, ScheduledChange, GRANDPA_ENGINE_ID};
use crate::primitives::BlockNumber;
use crate::store::Module;

verus! {

/// What the library reads of an item of a block's digest.
#[derive(Clone, Debug, PartialEq, Eq)]
pub enum DigestItem {
    /// An entry of a consensus engine: the engine's tag, and the entry
    /// itself where it can be read as one of this engine's.
    Consensus([u8; 4], Option<ConsensusLog>),
    /// Any other item.
    Other,
}

impl DigestItem {
    /// The entry that the item holds for this engine, if it holds one.
    pub open spec fn own_log(&self) -> Option<ConsensusLog> {
        match self {
            DigestItem::Consensus(engine, Some(log)) => if *engine == GRANDPA_ENGINE_ID {
                Some(*log)
            } else {
                None
            },
            _ => None,
        }
    }

    /// The item that carries an entry of this engine.
    pub fn from_log(log: ConsensusLog) -> (item: DigestItem)
        ensures
            item == DigestItem::Consensus(GRANDPA_ENGINE_ID, Some(log)),
            item.own_log() == Some(log),
    {
        DigestItem::Consensus(GRANDPA_ENGINE_ID, Some(log))
    }

    /// Takes the entry that the item holds for this engine, if it holds
    /// one.
    pub fn try_into_log(self) -> (log: Option<ConsensusLog>)
        ensures
            log == self.own_log(),
    {
        match self {
            DigestItem::Consensus(engine, Some(log)) => {
                if engine[0] == GRANDPA_ENGINE_ID[0] && engine[1] == GRANDPA_ENGINE_ID[1]
                    && engine[2] == GRANDPA_ENGINE_ID[2] && engine[3] == GRANDPA_ENGINE_ID[3] {
                    assert(engine =~= GRANDPA_ENGINE_ID);
                    Some(log)
                } else {
                    None
                }
            },
            _ => None,
        }
    }
}

/// The first entry of this engine among the items of a digest from `from`
/// on.
pub open spec fn first_log(digest: Seq<DigestItem>, from: int) -> Option<ConsensusLog>
    decreases digest.len() - from,
{
    if from < 0 || from >= digest.len() {
        None
    } else if digest[from].own_log() is Some {
        digest[from].own_log()
    } else {
        first_log(digest, from + 1)
    }
}

/// The items that carry the given entries of this engine, in their order.
pub open spec fn deposited(logs: Seq<ConsensusLog>) -> Seq<DigestItem> {
    logs.map_values(|log: ConsensusLog| DigestItem::Consensus(GRANDPA_ENGINE_ID, Some(log)))
}

/// Makes the items that carry the given entries of this engine: what the
/// digest of a block holds of the entries that the end of the block made.
pub fn deposit_logs(logs: Vec<ConsensusLog>) -> (digest: Vec<DigestItem>)
    ensures
        digest@ == deposited(logs@),
        first_log(digest@, 0) == if logs@.len() > 0 {
            Some(logs@[0])
        } else {
            None
        },
{
    let ghost entries = logs@;
    let mut rest = logs;
    let mut digest: Vec<DigestItem> = Vec::new();
    let total = rest.len();
    let mut i: usize = 0;
    while i < total
        invariant
            i <= total == entries.len(),
            rest@ == entries.skip(i as int),
            digest@ == deposited(entries.take(i as int)),
        decreases total - i,
    {
        let log = rest.remove(0);
        digest.push(DigestItem::from_log(log));
        i += 1;
        proof {
            assert(rest@ =~= entries.skip(i as int));
            assert(digest@ =~= deposited(entries.take(i as int)));
        }
    }
    proof {
        assert(entries.take(total as int) =~= entries);
        lemma_first_deposited_is_read(entries);
    }
    digest
}

/// What is read back from the entries of a block is the first of them.
pub proof fn lemma_first_deposited_is_read(logs: Seq<ConsensusLog>)
    ensures
        first_log(deposited(logs), 0) == if logs.len() > 0 {
            Some(logs[0])
        } else {
            None
        },
{
    if logs.len() > 0 {
        assert(deposited(logs)[0].own_log() == Some(logs[0]));
    }
}

impl Module {
    /// The entry of this engine in a digest: the first one, if there is
    /// one.
    pub fn grandpa_log(digest: Vec<DigestItem>) -> (log: Option<ConsensusLog>)
        ensures
            log == first_log(digest@, 0),
    {
        let ghost items = digest@;
        let mut rest = digest;
        let total = rest.len();
        let mut i: usize = 0;
        while i < total
            invariant
                i <= total == items.len(),
                items == digest@,
                rest@ == items.skip(i as int),
                first_log(items, 0) == first_log(items, i as int),
            decreases total - i,
        {
            let item = rest.remove(0);
            assert(item == items[i as int]);
            assert(rest@ =~= items.skip(i as int + 1));
            match item.try_into_log() {
                Some(log) => {
                    return Some(log);
                },
                None => {},
            }
            i += 1;
        }
        None
    }

    /// The change of the authority set that the digest announces.
    pub fn pending_change(digest: Vec<DigestItem>) -> (change: Option<ScheduledChange>)
        ensures
            change == match first_log(digest@, 0) {
                Some(ConsensusLog::ScheduledChange(change)) => Some(change),
                _ => None,
            },
    {
        match Self::grandpa_log(digest) {
            Some(log) => log.try_into_change(),
            None => None,
        }
    }

    /// The forced change of the authority set that the digest announces,
    /// with its median.
    pub fn forced_change(digest: Vec<DigestItem>) -> (change: Option<(BlockNumber, ScheduledChange)>)
        ensures
            change == match first_log(digest@, 0) {
                Some(ConsensusLog::ForcedChange(median, change)) => Some((median, change)),
                _ => None,
            },
    {
        match Self::grandpa_log(digest) {
            Some(log) => log.try_into_forced_change(),
            None => None,
        }
    }

    /// The challenges that the digest carries.
    pub fn grandpa_challenges(digest: Vec<DigestItem>) -> (challenges: Option<Vec<Challenge>>)
        ensures
            challenges == match first_log(digest@, 0) {
                Some(ConsensusLog::Challenges(challenges)) => Some(challenges),
                _ => None,
            },
    {
        match Self::grandpa_log(digest) {
            Some(log) => log.try_into_challenges(),
            None => None,
        }
    }

    /// The delay of the pause that the digest announces.
    pub fn pending_pause(digest: Vec<DigestItem>) -> (delay: Option<BlockNumber>)
        ensures
            delay == match first_log(digest@, 0) {
                Some(ConsensusLog::Pause(delay)) => Some(delay),
                _ => None,
            },
    {
        match Self::grandpa_log(digest) {
            Some(log) => log.try_into_pause(),
            None => None,
        }
    }

    /// The delay of the resume that the digest announces.
    pub fn pending_resume(digest: Vec<DigestItem>) -> (delay: Option<BlockNumber>)
        ensures
            delay == match first_log(digest@, 0) {
                Some(ConsensusLog::Resume(delay)) => Some(delay),
                _ => None,
            },
    {
        match Self::grandpa_log(digest) {
            Some(log) => log.try_into_resume(),
            None => None,
        }
    }
}

} // verus!
