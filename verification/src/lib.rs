//! On-chain bookkeeping for a GRANDPA-style finality gadget.
//!
//! The library keeps the set of voting authorities and rotates it safely,
//! with a pause and resume valve and throttled forced changes; it checks
//! reports of equivocation and challenges of finality claims; and it keeps
//! the challenge sessions, which run out after a fixed number of blocks and
//! are never opened twice for one block.
//!
//! Everything that is kept from block to block stands in `store::Module`.
//! Each request is specified as a function on `store::ModuleView`, its
//! mathematical model, and `laws` states what holds across requests. The
//! host chain is reached through `config::Trait` alone; of what it answers
//! nothing is assumed.

pub mod ancestry;
pub mod challenge;
pub mod codec;
pub mod config;
pub mod digest;
pub mod equivocation;
pub mod error;
pub mod finalize;
pub mod justification;
pub mod laws;
pub mod ledger;
pub mod log;
pub mod primitives;
pub mod slots;
pub mod state;
pub mod store;
pub mod votes;
