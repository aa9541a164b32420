//! Collective-decision primitives for a weighted-voting ledger: a vote
//! registry with threshold-based outcomes, and an escrow-backed dispute
//! court that resolves disputes by dispatching votes.

pub mod ballots;
pub mod chain_spec;
pub mod court;
pub mod custodian;
pub mod laws;
pub mod ratio;
pub mod storage;
pub mod vote;
pub mod vote_registry;
