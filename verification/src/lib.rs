//! Coordination core for a cluster of game-hosting nodes: membership lookup
//! and request routing on one side, and deterministic encoding of game state
//! transitions into the ledger's constructor-tagged datum form on the other.

pub mod cluster;
pub mod plutus;
pub mod redeemer;
pub mod routing;
pub mod text;
