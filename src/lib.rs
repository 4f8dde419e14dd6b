//! A sharded fungible-token ledger: a gateway that gives every user action a
//! transaction identity, a coordinator that drives primitive operations on
//! storage shards as a resumable state machine, and the shards themselves.
//!
//! - `ids`: addresses, digests, the transaction identity and bucket key.
//! - `wire`: the messages the tiers exchange.
//! - `storage`: a shard, with the laws of its primitive operations.
//! - `logic`: the coordinator's state machine and its invariants.
//! - `gateway`: the gateway's transaction table and replay rule.
//! - `protocol`: the coordinator and shards together, one action at a time.
//! - `ledger`: the supply over any sequence of actions.

pub mod gateway;
pub mod ids;
pub mod ledger;
pub mod logic;
pub mod protocol;
pub mod storage;
pub mod wire;
