//! A sharded ledger core: per-shard transaction pools ordered by a
//! proof-of-history hash chain, blocks accepted by weighted validator votes,
//! cross-shard forwarding by gossip, and an epoch state machine.

pub mod block;
pub mod checkpoint;
pub mod clock;
pub mod consensus;
pub mod driver;
pub mod hashing;
pub mod id_set;
pub mod ledger;
pub mod network;
pub mod poh;
pub mod ranking;
pub mod shard;
pub mod shard_laws;
pub mod shard_model;
pub mod stats;
pub mod text;
pub mod transaction;
pub mod validator;
