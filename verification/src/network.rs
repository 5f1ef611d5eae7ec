//! What passes between shards, and the directory of peers.

pub mod bootstrap;
pub mod gossip_protocol;
