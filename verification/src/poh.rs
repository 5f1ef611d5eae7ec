//! Proof-of-history: hash-linked entries over batches of transaction ids.

pub mod entry;
pub mod generator;
pub mod performance;
