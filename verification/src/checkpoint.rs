//! Snapshots of a shard's state, taken at epoch boundaries.

use vstd::prelude::*;
use crate::id_set::IdSet;
use crate::ledger::{duplicate_ledger, ledger_view, LedgerEntry};
use crate::transaction::{duplicate_transactions, transaction_views, Transaction, TransactionView};

verus! {

/// A shard's ledger, pool and processed ids at a given chain height.
#[derive(Debug)]
pub struct Checkpoint {
    pub shard_id: usize,
    pub block_height: u64,
    pub ledger_snapshot: Vec<LedgerEntry>,
    pub transaction_pool_snapshot: Vec<Transaction>,
    pub processed_transactions_snapshot: IdSet,
}

/// The mathematical content of a [`Checkpoint`].
pub struct CheckpointView {
    pub shard_id: usize,
    pub block_height: u64,
    pub ledger_snapshot: Seq<(Seq<char>, u64)>,
    pub transaction_pool_snapshot: Seq<TransactionView>,
    pub processed_transactions_snapshot: Set<Seq<char>>,
}

impl View for Checkpoint {
    type V = CheckpointView;

    open spec fn view(&self) -> CheckpointView {
        CheckpointView {
            shard_id: self.shard_id,
            block_height: self.block_height,
            ledger_snapshot: ledger_view(self.ledger_snapshot@),
            transaction_pool_snapshot: transaction_views(self.transaction_pool_snapshot@),
            processed_transactions_snapshot: self.processed_transactions_snapshot@,
        }
    }
}

/// The view of an optional checkpoint.
pub open spec fn checkpoint_option_view(checkpoint: Option<Checkpoint>) -> Option<CheckpointView> {
    match checkpoint {
        Some(c) => Some(c@),
        None => None,
    }
}

impl Checkpoint {
    /// A checkpoint of the given parts.
    pub fn new(
        shard_id: usize,
        block_height: u64,
        ledger_snapshot: Vec<LedgerEntry>,
        transaction_pool_snapshot: Vec<Transaction>,
        processed_transactions_snapshot: IdSet,
    ) -> (checkpoint: Checkpoint)
        ensures
            checkpoint@ == (CheckpointView {
                shard_id,
                block_height,
                ledger_snapshot: ledger_view(ledger_snapshot@),
                transaction_pool_snapshot: transaction_views(transaction_pool_snapshot@),
                processed_transactions_snapshot: processed_transactions_snapshot@,
            }),
    {
        Checkpoint {
            shard_id,
            block_height,
            ledger_snapshot,
            transaction_pool_snapshot,
            processed_transactions_snapshot,
        }
    }

    /// A copy of this checkpoint.
    pub fn duplicate(&self) -> (copy: Checkpoint)
        ensures
            copy@ == self@,
    {
        Checkpoint {
            shard_id: self.shard_id,
            block_height: self.block_height,
            ledger_snapshot: duplicate_ledger(&self.ledger_snapshot),
            transaction_pool_snapshot: duplicate_transactions(&self.transaction_pool_snapshot),
            processed_transactions_snapshot: self.processed_transactions_snapshot.duplicate(),
        }
    }
}

} // verus!
