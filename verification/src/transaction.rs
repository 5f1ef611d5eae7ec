//! Value transfers and their life cycle.

use vstd::prelude::*;
use vstd::string::*;

verus! {

/// Where a transaction stands. `Completed` and `Failed` are terminal.
#[derive(Debug, Clone, Copy, PartialEq, Eq, Structural)]
pub enum TransactionStatus {
    Pending,
    Processing,
    Completed,
    Failed,
}

/// A transfer of `amount` from one shard to another. Shards count from 1.
#[derive(Debug, Clone)]
pub struct Transaction {
    pub id: String,
    pub amount: u64,
    pub from_shard: usize,
    pub to_shard: usize,
    pub status: TransactionStatus,
}

/// The mathematical content of a [`Transaction`].
pub struct TransactionView {
    pub id: Seq<char>,
    pub amount: u64,
    pub from_shard: usize,
    pub to_shard: usize,
    pub status: TransactionStatus,
}

impl TransactionView {
    /// The same transaction in another status.
    pub open spec fn with_status(self, status: TransactionStatus) -> TransactionView {
        TransactionView { status, ..self }
    }
}

impl View for Transaction {
    type V = TransactionView;

    open spec fn view(&self) -> TransactionView {
        TransactionView {
            id: self.id@,
            amount: self.amount,
            from_shard: self.from_shard,
            to_shard: self.to_shard,
            status: self.status,
        }
    }
}

/// The views of a sequence of transactions.
pub open spec fn transaction_views(transactions: Seq<Transaction>) -> Seq<TransactionView> {
    transactions.map_values(|t: Transaction| t@)
}

/// The ids of a sequence of transactions.
pub open spec fn transaction_ids(transactions: Seq<TransactionView>) -> Seq<Seq<char>> {
    transactions.map_values(|t: TransactionView| t.id)
}

/// Every transaction of the sequence in the given status.
pub open spec fn all_with_status(
    transactions: Seq<TransactionView>,
    status: TransactionStatus,
) -> Seq<TransactionView> {
    transactions.map_values(|t: TransactionView| t.with_status(status))
}

impl Transaction {
    /// A copy of this transaction.
    pub fn duplicate(&self) -> (copy: Transaction)
        ensures
            copy@ == self@,
    {
        Transaction {
            id: self.id.clone(),
            amount: self.amount,
            from_shard: self.from_shard,
            to_shard: self.to_shard,
            status: self.status,
        }
    }
}

/// A copy of a list of transactions.
pub fn duplicate_transactions(transactions: &Vec<Transaction>) -> (copy: Vec<Transaction>)
    ensures
        transaction_views(copy@) == transaction_views(transactions@),
{
    let mut copy: Vec<Transaction> = Vec::new();
    let mut i: usize = 0;
    while i < transactions.len()
        invariant
            i <= transactions.len(),
            copy@.len() == i,
            transaction_views(copy@) == transaction_views(transactions@).take(i as int),
        decreases transactions.len() - i,
    {
        copy.push(transactions[i].duplicate());
        i += 1;
        assert(transaction_views(copy@) =~= transaction_views(transactions@).take(i as int));
    }
    assert(transaction_views(transactions@).take(i as int) =~= transaction_views(
        transactions@,
    ));
    copy
}

} // verus!
