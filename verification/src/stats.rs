//! Read-only snapshots of shards and blocks for an observer.

use vstd::prelude::*;
use vstd::string::*;
use crate::block::{capped, total_ids, Block};
use crate::checkpoint::{Checkpoint, CheckpointView};
use crate::network::gossip_protocol::shard_views;
use crate::shard::{committed_ids, Shard};
use crate::shard_model::ShardView;
use crate::validator::Validator;

verus! {

/// What an observer is told of a block.
#[derive(Debug)]
pub struct BlockStats {
    pub block_number: u64,
    pub block_hash: String,
    pub previous_hash: String,
    pub tx_count: usize,
    pub timestamp: i64,
}

/// What an observer is told of a checkpoint.
#[derive(Debug, Clone, Copy, PartialEq, Eq, Structural)]
pub struct CheckpointDetail {
    pub shard_id: usize,
    pub block_height: u64,
    pub transaction_pool_size: usize,
    pub processed_transaction_count: usize,
}

/// What an observer is told of a shard.
#[derive(Debug)]
pub struct ShardStats {
    pub id: usize,
    pub block_count: usize,
    pub transaction_pool_size: usize,
    pub processed_tx_count: usize,
    pub validators: Vec<Validator>,
    pub checkpoint: Option<CheckpointDetail>,
}

/// The sums over a network's shards. A sum that exceeds `usize::MAX` is
/// told as `usize::MAX`.
#[derive(Debug, Clone, Copy, PartialEq, Eq, Structural)]
pub struct NetworkTotals {
    pub num_shards: usize,
    pub total_blocks: usize,
    pub total_transactions: usize,
    pub transaction_pool_size: usize,
    pub total_cross_shard_transactions: usize,
}

/// The detail of a checkpoint.
pub open spec fn detail_of(checkpoint: CheckpointView) -> CheckpointDetail {
    CheckpointDetail {
        shard_id: checkpoint.shard_id,
        block_height: checkpoint.block_height,
        transaction_pool_size: checkpoint.transaction_pool_snapshot.len() as usize,
        processed_transaction_count: checkpoint.processed_transactions_snapshot.len() as usize,
    }
}

/// The detail of an optional checkpoint.
pub open spec fn detail_of_option(checkpoint: Option<CheckpointView>) -> Option<CheckpointDetail> {
    match checkpoint {
        Some(c) => Some(detail_of(c)),
        None => None,
    }
}

/// The number of blocks in all shards.
pub open spec fn block_total(shards: Seq<ShardView>) -> nat
    decreases shards.len(),
{
    if shards.len() == 0 {
        0
    } else {
        block_total(shards.drop_last()) + shards.last().blocks.len()
    }
}

/// The number of transaction ids in the chains of all shards.
pub open spec fn committed_total(shards: Seq<ShardView>) -> nat
    decreases shards.len(),
{
    if shards.len() == 0 {
        0
    } else {
        committed_total(shards.drop_last()) + committed_ids(shards.last().blocks)
    }
}

/// The number of transactions in the pools of all shards.
pub open spec fn pool_total(shards: Seq<ShardView>) -> nat
    decreases shards.len(),
{
    if shards.len() == 0 {
        0
    } else {
        pool_total(shards.drop_last()) + shards.last().transaction_pool.len()
    }
}

/// The number of transactions queued for other shards in all shards.
pub open spec fn queue_total(shards: Seq<ShardView>) -> nat
    decreases shards.len(),
{
    if shards.len() == 0 {
        0
    } else {
        queue_total(shards.drop_last()) + shards.last().pending_cross_shard_txs.len()
    }
}

/// The snapshot of a block.
pub fn block_stats(block: &Block) -> (stats: BlockStats)
    ensures
        stats.block_number == block@.block_number,
        stats.block_hash@ == block@.block_hash,
        stats.previous_hash@ == block@.previous_hash,
        stats.tx_count == capped(total_ids(block@.poh_entries)),
        stats.timestamp == block@.timestamp,
{
    BlockStats {
        block_number: block.block_number,
        block_hash: block.block_hash.clone(),
        previous_hash: block.previous_hash.clone(),
        tx_count: block.transaction_count(),
        timestamp: block.timestamp,
    }
}

/// The detail of a checkpoint.
pub fn checkpoint_detail(checkpoint: &Checkpoint) -> (detail: CheckpointDetail)
    ensures
        detail == detail_of(checkpoint@),
{
    CheckpointDetail {
        shard_id: checkpoint.shard_id,
        block_height: checkpoint.block_height,
        transaction_pool_size: checkpoint.transaction_pool_snapshot.len(),
        processed_transaction_count: checkpoint.processed_transactions_snapshot.len(),
    }
}

/// The snapshot of a shard.
pub fn shard_stats(shard: &Shard) -> (stats: ShardStats)
    ensures
        stats.id == shard@.id,
        stats.block_count == shard@.blocks.len(),
        stats.transaction_pool_size == shard@.transaction_pool.len(),
        stats.processed_tx_count == capped(committed_ids(shard@.blocks)),
        stats.validators@ == shard@.validators,
        stats.checkpoint == detail_of_option(shard@.pending_checkpoint),
{
    let validators = shard.get_validators();
    let mut copy: Vec<Validator> = Vec::new();
    let mut i: usize = 0;
    while i < validators.len()
        invariant
            i <= validators.len(),
            copy@ == validators@.take(i as int),
        decreases validators.len() - i,
    {
        copy.push(validators[i]);
        i += 1;
        assert(copy@ =~= validators@.take(i as int));
    }
    assert(validators@.take(i as int) =~= validators@);
    ShardStats {
        id: shard.shard_id(),
        block_count: shard.get_blocks().len(),
        transaction_pool_size: shard.get_transaction_pool().len(),
        processed_tx_count: shard.get_processed_transaction_count(),
        validators: copy,
        checkpoint: shard.pending_checkpoint_detail(),
    }
}

/// The sums over a network's shards.
pub fn network_totals(shards: &Vec<Shard>) -> (totals: NetworkTotals)
    ensures
        totals.num_shards == shards@.len(),
        totals.total_blocks == capped(block_total(shard_views(shards@))),
        totals.total_transactions == capped(committed_total(shard_views(shards@))),
        totals.transaction_pool_size == capped(pool_total(shard_views(shards@))),
        totals.total_cross_shard_transactions == capped(queue_total(shard_views(shards@))),
{
    let ghost views = shard_views(shards@);
    let mut total_blocks: usize = 0;
    let mut total_transactions: usize = 0;
    let mut transaction_pool_size: usize = 0;
    let mut total_cross_shard_transactions: usize = 0;
    let mut i: usize = 0;
    assert(views.take(0) =~= Seq::<ShardView>::empty());
    while i < shards.len()
        invariant
            i <= shards.len(),
            views == shard_views(shards@),
            total_blocks == capped(block_total(views.take(i as int))),
            total_transactions == capped(committed_total(views.take(i as int))),
            transaction_pool_size == capped(pool_total(views.take(i as int))),
            total_cross_shard_transactions == capped(queue_total(views.take(i as int))),
        decreases shards.len() - i,
    {
        proof {
            assert(views.take(i + 1).drop_last() =~= views.take(i as int));
            assert(views.take(i + 1).last() == shards@[i as int]@);
        }
        total_blocks = total_blocks.saturating_add(shards[i].get_blocks().len());
        total_transactions = total_transactions.saturating_add(
            shards[i].get_processed_transaction_count(),
        );
        transaction_pool_size = transaction_pool_size.saturating_add(
            shards[i].get_transaction_pool().len(),
        );
        total_cross_shard_transactions = total_cross_shard_transactions.saturating_add(
            shards[i].get_pending_cross_shard_txs_len(),
        );
        i += 1;
    }
    assert(views.take(i as int) =~= views);
    NetworkTotals {
        num_shards: shards.len(),
        total_blocks,
        total_transactions,
        transaction_pool_size,
        total_cross_shard_transactions,
    }
}

} // verus!
