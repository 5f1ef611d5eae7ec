//! What holds of every shard, whatever it is handed.

use vstd::prelude::*;
use crate::block::{genesis_previous_hash, BlockView};
use crate::shard_model::{chain_valid, tip_hash, ShardView, Step};
use crate::transaction::{transaction_ids, TransactionStatus, TransactionView};

verus! {

/// In a valid chain the first block names "0" as its predecessor, and
/// every other block names the hash of the block before it.
pub proof fn lemma_chain_is_linked(blocks: Seq<BlockView>)
    requires
        chain_valid(blocks),
    ensures
        blocks.len() > 0 ==> blocks[0].previous_hash == genesis_previous_hash(),
        forall|i: int|
            1 <= i < blocks.len() ==> (#[trigger] blocks[i]).previous_hash == blocks[i
                - 1].block_hash,
{
    if blocks.len() > 0 {
        assert(blocks[0].previous_hash == tip_hash(blocks.take(0)));
    }
    assert forall|i: int| 1 <= i < blocks.len() implies (#[trigger] blocks[i]).previous_hash
        == blocks[i - 1].block_hash by {
        assert(blocks[i].previous_hash == tip_hash(blocks.take(i)));
        assert(blocks.take(i).last() == blocks[i - 1]);
    }
}

/// Queueing a transaction, taking over a checkpoint and entering the next
/// epoch each keep a sound state sound.
pub proof fn lemma_quiet_steps_keep_wf(
    shard: ShardView,
    tx: TransactionView,
    checkpoint: crate::checkpoint::CheckpointView,
    now: i64,
)
    requires
        shard.wf(),
    ensures
        shard.enqueue(tx).wf(),
        shard.with_admitted(tx).wf(),
        checkpoint.processed_transactions_snapshot.finite() ==> shard.receive_checkpoint(
            checkpoint,
        ).wf(),
        shard.next_epoch(now).wf(),
{
}

impl ShardView {
    /// Every transaction of the pool is bound for this shard.
    pub open spec fn pool_is_local(self) -> bool {
        forall|i: int|
            0 <= i < self.transaction_pool.len() ==> (#[trigger] self.transaction_pool[i]).to_shard
                == self.id
    }

    /// No id stands twice in the pool, and every id of the pool is
    /// among the processed ids.
    pub open spec fn pool_is_tracked(self) -> bool {
        &&& transaction_ids(self.transaction_pool).no_duplicates()
        &&& forall|i: int|
            0 <= i < self.transaction_pool.len() ==> self.processed_transactions.contains(
                (#[trigger] self.transaction_pool[i]).id,
            )
    }

    /// Every transaction that an attempt to form a block commits has its
    /// id among the processed ids of the shard that committed it.
    pub proof fn lemma_committed_ids_are_processed(self, now: i64)
        ensures
            forall|i: int|
                0 <= i < self.block_attempt(now).committed.len() ==> self.block_attempt(
                    now,
                ).state.processed_transactions.contains(
                    (#[trigger] self.block_attempt(now).committed[i]).id,
                ),
            forall|i: int|
                0 <= i < self.block_attempt(now).committed.len() ==> (#[trigger] self.block_attempt(
                    now,
                ).committed[i]).status == TransactionStatus::Completed,
    {
        let step = self.block_attempt(now);
        if step.committed.len() > 0 {
            let chosen = self.candidates();
            let ids = transaction_ids(chosen);
            assert forall|i: int| 0 <= i < step.committed.len() implies step.state.processed_transactions.contains(
                (#[trigger] step.committed[i]).id,
            ) by {
                assert(ids[i] == step.committed[i].id);
                assert(ids.to_set().contains(ids[i]));
            }
        }
    }

    /// Offering transactions that are bound for this shard keeps the pool
    /// local.
    pub proof fn lemma_local_admission_keeps_pool_local(self, batch: Seq<TransactionView>)
        requires
            self.pool_is_local(),
        ensures
            self.with_local_admitted(batch).pool_is_local(),
            self.with_local_admitted(batch).id == self.id,
        decreases batch.len(),
    {
        if batch.len() > 0 {
            self.lemma_local_admission_keeps_pool_local(batch.drop_last());
            let prior = self.with_local_admitted(batch.drop_last());
            let after = self.with_local_admitted(batch);
            assert forall|i: int| 0 <= i < after.transaction_pool.len() implies (
            #[trigger] after.transaction_pool[i]).to_shard == after.id by {
                if i < prior.transaction_pool.len() {
                    assert(after.transaction_pool[i] == prior.transaction_pool[i]);
                }
            }
        }
    }

    /// With a local pool and nothing queued for other shards, no block
    /// commits a transaction that is bound for another shard, and the pool
    /// stays local.
    pub proof fn lemma_committed_are_local(self, now: i64)
        requires
            self.pool_is_local(),
            self.pending_cross_shard_txs.len() == 0,
        ensures
            forall|i: int|
                0 <= i < self.block_attempt(now).committed.len() ==> (#[trigger] self.block_attempt(
                    now,
                ).committed[i]).to_shard == self.id,
            self.block_attempt(now).state.pool_is_local(),
            self.check_and_create_block(now).state.pool_is_local(),
            self.check_and_create_block(now).state.pending_cross_shard_txs.len() == 0,
            forall|i: int|
                0 <= i < self.check_and_create_block(now).committed.len() ==> (
                #[trigger] self.check_and_create_block(now).committed[i]).to_shard == self.id,
    {
        let chosen = self.candidates();
        assert(self.pending_cross_shard_txs + self.transaction_pool =~= self.transaction_pool);
        assert forall|i: int| 0 <= i < chosen.len() implies (#[trigger] chosen[i]).to_shard
            == self.id by {
            assert(chosen[i] == self.transaction_pool[i]);
        }
        let step = self.block_attempt(now);
        assert forall|i: int| 0 <= i < step.committed.len() implies (#[trigger] step.committed[i]).to_shard
            == self.id by {
            assert(step.committed[i] == chosen[i].with_status(TransactionStatus::Completed));
        }
    }

    /// A forwarded transaction that is bound for this shard keeps the pool
    /// local where nothing is queued for other shards, and whatever its
    /// arrival commits is bound for this shard.
    pub proof fn lemma_forward_keeps_pool_local(self, tx: TransactionView, now: i64)
        requires
            self.pool_is_local(),
            self.pending_cross_shard_txs.len() == 0,
            tx.to_shard == self.id,
        ensures
            self.process_cross_shard_transaction(tx, now).state.pool_is_local(),
            self.process_cross_shard_transaction(tx, now).state.pending_cross_shard_txs.len()
                == 0,
            self.process_cross_shard_transaction(tx, now).state.id == self.id,
            forall|i: int|
                0 <= i < self.process_cross_shard_transaction(tx, now).committed.len() ==> (
                #[trigger] self.process_cross_shard_transaction(tx, now).committed[i]).to_shard
                    == self.id,
    {
        if !self.processed_transactions.contains(tx.id) {
            let taken = self.with_admitted(tx);
            assert forall|i: int| 0 <= i < taken.transaction_pool.len() implies (
            #[trigger] taken.transaction_pool[i]).to_shard == taken.id by {
                if i < self.transaction_pool.len() {
                    assert(taken.transaction_pool[i] == self.transaction_pool[i]);
                }
            }
            taken.lemma_committed_are_local(now);
        }
    }

    /// Offering a transaction keeps the pool tracked.
    pub proof fn lemma_admission_keeps_pool_tracked(self, tx: TransactionView)
        requires
            self.pool_is_tracked(),
        ensures
            self.with_admitted(tx).pool_is_tracked(),
    {
        let after = self.with_admitted(tx);
        if !self.processed_transactions.contains(tx.id) {
            let ids = transaction_ids(self.transaction_pool);
            let grown = transaction_ids(after.transaction_pool);
            assert(grown =~= ids.push(tx.id));
            assert forall|i: int, j: int| 0 <= i < grown.len() && 0 <= j < grown.len() && i
                != j implies grown[i] != grown[j] by {
                if i < ids.len() {
                    assert(self.processed_transactions.contains(self.transaction_pool[i].id));
                }
                if j < ids.len() {
                    assert(self.processed_transactions.contains(self.transaction_pool[j].id));
                }
            }
            assert forall|i: int| 0 <= i < after.transaction_pool.len() implies after.processed_transactions.contains(
                (#[trigger] after.transaction_pool[i]).id,
            ) by {
                if i < self.transaction_pool.len() {
                    assert(after.transaction_pool[i] == self.transaction_pool[i]);
                }
            }
        }
    }

    /// With a tracked pool and nothing queued for other shards, no block
    /// commits an id twice, and the pool stays tracked.
    pub proof fn lemma_committed_ids_are_distinct(self, now: i64)
        requires
            self.pool_is_tracked(),
            self.pending_cross_shard_txs.len() == 0,
        ensures
            transaction_ids(self.block_attempt(now).committed).no_duplicates(),
            self.block_attempt(now).state.pool_is_tracked(),
            self.check_and_create_block(now).state.pool_is_tracked(),
    {
        let chosen = self.candidates();
        let ids = transaction_ids(self.transaction_pool);
        assert(self.pending_cross_shard_txs + self.transaction_pool =~= self.transaction_pool);
        assert forall|i: int| 0 <= i < chosen.len() implies (#[trigger] chosen[i])
            == self.transaction_pool[i] by {}
        let step = self.block_attempt(now);
        let done = transaction_ids(step.committed);
        assert forall|i: int, j: int| 0 <= i < done.len() && 0 <= j < done.len() && i
            != j implies done[i] != done[j] by {
            assert(done[i] == ids[i] && done[j] == ids[j]);
        }
        let after = step.state;
        let left = transaction_ids(after.transaction_pool);
        assert forall|i: int, j: int| 0 <= i < left.len() && 0 <= j < left.len() && i
            != j implies left[i] != left[j] by {
            assert(left[i] == ids[i] && left[j] == ids[j]);
        }
        assert forall|i: int| 0 <= i < after.transaction_pool.len() implies after.processed_transactions.contains(
            (#[trigger] after.transaction_pool[i]).id,
        ) by {
            assert(after.transaction_pool[i] == self.transaction_pool[i]);
            assert(self.processed_transactions.contains(self.transaction_pool[i].id));
        }
        assert(transaction_ids(Seq::<TransactionView>::empty()) =~= Seq::<Seq<char>>::empty());
    }

    /// A transaction offered a second time changes nothing.
    pub proof fn lemma_second_admission_is_ignored(self, tx: TransactionView, again: TransactionView)
        requires
            again.id == tx.id,
        ensures
            self.with_admitted(tx).with_admitted(again) == self.with_admitted(tx),
    {
    }

    /// A forwarded transaction that arrives a second time within the same
    /// epoch is ignored: the shard stays as the first arrival left it, and
    /// nothing is committed.
    pub proof fn lemma_second_arrival_is_ignored(
        self,
        tx: TransactionView,
        again: TransactionView,
        now: i64,
        later: i64,
    )
        requires
            self.epoch_room(1),
            again.id == tx.id,
            self.process_cross_shard_transaction(tx, now).state.epoch == self.epoch,
        ensures
            self.process_cross_shard_transaction(tx, now).state.processed_transactions.contains(
                tx.id,
            ),
            self.process_cross_shard_transaction(tx, now).state.process_cross_shard_transaction(
                again,
                later,
            ) == (Step {
                state: self.process_cross_shard_transaction(tx, now).state,
                committed: Seq::empty(),
            }),
    {
        if !self.processed_transactions.contains(tx.id) {
            let taken = self.with_admitted(tx);
            assert(taken.processed_transactions.contains(tx.id));
            let attempt = if taken.block_due(now) {
                taken.block_attempt(now).state
            } else {
                taken
            };
            assert(attempt.processed_transactions.contains(tx.id));
            assert(attempt.epoch == self.epoch);
        }
    }

    /// A batch handed in a second time within the same epoch admits
    /// nothing: every id of it that was bound for this shard is processed
    /// already.
    pub proof fn lemma_batch_ids_are_processed(self, batch: Seq<TransactionView>)
        ensures
            forall|i: int|
                0 <= i < batch.len() && (#[trigger] batch[i]).to_shard == self.id
                    ==> self.with_local_admitted(batch).processed_transactions.contains(
                    batch[i].id,
                ),
            forall|id: Seq<char>|
                self.processed_transactions.contains(id) ==> self.with_local_admitted(
                    batch,
                ).processed_transactions.contains(id),
            self.with_local_admitted(batch).id == self.id,
        decreases batch.len(),
    {
        if batch.len() > 0 {
            self.lemma_batch_ids_are_processed(batch.drop_last());
            let prior = self.with_local_admitted(batch.drop_last());
            assert forall|i: int| 0 <= i < batch.len() && (#[trigger] batch[i]).to_shard
                == self.id implies self.with_local_admitted(batch).processed_transactions.contains(
                batch[i].id,
            ) by {
                if i < batch.len() - 1 {
                    assert(batch.drop_last()[i] == batch[i]);
                    assert(prior.processed_transactions.contains(batch[i].id));
                }
            }
        }
    }

    /// The id is processed and waits neither in the pool nor in the queue:
    /// whatever bore it was committed, or never came to this shard's pool.
    pub open spec fn is_settled(self, id: Seq<char>) -> bool {
        &&& self.processed_transactions.contains(id)
        &&& forall|i: int|
            0 <= i < self.transaction_pool.len() ==> (#[trigger] self.transaction_pool[i]).id
                != id
        &&& forall|i: int|
            0 <= i < self.pending_cross_shard_txs.len() ==> (
            #[trigger] self.pending_cross_shard_txs[i]).id != id
    }

    /// Once a block has committed a transaction, its id is settled.
    pub proof fn lemma_committed_ids_are_settled(self, now: i64)
        ensures
            forall|i: int|
                0 <= i < self.block_attempt(now).committed.len() ==> self.block_attempt(
                    now,
                ).state.is_settled((#[trigger] self.block_attempt(now).committed[i]).id),
    {
        self.lemma_committed_ids_are_processed(now);
    }

    /// Offering transactions leaves a settled id settled.
    pub proof fn lemma_admission_keeps_settled(self, batch: Seq<TransactionView>, id: Seq<char>)
        requires
            self.is_settled(id),
        ensures
            self.with_local_admitted(batch).is_settled(id),
            self.with_local_admitted(batch).epoch == self.epoch,
        decreases batch.len(),
    {
        if batch.len() > 0 {
            self.lemma_admission_keeps_settled(batch.drop_last(), id);
            self.lemma_local_admission_keeps_id(batch.drop_last());
            let prior = self.with_local_admitted(batch.drop_last());
            prior.lemma_one_admission_keeps_settled(batch.last(), id);
        }
    }

    /// Offering one transaction leaves a settled id settled.
    pub proof fn lemma_one_admission_keeps_settled(self, tx: TransactionView, id: Seq<char>)
        requires
            self.is_settled(id),
        ensures
            self.with_admitted(tx).is_settled(id),
    {
        let after = self.with_admitted(tx);
        assert forall|i: int| 0 <= i < after.transaction_pool.len() implies (
        #[trigger] after.transaction_pool[i]).id != id by {
            if i < self.transaction_pool.len() {
                assert(after.transaction_pool[i] == self.transaction_pool[i]);
            }
        }
    }

    /// A round of block formation commits no settled id, and leaves it
    /// settled for as long as the epoch lasts.
    pub proof fn lemma_round_keeps_settled(self, now: i64, id: Seq<char>)
        requires
            self.is_settled(id),
            self.epoch_room(1),
        ensures
            forall|i: int|
                0 <= i < self.check_and_create_block(now).committed.len() ==> (
                #[trigger] self.check_and_create_block(now).committed[i]).id != id,
            self.check_and_create_block(now).state.epoch == self.epoch
                ==> self.check_and_create_block(now).state.is_settled(id),
    {
        let waiting = self.pending_cross_shard_txs + self.transaction_pool;
        let chosen = self.candidates();
        assert forall|i: int| 0 <= i < chosen.len() implies (#[trigger] chosen[i]).id != id by {
            assert(chosen[i] == waiting[i]);
            if i < self.pending_cross_shard_txs.len() {
                assert(waiting[i] == self.pending_cross_shard_txs[i]);
            } else {
                assert(waiting[i] == self.transaction_pool[i - self.pending_cross_shard_txs.len()]);
            }
        }
        let step = self.check_and_create_block(now);
        assert forall|i: int| 0 <= i < step.committed.len() implies (#[trigger] step.committed[i]).id
            != id by {
            assert(step.committed[i] == chosen[i].with_status(TransactionStatus::Completed));
        }
        let attempt = if self.block_due(now) {
            self.block_attempt(now).state
        } else {
            self
        };
        assert(attempt.is_settled(id)) by {
            assert forall|i: int| 0 <= i < attempt.transaction_pool.len() implies (
            #[trigger] attempt.transaction_pool[i]).id != id by {
                if attempt.transaction_pool != self.transaction_pool {
                    assert(attempt.transaction_pool[i] == chosen[i]);
                }
            }
        }
    }

    /// A transaction with a settled id is committed by no batch handed in
    /// and by no arrival from another shard, and the id stays settled for
    /// as long as the epoch lasts: within an epoch a shard commits an id
    /// at most once.
    pub proof fn lemma_settled_id_is_not_committed_again(
        self,
        batch: Seq<TransactionView>,
        tx: TransactionView,
        now: i64,
        id: Seq<char>,
    )
        requires
            self.is_settled(id),
            self.epoch_room(1),
        ensures
            forall|i: int|
                0 <= i < self.process_transactions(batch, now).committed.len() ==> (
                #[trigger] self.process_transactions(batch, now).committed[i]).id != id,
            self.process_transactions(batch, now).state.epoch == self.epoch
                ==> self.process_transactions(batch, now).state.is_settled(id),
            forall|i: int|
                0 <= i < self.process_cross_shard_transaction(tx, now).committed.len() ==> (
                #[trigger] self.process_cross_shard_transaction(tx, now).committed[i]).id != id,
            self.process_cross_shard_transaction(tx, now).state.epoch == self.epoch
                ==> self.process_cross_shard_transaction(tx, now).state.is_settled(id),
            self.enqueue(tx).is_settled(id),
    {
        self.lemma_admission_keeps_settled(batch, id);
        let taken = self.with_local_admitted(batch);
        self.lemma_local_admission_keeps_epoch(batch);
        taken.lemma_round_keeps_settled(now, id);
        if !self.processed_transactions.contains(tx.id) {
            self.lemma_one_admission_keeps_settled(tx, id);
            self.with_admitted(tx).lemma_round_keeps_settled(now, id);
        }
        let queued = self.enqueue(tx);
        assert forall|i: int| 0 <= i < queued.pending_cross_shard_txs.len() implies (
        #[trigger] queued.pending_cross_shard_txs[i]).id != id by {
            if i < self.pending_cross_shard_txs.len() {
                assert(queued.pending_cross_shard_txs[i] == self.pending_cross_shard_txs[i]);
            }
        }
    }

    /// Admission leaves the epoch and the validators as they were.
    pub proof fn lemma_local_admission_keeps_epoch(self, batch: Seq<TransactionView>)
        ensures
            self.with_local_admitted(batch).epoch == self.epoch,
            self.with_local_admitted(batch).validators == self.validators,
        decreases batch.len(),
    {
        if batch.len() > 0 {
            self.lemma_local_admission_keeps_epoch(batch.drop_last());
        }
    }

    /// A shard that takes over the checkpoint captured of another holds
    /// that shard's ledger, pool and processed ids.
    pub proof fn lemma_checkpoint_round_trip(self, source: ShardView)
        ensures
            self.receive_checkpoint(source.checkpoint()).ledger == source.ledger,
            self.receive_checkpoint(source.checkpoint()).transaction_pool
                == source.transaction_pool,
            self.receive_checkpoint(source.checkpoint()).processed_transactions
                == source.processed_transactions,
            self.receive_checkpoint(source.checkpoint()).blocks.len() == 0,
    {
    }
}

} // verus!
