//! The state of a shard as a mathematical value, and the steps it takes.

use vstd::prelude::*;
use crate::block::{block_at, genesis_previous_hash, BlockView};
use crate::checkpoint::CheckpointView;
use crate::clock::elapsed_seconds;
use crate::consensus::accepts;
use crate::poh::generator::{run_chunks, PohGeneratorView};
use crate::ranking::ranked;
use crate::transaction::{all_with_status, transaction_ids, TransactionStatus, TransactionView};
use crate::validator::Validator;

verus! {

/// The pending total above which a block waits for 1500 transactions.
pub const HEAVY_LOAD: usize = 1500;

/// The pending total above which a block waits for half its capacity.
pub const MEDIUM_LOAD: usize = 750;

/// The pending total above which a block waits for a fifth of its capacity.
pub const LIGHT_LOAD: usize = 300;

/// The hash that the next block of a chain names as its predecessor.
pub open spec fn tip_hash(blocks: Seq<BlockView>) -> Seq<char> {
    if blocks.len() == 0 {
        genesis_previous_hash()
    } else {
        blocks.last().block_hash
    }
}

/// Whether `blocks` is an unbroken chain: numbered from 1, every block
/// sealed and holding an entry, the first naming "0" as its predecessor
/// and every other the hash of the block before it.
pub open spec fn chain_valid(blocks: Seq<BlockView>) -> bool {
    forall|i: int|
        0 <= i < blocks.len() ==> {
            &&& (#[trigger] blocks[i]).block_number == i + 1
            &&& blocks[i].previous_hash == tip_hash(blocks.take(i))
            &&& blocks[i].sealed()
            &&& blocks[i].poh_entries.len() > 0
        }
}

/// Every validator with one more active epoch.
pub open spec fn aged(validators: Seq<Validator>) -> Seq<Validator> {
    validators.map_values(
        |v: Validator| Validator { epochs_active: (v.epochs_active + 1) as usize, ..v },
    )
}

/// A shard's state.
pub struct ShardView {
    pub id: usize,
    pub generator: PohGeneratorView,
    pub epoch: usize,
    pub transaction_count: usize,
    pub transaction_pool: Seq<TransactionView>,
    pub ledger: Seq<(Seq<char>, u64)>,
    pub blocks: Seq<BlockView>,
    pub validators: Seq<Validator>,
    pub min_transactions_per_block: usize,
    pub max_transactions_per_block: usize,
    pub last_block_time: i64,
    pub block_time_threshold: u64,
    pub epoch_threshold: usize,
    pub epoch_max_duration: u64,
    pub processed_transactions: Set<Seq<char>>,
    pub pending_cross_shard_txs: Seq<TransactionView>,
    pub epoch_start_time: i64,
    pub pending_checkpoint: Option<CheckpointView>,
}

/// What a shard is set up with.
#[derive(Debug, Clone, Copy, PartialEq, Eq, Structural)]
pub struct ShardConfig {
    /// The greatest number of ids in one proof-of-history entry.
    pub batch_size: usize,
    /// The number of waiting transactions below which no block is formed.
    pub min_transactions_per_block: usize,
    /// The greatest number of transactions in one block.
    pub max_transactions_per_block: usize,
    /// The age of the last block, in seconds, at which the next is due.
    pub block_time_threshold_seconds: u64,
    /// The number of committed transactions that ends an epoch.
    pub epoch_threshold: usize,
    /// The age of an epoch, in seconds, that ends it.
    pub epoch_max_duration_seconds: u64,
}

/// The configuration of a shard that is given only its batch size and its
/// block capacity: blocks of at least 100 transactions or every 15
/// seconds, epochs of 10 transactions or one hour.
pub open spec fn default_config(batch_size: usize, max_transactions_per_block: usize) -> ShardConfig {
    ShardConfig {
        batch_size,
        min_transactions_per_block: 100,
        max_transactions_per_block,
        block_time_threshold_seconds: 15,
        epoch_threshold: 10,
        epoch_max_duration_seconds: 3600,
    }
}

/// The state of a shard set up at time `now`.
pub open spec fn initial_state(
    id: usize,
    config: ShardConfig,
    validators: Seq<Validator>,
    now: i64,
) -> ShardView {
    ShardView {
        id,
        generator: PohGeneratorView { previous_hash: "0"@, batch_size: config.batch_size },
        epoch: 0,
        transaction_count: 0,
        transaction_pool: Seq::empty(),
        ledger: Seq::empty(),
        blocks: Seq::empty(),
        validators,
        min_transactions_per_block: config.min_transactions_per_block,
        max_transactions_per_block: config.max_transactions_per_block,
        last_block_time: now,
        block_time_threshold: config.block_time_threshold_seconds,
        epoch_threshold: config.epoch_threshold,
        epoch_max_duration: config.epoch_max_duration_seconds,
        processed_transactions: Set::empty(),
        pending_cross_shard_txs: Seq::empty(),
        epoch_start_time: now,
        pending_checkpoint: None,
    }
}

/// A state together with the transactions that the step to it committed.
pub struct Step {
    pub state: ShardView,
    pub committed: Seq<TransactionView>,
}

impl ShardView {
    /// The state is sound: the generator makes entries of at least one id,
    /// the chain is unbroken, the set of processed ids is finite, and the
    /// count of the epoch's transactions has room to grow by one block.
    pub open spec fn wf(self) -> bool {
        &&& self.generator.batch_size > 0
        &&& chain_valid(self.blocks)
        &&& self.processed_transactions.finite()
        &&& self.transaction_count <= self.epoch_threshold
        &&& self.epoch_threshold + self.max_transactions_per_block <= usize::MAX
    }

    /// The counters that grow without bound can take `steps` more steps:
    /// the epoch, the chain's height, and every validator's active epochs.
    pub open spec fn headroom(self, steps: int) -> bool {
        &&& self.blocks.len() + steps <= u64::MAX
        &&& self.epoch_room(steps)
    }

    /// The epoch and every validator's active epochs can grow by `steps`.
    pub open spec fn epoch_room(self, steps: int) -> bool {
        &&& self.epoch + steps <= usize::MAX
        &&& forall|i: int|
            0 <= i < self.validators.len() ==> (#[trigger] self.validators[i]).epochs_active
                + steps <= usize::MAX
    }

    /// The number of transactions waiting, in the pool and in the queue.
    pub open spec fn pending_total(self) -> nat {
        self.transaction_pool.len() + self.pending_cross_shard_txs.len()
    }

    /// The number of waiting transactions that triggers a block, given
    /// how many are waiting.
    pub open spec fn dynamic_min_transactions(self, total: nat) -> usize {
        if total > HEAVY_LOAD {
            HEAVY_LOAD
        } else if total > MEDIUM_LOAD {
            self.max_transactions_per_block / 2
        } else if total > LIGHT_LOAD {
            self.max_transactions_per_block / 5
        } else {
            self.min_transactions_per_block
        }
    }

    /// The state after `tx` was offered for processing: a transaction
    /// whose id was processed before is ignored, any other joins the pool
    /// as `Processing` and its id the processed ids.
    pub open spec fn with_admitted(self, tx: TransactionView) -> ShardView {
        if self.processed_transactions.contains(tx.id) {
            self
        } else {
            ShardView {
                transaction_pool: self.transaction_pool.push(
                    tx.with_status(TransactionStatus::Processing),
                ),
                processed_transactions: self.processed_transactions.insert(tx.id),
                ..self
            }
        }
    }

    /// The state after every transaction of `batch` that is bound for this
    /// shard was offered for processing, in order.
    pub open spec fn with_local_admitted(self, batch: Seq<TransactionView>) -> ShardView
        decreases batch.len(),
    {
        if batch.len() == 0 {
            self
        } else {
            let prior = self.with_local_admitted(batch.drop_last());
            if batch.last().to_shard == self.id {
                prior.with_admitted(batch.last())
            } else {
                prior
            }
        }
    }

    /// The state after `tx` was queued for another shard: a transaction
    /// whose id was processed here is ignored.
    pub open spec fn enqueue(self, tx: TransactionView) -> ShardView {
        if self.processed_transactions.contains(tx.id) {
            self
        } else {
            ShardView {
                pending_cross_shard_txs: self.pending_cross_shard_txs.push(tx),
                ..self
            }
        }
    }

    /// The transactions a block would take: the queue first, then the pool,
    /// up to the block's capacity.
    pub open spec fn candidates(self) -> Seq<TransactionView> {
        let waiting = self.pending_cross_shard_txs + self.transaction_pool;
        if waiting.len() <= self.max_transactions_per_block {
            waiting
        } else {
            waiting.take(self.max_transactions_per_block as int)
        }
    }

    /// The state with its pool and queue emptied, the generator moved to
    /// `previous_hash`, and `returned` put back in the pool.
    pub open spec fn after_failed_attempt(
        self,
        previous_hash: Seq<char>,
        returned: Seq<TransactionView>,
    ) -> ShardView {
        ShardView {
            generator: PohGeneratorView { previous_hash, ..self.generator },
            transaction_pool: returned,
            pending_cross_shard_txs: Seq::empty(),
            ..self
        }
    }

    /// One attempt to form a block at time `now`.
    ///
    /// With fewer transactions waiting than a block needs, nothing
    /// changes. Otherwise the candidates leave the queue and the pool, and
    /// whatever is left behind them is dropped. The generator chains
    /// entries over their ids. Where it fails, or the validators reject the
    /// block, the candidates go back to the pool. Where the validators
    /// accept, the block joins the chain, the candidates are committed as
    /// `Completed`, and their ids are processed.
    pub open spec fn block_attempt(self, now: i64) -> Step {
        if self.pending_total() < self.min_transactions_per_block {
            Step { state: self, committed: Seq::empty() }
        } else {
            let chosen = self.candidates();
            let ids = transaction_ids(chosen);
            let run = run_chunks(
                ids,
                self.generator.previous_hash,
                self.generator.batch_size,
                now,
            );
            if ids.len() == 0 || run.error is Some || !accepts(self.validators, self.epoch) {
                Step {
                    state: self.after_failed_attempt(run.previous_hash, chosen),
                    committed: Seq::empty(),
                }
            } else {
                let block = block_at(
                    (self.blocks.len() + 1) as u64,
                    run.entries,
                    tip_hash(self.blocks),
                    now,
                );
                Step {
                    state: ShardView {
                        generator: PohGeneratorView {
                            previous_hash: run.previous_hash,
                            ..self.generator
                        },
                        transaction_count: (self.transaction_count + chosen.len()) as usize,
                        transaction_pool: Seq::empty(),
                        pending_cross_shard_txs: Seq::empty(),
                        blocks: self.blocks.push(block),
                        processed_transactions: self.processed_transactions.union(ids.to_set()),
                        last_block_time: now,
                        ..self
                    },
                    committed: all_with_status(chosen, TransactionStatus::Completed),
                }
            }
        }
    }

    /// Whether a block is due at time `now`: the last one is old enough, or
    /// enough transactions are waiting.
    pub open spec fn block_due(self, now: i64) -> bool {
        ||| elapsed_seconds(now, self.last_block_time) >= self.block_time_threshold
        ||| self.pending_total() >= self.dynamic_min_transactions(self.pending_total())
    }

    /// Whether the epoch is over at time `now`: it has seen enough
    /// transactions, or it has lasted long enough.
    pub open spec fn epoch_due(self, now: i64) -> bool {
        ||| self.transaction_count >= self.epoch_threshold
        ||| elapsed_seconds(now, self.epoch_start_time) >= self.epoch_max_duration
    }

    /// The snapshot of this state.
    pub open spec fn checkpoint(self) -> CheckpointView {
        CheckpointView {
            shard_id: self.id,
            block_height: self.blocks.len() as u64,
            ledger_snapshot: self.ledger,
            transaction_pool_snapshot: self.transaction_pool,
            processed_transactions_snapshot: self.processed_transactions,
        }
    }

    /// The state at the start of the next epoch, entered at time `now`,
    /// before its checkpoint is taken: the validators are ranked anew by
    /// their weight in the new epoch and each has one more active epoch;
    /// the pool and the processed ids are empty.
    pub open spec fn next_epoch_start(self, now: i64) -> ShardView {
        ShardView {
            epoch: (self.epoch + 1) as usize,
            epoch_start_time: now,
            transaction_count: 0,
            validators: aged(ranked(self.validators, (self.epoch + 1) as usize)),
            transaction_pool: Seq::empty(),
            processed_transactions: Set::empty(),
            ..self
        }
    }

    /// The state after the transition to the next epoch at time `now`,
    /// holding the checkpoint taken at its start.
    pub open spec fn next_epoch(self, now: i64) -> ShardView {
        let start = self.next_epoch_start(now);
        ShardView { pending_checkpoint: Some(start.checkpoint()), ..start }
    }

    /// The state after the epoch was examined at time `now`, and left
    /// where it was over.
    pub open spec fn settle_epoch(self, now: i64) -> ShardView {
        if self.epoch_due(now) {
            self.next_epoch(now)
        } else {
            self
        }
    }

    /// One round of block formation at time `now`: a block is attempted
    /// where one is due, and then the epoch is examined.
    pub open spec fn check_and_create_block(self, now: i64) -> Step {
        let attempt = if self.block_due(now) {
            self.block_attempt(now)
        } else {
            Step { state: self, committed: Seq::empty() }
        };
        Step { state: attempt.state.settle_epoch(now), committed: attempt.committed }
    }

    /// What becomes of a batch handed to this shard at time `now`: the
    /// transactions bound for it are offered for processing, then a round
    /// of block formation follows.
    pub open spec fn process_transactions(self, batch: Seq<TransactionView>, now: i64) -> Step {
        self.with_local_admitted(batch).check_and_create_block(now)
    }

    /// What becomes of a transaction forwarded from another shard at time
    /// `now`: one whose id was processed before is ignored; any other is
    /// admitted, and a round of block formation follows.
    pub open spec fn process_cross_shard_transaction(self, tx: TransactionView, now: i64) -> Step {
        if self.processed_transactions.contains(tx.id) {
            Step { state: self, committed: Seq::empty() }
        } else {
            self.with_admitted(tx).check_and_create_block(now)
        }
    }

    /// The state after a checkpoint of another shard was received: its
    /// ledger, pool and processed ids replace this shard's, and the chain
    /// is emptied.
    pub open spec fn receive_checkpoint(self, checkpoint: CheckpointView) -> ShardView {
        ShardView {
            ledger: checkpoint.ledger_snapshot,
            processed_transactions: checkpoint.processed_transactions_snapshot,
            transaction_pool: checkpoint.transaction_pool_snapshot,
            blocks: Seq::empty(),
            ..self
        }
    }
}

/// A run over at least one id that does not fail makes at least one entry.
pub proof fn lemma_run_makes_entries(
    ids: Seq<Seq<char>>,
    prev_hash: Seq<char>,
    batch_size: usize,
    timestamp: i64,
)
    requires
        ids.len() > 0,
        batch_size > 0,
        run_chunks(ids, prev_hash, batch_size, timestamp).error is None,
    ensures
        run_chunks(ids, prev_hash, batch_size, timestamp).entries.len() > 0,
{
}

/// A valid chain stays valid when the block that follows its tip joins it.
pub proof fn lemma_chain_grows(blocks: Seq<BlockView>, block: BlockView)
    requires
        chain_valid(blocks),
        block.block_number == blocks.len() + 1,
        block.previous_hash == tip_hash(blocks),
        block.sealed(),
        block.poh_entries.len() > 0,
    ensures
        chain_valid(blocks.push(block)),
{
    let grown = blocks.push(block);
    assert forall|i: int| 0 <= i < grown.len() implies {
        &&& (#[trigger] grown[i]).block_number == i + 1
        &&& grown[i].previous_hash == tip_hash(grown.take(i))
        &&& grown[i].sealed()
        &&& grown[i].poh_entries.len() > 0
    } by {
        if i < blocks.len() {
            assert(grown[i] == blocks[i]);
            assert(grown.take(i) =~= blocks.take(i));
        } else {
            assert(grown.take(i) =~= blocks);
        }
    }
}

/// A ranking leaves every validator the room it had for more epochs.
pub proof fn lemma_ranking_keeps_headroom(validators: Seq<Validator>, epoch: usize, steps: int)
    requires
        forall|i: int|
            0 <= i < validators.len() ==> (#[trigger] validators[i]).epochs_active + steps
                <= usize::MAX,
    ensures
        ranked(validators, epoch).len() == validators.len(),
        forall|i: int|
            0 <= i < validators.len() ==> (#[trigger] ranked(validators, epoch)[i]).epochs_active
                + steps <= usize::MAX,
{
    broadcast use vstd::seq_lib::group_to_multiset_ensures;

    crate::ranking::lemma_ranked_is_sorted_permutation(validators, epoch);
    let sorted = ranked(validators, epoch);
    assert forall|i: int| 0 <= i < validators.len() implies (#[trigger] sorted[i]).epochs_active
        + steps <= usize::MAX by {
        assert(sorted.to_multiset().count(sorted[i]) > 0);
        assert(validators.to_multiset().count(sorted[i]) > 0);
        assert(validators.contains(sorted[i]));
        let w = choose|w: int| 0 <= w < validators.len() && validators[w] == sorted[i];
        assert(validators[w].epochs_active + steps <= usize::MAX);
    }
}

impl ShardView {
    /// Admission changes the pool and the processed ids, and nothing else.
    pub proof fn lemma_local_admission_keeps_id(self, batch: Seq<TransactionView>)
        ensures
            self.with_local_admitted(batch).id == self.id,
        decreases batch.len(),
    {
        if batch.len() > 0 {
            self.lemma_local_admission_keeps_id(batch.drop_last());
        }
    }

    /// Admission keeps a sound state sound, and leaves the counters alone.
    pub proof fn lemma_local_admission_keeps_wf(self, batch: Seq<TransactionView>)
        requires
            self.wf(),
        ensures
            self.with_local_admitted(batch).wf(),
            self.with_local_admitted(batch).blocks == self.blocks,
            self.with_local_admitted(batch).epoch == self.epoch,
            self.with_local_admitted(batch).validators == self.validators,
            self.with_local_admitted(batch).pending_cross_shard_txs
                == self.pending_cross_shard_txs,
        decreases batch.len(),
    {
        if batch.len() > 0 {
            self.lemma_local_admission_keeps_wf(batch.drop_last());
        }
    }

    /// An attempt to form a block keeps the chain unbroken, and leaves the
    /// transaction count within one block of the epoch's threshold.
    pub proof fn lemma_block_attempt_keeps_wf(self, now: i64)
        requires
            self.wf(),
            self.headroom(1),
        ensures
            ({
                let after = self.block_attempt(now).state;
                &&& after.generator.batch_size > 0
                &&& chain_valid(after.blocks)
                &&& after.processed_transactions.finite()
                &&& after.transaction_count <= self.epoch_threshold
                    + self.max_transactions_per_block
                &&& after.epoch_threshold == self.epoch_threshold
                &&& after.max_transactions_per_block == self.max_transactions_per_block
                &&& after.epoch == self.epoch
                &&& after.validators == self.validators
                &&& self.blocks.len() <= after.blocks.len() <= self.blocks.len() + 1
            }),
    {
        if self.pending_total() >= self.min_transactions_per_block {
            let chosen = self.candidates();
            let ids = transaction_ids(chosen);
            let run = run_chunks(
                ids,
                self.generator.previous_hash,
                self.generator.batch_size,
                now,
            );
            if !(ids.len() == 0 || run.error is Some || !accepts(self.validators, self.epoch)) {
                lemma_run_makes_entries(
                    ids,
                    self.generator.previous_hash,
                    self.generator.batch_size,
                    now,
                );
                let block = block_at(
                    (self.blocks.len() + 1) as u64,
                    run.entries,
                    tip_hash(self.blocks),
                    now,
                );
                lemma_chain_grows(self.blocks, block);
                vstd::seq_lib::seq_to_set_is_finite(ids);
                assert(self.processed_transactions.union(ids.to_set()).finite());
            }
        }
    }

    /// A round of block formation keeps a sound state sound, and uses no
    /// more than one step of the room the counters have.
    pub proof fn lemma_round_keeps_wf(self, now: i64)
        requires
            self.wf(),
            self.headroom(1),
        ensures
            self.check_and_create_block(now).state.wf(),
            self.check_and_create_block(now).state.id == self.id,
            forall|steps: int|
                steps >= 0 && self.headroom(steps + 1) ==> #[trigger] self.check_and_create_block(
                    now,
                ).state.headroom(steps),
    {
        self.lemma_block_attempt_keeps_wf(now);
        let attempt = if self.block_due(now) {
            self.block_attempt(now).state
        } else {
            self
        };
        let after = attempt.settle_epoch(now);
        if attempt.epoch_due(now) {
            let next = (attempt.epoch + 1) as usize;
            assert forall|steps: int| steps >= 0 && self.headroom(steps + 1) implies after.headroom(
                steps,
            ) by {
                lemma_ranking_keeps_headroom(attempt.validators, next, steps + 1);
                assert forall|i: int| 0 <= i < after.validators.len() implies (
                #[trigger] after.validators[i]).epochs_active + steps <= usize::MAX by {
                    assert(ranked(attempt.validators, next)[i].epochs_active + (steps + 1)
                        <= usize::MAX);
                }
            }
            assert(chain_valid(after.blocks));
        } else {
            assert forall|steps: int| steps >= 0 && self.headroom(steps + 1) implies after.headroom(
                steps,
            ) by {
                assert forall|i: int| 0 <= i < after.validators.len() implies (
                #[trigger] after.validators[i]).epochs_active + steps <= usize::MAX by {
                    assert(self.validators[i].epochs_active + (steps + 1) <= usize::MAX);
                }
            }
        }
    }

    /// What `lemma_round_keeps_wf` says of a round holds of a batch handed in.
    pub proof fn lemma_batch_keeps_wf(self, batch: Seq<TransactionView>, now: i64)
        requires
            self.wf(),
            self.headroom(1),
        ensures
            self.process_transactions(batch, now).state.wf(),
            self.process_transactions(batch, now).state.id == self.id,
            forall|steps: int|
                steps >= 0 && self.headroom(steps + 1) ==> #[trigger] self.process_transactions(
                    batch,
                    now,
                ).state.headroom(steps),
    {
        self.lemma_local_admission_keeps_wf(batch);
        self.lemma_local_admission_keeps_id(batch);
        let taken = self.with_local_admitted(batch);
        taken.lemma_round_keeps_wf(now);
        assert forall|steps: int| steps >= 0 && self.headroom(steps + 1) implies (
        #[trigger] self.process_transactions(batch, now).state.headroom(steps)) by {
            assert(taken.headroom(steps + 1));
        }
    }

    /// What `lemma_round_keeps_wf` says of a round holds of a forwarded
    /// transaction taken in.
    pub proof fn lemma_forward_keeps_wf(self, tx: TransactionView, now: i64)
        requires
            self.wf(),
            self.headroom(1),
        ensures
            self.process_cross_shard_transaction(tx, now).state.wf(),
            self.process_cross_shard_transaction(tx, now).state.id == self.id,
            forall|steps: int|
                steps >= 0 && self.headroom(steps + 1)
                    ==> #[trigger] self.process_cross_shard_transaction(tx, now).state.headroom(
                    steps,
                ),
    {
        if self.processed_transactions.contains(tx.id) {
            assert forall|steps: int| steps >= 0 && self.headroom(steps + 1) implies (
            #[trigger] self.headroom(steps)) by {
                assert forall|i: int| 0 <= i < self.validators.len() implies (
                #[trigger] self.validators[i]).epochs_active + steps <= usize::MAX by {
                    assert(self.validators[i].epochs_active + (steps + 1) <= usize::MAX);
                }
            }
        } else {
            let taken = self.with_admitted(tx);
            taken.lemma_round_keeps_wf(now);
            assert forall|steps: int| steps >= 0 && self.headroom(steps + 1) implies (
            #[trigger] self.process_cross_shard_transaction(tx, now).state.headroom(steps)) by {
                assert(taken.headroom(steps + 1));
            }
        }
    }
}

} // verus!
