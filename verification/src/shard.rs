//! A shard: its pool, its queue of transactions bound elsewhere, its
//! validators, its chain, and the epoch it is in.

use vstd::prelude::*;
use vstd::string::*;
use crate::block::{capped, total_ids, Block, BlockView};
use crate::checkpoint::{checkpoint_option_view, Checkpoint};
use crate::clock::{has_elapsed, unix_time_now};
use crate::consensus::{accepts, tally};
use crate::hashing::string_views;
use crate::id_set::IdSet;
use crate::ledger::{duplicate_ledger, ledger_view, LedgerEntry};
use crate::poh::generator::{run_chunks, PohGenerator};
use crate::ranking::{rank_validators, ranked};
use crate::shard_model::{
    aged,
    default_config,
    initial_state,
    ShardConfig,
    ShardView,
    Step,
    HEAVY_LOAD,
    LIGHT_LOAD,
    MEDIUM_LOAD,
};
use crate::transaction::{
    all_with_status,
    duplicate_transactions,
    transaction_ids,
    transaction_views,
    Transaction,
    TransactionStatus,
    TransactionView,
};
use crate::validator::{Validator, ValidatorPerformance};

verus! {

/// The views of a sequence of blocks.
pub open spec fn block_views(blocks: Seq<Block>) -> Seq<BlockView> {
    blocks.map_values(|b: Block| b@)
}

/// The views of a sequence of borrowed transactions.
pub open spec fn borrowed_views(transactions: Seq<&Transaction>) -> Seq<TransactionView> {
    transactions.map_values(|t: &Transaction| t@)
}

/// The number of transaction ids that a chain holds.
pub open spec fn committed_ids(blocks: Seq<BlockView>) -> nat
    decreases blocks.len(),
{
    if blocks.len() == 0 {
        0
    } else {
        committed_ids(blocks.drop_last()) + total_ids(blocks.last().poh_entries)
    }
}

/// Whether a transaction is completed.
pub open spec fn is_completed(tx: TransactionView) -> bool {
    tx.status == TransactionStatus::Completed
}

/// An independent partition of the ledger.
#[derive(Debug)]
pub struct Shard {
    pub id: usize,
    generator: PohGenerator,
    pub epoch: usize,
    transaction_count: usize,
    transaction_pool: Vec<Transaction>,
    ledger: Vec<LedgerEntry>,
    pub blocks: Vec<Block>,
    validators: Vec<Validator>,
    min_transactions_per_block: usize,
    max_transactions_per_block: usize,
    last_block_time: i64,
    block_time_threshold: u64,
    epoch_threshold: usize,
    epoch_max_duration: u64,
    processed_transactions: IdSet,
    pending_cross_shard_txs: Vec<Transaction>,
    pub epoch_start_time: i64,
    pub pending_checkpoint: Option<Checkpoint>,
}

impl View for Shard {
    type V = ShardView;

    closed spec fn view(&self) -> ShardView {
        ShardView {
            id: self.id,
            generator: self.generator@,
            epoch: self.epoch,
            transaction_count: self.transaction_count,
            transaction_pool: transaction_views(self.transaction_pool@),
            ledger: ledger_view(self.ledger@),
            blocks: block_views(self.blocks@),
            validators: self.validators@,
            min_transactions_per_block: self.min_transactions_per_block,
            max_transactions_per_block: self.max_transactions_per_block,
            last_block_time: self.last_block_time,
            block_time_threshold: self.block_time_threshold,
            epoch_threshold: self.epoch_threshold,
            epoch_max_duration: self.epoch_max_duration,
            processed_transactions: self.processed_transactions@,
            pending_cross_shard_txs: transaction_views(self.pending_cross_shard_txs@),
            epoch_start_time: self.epoch_start_time,
            pending_checkpoint: checkpoint_option_view(self.pending_checkpoint),
        }
    }
}

/// The ids of `transactions`, in order.
fn ids_of(transactions: &Vec<Transaction>) -> (ids: Vec<String>)
    ensures
        string_views(ids@) == transaction_ids(transaction_views(transactions@)),
{
    let mut ids: Vec<String> = Vec::new();
    let mut i: usize = 0;
    while i < transactions.len()
        invariant
            i <= transactions.len(),
            ids@.len() == i,
            string_views(ids@) == transaction_ids(transaction_views(transactions@)).take(
                i as int,
            ),
        decreases transactions.len() - i,
    {
        ids.push(transactions[i].id.clone());
        i += 1;
        assert(string_views(ids@) =~= transaction_ids(transaction_views(transactions@)).take(
            i as int,
        ));
    }
    assert(transaction_ids(transaction_views(transactions@)).take(i as int)
        =~= transaction_ids(transaction_views(transactions@)));
    ids
}

/// The performance record of every validator, in order.
fn performance_of(validators: &Vec<Validator>) -> (records: Vec<ValidatorPerformance>)
    ensures
        records@.len() == validators@.len(),
        forall|i: int|
            0 <= i < records@.len() ==> {
                &&& (#[trigger] records@[i]).id == validators@[i].id
                &&& records@[i].honesty_score == validators@[i].vote_weight(1)
                &&& records@[i].response_time == validators@[i].average_response_time_ms
            },
{
    let mut records: Vec<ValidatorPerformance> = Vec::new();
    let mut i: usize = 0;
    while i < validators.len()
        invariant
            i <= validators.len(),
            records@.len() == i,
            forall|k: int|
                0 <= k < i ==> {
                    &&& (#[trigger] records@[k]).id == validators@[k].id
                    &&& records@[k].honesty_score == validators@[k].vote_weight(1)
                    &&& records@[k].response_time == validators@[k].average_response_time_ms
                },
        decreases validators.len() - i,
    {
        records.push(ValidatorPerformance::from_validator(&validators[i]));
        i += 1;
    }
    records
}

/// Every validator with one more active epoch.
fn age_validators(validators: &Vec<Validator>) -> (result: Vec<Validator>)
    requires
        forall|i: int|
            0 <= i < validators@.len() ==> (#[trigger] validators@[i]).epochs_active < usize::MAX,
    ensures
        result@ == aged(validators@),
{
    let mut result: Vec<Validator> = Vec::new();
    let mut i: usize = 0;
    while i < validators.len()
        invariant
            i <= validators.len(),
            result@ == aged(validators@).take(i as int),
            forall|k: int|
                0 <= k < validators@.len() ==> (#[trigger] validators@[k]).epochs_active
                    < usize::MAX,
        decreases validators.len() - i,
    {
        let mut validator: Validator = validators[i];
        validator.epochs_active = validator.epochs_active + 1;
        result.push(validator);
        i += 1;
        assert(result@ =~= aged(validators@).take(i as int));
    }
    assert(aged(validators@).take(i as int) =~= aged(validators@));
    result
}

impl Shard {
    /// The shard's index, counted from 1.
    pub fn shard_id(&self) -> (id: usize)
        ensures
            id == self@.id,
    {
        self.id
    }

    /// The epoch the shard is in.
    pub fn current_epoch(&self) -> (epoch: usize)
        ensures
            epoch == self@.epoch,
    {
        self.epoch
    }

    /// The shard's chain.
    pub fn get_blocks(&self) -> (blocks: &Vec<Block>)
        ensures
            block_views(blocks@) == self@.blocks,
    {
        &self.blocks
    }

    /// A shard set up at time `now`.
    pub fn with_config(id: usize, config: ShardConfig, validators: Vec<Validator>, now: i64) -> (shard:
        Shard)
        ensures
            shard@ == initial_state(id, config, validators@, now),
            config.batch_size > 0 && config.epoch_threshold + config.max_transactions_per_block
                <= usize::MAX ==> shard@.wf(),
    {
        let shard = Shard {
            id,
            generator: PohGenerator::new(config.batch_size),
            epoch: 0,
            transaction_count: 0,
            transaction_pool: Vec::new(),
            ledger: Vec::new(),
            blocks: Vec::new(),
            validators,
            min_transactions_per_block: config.min_transactions_per_block,
            max_transactions_per_block: config.max_transactions_per_block,
            last_block_time: now,
            block_time_threshold: config.block_time_threshold_seconds,
            epoch_threshold: config.epoch_threshold,
            epoch_max_duration: config.epoch_max_duration_seconds,
            processed_transactions: IdSet::new(),
            pending_cross_shard_txs: Vec::new(),
            epoch_start_time: now,
            pending_checkpoint: None,
        };
        proof {
            let state = initial_state(id, config, validators@, now);
            assert(shard@.transaction_pool =~= state.transaction_pool);
            assert(shard@.pending_cross_shard_txs =~= state.pending_cross_shard_txs);
            assert(shard@.ledger =~= state.ledger);
            assert(shard@.blocks =~= state.blocks);
            assert(shard@.generator == state.generator);
        }
        shard
    }

    /// A shard with the default thresholds, set up at time `now`.
    pub fn new_at(
        id: usize,
        batch_size: usize,
        max_transactions_per_block: usize,
        validators: Vec<Validator>,
        now: i64,
    ) -> (shard: Shard)
        ensures
            shard@ == initial_state(
                id,
                default_config(batch_size, max_transactions_per_block),
                validators@,
                now,
            ),
            batch_size > 0 && max_transactions_per_block <= usize::MAX - 10 ==> shard@.wf(),
    {
        let config = ShardConfig {
            batch_size,
            min_transactions_per_block: 100,
            max_transactions_per_block,
            block_time_threshold_seconds: 15,
            epoch_threshold: 10,
            epoch_max_duration_seconds: 3600,
        };
        Shard::with_config(id, config, validators, now)
    }

    /// A shard with the default thresholds, set up at the current time.
    pub fn new(
        id: usize,
        batch_size: usize,
        max_transactions_per_block: usize,
        validators: Vec<Validator>,
    ) -> (shard: Shard)
        ensures
            shard@ == initial_state(
                id,
                default_config(batch_size, max_transactions_per_block),
                validators@,
                shard@.epoch_start_time,
            ),
            batch_size > 0 && max_transactions_per_block <= usize::MAX - 10 ==> shard@.wf(),
    {
        let now: i64 = unix_time_now();
        Shard::new_at(id, batch_size, max_transactions_per_block, validators, now)
    }

    /// The detail of the checkpoint that waits to be sent, if there is one.
    pub fn pending_checkpoint_detail(&self) -> (detail: Option<crate::stats::CheckpointDetail>)
        ensures
            detail == crate::stats::detail_of_option(self@.pending_checkpoint),
    {
        match &self.pending_checkpoint {
            Some(checkpoint) => Some(crate::stats::checkpoint_detail(checkpoint)),
            None => None,
        }
    }

    /// The shard's validators, in their current ranking.
    pub fn get_validators(&self) -> (validators: &Vec<Validator>)
        ensures
            validators@ == self@.validators,
    {
        &self.validators
    }

    /// The transactions waiting in the pool.
    pub fn get_transaction_pool(&self) -> (pool: &Vec<Transaction>)
        ensures
            transaction_views(pool@) == self@.transaction_pool,
    {
        &self.transaction_pool
    }

    /// The transactions of the pool that are completed, in order.
    pub fn get_processed_transactions(&self) -> (completed: Vec<&Transaction>)
        ensures
            borrowed_views(completed@) == self@.transaction_pool.filter(
                |t: TransactionView| is_completed(t),
            ),
    {
        let ghost pool = self@.transaction_pool;
        let ghost pred = |t: TransactionView| is_completed(t);
        let mut completed: Vec<&Transaction> = Vec::new();
        let mut i: usize = 0;
        assert(pool.take(0) =~= Seq::<TransactionView>::empty());
        while i < self.transaction_pool.len()
            invariant
                i <= self.transaction_pool.len(),
                pool == transaction_views(self.transaction_pool@),
                pred == |t: TransactionView| is_completed(t),
                borrowed_views(completed@) == pool.take(i as int).filter(pred),
            decreases self.transaction_pool.len() - i,
        {
            proof {
                assert(pool.take(i + 1) =~= pool.take(i as int).push(pool[i as int]));
                pool.take(i as int).lemma_filter_push(pool[i as int], pred);
            }
            let ghost before = borrowed_views(completed@);
            if self.transaction_pool[i].status == TransactionStatus::Completed {
                completed.push(&self.transaction_pool[i]);
                assert(borrowed_views(completed@) =~= before.push(pool[i as int]));
            }
            i += 1;
        }
        assert(pool.take(i as int) =~= pool);
        completed
    }

    /// The number of transaction ids that the chain holds, or `usize::MAX`
    /// where the chain holds more.
    pub fn get_processed_transaction_count(&self) -> (count: usize)
        ensures
            count == capped(committed_ids(self@.blocks)),
    {
        let ghost chain = self@.blocks;
        let mut count: usize = 0;
        let mut i: usize = 0;
        assert(chain.take(0) =~= Seq::<BlockView>::empty());
        while i < self.blocks.len()
            invariant
                i <= self.blocks.len(),
                chain == block_views(self.blocks@),
                count == capped(committed_ids(chain.take(i as int))),
            decreases self.blocks.len() - i,
        {
            proof {
                assert(chain.take(i + 1).drop_last() =~= chain.take(i as int));
                assert(chain.take(i + 1).last() == self.blocks@[i as int]@);
            }
            count = count.saturating_add(self.blocks[i].transaction_count());
            i += 1;
        }
        assert(chain.take(i as int) =~= chain);
        count
    }

    /// The number of transactions queued for other shards.
    pub fn get_pending_cross_shard_txs_len(&self) -> (len: usize)
        ensures
            len == self@.pending_cross_shard_txs.len(),
    {
        self.pending_cross_shard_txs.len()
    }

    /// Empties the queue of transactions bound for other shards and
    /// returns what it held, in order.
    pub fn drain_pending_cross_shard_txs(&mut self) -> (drained: Vec<Transaction>)
        ensures
            transaction_views(drained@) == old(self)@.pending_cross_shard_txs,
            final(self)@ == (ShardView { pending_cross_shard_txs: Seq::empty(), ..old(self)@ }),
    {
        let mut drained: Vec<Transaction> = Vec::new();
        drained.append(&mut self.pending_cross_shard_txs);
        assert(drained@ =~= old(self).pending_cross_shard_txs@);
        assert(transaction_views(self.pending_cross_shard_txs@) =~= Seq::<
            TransactionView,
        >::empty());
        drained
    }

    /// The first transaction of the pool with the given id.
    pub fn get_transaction_by_id(&self, tx_id: &str) -> (found: Option<&Transaction>)
        ensures
            match found {
                Some(tx) => exists|i: int|
                    {
                        &&& 0 <= i < self@.transaction_pool.len()
                        &&& #[trigger] self@.transaction_pool[i] == tx@
                        &&& tx@.id == tx_id@
                        &&& forall|j: int| 0 <= j < i ==> self@.transaction_pool[j].id != tx_id@
                    },
                None => forall|i: int|
                    0 <= i < self@.transaction_pool.len() ==> self@.transaction_pool[i].id
                        != tx_id@,
            },
    {
        let needle = String::from_str(tx_id);
        let mut i: usize = 0;
        while i < self.transaction_pool.len()
            invariant
                i <= self.transaction_pool.len(),
                needle@ == tx_id@,
                forall|j: int| 0 <= j < i ==> self@.transaction_pool[j].id != tx_id@,
            decreases self.transaction_pool.len() - i,
        {
            if self.transaction_pool[i].id == needle {
                assert(self@.transaction_pool[i as int] == self.transaction_pool@[i as int]@);
                return Some(&self.transaction_pool[i]);
            }
            i += 1;
        }
        None
    }

    /// Offers `tx` for processing: a transaction whose id was processed
    /// before is ignored, any other joins the pool as `Processing`.
    fn admit_transaction(&mut self, tx: Transaction)
        ensures
            final(self)@ == old(self)@.with_admitted(tx@),
    {
        if !self.processed_transactions.contains(tx.id.as_str()) {
            let mut admitted = tx;
            admitted.status = TransactionStatus::Processing;
            self.processed_transactions.insert(admitted.id.clone());
            proof {
                assert(transaction_views(self.transaction_pool@.push(admitted))
                    =~= transaction_views(self.transaction_pool@).push(admitted@));
            }
            self.transaction_pool.push(admitted);
        }
    }

    /// Takes a batch at time `now`: the transactions bound for this shard
    /// are offered for processing, then a round of block formation follows.
    /// Returns the transactions that the round committed.
    pub fn process_transactions_at(&mut self, transactions: Vec<Transaction>, now: i64) -> (committed:
        Vec<Transaction>)
        requires
            old(self)@.wf(),
            old(self)@.headroom(1),
        ensures
            final(self)@ == old(self)@.process_transactions(
                transaction_views(transactions@),
                now,
            ).state,
            transaction_views(committed@) == old(self)@.process_transactions(
                transaction_views(transactions@),
                now,
            ).committed,
            final(self)@.wf(),
            forall|steps: int|
                steps >= 0 && old(self)@.headroom(steps + 1) ==> #[trigger] final(self)@.headroom(
                    steps,
                ),
    {
        let ghost batch = transaction_views(transactions@);
        let mut i: usize = 0;
        assert(batch.take(0) =~= Seq::<TransactionView>::empty());
        while i < transactions.len()
            invariant
                i <= transactions.len(),
                batch == transaction_views(transactions@),
                self@ == old(self)@.with_local_admitted(batch.take(i as int)),
            decreases transactions.len() - i,
        {
            proof {
                assert(batch.take(i + 1).drop_last() =~= batch.take(i as int));
                assert(batch.take(i + 1).last() == transactions@[i as int]@);
                old(self)@.lemma_local_admission_keeps_id(batch.take(i as int));
            }
            if transactions[i].to_shard == self.id {
                self.admit_transaction(transactions[i].duplicate());
            }
            i += 1;
        }
        proof {
            assert(batch.take(i as int) =~= batch);
            old(self)@.lemma_local_admission_keeps_wf(batch);
            old(self)@.lemma_batch_keeps_wf(batch, now);
        }
        self.check_and_create_block_at(now)
    }

    /// Takes a batch at the current time. Returns the transactions that the
    /// round of block formation committed.
    pub fn process_transactions(&mut self, transactions: Vec<Transaction>) -> (committed: Vec<
        Transaction,
    >)
        requires
            old(self)@.wf(),
            old(self)@.headroom(1),
        ensures
            exists|now: i64|
                (Step { state: final(self)@, committed: transaction_views(committed@) })
                    == #[trigger] old(self)@.process_transactions(
                    transaction_views(transactions@),
                    now,
                ),
            final(self)@.wf(),
            forall|steps: int|
                steps >= 0 && old(self)@.headroom(steps + 1) ==> #[trigger] final(self)@.headroom(
                    steps,
                ),
    {
        let now: i64 = unix_time_now();
        let committed = self.process_transactions_at(transactions, now);
        assert((Step { state: self@, committed: transaction_views(committed@) })
            == old(self)@.process_transactions(transaction_views(transactions@), now));
        committed
    }

    /// Takes a transaction forwarded from another shard at time `now`: one
    /// whose id was processed before is ignored; any other is admitted, and
    /// a round of block formation follows. Returns the transactions that
    /// the round committed.
    pub fn process_cross_shard_transaction_at(&mut self, transaction: Transaction, now: i64) -> (committed:
        Vec<Transaction>)
        requires
            old(self)@.wf(),
            old(self)@.headroom(1),
        ensures
            final(self)@ == old(self)@.process_cross_shard_transaction(transaction@, now).state,
            transaction_views(committed@) == old(self)@.process_cross_shard_transaction(
                transaction@,
                now,
            ).committed,
            final(self)@.wf(),
            forall|steps: int|
                steps >= 0 && old(self)@.headroom(steps + 1) ==> #[trigger] final(self)@.headroom(
                    steps,
                ),
    {
        proof {
            old(self)@.lemma_forward_keeps_wf(transaction@, now);
        }
        if !self.processed_transactions.contains(transaction.id.as_str()) {
            self.admit_transaction(transaction);
            self.check_and_create_block_at(now)
        } else {
            let committed: Vec<Transaction> = Vec::new();
            assert(transaction_views(committed@) =~= Seq::<TransactionView>::empty());
            committed
        }
    }

    /// Takes a transaction forwarded from another shard at the current
    /// time. Returns the transactions that the round of block formation
    /// committed.
    pub fn process_cross_shard_transaction(&mut self, transaction: Transaction) -> (committed: Vec<
        Transaction,
    >)
        requires
            old(self)@.wf(),
            old(self)@.headroom(1),
        ensures
            exists|now: i64|
                (Step { state: final(self)@, committed: transaction_views(committed@) })
                    == #[trigger] old(self)@.process_cross_shard_transaction(transaction@, now),
            final(self)@.wf(),
            forall|steps: int|
                steps >= 0 && old(self)@.headroom(steps + 1) ==> #[trigger] final(self)@.headroom(
                    steps,
                ),
    {
        let now: i64 = unix_time_now();
        let committed = self.process_cross_shard_transaction_at(transaction, now);
        assert((Step { state: self@, committed: transaction_views(committed@) })
            == old(self)@.process_cross_shard_transaction(transaction@, now));
        committed
    }

    /// Queues a transaction bound for another shard, unless its id was
    /// processed here.
    pub fn add_pending_cross_shard_tx(&mut self, transaction: Transaction)
        ensures
            final(self)@ == old(self)@.enqueue(transaction@),
    {
        if !self.processed_transactions.contains(transaction.id.as_str()) {
            proof {
                assert(transaction_views(self.pending_cross_shard_txs@.push(transaction))
                    =~= transaction_views(self.pending_cross_shard_txs@).push(transaction@));
            }
            self.pending_cross_shard_txs.push(transaction);
        }
    }

    /// The number of waiting transactions that triggers a block, given how
    /// many are waiting.
    pub fn calculate_dynamic_min_transactions(&self, total_transactions: usize) -> (minimum: usize)
        ensures
            minimum == self@.dynamic_min_transactions(total_transactions as nat),
    {
        if total_transactions > HEAVY_LOAD {
            HEAVY_LOAD
        } else if total_transactions > MEDIUM_LOAD {
            self.max_transactions_per_block / 2
        } else if total_transactions > LIGHT_LOAD {
            self.max_transactions_per_block / 5
        } else {
            self.min_transactions_per_block
        }
    }

    /// The number of transactions waiting, in the pool and in the queue.
    fn waiting(&self) -> (total: u128)
        ensures
            total == self@.pending_total(),
    {
        self.transaction_pool.len() as u128 + self.pending_cross_shard_txs.len() as u128
    }

    /// One round of block formation at time `now`: a block is attempted
    /// where one is due, and then the epoch is examined. Returns the
    /// transactions that the round committed.
    pub fn check_and_create_block_at(&mut self, now: i64) -> (committed: Vec<Transaction>)
        requires
            old(self)@.wf(),
            old(self)@.headroom(1),
        ensures
            final(self)@ == old(self)@.check_and_create_block(now).state,
            transaction_views(committed@) == old(self)@.check_and_create_block(now).committed,
            final(self)@.wf(),
            forall|steps: int|
                steps >= 0 && old(self)@.headroom(steps + 1) ==> #[trigger] final(self)@.headroom(
                    steps,
                ),
    {
        let total: u128 = self.waiting();
        let capped: usize = if total > usize::MAX as u128 {
            usize::MAX
        } else {
            total as usize
        };
        let due: bool = has_elapsed(now, self.last_block_time, self.block_time_threshold) || total
            >= self.calculate_dynamic_min_transactions(capped) as u128;
        let committed: Vec<Transaction> = if due {
            self.create_block_at(now)
        } else {
            let none: Vec<Transaction> = Vec::new();
            assert(transaction_views(none@) =~= Seq::<TransactionView>::empty());
            none
        };
        proof {
            old(self)@.lemma_block_attempt_keeps_wf(now);
            old(self)@.lemma_round_keeps_wf(now);
            assert(self@.epoch_room(1)) by {
                assert(self@.validators == old(self)@.validators);
                assert(self@.epoch == old(self)@.epoch);
            }
        }
        if self.check_epoch_transition_at(now) {
            self.transition_to_next_epoch_at(now);
        }
        committed
    }

    /// One round of block formation at the current time. Returns the
    /// transactions that the round committed.
    pub fn check_and_create_block(&mut self) -> (committed: Vec<Transaction>)
        requires
            old(self)@.wf(),
            old(self)@.headroom(1),
        ensures
            exists|now: i64|
                (Step { state: final(self)@, committed: transaction_views(committed@) })
                    == #[trigger] old(self)@.check_and_create_block(now),
            final(self)@.wf(),
            forall|steps: int|
                steps >= 0 && old(self)@.headroom(steps + 1) ==> #[trigger] final(self)@.headroom(
                    steps,
                ),
    {
        let now: i64 = unix_time_now();
        let committed = self.check_and_create_block_at(now);
        assert((Step { state: self@, committed: transaction_views(committed@) })
            == old(self)@.check_and_create_block(now));
        committed
    }

    /// One attempt to form a block at time `now`. Returns the transactions
    /// that the block committed, each `Completed`; none where no block
    /// joined the chain.
    fn create_block_at(&mut self, now: i64) -> (committed: Vec<Transaction>)
        requires
            old(self)@.wf(),
            old(self)@.headroom(1),
        ensures
            final(self)@ == old(self)@.block_attempt(now).state,
            transaction_views(committed@) == old(self)@.block_attempt(now).committed,
    {
        let total: u128 = self.waiting();
        if total < self.min_transactions_per_block as u128 {
            let none: Vec<Transaction> = Vec::new();
            assert(transaction_views(none@) =~= Seq::<TransactionView>::empty());
            return none;
        }
        let ghost before = self@;
        let mut chosen: Vec<Transaction> = Vec::new();
        chosen.append(&mut self.pending_cross_shard_txs);
        chosen.append(&mut self.transaction_pool);
        chosen.truncate(self.max_transactions_per_block);
        proof {
            let waiting = old(self).pending_cross_shard_txs@ + old(self).transaction_pool@;
            assert(transaction_views(waiting) =~= before.pending_cross_shard_txs
                + before.transaction_pool);
            if waiting.len() <= self.max_transactions_per_block {
                assert(chosen@ =~= waiting);
            } else {
                assert(transaction_views(chosen@) =~= transaction_views(waiting).take(
                    self.max_transactions_per_block as int,
                ));
            }
            assert(transaction_views(chosen@) == before.candidates());
            assert(transaction_views(self.transaction_pool@) =~= Seq::<TransactionView>::empty());
            assert(transaction_views(self.pending_cross_shard_txs@) =~= Seq::<
                TransactionView,
            >::empty());
        }
        let ghost selection = chosen@;
        let ids: Vec<String> = ids_of(&chosen);
        let performance: Vec<ValidatorPerformance> = performance_of(&self.validators);
        let ghost run = run_chunks(
            string_views(ids@),
            before.generator.previous_hash,
            before.generator.batch_size,
            now,
        );
        match self.generator.generate_entries_at(ids, &performance, now) {
            Err(_) => {
                self.transaction_pool.append(&mut chosen);
                proof {
                    assert(self.transaction_pool@ =~= selection);
                }
                let none: Vec<Transaction> = Vec::new();
                assert(transaction_views(none@) =~= Seq::<TransactionView>::empty());
                none
            },
            Ok(entries) => {
                let height: usize = self.blocks.len();
                let block_number: u64 = height as u64 + 1;
                let previous_hash: String = if height == 0 {
                    String::from_str("0")
                } else {
                    self.blocks[height - 1].block_hash.clone()
                };
                proof {
                    assert(previous_hash@ == crate::shard_model::tip_hash(before.blocks));
                }
                let block = Block::new_at(block_number, entries, previous_hash.as_str(), now);
                if self.validate_block_with_validators(&block) {
                    proof {
                        assert(block_views(self.blocks@.push(block)) =~= before.blocks.push(
                            block@,
                        ));
                    }
                    self.blocks.push(block);
                    let committed = self.commit(&chosen);
                    self.transaction_count = self.transaction_count + chosen.len();
                    self.last_block_time = now;
                    committed
                } else {
                    self.transaction_pool.append(&mut chosen);
                    proof {
                        assert(self.transaction_pool@ =~= selection);
                    }
                    let none: Vec<Transaction> = Vec::new();
                    assert(transaction_views(none@) =~= Seq::<TransactionView>::empty());
                    none
                }
            },
        }
    }

    /// Marks every transaction of `chosen` completed and its id processed.
    fn commit(&mut self, chosen: &Vec<Transaction>) -> (committed: Vec<Transaction>)
        ensures
            transaction_views(committed@) == all_with_status(
                transaction_views(chosen@),
                TransactionStatus::Completed,
            ),
            final(self)@ == (ShardView {
                processed_transactions: old(self)@.processed_transactions.union(
                    transaction_ids(transaction_views(chosen@)).to_set(),
                ),
                ..old(self)@
            }),
    {
        let ghost ids = transaction_ids(transaction_views(chosen@));
        let ghost done = all_with_status(transaction_views(chosen@), TransactionStatus::Completed);
        let mut committed: Vec<Transaction> = Vec::new();
        let mut i: usize = 0;
        assert(old(self)@.processed_transactions.union(ids.take(0).to_set())
            =~= old(self)@.processed_transactions);
        while i < chosen.len()
            invariant
                i <= chosen.len(),
                ids == transaction_ids(transaction_views(chosen@)),
                done == all_with_status(transaction_views(chosen@), TransactionStatus::Completed),
                committed@.len() == i,
                transaction_views(committed@) == done.take(i as int),
                self@ == (ShardView {
                    processed_transactions: old(self)@.processed_transactions.union(
                        ids.take(i as int).to_set(),
                    ),
                    ..old(self)@
                }),
            decreases chosen.len() - i,
        {
            let mut tx = chosen[i].duplicate();
            tx.status = TransactionStatus::Completed;
            self.processed_transactions.insert(tx.id.clone());
            proof {
                assert(ids.take(i + 1) =~= ids.take(i as int).push(ids[i as int]));
                ids.take(i as int).lemma_push_to_set_commute(ids[i as int]);
                assert(old(self)@.processed_transactions.union(ids.take(i + 1).to_set())
                    =~= old(self)@.processed_transactions.union(
                    ids.take(i as int).to_set(),
                ).insert(ids[i as int]));
                assert(transaction_views(committed@.push(tx)) =~= done.take(i + 1));
            }
            committed.push(tx);
            i += 1;
        }
        proof {
            assert(ids.take(i as int) =~= ids);
            assert(done.take(i as int) =~= done);
        }
        committed
    }

    /// Takes the validators' vote on `block`: accepted where the positive
    /// weight exceeds three tenths of the total weight. The vote leaves
    /// the shard as it was.
    pub fn validate_block_with_validators(&mut self, block: &Block) -> (accepted: bool)
        ensures
            accepted == accepts(old(self)@.validators, old(self)@.epoch),
            final(self)@ == old(self)@,
    {
        let outcome: (u128, u128, bool) = tally(&self.validators, self.epoch);
        outcome.2
    }

    /// Takes the checkpoint that waits to be sent, if there is one.
    pub fn drain_pending_checkpoint(&mut self) -> (checkpoint: Option<Checkpoint>)
        ensures
            checkpoint_option_view(checkpoint) == old(self)@.pending_checkpoint,
            final(self)@ == (ShardView { pending_checkpoint: None, ..old(self)@ }),
    {
        self.pending_checkpoint.take()
    }

    /// Takes over another shard's checkpoint: its ledger, pool and
    /// processed ids replace this shard's, and the chain is emptied.
    pub fn receive_checkpoint(&mut self, checkpoint: Checkpoint)
        ensures
            final(self)@ == old(self)@.receive_checkpoint(checkpoint@),
            old(self)@.wf() ==> final(self)@.wf(),
    {
        proof {
            checkpoint.processed_transactions_snapshot.lemma_finite();
        }
        self.ledger = checkpoint.ledger_snapshot;
        self.processed_transactions = checkpoint.processed_transactions_snapshot;
        self.transaction_pool = checkpoint.transaction_pool_snapshot;
        self.blocks = Vec::new();
        assert(block_views(self.blocks@) =~= Seq::<BlockView>::empty());
    }

    /// The snapshot of the shard as it stands.
    pub fn capture_checkpoint(&self) -> (checkpoint: Checkpoint)
        ensures
            checkpoint@ == self@.checkpoint(),
    {
        Checkpoint::new(
            self.id,
            self.blocks.len() as u64,
            duplicate_ledger(&self.ledger),
            duplicate_transactions(&self.transaction_pool),
            self.processed_transactions.duplicate(),
        )
    }

    /// Whether the epoch is over at time `now`.
    pub fn check_epoch_transition_at(&self, now: i64) -> (due: bool)
        ensures
            due == self@.epoch_due(now),
    {
        self.transaction_count >= self.epoch_threshold || has_elapsed(
            now,
            self.epoch_start_time,
            self.epoch_max_duration,
        )
    }

    /// Whether the epoch is over at the current time. It is over, whatever
    /// the time, once it has seen enough transactions.
    pub fn check_epoch_transition(&self) -> (due: bool)
        ensures
            exists|now: i64| due == #[trigger] self@.epoch_due(now),
            self@.transaction_count >= self@.epoch_threshold ==> due,
    {
        let now: i64 = unix_time_now();
        let due = self.check_epoch_transition_at(now);
        assert(due == self@.epoch_due(now));
        due
    }

    /// Enters the next epoch at time `now`.
    pub fn transition_to_next_epoch_at(&mut self, now: i64)
        requires
            old(self)@.epoch_room(1),
        ensures
            final(self)@ == old(self)@.next_epoch(now),
    {
        self.epoch = self.epoch + 1;
        self.epoch_start_time = now;
        self.transaction_count = 0;
        self.recalculate_validator_rankings();
        self.dynamic_assign_validators();
        proof {
            crate::shard_model::lemma_ranking_keeps_headroom(
                old(self)@.validators,
                self.epoch,
                1,
            );
        }
        self.validators = age_validators(&self.validators);
        self.transaction_pool = Vec::new();
        self.processed_transactions.clear();
        assert(transaction_views(self.transaction_pool@) =~= Seq::<TransactionView>::empty());
        let checkpoint = self.capture_checkpoint();
        self.pending_checkpoint = Some(checkpoint);
    }

    /// Enters the next epoch at the current time.
    pub fn transition_to_next_epoch(&mut self)
        requires
            old(self)@.epoch_room(1),
        ensures
            exists|now: i64| final(self)@ == #[trigger] old(self)@.next_epoch(now),
    {
        let now: i64 = unix_time_now();
        self.transition_to_next_epoch_at(now);
        assert(self@ == old(self)@.next_epoch(now));
    }

    /// Ranks the validators anew by their vote weight in the current epoch.
    fn recalculate_validator_rankings(&mut self)
        ensures
            final(self)@ == (ShardView {
                validators: ranked(old(self)@.validators, old(self)@.epoch),
                ..old(self)@
            }),
    {
        self.validators = rank_validators(&self.validators, self.epoch);
    }

    /// Where validators would be moved between shards at an epoch's start.
    /// No validator moves.
    fn dynamic_assign_validators(&mut self)
        ensures
            final(self)@ == old(self)@,
    {
    }
}

} // verus!
