use sharded_ledger::checkpoint::Checkpoint;
use sharded_ledger::id_set::IdSet;
use sharded_ledger::ledger::LedgerEntry;
use sharded_ledger::shard::Shard;
use sharded_ledger::shard_model::ShardConfig;
use sharded_ledger::transaction::{Transaction, TransactionStatus};
use sharded_ledger::validator::Validator;

fn tx(id: &str, from_shard: usize, to_shard: usize) -> Transaction {
    Transaction {
        id: id.to_string(),
        amount: 7,
        from_shard,
        to_shard,
        status: TransactionStatus::Pending,
    }
}

fn batch(from: usize, count: usize, shard: usize) -> Vec<Transaction> {
    (from..from + count).map(|i| tx(&format!("tx{}", i), shard, shard)).collect()
}

fn validators(shard: usize, count: usize) -> Vec<Validator> {
    (1..=count).map(|i| Validator::new(i, shard, 900_000)).collect()
}

fn config(min: usize, max: usize, epoch_threshold: usize) -> ShardConfig {
    ShardConfig {
        batch_size: 100,
        min_transactions_per_block: min,
        max_transactions_per_block: max,
        block_time_threshold_seconds: 15,
        epoch_threshold,
        epoch_max_duration_seconds: 3600,
    }
}

fn pool_ids(shard: &Shard) -> Vec<String> {
    shard.get_transaction_pool().iter().map(|t| t.id.clone()).collect()
}

#[test]
fn new_shard_is_empty() {
    let shard = Shard::new_at(3, 100, 3000, validators(3, 2), 50);
    assert_eq!(shard.id, 3);
    assert_eq!(shard.shard_id(), 3);
    assert_eq!(shard.epoch, 0);
    assert_eq!(shard.current_epoch(), 0);
    assert_eq!(shard.epoch_start_time, 50);
    assert!(shard.blocks.is_empty());
    assert!(shard.get_blocks().is_empty());
    assert!(shard.get_transaction_pool().is_empty());
    assert_eq!(shard.get_pending_cross_shard_txs_len(), 0);
    assert_eq!(shard.get_validators().len(), 2);
    assert!(shard.pending_checkpoint.is_none());
    assert_eq!(shard.get_processed_transaction_count(), 0);
}

#[test]
fn new_shard_has_the_default_thresholds() {
    let mut shard = Shard::new_at(1, 100, 3000, validators(1, 2), 0);
    assert_eq!(shard.calculate_dynamic_min_transactions(10), 100);
    assert!(shard.process_transactions_at(batch(1, 9, 1), 0).is_empty());
    assert_eq!(shard.get_transaction_pool().len(), 9);
    assert!(!shard.check_epoch_transition_at(3599));
    assert!(shard.check_epoch_transition_at(3600));
    let committed = shard.process_transactions_at(batch(10, 91, 1), 14);
    assert_eq!(committed.len(), 100);
    assert_eq!(shard.blocks.len(), 1);
    assert_eq!(shard.epoch, 1);
}

#[test]
fn shard_made_now_starts_at_the_present() {
    let shard = Shard::new(1, 100, 3000, validators(1, 2));
    assert!(shard.epoch_start_time > 1_600_000_000);
    assert_eq!(shard.epoch, 0);
}

#[test]
fn genesis_block() {
    let mut shard = Shard::with_config(1, config(10, 3000, 100), validators(1, 2), 1000);
    let committed = shard.process_transactions_at(batch(1, 10, 1), 1000);
    assert_eq!(shard.blocks.len(), 1);
    assert_eq!(shard.blocks[0].block_number, 1);
    assert_eq!(shard.blocks[0].previous_hash, "0");
    assert_eq!(shard.blocks[0].timestamp, 1000);
    assert_eq!(shard.blocks[0].poh_entries.len(), 1);
    assert_eq!(
        shard.blocks[0].poh_entries[0].hash,
        "3c0db1c2af90468d1590eaf7bbb99a0eb5060364e0249dfa876df2416c6756e3"
    );
    assert_eq!(
        shard.blocks[0].block_hash,
        "2cffb59eaeb741e56151cf692595e7d2252d6926fb413227c2d5c016edbe0792"
    );
    assert_eq!(committed.len(), 10);
    for (i, done) in committed.iter().enumerate() {
        assert_eq!(done.id, format!("tx{}", i + 1));
        assert_eq!(done.status, TransactionStatus::Completed);
        assert_eq!(done.amount, 7);
        assert_eq!(done.to_shard, shard.id);
    }
    assert!(shard.get_transaction_pool().is_empty());
    assert_eq!(shard.get_processed_transaction_count(), 10);
    assert_eq!(shard.epoch, 0);
}

#[test]
fn chain_links_every_block_to_the_one_before() {
    let mut shard = Shard::with_config(1, config(2, 3000, 1000), validators(1, 2), 0);
    for round in 0..4 {
        let committed = shard.process_transactions_at(batch(1 + 2 * round, 2, 1), round as i64);
        assert_eq!(committed.len(), 2);
    }
    assert_eq!(shard.blocks.len(), 4);
    assert_eq!(shard.blocks[0].previous_hash, "0");
    for i in 1..4 {
        assert_eq!(shard.blocks[i].previous_hash, shard.blocks[i - 1].block_hash);
        assert_eq!(shard.blocks[i].block_number, i as u64 + 1);
    }
    for block in shard.blocks.iter() {
        assert_eq!(block.recompute_hash(), block.block_hash);
    }
    assert_eq!(shard.get_processed_transaction_count(), 8);
}

#[test]
fn admitted_transactions_are_processing() {
    let mut shard = Shard::with_config(1, config(100, 3000, 100), validators(1, 2), 0);
    shard.process_transactions_at(batch(1, 3, 1), 0);
    let pool = shard.get_transaction_pool();
    assert_eq!(pool.len(), 3);
    for waiting in pool.iter() {
        assert_eq!(waiting.status, TransactionStatus::Processing);
    }
    assert!(shard.get_processed_transactions().is_empty());
}

#[test]
fn duplicate_suppression() {
    let mut shard = Shard::with_config(1, config(100, 3000, 100), validators(1, 2), 0);
    shard.process_transactions_at(vec![tx("tx1", 1, 1)], 0);
    shard.process_transactions_at(vec![tx("tx1", 1, 1)], 1);
    assert_eq!(shard.get_transaction_pool().len(), 1);
    shard.process_transactions_at(vec![tx("tx2", 1, 1), tx("tx2", 1, 1), tx("tx1", 1, 1)], 2);
    assert_eq!(pool_ids(&shard), vec!["tx1".to_string(), "tx2".to_string()]);
    shard.process_cross_shard_transaction_at(tx("tx2", 2, 1), 3);
    assert_eq!(shard.get_transaction_pool().len(), 2);
}

#[test]
fn committed_transaction_is_not_committed_again_in_its_epoch() {
    let mut shard = Shard::with_config(1, config(1, 3000, 100), validators(1, 2), 0);
    assert_eq!(shard.process_transactions_at(vec![tx("tx1", 1, 1)], 0).len(), 1);
    assert!(shard.process_transactions_at(vec![tx("tx1", 1, 1)], 1).is_empty());
    assert!(shard.process_cross_shard_transaction_at(tx("tx1", 2, 1), 2).is_empty());
    shard.add_pending_cross_shard_tx(tx("tx1", 1, 2));
    assert_eq!(shard.get_pending_cross_shard_txs_len(), 0);
    assert_eq!(shard.blocks.len(), 1);
    assert!(shard.get_transaction_pool().is_empty());
}

#[test]
fn transactions_bound_elsewhere_are_left_out_of_a_batch() {
    let mut shard = Shard::with_config(1, config(100, 3000, 100), validators(1, 2), 0);
    shard.process_transactions_at(vec![tx("a", 1, 1), tx("b", 1, 2), tx("c", 2, 1)], 0);
    assert_eq!(pool_ids(&shard), vec!["a".to_string(), "c".to_string()]);
    assert_eq!(shard.get_pending_cross_shard_txs_len(), 0);
}

#[test]
fn pending_queue_keeps_order_and_status() {
    let mut shard = Shard::with_config(1, config(100, 3000, 100), validators(1, 2), 0);
    shard.add_pending_cross_shard_tx(tx("x1", 1, 2));
    shard.add_pending_cross_shard_tx(tx("x2", 1, 3));
    assert_eq!(shard.get_pending_cross_shard_txs_len(), 2);
    let drained = shard.drain_pending_cross_shard_txs();
    assert_eq!(drained.len(), 2);
    assert_eq!(drained[0].id, "x1");
    assert_eq!(drained[1].id, "x2");
    assert_eq!(drained[0].status, TransactionStatus::Pending);
    assert_eq!(shard.get_pending_cross_shard_txs_len(), 0);
}

#[test]
fn block_takes_the_queue_first() {
    let mut shard = Shard::with_config(1, config(3, 3000, 100), validators(1, 2), 0);
    shard.process_transactions_at(vec![tx("a", 1, 1)], 0);
    shard.add_pending_cross_shard_tx(tx("x1", 1, 2));
    let committed = shard.process_transactions_at(vec![tx("b", 1, 1)], 1);
    let order: Vec<String> = committed.iter().map(|t| t.id.clone()).collect();
    assert_eq!(order, vec!["x1".to_string(), "a".to_string(), "b".to_string()]);
    assert_eq!(shard.blocks[0].poh_entries[0].transactions, order);
    assert_eq!(shard.get_pending_cross_shard_txs_len(), 0);
}

#[test]
fn block_holds_no_more_than_its_capacity() {
    let mut shard = Shard::with_config(1, config(1, 2, 100), validators(1, 2), 0);
    let committed = shard.process_transactions_at(batch(1, 3, 1), 0);
    assert_eq!(committed.len(), 2);
    assert_eq!(committed[0].id, "tx1");
    assert_eq!(committed[1].id, "tx2");
    assert_eq!(shard.blocks[0].transaction_count(), 2);
    assert!(shard.get_transaction_pool().is_empty());
}

#[test]
fn block_entries_follow_the_batch_size() {
    let mut small = config(5, 3000, 100);
    small.batch_size = 2;
    let mut shard = Shard::with_config(1, small, validators(1, 2), 0);
    shard.process_transactions_at(batch(1, 5, 1), 0);
    assert_eq!(shard.blocks.len(), 1);
    assert_eq!(shard.blocks[0].poh_entries.len(), 3);
    assert_eq!(shard.blocks[0].transaction_count(), 5);
    assert_eq!(shard.get_processed_transaction_count(), 5);
}

#[test]
fn validation_reject_restores_the_pool() {
    let mut shard = Shard::with_config(1, config(2, 3000, 100), Vec::new(), 0);
    let committed = shard.process_transactions_at(batch(1, 2, 1), 0);
    assert!(committed.is_empty());
    assert!(shard.blocks.is_empty());
    assert_eq!(pool_ids(&shard), vec!["tx1".to_string(), "tx2".to_string()]);
    let block = sharded_ledger::block::Block::new_at(1, Vec::new(), "0", 0);
    assert!(!shard.validate_block_with_validators(&block));
}

#[test]
fn validation_accepts_whenever_a_validator_votes() {
    let mut penalized = Validator::new(2, 1, 900_000);
    penalized.penalized = true;
    penalized.average_response_time_ms = 10;
    let mut shard =
        Shard::with_config(1, config(2, 3000, 100), vec![Validator::new(1, 1, 300_000), penalized], 0);
    let block = sharded_ledger::block::Block::new_at(1, Vec::new(), "0", 0);
    assert!(shard.validate_block_with_validators(&block));
    assert_eq!(shard.process_transactions_at(batch(1, 2, 1), 0).len(), 2);
}

#[test]
fn generation_failure_restores_the_pool() {
    let mut shard = Shard::with_config(1, config(2, 3000, 100), validators(1, 2), 0);
    let committed = shard.process_transactions_at(vec![tx("a", 1, 1), tx("", 1, 1)], 0);
    assert!(committed.is_empty());
    assert!(shard.blocks.is_empty());
    assert_eq!(pool_ids(&shard), vec!["a".to_string(), "".to_string()]);
    let late = shard.check_and_create_block_at(i64::MAX);
    assert!(late.is_empty());
    assert!(shard.blocks.is_empty());
}

#[test]
fn dynamic_batch_sizing() {
    let shard = Shard::with_config(1, config(100, 1000, 100_000), validators(1, 2), 0);
    assert_eq!(shard.calculate_dynamic_min_transactions(760), 500);
    assert_eq!(shard.calculate_dynamic_min_transactions(1501), 1500);
    assert_eq!(shard.calculate_dynamic_min_transactions(1500), 500);
    assert_eq!(shard.calculate_dynamic_min_transactions(751), 500);
    assert_eq!(shard.calculate_dynamic_min_transactions(750), 200);
    assert_eq!(shard.calculate_dynamic_min_transactions(301), 200);
    assert_eq!(shard.calculate_dynamic_min_transactions(300), 100);
    assert_eq!(shard.calculate_dynamic_min_transactions(0), 100);
    let odd = Shard::with_config(1, config(100, 1003, 100_000), validators(1, 2), 0);
    assert_eq!(odd.calculate_dynamic_min_transactions(760), 501);
    assert_eq!(odd.calculate_dynamic_min_transactions(400), 200);
}

#[test]
fn block_of_five_hundred() {
    let mut shard = Shard::with_config(1, config(100, 1000, 100_000), validators(1, 2), 0);
    let committed = shard.process_transactions_at(batch(1, 500, 1), 0);
    assert_eq!(committed.len(), 500);
    assert_eq!(shard.blocks.len(), 1);
    assert_eq!(shard.blocks[0].transaction_count(), 500);
    assert_eq!(shard.blocks[0].poh_entries.len(), 5);
}

#[test]
fn block_waits_for_the_dynamic_minimum_or_the_time() {
    let mut shard = Shard::with_config(1, config(100, 3000, 100_000), validators(1, 2), 0);
    assert!(shard.process_transactions_at(batch(1, 301, 1), 0).is_empty());
    assert!(shard.check_and_create_block_at(14).is_empty());
    assert!(shard.blocks.is_empty());
    let committed = shard.check_and_create_block_at(15);
    assert_eq!(committed.len(), 301);
    assert_eq!(shard.blocks.len(), 1);
    assert_eq!(shard.blocks[0].timestamp, 15);
}

#[test]
fn block_is_not_formed_below_the_minimum() {
    let mut shard = Shard::with_config(1, config(5, 3000, 100), validators(1, 2), 0);
    shard.process_transactions_at(batch(1, 4, 1), 0);
    assert!(shard.check_and_create_block_at(1_000).is_empty());
    assert!(shard.blocks.is_empty());
    assert_eq!(shard.get_transaction_pool().len(), 4);
}

#[test]
fn round_at_the_present_time() {
    let mut shard = Shard::with_config(1, config(1, 3000, 100), validators(1, 2), 0);
    let committed = shard.process_transactions(vec![tx("tx1", 1, 1)]);
    assert_eq!(committed.len(), 1);
    assert_eq!(shard.blocks.len(), 1);
    assert!(shard.blocks[0].timestamp > 1_600_000_000);
    let forwarded = shard.process_cross_shard_transaction(tx("tx2", 2, 1));
    assert_eq!(forwarded.len(), 1);
    assert_eq!(shard.blocks.len(), 2);
    assert!(shard.check_and_create_block().is_empty());
}

#[test]
fn epoch_transition_on_count() {
    let mut shard = Shard::with_config(1, config(3, 3000, 3), validators(1, 2), 0);
    let committed = shard.process_transactions_at(batch(1, 3, 1), 40);
    assert_eq!(committed.len(), 3);
    assert_eq!(shard.epoch, 1);
    assert_eq!(shard.epoch_start_time, 40);
    assert!(shard.get_transaction_pool().is_empty());
    for validator in shard.get_validators().iter() {
        assert_eq!(validator.epochs_active, 2);
    }
    let checkpoint = shard.pending_checkpoint.as_ref().unwrap();
    assert_eq!(checkpoint.shard_id, 1);
    assert_eq!(checkpoint.block_height, 1);
    assert!(checkpoint.transaction_pool_snapshot.is_empty());
    assert_eq!(checkpoint.processed_transactions_snapshot.len(), 0);
    assert_eq!(shard.blocks.len(), 1);
    let again = shard.process_transactions_at(batch(1, 3, 1), 41);
    assert_eq!(again.len(), 3);
    assert_eq!(shard.epoch, 2);
}

#[test]
fn epoch_transition_on_time() {
    let mut shard = Shard::with_config(1, config(100, 3000, 100), validators(1, 2), 10);
    assert!(!shard.check_epoch_transition_at(3609));
    assert!(shard.check_epoch_transition_at(3610));
    assert!(!shard.check_epoch_transition_at(0));
    shard.process_transactions_at(batch(1, 2, 1), 20);
    assert_eq!(shard.epoch, 0);
    shard.check_and_create_block_at(3610);
    assert_eq!(shard.epoch, 1);
    assert!(shard.get_transaction_pool().is_empty());
    assert!(!shard.check_epoch_transition_at(3611));
    let fresh = Shard::new(1, 100, 3000, validators(1, 2));
    assert!(!fresh.check_epoch_transition());
    let old = Shard::with_config(1, config(100, 3000, 100), validators(1, 2), 10);
    assert!(old.check_epoch_transition());
}

#[test]
fn epoch_transition_ranks_the_validators() {
    let mut busy = Validator::new(3, 1, 900_000);
    busy.cast_vote(true, 0, true);
    let set = vec![Validator::new(1, 1, 500_000), Validator::new(2, 1, 900_000), busy];
    let mut shard = Shard::with_config(1, config(100, 3000, 100), set, 0);
    shard.transition_to_next_epoch_at(5);
    let order: Vec<usize> = shard.get_validators().iter().map(|v| v.id).collect();
    assert_eq!(order, vec![3, 2, 1]);
    assert_eq!(shard.epoch, 1);
    assert_eq!(shard.epoch_start_time, 5);
    assert!(shard.pending_checkpoint.is_some());
    shard.transition_to_next_epoch();
    assert_eq!(shard.epoch, 2);
    assert_eq!(shard.get_validators()[0].epochs_active, 3);
}

#[test]
fn pending_checkpoint_is_taken_once() {
    let mut shard = Shard::with_config(4, config(100, 3000, 100), validators(4, 2), 0);
    assert!(shard.drain_pending_checkpoint().is_none());
    shard.transition_to_next_epoch_at(5);
    let detail = shard.pending_checkpoint_detail().unwrap();
    assert_eq!(detail.shard_id, 4);
    assert_eq!(detail.block_height, 0);
    let checkpoint = shard.drain_pending_checkpoint().unwrap();
    assert_eq!(checkpoint.shard_id, 4);
    assert!(shard.drain_pending_checkpoint().is_none());
    assert!(shard.pending_checkpoint_detail().is_none());
}

#[test]
fn checkpoint_round_trip() {
    let mut source = Shard::with_config(1, config(100, 3000, 100), validators(1, 2), 0);
    source.process_transactions_at(batch(1, 3, 1), 0);
    let checkpoint = source.capture_checkpoint();
    assert_eq!(checkpoint.shard_id, 1);
    assert_eq!(checkpoint.block_height, 0);
    assert_eq!(checkpoint.transaction_pool_snapshot.len(), 3);
    assert_eq!(checkpoint.processed_transactions_snapshot.len(), 3);

    let mut receiver = Shard::with_config(2, config(1, 3000, 100), validators(2, 2), 0);
    receiver.process_transactions_at(vec![tx("other", 2, 2)], 0);
    assert_eq!(receiver.blocks.len(), 1);
    receiver.receive_checkpoint(checkpoint.duplicate());
    assert!(receiver.blocks.is_empty());
    assert_eq!(pool_ids(&receiver), pool_ids(&source));
    let taken = receiver.capture_checkpoint();
    assert_eq!(taken.shard_id, 2);
    assert_eq!(taken.ledger_snapshot.len(), 0);
    let mut ours = taken.processed_transactions_snapshot.to_vec();
    let mut theirs = checkpoint.processed_transactions_snapshot.to_vec();
    ours.sort();
    theirs.sort();
    assert_eq!(ours, theirs);
    let committed = receiver.process_transactions_at(vec![tx("tx1", 2, 2)], 1);
    let order: Vec<String> = committed.iter().map(|t| t.id.clone()).collect();
    assert_eq!(order, vec!["tx1".to_string(), "tx2".to_string(), "tx3".to_string()]);
    assert_eq!(receiver.blocks.len(), 1);
    assert_eq!(receiver.blocks[0].block_number, 1);
    assert_eq!(receiver.blocks[0].previous_hash, "0");
}

#[test]
fn checkpoint_carries_the_ledger() {
    let mut processed = IdSet::new();
    processed.insert("first".to_string());
    processed.insert("first".to_string());
    processed.insert("second".to_string());
    assert_eq!(processed.len(), 2);
    assert!(processed.contains("first"));
    assert!(!processed.contains("third"));
    let checkpoint = Checkpoint::new(
        9,
        4,
        vec![LedgerEntry { id: "acct".to_string(), amount: 12 }],
        vec![tx("w", 9, 9)],
        processed,
    );
    let mut shard = Shard::with_config(1, config(100, 3000, 100), validators(1, 2), 0);
    shard.receive_checkpoint(checkpoint);
    let snapshot = shard.capture_checkpoint();
    assert_eq!(snapshot.ledger_snapshot.len(), 1);
    assert_eq!(snapshot.ledger_snapshot[0].id, "acct");
    assert_eq!(snapshot.ledger_snapshot[0].amount, 12);
    assert_eq!(snapshot.processed_transactions_snapshot.len(), 2);
    assert_eq!(pool_ids(&shard), vec!["w".to_string()]);
    let mut cleared = snapshot.processed_transactions_snapshot.duplicate();
    cleared.clear();
    assert_eq!(cleared.len(), 0);
}

#[test]
fn pool_lookup_by_id() {
    let mut shard = Shard::with_config(1, config(100, 3000, 100), validators(1, 2), 0);
    shard.process_transactions_at(batch(1, 3, 1), 0);
    let found = shard.get_transaction_by_id("tx2").unwrap();
    assert_eq!(found.id, "tx2");
    assert_eq!(found.status, TransactionStatus::Processing);
    assert!(shard.get_transaction_by_id("tx9").is_none());
}

#[test]
fn completed_transactions_of_the_pool() {
    let mut done = tx("d", 1, 1);
    done.status = TransactionStatus::Completed;
    let checkpoint = Checkpoint::new(2, 0, Vec::new(), vec![tx("w", 1, 1), done], IdSet::new());
    let mut shard = Shard::with_config(1, config(100, 3000, 100), validators(1, 2), 0);
    shard.receive_checkpoint(checkpoint);
    let completed = shard.get_processed_transactions();
    assert_eq!(completed.len(), 1);
    assert_eq!(completed[0].id, "d");
}
