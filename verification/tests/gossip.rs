use sharded_ledger::driver::{distribute_transactions_at, hash_to_shard, shard_for_hash, submit, submit_at};
use sharded_ledger::network::gossip_protocol::GossipProtocol;
use sharded_ledger::shard::Shard;
use sharded_ledger::shard_model::ShardConfig;
use sharded_ledger::stats::{block_stats, checkpoint_detail, network_totals, shard_stats};
use sharded_ledger::transaction::{Transaction, TransactionStatus};
use sharded_ledger::validator::Validator;

fn tx(id: &str, from_shard: usize, to_shard: usize) -> Transaction {
    Transaction {
        id: id.to_string(),
        amount: 1,
        from_shard,
        to_shard,
        status: TransactionStatus::Pending,
    }
}

fn network(count: usize, min: usize) -> Vec<Shard> {
    (1..=count)
        .map(|id| {
            Shard::with_config(
                id,
                ShardConfig {
                    batch_size: 100,
                    min_transactions_per_block: min,
                    max_transactions_per_block: 3000,
                    block_time_threshold_seconds: 15,
                    epoch_threshold: 1000,
                    epoch_max_duration_seconds: 3600,
                },
                vec![Validator::new(1, id, 900_000), Validator::new(2, id, 900_000)],
                0,
            )
        })
        .collect()
}

fn pool_ids(shard: &Shard) -> Vec<String> {
    shard.get_transaction_pool().iter().map(|t| t.id.clone()).collect()
}

#[test]
fn new_gossip_knows_no_shard() {
    assert!(GossipProtocol::new().known_shards.is_empty());
}

#[test]
fn cross_shard_forwarding() {
    let mut shards = network(2, 100);
    shards[0].add_pending_cross_shard_tx(tx("tx1", 1, 2));
    let mut gossip = GossipProtocol::new();
    let committed = gossip.gossip_at(&mut shards, 5);
    assert!(committed.is_empty());
    assert_eq!(shards[0].get_pending_cross_shard_txs_len(), 0);
    assert!(shards[0].get_transaction_pool().is_empty());
    let pool = shards[1].get_transaction_pool();
    assert_eq!(pool.len(), 1);
    assert_eq!(pool[0].id, "tx1");
    assert_eq!(pool[0].status, TransactionStatus::Processing);
    assert_eq!(pool[0].from_shard, 1);
}

#[test]
fn cross_shard_transaction_submitted_twice_is_included_once() {
    let mut shards = network(2, 1);
    shards[0].add_pending_cross_shard_tx(tx("tx1", 1, 2));
    shards[0].add_pending_cross_shard_tx(tx("tx1", 1, 2));
    let mut gossip = GossipProtocol::new();
    let committed = gossip.gossip_at(&mut shards, 5);
    assert_eq!(committed.len(), 1);
    assert_eq!(committed[0].id, "tx1");
    assert_eq!(committed[0].status, TransactionStatus::Completed);
    assert_eq!(shards[1].blocks.len(), 1);
    assert_eq!(shards[1].get_processed_transaction_count(), 1);
    shards[0].add_pending_cross_shard_tx(tx("tx1", 1, 2));
    assert!(gossip.gossip_at(&mut shards, 6).is_empty());
    assert_eq!(shards[1].blocks.len(), 1);
    assert!(shards[0].blocks.is_empty());
}

#[test]
fn gossip_collects_in_shard_order() {
    let mut shards = network(3, 100);
    shards[2].add_pending_cross_shard_tx(tx("c", 3, 1));
    shards[1].add_pending_cross_shard_tx(tx("b1", 2, 1));
    shards[1].add_pending_cross_shard_tx(tx("b2", 2, 3));
    shards[0].add_pending_cross_shard_tx(tx("a", 1, 3));
    let mut gossip = GossipProtocol::new();
    gossip.gossip_at(&mut shards, 5);
    assert_eq!(pool_ids(&shards[0]), vec!["b1".to_string(), "c".to_string()]);
    assert!(pool_ids(&shards[1]).is_empty());
    assert_eq!(pool_ids(&shards[2]), vec!["a".to_string(), "b2".to_string()]);
    for shard in shards.iter() {
        assert_eq!(shard.get_pending_cross_shard_txs_len(), 0);
    }
}

#[test]
fn transaction_bound_for_no_shard_is_dropped() {
    let mut shards = network(2, 100);
    shards[0].add_pending_cross_shard_tx(tx("lost", 1, 9));
    let mut gossip = GossipProtocol::new();
    assert!(gossip.gossip_at(&mut shards, 5).is_empty());
    assert_eq!(shards[0].get_pending_cross_shard_txs_len(), 0);
    assert!(shards[0].get_transaction_pool().is_empty());
    assert!(shards[1].get_transaction_pool().is_empty());
    let mut none: Vec<Shard> = Vec::new();
    assert!(gossip.gossip_at(&mut none, 5).is_empty());
}

#[test]
fn gossip_at_the_present_time() {
    let mut shards = network(2, 1);
    shards[0].add_pending_cross_shard_tx(tx("tx1", 1, 2));
    shards[1].add_pending_cross_shard_tx(tx("tx2", 2, 1));
    let mut gossip = GossipProtocol::new();
    assert_eq!(gossip.gossip(&mut shards).len(), 2);
    shards[0].add_pending_cross_shard_tx(tx("tx3", 1, 2));
    let committed = gossip.periodic_gossip(&mut shards);
    assert_eq!(committed.len(), 1);
    assert_eq!(shards[1].blocks.len(), 2);
    assert!(shards[1].blocks[1].timestamp > 1_600_000_000);
}

#[test]
fn checkpoint_reaches_every_other_shard() {
    let mut shards = network(3, 1);
    submit_at(&mut shards, tx("b", 2, 2), 1);
    submit_at(&mut shards, tx("c", 3, 3), 1);
    assert_eq!(shards[1].blocks.len(), 1);
    shards[0] = Shard::with_config(
        1,
        ShardConfig {
            batch_size: 100,
            min_transactions_per_block: 100,
            max_transactions_per_block: 3000,
            block_time_threshold_seconds: 15,
            epoch_threshold: 1000,
            epoch_max_duration_seconds: 3600,
        },
        Vec::new(),
        0,
    );
    submit_at(&mut shards, tx("a", 1, 1), 1);
    let checkpoint = shards[0].capture_checkpoint();
    let mut gossip = GossipProtocol::new();
    gossip.gossip_checkpoints(&checkpoint, &mut shards);
    assert_eq!(pool_ids(&shards[0]), vec!["a".to_string()]);
    assert_eq!(pool_ids(&shards[1]), vec!["a".to_string()]);
    assert_eq!(pool_ids(&shards[2]), vec!["a".to_string()]);
    assert!(shards[1].blocks.is_empty());
    assert!(shards[2].blocks.is_empty());
    assert_eq!(shards[1].shard_id(), 2);
}

#[test]
fn pending_checkpoints_are_disseminated() {
    let mut shards = network(3, 1);
    submit_at(&mut shards, tx("b", 2, 2), 1);
    submit_at(&mut shards, tx("c", 3, 3), 1);
    shards[0].transition_to_next_epoch_at(7);
    let mut gossip = GossipProtocol::new();
    assert_eq!(gossip.disseminate_checkpoints(&mut shards), 1);
    assert!(shards[0].pending_checkpoint.is_none());
    assert!(shards[1].blocks.is_empty());
    assert!(shards[2].blocks.is_empty());
    assert_eq!(shards[0].epoch, 1);
    assert_eq!(shards[1].epoch, 0);
    assert_eq!(gossip.disseminate_checkpoints(&mut shards), 0);
}

#[test]
fn hash_falls_to_a_shard() {
    assert_eq!(shard_for_hash(0, 5), 1);
    assert_eq!(shard_for_hash(4, 5), 5);
    assert_eq!(shard_for_hash(5, 5), 1);
    assert_eq!(shard_for_hash(12, 5), 3);
    assert_eq!(shard_for_hash(u64::MAX, 1), 1);
}

#[test]
fn id_is_bound_for_a_shard_within_the_network() {
    for i in 0..50 {
        let shard = hash_to_shard(&format!("tx{}", i), 5);
        assert!(1 <= shard && shard <= 5);
        assert_eq!(shard, hash_to_shard(&format!("tx{}", i), 5));
    }
    assert_eq!(hash_to_shard("anything", 1), 1);
}

#[test]
fn submission_routes_by_source_and_destination() {
    let mut shards = network(2, 100);
    assert!(submit_at(&mut shards, tx("local", 1, 1), 0).is_empty());
    assert!(submit_at(&mut shards, tx("away", 1, 2), 0).is_empty());
    assert_eq!(pool_ids(&shards[0]), vec!["local".to_string()]);
    assert_eq!(shards[0].get_pending_cross_shard_txs_len(), 1);
    assert!(shards[1].get_transaction_pool().is_empty());
    let mut fresh = vec![Shard::new(1, 100, 3000, vec![Validator::new(1, 1, 900_000)])];
    assert!(submit(&mut fresh, tx("later", 1, 1)).is_empty());
    assert_eq!(pool_ids(&fresh[0]), vec!["later".to_string()]);
    assert!(submit(&mut fresh, tx("away", 1, 2)).is_empty());
    assert_eq!(fresh[0].get_pending_cross_shard_txs_len(), 1);
}

#[test]
fn transactions_are_dealt_out_in_turn() {
    let mut shards = network(2, 100);
    let txs = vec![tx("a", 1, 1), tx("b", 2, 2), tx("c", 1, 1), tx("d", 1, 1), tx("e", 1, 1)];
    assert!(distribute_transactions_at(&mut shards, txs, 0).is_empty());
    assert_eq!(pool_ids(&shards[0]), vec!["a".to_string(), "c".to_string(), "e".to_string()]);
    assert_eq!(pool_ids(&shards[1]), vec!["b".to_string()]);
    let mut none: Vec<Shard> = Vec::new();
    assert!(distribute_transactions_at(&mut none, vec![tx("a", 1, 1)], 0).is_empty());
}

#[test]
fn snapshots_for_an_observer() {
    let mut shards = network(2, 2);
    submit_at(&mut shards, tx("a", 1, 1), 3);
    submit_at(&mut shards, tx("b", 1, 1), 4);
    submit_at(&mut shards, tx("c", 2, 2), 5);
    submit_at(&mut shards, tx("d", 2, 1), 5);
    shards[1].transition_to_next_epoch_at(9);

    let block = block_stats(&shards[0].blocks[0]);
    assert_eq!(block.block_number, 1);
    assert_eq!(block.previous_hash, "0");
    assert_eq!(block.block_hash, shards[0].blocks[0].block_hash);
    assert_eq!(block.tx_count, 2);
    assert_eq!(block.timestamp, 4);

    let first = shard_stats(&shards[0]);
    assert_eq!(first.id, 1);
    assert_eq!(first.block_count, 1);
    assert_eq!(first.transaction_pool_size, 0);
    assert_eq!(first.processed_tx_count, 2);
    assert_eq!(first.validators.len(), 2);
    assert!(first.checkpoint.is_none());

    let second = shard_stats(&shards[1]);
    assert_eq!(second.block_count, 0);
    let detail = second.checkpoint.unwrap();
    assert_eq!(detail.shard_id, 2);
    assert_eq!(detail.block_height, 0);
    assert_eq!(detail.transaction_pool_size, 0);
    assert_eq!(detail.processed_transaction_count, 0);
    assert_eq!(detail, checkpoint_detail(shards[1].pending_checkpoint.as_ref().unwrap()));

    let totals = network_totals(&shards);
    assert_eq!(totals.num_shards, 2);
    assert_eq!(totals.total_blocks, 1);
    assert_eq!(totals.total_transactions, 2);
    assert_eq!(totals.transaction_pool_size, 0);
    assert_eq!(totals.total_cross_shard_transactions, 1);
}
