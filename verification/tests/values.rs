use sharded_ledger::checkpoint::Checkpoint;
use sharded_ledger::clock::has_elapsed;
use sharded_ledger::id_set::IdSet;
use sharded_ledger::ledger::{duplicate_ledger, LedgerEntry};
use sharded_ledger::transaction::{duplicate_transactions, Transaction, TransactionStatus};

fn tx(id: &str) -> Transaction {
    Transaction {
        id: id.to_string(),
        amount: 42,
        from_shard: 1,
        to_shard: 2,
        status: TransactionStatus::Failed,
    }
}

#[test]
fn elapsed_time_reaches_a_threshold() {
    assert!(has_elapsed(115, 100, 15));
    assert!(!has_elapsed(114, 100, 15));
    assert!(has_elapsed(100, 100, 0));
    assert!(!has_elapsed(100, 100, 1));
}

#[test]
fn clock_that_went_backwards_counts_as_no_time() {
    assert!(!has_elapsed(50, 100, 1));
    assert!(has_elapsed(50, 100, 0));
    assert!(!has_elapsed(i64::MIN, i64::MAX, 1));
}

#[test]
fn elapsed_time_across_the_whole_range() {
    assert!(has_elapsed(i64::MAX, i64::MIN, u64::MAX));
    assert!(!has_elapsed(i64::MAX, i64::MIN + 1, u64::MAX));
    assert!(has_elapsed(i64::MAX, 0, i64::MAX as u64));
}

#[test]
fn transaction_copy_is_equal() {
    let original = tx("tx1");
    let copy = original.duplicate();
    assert_eq!(copy.id, "tx1");
    assert_eq!(copy.amount, 42);
    assert_eq!(copy.from_shard, 1);
    assert_eq!(copy.to_shard, 2);
    assert_eq!(copy.status, TransactionStatus::Failed);
}

#[test]
fn transaction_list_copy_is_equal() {
    let list = vec![tx("a"), tx("b"), tx("c")];
    let copy = duplicate_transactions(&list);
    let ids: Vec<String> = copy.iter().map(|t| t.id.clone()).collect();
    assert_eq!(ids, vec!["a".to_string(), "b".to_string(), "c".to_string()]);
    assert!(duplicate_transactions(&Vec::new()).is_empty());
}

#[test]
fn ledger_copy_is_equal() {
    let ledger = vec![
        LedgerEntry { id: "x".to_string(), amount: 1 },
        LedgerEntry { id: "y".to_string(), amount: u64::MAX },
    ];
    let copy = duplicate_ledger(&ledger);
    assert_eq!(copy.len(), 2);
    assert_eq!(copy[0].id, "x");
    assert_eq!(copy[0].amount, 1);
    assert_eq!(copy[1].id, "y");
    assert_eq!(copy[1].amount, u64::MAX);
}

#[test]
fn id_set_holds_each_id_once() {
    let mut set = IdSet::new();
    assert_eq!(set.len(), 0);
    assert!(!set.contains("a"));
    set.insert("a".to_string());
    set.insert("b".to_string());
    set.insert("a".to_string());
    assert_eq!(set.len(), 2);
    assert!(set.contains("a"));
    assert!(set.contains("b"));
    assert!(!set.contains(""));
    assert_eq!(set.to_vec(), vec!["a".to_string(), "b".to_string()]);
}

#[test]
fn id_set_copy_and_clear() {
    let mut set = IdSet::new();
    set.insert("a".to_string());
    let copy = set.duplicate();
    set.clear();
    assert_eq!(set.len(), 0);
    assert!(!set.contains("a"));
    assert_eq!(copy.len(), 1);
    assert!(copy.contains("a"));
}

#[test]
fn checkpoint_copy_is_equal() {
    let mut processed = IdSet::new();
    processed.insert("tx1".to_string());
    let checkpoint = Checkpoint::new(
        3,
        8,
        vec![LedgerEntry { id: "x".to_string(), amount: 5 }],
        vec![tx("tx1")],
        processed,
    );
    let copy = checkpoint.duplicate();
    assert_eq!(copy.shard_id, 3);
    assert_eq!(copy.block_height, 8);
    assert_eq!(copy.ledger_snapshot.len(), 1);
    assert_eq!(copy.ledger_snapshot[0].amount, 5);
    assert_eq!(copy.transaction_pool_snapshot.len(), 1);
    assert_eq!(copy.transaction_pool_snapshot[0].id, "tx1");
    assert!(copy.processed_transactions_snapshot.contains("tx1"));
    assert_eq!(copy.processed_transactions_snapshot.len(), 1);
}
