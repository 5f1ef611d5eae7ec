use sharded_ledger::block::{compute_block_hash, Block};
use sharded_ledger::poh::entry::PohEntry;
use sharded_ledger::poh::generator::PohGenerator;
use sharded_ledger::poh::performance::{contribution_factor_of, perturb, sort_by_id};
use sharded_ledger::validator::{Validator, ValidatorPerformance};

const E1: &str = "b04e54775cc6b1b87cf008d252368fb9a57126eb03f7769344a07f357095ed64";
const E2: &str = "3b0223fa78659a86a86dedc4fe893b949fb94552fd30888bdfc111316f021987";
const B1: &str = "524250a301ca06bcbbe39483e3b55ed50d498f6d2bb0facc05df60ea9f13ad48";

fn ids(names: &[&str]) -> Vec<String> {
    names.iter().map(|n| n.to_string()).collect()
}

#[test]
fn entry_hash_covers_ids_previous_hash_and_timestamp() {
    let entry = PohEntry::new_at(ids(&["tx1", "tx2"]), "0", 1700000000).unwrap();
    assert_eq!(entry.transactions, ids(&["tx1", "tx2"]));
    assert_eq!(entry.timestamp, 1700000000);
    assert_eq!(entry.readable_timestamp, "2023-11-14 22:13:20");
    assert_eq!(entry.hash, E1);
}

#[test]
fn entry_hash_with_negative_timestamp() {
    let entry = PohEntry::new_at(ids(&["a"]), "0", -5).unwrap();
    assert_eq!(entry.hash, "6e954b0830dcdc36754d7578c2e77310d7ce539b1431bf9e2d020b3124ecb6b0");
    assert_eq!(entry.readable_timestamp, "1969-12-31 23:59:55");
}

#[test]
fn entry_hash_of_ids_beyond_ascii() {
    let entry = PohEntry::new_at(ids(&["\u{e9}\u{20ac}"]), "0", 7).unwrap();
    assert_eq!(entry.hash, "e032a11b3afcf893c74c5d984059c089295516307960a905af644404df335130");
}

#[test]
fn readable_timestamp_of_known_instants() {
    assert_eq!(PohEntry::new_at(ids(&["a"]), "0", 0).unwrap().readable_timestamp, "1970-01-01 00:00:00");
    assert_eq!(
        PohEntry::new_at(ids(&["a"]), "0", 1431648000).unwrap().readable_timestamp,
        "2015-05-15 00:00:00"
    );
    assert_eq!(
        PohEntry::new_at(ids(&["a"]), "0", 253402300799).unwrap().readable_timestamp,
        "9999-12-31 23:59:59"
    );
}

#[test]
fn entry_needs_a_timestamp_within_the_calendar() {
    assert!(PohEntry::new_at(ids(&["a"]), "0", i64::MAX).is_none());
    assert!(PohEntry::new_at(ids(&["a"]), "0", i64::MIN).is_none());
}

#[test]
fn entry_hash_is_reproducible() {
    let a = PohEntry::new_at(ids(&["tx1", "tx2"]), "0", 1700000000).unwrap();
    let b = PohEntry::new_at(ids(&["tx1", "tx2"]), "0", 1700000000).unwrap();
    assert_eq!(a.hash, b.hash);
    let c = PohEntry::new_at(ids(&["tx1", "tx2"]), "1", 1700000000).unwrap();
    assert_ne!(a.hash, c.hash);
}

#[test]
fn entry_made_now_carries_its_own_timestamp() {
    let entry = PohEntry::new(ids(&["tx1"]), "0").unwrap();
    let again = PohEntry::new_at(ids(&["tx1"]), "0", entry.timestamp).unwrap();
    assert_eq!(entry.hash, again.hash);
    assert_eq!(entry.readable_timestamp, again.readable_timestamp);
    assert!(entry.timestamp > 1_600_000_000);
}

#[test]
fn entry_copy_is_equal() {
    let entry = PohEntry::new_at(ids(&["tx1", "tx2"]), "0", 1700000000).unwrap();
    let copy = entry.duplicate();
    assert_eq!(copy.transactions, entry.transactions);
    assert_eq!(copy.timestamp, entry.timestamp);
    assert_eq!(copy.readable_timestamp, entry.readable_timestamp);
    assert_eq!(copy.hash, entry.hash);
}

#[test]
fn empty_id_is_rejected() {
    assert_eq!(PohEntry::validate_transaction(""), Err("Transaction is empty"));
    assert_eq!(PohEntry::validate_transaction("tx1"), Ok(()));
    assert_eq!(PohEntry::validate_transaction(" "), Ok(()));
}

#[test]
fn generator_starts_at_zero() {
    let generator = PohGenerator::new(3);
    assert_eq!(generator.previous_hash, "0");
    assert_eq!(generator.batch_size, 3);
}

#[test]
fn generator_moves_to_the_entry_hash() {
    let mut generator = PohGenerator::new(100);
    let entry = generator.generate_entry_at(ids(&["tx1", "tx2"]), &Vec::new(), 1700000000).unwrap();
    assert_eq!(entry.hash, E1);
    assert_eq!(generator.previous_hash, E1);
    let next = generator.generate_entry_at(ids(&["tx3"]), &Vec::new(), 1700000000).unwrap();
    assert_eq!(next.hash, E2);
    assert_eq!(generator.previous_hash, E2);
}

#[test]
fn generator_ignores_performance_in_the_result() {
    let records = vec![
        ValidatorPerformance { id: 2, honesty_score: 900_000, response_time: 3 },
        ValidatorPerformance { id: 1, honesty_score: 450_000, response_time: 9 },
    ];
    let mut generator = PohGenerator::new(100);
    let entry = generator.generate_entry_at(ids(&["tx1", "tx2"]), &records, 1700000000).unwrap();
    assert_eq!(entry.hash, E1);
    assert_eq!(generator.previous_hash, E1);
}

#[test]
fn generator_rejects_an_empty_id_and_stays() {
    let mut generator = PohGenerator::new(100);
    let outcome = generator.generate_entry_at(ids(&["tx1", ""]), &Vec::new(), 1700000000);
    assert_eq!(outcome.err(), Some("Transaction is empty"));
    assert_eq!(generator.previous_hash, "0");
}

#[test]
fn generator_rejects_a_timestamp_outside_the_calendar() {
    let mut generator = PohGenerator::new(100);
    let outcome = generator.generate_entry_at(ids(&["tx1"]), &Vec::new(), i64::MAX);
    assert_eq!(outcome.err(), Some("Timestamp out of range"));
    assert_eq!(generator.previous_hash, "0");
    let both = generator.generate_entry_at(ids(&[""]), &Vec::new(), i64::MAX);
    assert_eq!(both.err(), Some("Transaction is empty"));
}

#[test]
fn generator_makes_one_entry_now() {
    let mut generator = PohGenerator::new(100);
    let entry = generator.generate_entry(ids(&["tx1"]), &Vec::new()).unwrap();
    assert_eq!(generator.previous_hash, entry.hash);
    assert!(generator.generate_entry(ids(&[""]), &Vec::new()).is_err());
}

#[test]
fn entries_are_chunked_and_chained() {
    let mut generator = PohGenerator::new(2);
    let entries = generator
        .generate_entries_at(ids(&["tx1", "tx2", "tx3"]), &Vec::new(), 1700000000)
        .unwrap();
    assert_eq!(entries.len(), 2);
    assert_eq!(entries[0].transactions, ids(&["tx1", "tx2"]));
    assert_eq!(entries[0].hash, E1);
    assert_eq!(entries[1].transactions, ids(&["tx3"]));
    assert_eq!(entries[1].hash, E2);
    assert_eq!(generator.previous_hash, E2);
}

#[test]
fn entries_of_exact_chunks() {
    let mut generator = PohGenerator::new(2);
    let entries = generator
        .generate_entries_at(ids(&["a", "b", "c", "d"]), &Vec::new(), 5)
        .unwrap();
    assert_eq!(entries.len(), 2);
    assert_eq!(entries[0].transactions.len(), 2);
    assert_eq!(entries[1].transactions.len(), 2);
    let mut single = PohGenerator::new(1);
    assert_eq!(single.generate_entries_at(ids(&["a", "b", "c"]), &Vec::new(), 5).unwrap().len(), 3);
}

#[test]
fn entries_need_transactions() {
    let mut generator = PohGenerator::new(2);
    let outcome = generator.generate_entries_at(Vec::new(), &Vec::new(), 1700000000);
    assert_eq!(outcome.err(), Some("No transactions provided"));
    assert_eq!(generator.previous_hash, "0");
}

#[test]
fn entries_stop_at_the_first_chunk_that_fails() {
    let mut generator = PohGenerator::new(2);
    let outcome =
        generator.generate_entries_at(ids(&["tx1", "tx2", "", "tx4"]), &Vec::new(), 1700000000);
    assert_eq!(outcome.err(), Some("Transaction is empty"));
    assert_eq!(generator.previous_hash, E1);
}

#[test]
fn entries_made_now_are_chained() {
    let mut generator = PohGenerator::new(1);
    let entries = generator.generate_entries(ids(&["a", "b"]), &Vec::new()).unwrap();
    assert_eq!(entries.len(), 2);
    assert_eq!(generator.previous_hash, entries[1].hash);
    assert!(generator.generate_entries(Vec::new(), &Vec::new()).is_err());
    assert_eq!(
        generator.generate_entries(Vec::new(), &Vec::new()).err(),
        Some("No transactions provided")
    );
    assert_eq!(generator.previous_hash, entries[1].hash);
}

#[test]
fn contribution_factor_is_honesty_over_response_time() {
    let record = ValidatorPerformance { id: 1, honesty_score: 450_000, response_time: 9 };
    assert_eq!(contribution_factor_of(&record), 45_000);
    let instant = ValidatorPerformance { id: 1, honesty_score: 900_000, response_time: 0 };
    assert_eq!(contribution_factor_of(&instant), 900_000);
    let slow = ValidatorPerformance { id: 1, honesty_score: 900_000, response_time: 2_000_000 };
    assert_eq!(contribution_factor_of(&slow), 0);
    let third = ValidatorPerformance { id: 1, honesty_score: 1_000_000, response_time: 2 };
    assert_eq!(contribution_factor_of(&third), 333_333);
}

#[test]
fn performance_is_taken_by_ascending_id() {
    let records = vec![
        ValidatorPerformance { id: 3, honesty_score: 1, response_time: 0 },
        ValidatorPerformance { id: 1, honesty_score: 2, response_time: 0 },
        ValidatorPerformance { id: 2, honesty_score: 3, response_time: 0 },
        ValidatorPerformance { id: 1, honesty_score: 4, response_time: 0 },
    ];
    let sorted = sort_by_id(&records);
    let order: Vec<(usize, u64)> = sorted.iter().map(|r| (r.id, r.honesty_score)).collect();
    assert_eq!(order, vec![(1, 2), (1, 4), (2, 3), (3, 1)]);
}

#[test]
fn performance_marks_the_hash() {
    let records = vec![
        ValidatorPerformance { id: 2, honesty_score: 900_000, response_time: 3 },
        ValidatorPerformance { id: 1, honesty_score: 450_000, response_time: 9 },
    ];
    assert_eq!(perturb("0", &records), "0:45000:225000");
    assert_eq!(perturb("abc", &Vec::new()), "abc");
}

#[test]
fn performance_record_of_a_validator() {
    let mut validator = Validator::new(7, 2, 900_000);
    validator.cast_vote(true, 9, true);
    let record = ValidatorPerformance::from_validator(&validator);
    assert_eq!(record.id, 7);
    assert_eq!(record.response_time, 9);
    assert_eq!(record.honesty_score, validator.get_final_vote_weight(1));
}

#[test]
fn block_hash_covers_number_entries_and_previous_hash() {
    let mut generator = PohGenerator::new(2);
    let entries = generator
        .generate_entries_at(ids(&["tx1", "tx2", "tx3"]), &Vec::new(), 1700000000)
        .unwrap();
    let block = Block::new_at(1, entries, "0", 1700000001);
    assert_eq!(block.block_number, 1);
    assert_eq!(block.previous_hash, "0");
    assert_eq!(block.block_hash, B1);
    assert_eq!(block.timestamp, 1700000001);
    assert_eq!(block.poh_entries.len(), 2);
    assert_eq!(block.transaction_count(), 3);
}

#[test]
fn block_hash_recomputation_yields_the_same_text() {
    let entry = PohEntry::new_at(ids(&["tx1", "tx2"]), "0", 1700000000).unwrap();
    let block = Block::new_at(2, vec![entry], B1, 9);
    assert_eq!(block.block_hash, "d8e41aceca817f9dac95c8c9311261fd42e4c945a07dc64ed41674fdf2c09526");
    assert_eq!(block.recompute_hash(), block.block_hash);
    assert_eq!(
        compute_block_hash(block.block_number, &block.poh_entries, &block.previous_hash),
        block.block_hash
    );
}

#[test]
fn block_hash_does_not_cover_the_timestamp() {
    let a = Block::new_at(1, vec![PohEntry::new_at(ids(&["tx1"]), "0", 5).unwrap()], "0", 100);
    let b = Block::new_at(1, vec![PohEntry::new_at(ids(&["tx1"]), "0", 5).unwrap()], "0", 200);
    assert_eq!(a.block_hash, b.block_hash);
    let c = Block::new_at(2, vec![PohEntry::new_at(ids(&["tx1"]), "0", 5).unwrap()], "0", 100);
    assert_ne!(a.block_hash, c.block_hash);
}

#[test]
fn block_made_now_is_sealed() {
    let block = Block::new(1, vec![PohEntry::new_at(ids(&["tx1"]), "0", 5).unwrap()], "0");
    assert_eq!(block.recompute_hash(), block.block_hash);
    assert!(block.timestamp > 1_600_000_000);
}

#[test]
fn block_copy_is_equal() {
    let block = Block::new_at(1, vec![PohEntry::new_at(ids(&["tx1"]), "0", 5).unwrap()], "0", 6);
    let copy = block.duplicate();
    assert_eq!(copy.block_number, block.block_number);
    assert_eq!(copy.block_hash, block.block_hash);
    assert_eq!(copy.previous_hash, block.previous_hash);
    assert_eq!(copy.timestamp, block.timestamp);
    assert_eq!(copy.poh_entries.len(), 1);
    assert_eq!(copy.poh_entries[0].hash, block.poh_entries[0].hash);
}
