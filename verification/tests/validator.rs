use sharded_ledger::consensus::tally;
use sharded_ledger::ranking::rank_validators;
use sharded_ledger::validator::{Validator, MIN_VOTE_WEIGHT, WEIGHT_ONE};

#[test]
fn new_validator_has_a_clean_record() {
    let validator = Validator::new(3, 2, 900_000);
    assert_eq!(validator.id, 3);
    assert_eq!(validator.shard_id, 2);
    assert_eq!(validator.votes_cast, 0);
    assert_eq!(validator.successful_votes, 0);
    assert_eq!(validator.average_response_time_ms, 0);
    assert_eq!(validator.participation_count, 0);
    assert_eq!(validator.consensus_contribution_count, 0);
    assert_eq!(validator.epochs_active, 1);
    assert!(!validator.penalized);
    assert_eq!(validator.final_vote_weight, 900_000);
}

#[test]
fn weight_of_an_unused_validator() {
    let validator = Validator::new(1, 1, 900_000);
    assert_eq!(validator.get_final_vote_weight(0), 900_000);
    assert_eq!(validator.get_final_vote_weight(1), 450_000);
    assert_eq!(validator.get_final_vote_weight(7), 450_000);
}

#[test]
fn weight_is_never_below_three_tenths() {
    let low = Validator::new(1, 1, 300_000);
    assert_eq!(low.get_final_vote_weight(0), 300_000);
    assert_eq!(low.get_final_vote_weight(1), MIN_VOTE_WEIGHT);
    let zero = Validator::new(1, 1, 0);
    assert_eq!(zero.get_final_vote_weight(0), MIN_VOTE_WEIGHT);
    let mut slow = Validator::new(1, 1, 900_000);
    slow.cast_vote(true, u128::MAX, true);
    assert_eq!(slow.get_final_vote_weight(1), MIN_VOTE_WEIGHT);
}

#[test]
fn weight_is_the_product_of_the_scores() {
    let mut validator = Validator::new(1, 1, 9_000_000);
    assert_eq!(validator.get_final_vote_weight(0), 9_000_000);
    validator.cast_vote(true, 1, true);
    assert_eq!(validator.get_final_vote_weight(0), 4_500_000);
    validator.cast_vote(false, 4, false);
    assert_eq!(validator.votes_cast, 2);
    assert_eq!(validator.successful_votes, 1);
    assert_eq!(validator.average_response_time_ms, 2);
    assert_eq!(validator.participation_count, 2);
    assert_eq!(validator.consensus_contribution_count, 1);
    assert_eq!(validator.get_final_vote_weight(4), 374_999);
    validator.penalized = true;
    assert_eq!(validator.get_final_vote_weight(4), MIN_VOTE_WEIGHT);
}

#[test]
fn penalty_halves_the_weight() {
    let mut validator = Validator::new(1, 1, 900_000);
    validator.penalized = true;
    assert_eq!(validator.get_final_vote_weight(0), 450_000);
}

#[test]
fn participation_beyond_one_round_per_epoch_counts_as_full() {
    let mut validator = Validator::new(1, 1, 900_000);
    validator.cast_vote(true, 0, true);
    validator.cast_vote(true, 0, true);
    validator.cast_vote(true, 0, true);
    assert_eq!(validator.get_final_vote_weight(2), 900_000);
    assert_eq!(validator.get_final_vote_weight(6), 450_000);
}

#[test]
fn weight_does_not_rise_with_the_response_time() {
    let mut previous = u64::MAX;
    for response_time in [0u128, 1, 2, 3, 10, 100, 999_999, 1_000_000, u128::MAX] {
        let mut validator = Validator::new(1, 1, 50_000_000);
        validator.average_response_time_ms = response_time;
        let weight = validator.get_final_vote_weight(0);
        assert!(weight <= previous);
        assert!(weight >= MIN_VOTE_WEIGHT);
        previous = weight;
    }
    assert_eq!(previous, MIN_VOTE_WEIGHT);
}

#[test]
fn running_mean_of_response_times() {
    let mut validator = Validator::new(1, 1, 900_000);
    validator.cast_vote(true, 10, true);
    assert_eq!(validator.average_response_time_ms, 10);
    validator.cast_vote(true, 10, true);
    assert_eq!(validator.average_response_time_ms, 10);
    validator.cast_vote(true, 1, true);
    assert_eq!(validator.average_response_time_ms, 7);
    validator.cast_vote(true, 30, true);
    assert_eq!(validator.average_response_time_ms, 12);
    let mut other = Validator::new(1, 1, 900_000);
    other.average_response_time_ms = 10;
    other.votes_cast = 2;
    other.participation_count = 2;
    other.cast_vote(false, 2, false);
    assert_eq!(other.average_response_time_ms, 7);
}

#[test]
fn running_mean_of_extreme_response_times() {
    let mut validator = Validator::new(1, 1, 900_000);
    validator.cast_vote(true, u128::MAX, true);
    assert_eq!(validator.average_response_time_ms, u128::MAX);
    validator.cast_vote(true, u128::MAX, true);
    assert_eq!(validator.average_response_time_ms, u128::MAX);
    validator.cast_vote(true, 0, true);
    assert_eq!(validator.average_response_time_ms, u128::MAX / 3 * 2);
}

#[test]
fn adjusted_weight_stays_within_bounds() {
    let mut validator = Validator::new(1, 1, 900_000);
    validator.adjust_weight(500_000);
    assert_eq!(validator.final_vote_weight, 450_000);
    validator.adjust_weight(3_000_000);
    assert_eq!(validator.final_vote_weight, WEIGHT_ONE);
    validator.adjust_weight(100_000);
    assert_eq!(validator.final_vote_weight, MIN_VOTE_WEIGHT);
    validator.adjust_weight(u64::MAX);
    assert_eq!(validator.final_vote_weight, WEIGHT_ONE);
    validator.adjust_weight(0);
    assert_eq!(validator.final_vote_weight, MIN_VOTE_WEIGHT);
}

#[test]
fn transaction_validation_thresholds() {
    let strong = Validator::new(1, 1, 900_000);
    assert!(strong.validate_transaction("tx1", 0));
    assert!(strong.validate_transaction("tx1", 4));
    assert!(!strong.validate_transaction("tx1", 5));
    let weak = Validator::new(1, 1, 300_000);
    assert!(!weak.validate_transaction("tx1", 0));
    let mut busy = Validator::new(1, 1, 900_000);
    for _ in 0..5 {
        busy.cast_vote(true, 0, true);
    }
    assert!(busy.validate_transaction("tx1", 5));
}

#[test]
fn tally_of_votes() {
    let validators = vec![Validator::new(1, 1, 900_000), Validator::new(2, 1, 900_000)];
    assert_eq!(tally(&validators, 0), (1_800_000, 1_800_000, true));
    assert_eq!(tally(&validators, 1), (900_000, 900_000, true));
    assert_eq!(tally(&Vec::new(), 0), (0, 0, false));
}

#[test]
fn tally_accepts_with_a_weak_and_a_penalized_validator() {
    let mut penalized = Validator::new(2, 1, 900_000);
    penalized.penalized = true;
    penalized.average_response_time_ms = 10;
    let validators = vec![Validator::new(1, 1, 300_000), penalized];
    assert_eq!(tally(&validators, 0), (600_000, 600_000, true));
}

#[test]
fn tally_of_great_weights() {
    let validators = vec![Validator::new(1, 1, u64::MAX), Validator::new(2, 1, u64::MAX)];
    let (total, positive, accepted) = tally(&validators, 0);
    assert_eq!(total, 2 * (u64::MAX as u128));
    assert_eq!(positive, total);
    assert!(accepted);
}

#[test]
fn ranking_is_by_weight_and_stable() {
    let validators = vec![
        Validator::new(1, 1, 300_000),
        Validator::new(2, 1, 900_000),
        Validator::new(3, 1, 500_000),
        Validator::new(4, 1, 900_000),
    ];
    let ranked = rank_validators(&validators, 0);
    let order: Vec<usize> = ranked.iter().map(|v| v.id).collect();
    assert_eq!(order, vec![2, 4, 3, 1]);
    let tied = rank_validators(&validators, 1);
    let tied_order: Vec<usize> = tied.iter().map(|v| v.id).collect();
    assert_eq!(tied_order, vec![2, 4, 1, 3]);
    assert!(rank_validators(&Vec::new(), 0).is_empty());
}
