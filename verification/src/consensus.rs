//! The weighted vote by which a shard's validators accept or reject a block.
//!
//! Every validator votes with its weight for the epoch. A vote counts as
//! positive where the weight exceeds 0.2, and the block is accepted where
//! the positive weight exceeds three tenths of the total weight.

use vstd::prelude::*;
use vstd::arithmetic::div_mod::{lemma_fundamental_div_mod, lemma_fundamental_div_mod_converse};
use crate::validator::{Validator, MIN_VOTE_WEIGHT};

verus! {

/// The weight a vote must exceed to count as positive: 0.2.
pub const POSITIVE_VOTE_THRESHOLD: u64 = 200_000;

/// The sum of the validators' vote weights in `epoch`.
pub open spec fn total_weight(validators: Seq<Validator>, epoch: usize) -> int
    decreases validators.len(),
{
    if validators.len() == 0 {
        0
    } else {
        total_weight(validators.drop_last(), epoch) + validators.last().vote_weight(epoch)
    }
}

/// The sum of the vote weights that exceed the positive threshold.
pub open spec fn positive_weight(validators: Seq<Validator>, epoch: usize) -> int
    decreases validators.len(),
{
    if validators.len() == 0 {
        0
    } else {
        positive_weight(validators.drop_last(), epoch) + if validators.last().vote_weight(epoch)
            > POSITIVE_VOTE_THRESHOLD {
            validators.last().vote_weight(epoch)
        } else {
            0
        }
    }
}

/// Whether the positive weight exceeds three tenths of the total weight.
pub open spec fn accepts(validators: Seq<Validator>, epoch: usize) -> bool {
    10 * positive_weight(validators, epoch) > 3 * total_weight(validators, epoch)
}

/// The weights are bounded by the number of validators.
pub proof fn lemma_weights_bounded(validators: Seq<Validator>, epoch: usize)
    ensures
        0 <= positive_weight(validators, epoch) <= total_weight(validators, epoch),
        total_weight(validators, epoch) <= validators.len() * u64::MAX,
        total_weight(validators, epoch) >= validators.len() * MIN_VOTE_WEIGHT,
    decreases validators.len(),
{
    if validators.len() > 0 {
        lemma_weights_bounded(validators.drop_last(), epoch);
        let v = validators.last();
        crate::validator::lemma_scores_bounded(v, epoch);
        lemma_vote_weight_fits(v, epoch);
        assert((validators.len() - 1) * u64::MAX + u64::MAX == validators.len() * u64::MAX)
            by (nonlinear_arith);
        assert((validators.len() - 1) * MIN_VOTE_WEIGHT + MIN_VOTE_WEIGHT == validators.len()
            * MIN_VOTE_WEIGHT) by (nonlinear_arith);
    }
}

/// A vote weight is no greater than the larger of 0.3 and the base weight.
pub proof fn lemma_vote_weight_fits(validator: Validator, epoch: usize)
    ensures
        MIN_VOTE_WEIGHT <= validator.vote_weight(epoch) <= u64::MAX,
        validator.vote_weight(epoch) <= validator.final_vote_weight
            || validator.vote_weight(epoch) == MIN_VOTE_WEIGHT,
{
    crate::validator::lemma_scores_bounded(validator, epoch);
    let w0 = validator.final_vote_weight as int;
    crate::validator::lemma_scale_bounded(w0, validator.honesty_score());
    let w1 = crate::validator::scale(w0, validator.honesty_score());
    crate::validator::lemma_scale_bounded(w1, validator.time_weight());
    let w2 = crate::validator::scale(w1, validator.time_weight());
    crate::validator::lemma_scale_bounded(w2, validator.participation_score(epoch));
    let w3 = crate::validator::scale(w2, validator.participation_score(epoch));
    crate::validator::lemma_scale_bounded(w3, validator.consensus_score());
    let w4 = crate::validator::scale(w3, validator.consensus_score());
    crate::validator::lemma_scale_bounded(w4, validator.integrity_penalty());
}

/// Every vote is positive: the positive weight is the total weight.
pub proof fn lemma_every_vote_is_positive(validators: Seq<Validator>, epoch: usize)
    ensures
        positive_weight(validators, epoch) == total_weight(validators, epoch),
    decreases validators.len(),
{
    if validators.len() > 0 {
        lemma_every_vote_is_positive(validators.drop_last(), epoch);
    }
}

/// A block is accepted exactly where the shard has a validator.
pub proof fn lemma_accepts_iff_some_validator(validators: Seq<Validator>, epoch: usize)
    ensures
        accepts(validators, epoch) <==> validators.len() > 0,
{
    lemma_every_vote_is_positive(validators, epoch);
    lemma_weights_bounded(validators, epoch);
    if validators.len() > 0 {
        assert(validators.len() * MIN_VOTE_WEIGHT > 0) by (nonlinear_arith)
            requires
                validators.len() > 0,
        ;
    }
}

/// Three tenths of `total`, rounded down, computed without overflow.
fn three_tenths(total: u128) -> (part: u128)
    ensures
        part == (3 * total) / 10,
{
    let tens: u128 = total / 10;
    let units: u128 = total % 10;
    proof {
        lemma_fundamental_div_mod(total as int, 10);
        lemma_fundamental_div_mod(3 * units, 10);
        lemma_fundamental_div_mod_converse(
            3 * total,
            10,
            3 * tens + (3 * units) / 10,
            (3 * units) % 10,
        );
    }
    3 * tens + (3 * units) / 10
}

/// Takes the vote of `validators` in `epoch`: the total weight, the
/// positive weight, and whether a block is accepted.
pub fn tally(validators: &Vec<Validator>, epoch: usize) -> (outcome: (u128, u128, bool))
    ensures
        outcome.0 == total_weight(validators@, epoch),
        outcome.1 == positive_weight(validators@, epoch),
        outcome.2 == accepts(validators@, epoch),
{
    let mut total: u128 = 0;
    let mut positive: u128 = 0;
    let mut i: usize = 0;
    assert(validators@.take(0) =~= Seq::<Validator>::empty());
    while i < validators.len()
        invariant
            i <= validators.len(),
            total == total_weight(validators@.take(i as int), epoch),
            positive == positive_weight(validators@.take(i as int), epoch),
        decreases validators.len() - i,
    {
        let weight: u64 = validators[i].get_final_vote_weight(epoch);
        proof {
            let next = validators@.take(i + 1);
            assert(next.drop_last() =~= validators@.take(i as int));
            assert(next.last() == validators@[i as int]);
            lemma_weights_bounded(next, epoch);
            assert(next.len() * u64::MAX <= usize::MAX * u64::MAX) by (nonlinear_arith)
                requires
                    next.len() <= usize::MAX,
            ;
        }
        total = total + weight as u128;
        if weight > POSITIVE_VOTE_THRESHOLD {
            positive = positive + weight as u128;
        }
        i += 1;
    }
    assert(validators@.take(i as int) =~= validators@);
    let bar: u128 = three_tenths(total);
    proof {
        lemma_fundamental_div_mod(3 * total, 10);
    }
    (total, positive, positive > bar)
}

} // verus!
