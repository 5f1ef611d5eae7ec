//! Validators and the reputation model that gives each vote its weight.
//!
//! Weights and scores are fixed-point numbers in millionths: the value
//! [`WEIGHT_ONE`] stands for 1.0. A product of a weight and a score is
//! rounded down to a whole millionth.

use vstd::prelude::*;
use vstd::arithmetic::div_mod::{
    lemma_div_is_ordered,
    lemma_div_is_ordered_by_denominator,
    lemma_fundamental_div_mod,
    lemma_fundamental_div_mod_converse,
};
use vstd::arithmetic::mul::lemma_mul_inequality;

verus! {

/// The fixed-point representation of 1.0.
pub const WEIGHT_ONE: u64 = 1_000_000;

/// The least vote weight any validator has: 0.3.
pub const MIN_VOTE_WEIGHT: u64 = 300_000;

/// The greatest base weight that an adjustment leaves: 1.0.
pub const MAX_BASE_WEIGHT: u64 = 1_000_000;

/// The score of a validator that never took part, in an epoch after the first: 0.5.
pub const IDLE_PARTICIPATION_SCORE: u64 = 500_000;

/// The factor applied to a penalized validator: 0.5.
pub const PENALTY_FACTOR: u64 = 500_000;

/// The weight a validator must exceed to validate a transaction before epoch 5: 0.3.
pub const EARLY_VALIDATION_THRESHOLD: u64 = 300_000;

/// The weight a validator must exceed to validate a transaction from epoch 5 on: 0.5.
pub const LATE_VALIDATION_THRESHOLD: u64 = 500_000;

/// The first epoch that asks for the higher validation threshold.
pub const LATE_VALIDATION_EPOCH: usize = 5;

/// `part / whole` as a score, and 1.0 where the part is not below the whole.
pub open spec fn ratio_score(part: int, whole: int) -> int {
    if part >= whole {
        WEIGHT_ONE as int
    } else {
        part * WEIGHT_ONE / whole
    }
}

/// The product of a weight and a score, rounded down.
pub open spec fn scale(weight: int, score: int) -> int {
    weight * score / (WEIGHT_ONE as int)
}

/// The mean of `count` samples, given the mean of the first `count - 1` and
/// the last sample, rounded down.
pub open spec fn running_mean(mean: int, count: int, sample: int) -> int {
    (mean * (count - 1) + sample) / count
}

/// The base weight after an adjustment by `factor`: the product, kept
/// within 0.3 and 1.0.
pub open spec fn adjusted_weight(base: int, factor: int) -> int {
    let product = scale(base, factor);
    if product < MIN_VOTE_WEIGHT {
        MIN_VOTE_WEIGHT as int
    } else if product > MAX_BASE_WEIGHT {
        MAX_BASE_WEIGHT as int
    } else {
        product
    }
}

/// The weight that a validator must exceed to validate a transaction in `epoch`.
pub open spec fn validation_threshold(epoch: usize) -> u64 {
    if epoch < LATE_VALIDATION_EPOCH {
        EARLY_VALIDATION_THRESHOLD
    } else {
        LATE_VALIDATION_THRESHOLD
    }
}

/// An actor that votes on blocks, with the record its vote weight derives from.
#[derive(Debug, Clone, Copy, PartialEq, Eq, Structural)]
pub struct Validator {
    pub id: usize,
    pub shard_id: usize,
    /// Votes cast so far.
    pub votes_cast: usize,
    /// Votes that agreed with the final outcome.
    pub successful_votes: usize,
    /// Running mean of the response times, in whole milliseconds.
    pub average_response_time_ms: u128,
    /// Consensus rounds taken part in.
    pub participation_count: usize,
    /// Rounds in which the validator sided with the consensus.
    pub consensus_contribution_count: usize,
    /// Epochs the validator has been active in; at least one.
    pub epochs_active: usize,
    pub penalized: bool,
    /// Base weight, in millionths.
    pub final_vote_weight: u64,
}

impl Validator {
    /// The counters are consistent: no more successes than votes, no more
    /// contributions than rounds, and at least one active epoch.
    pub open spec fn wf(self) -> bool {
        &&& self.successful_votes <= self.votes_cast
        &&& self.consensus_contribution_count <= self.participation_count
        &&& self.epochs_active >= 1
    }

    /// Share of the votes that were successful; 1.0 before the first vote.
    pub open spec fn honesty_score(self) -> int {
        if self.votes_cast == 0 {
            WEIGHT_ONE as int
        } else {
            ratio_score(self.successful_votes as int, self.votes_cast as int)
        }
    }

    /// `1 / (average response time + 1)`.
    pub open spec fn time_weight(self) -> int {
        (WEIGHT_ONE as int) / (self.average_response_time_ms + 1)
    }

    /// Rounds taken part in per epoch; 1.0 in epoch 0, and 0.5 for a
    /// validator that never took part.
    pub open spec fn participation_score(self, epoch: usize) -> int {
        if epoch == 0 {
            WEIGHT_ONE as int
        } else if self.participation_count == 0 {
            IDLE_PARTICIPATION_SCORE as int
        } else {
            ratio_score(self.participation_count as int, epoch as int)
        }
    }

    /// Share of the rounds in which the validator sided with the consensus;
    /// 1.0 before the first round.
    pub open spec fn consensus_score(self) -> int {
        if self.participation_count == 0 {
            WEIGHT_ONE as int
        } else {
            ratio_score(
                self.consensus_contribution_count as int,
                self.participation_count as int,
            )
        }
    }

    /// 0.5 for a penalized validator, else 1.0.
    pub open spec fn integrity_penalty(self) -> int {
        if self.penalized {
            PENALTY_FACTOR as int
        } else {
            WEIGHT_ONE as int
        }
    }

    /// The base weight scaled by every score in turn, before the floor of
    /// 0.3 is applied. Longevity and decay are fixed at 1.0 and leave the
    /// product unchanged.
    pub open spec fn raw_vote_weight(self, epoch: usize) -> int {
        scale(
            scale(
                scale(
                    scale(
                        scale(self.final_vote_weight as int, self.honesty_score()),
                        self.time_weight(),
                    ),
                    self.participation_score(epoch),
                ),
                self.consensus_score(),
            ),
            self.integrity_penalty(),
        )
    }

    /// The weight of this validator's vote in `epoch`.
    pub open spec fn vote_weight(self, epoch: usize) -> int {
        if self.raw_vote_weight(epoch) < MIN_VOTE_WEIGHT {
            MIN_VOTE_WEIGHT as int
        } else {
            self.raw_vote_weight(epoch)
        }
    }

    /// The validator after one more vote.
    pub open spec fn after_vote(
        self,
        is_successful: bool,
        response_time: u128,
        aligns_with_consensus: bool,
    ) -> Validator {
        Validator {
            votes_cast: (self.votes_cast + 1) as usize,
            successful_votes: if is_successful {
                (self.successful_votes + 1) as usize
            } else {
                self.successful_votes
            },
            average_response_time_ms: running_mean(
                self.average_response_time_ms as int,
                self.votes_cast + 1,
                response_time as int,
            ) as u128,
            participation_count: (self.participation_count + 1) as usize,
            consensus_contribution_count: if aligns_with_consensus {
                (self.consensus_contribution_count + 1) as usize
            } else {
                self.consensus_contribution_count
            },
            ..self
        }
    }

    /// A validator with a clean record and the given base weight.
    pub fn new(id: usize, shard_id: usize, final_vote_weight: u64) -> (validator: Validator)
        ensures
            validator == (Validator {
                id,
                shard_id,
                votes_cast: 0,
                successful_votes: 0,
                average_response_time_ms: 0,
                participation_count: 0,
                consensus_contribution_count: 0,
                epochs_active: 1,
                penalized: false,
                final_vote_weight,
            }),
            validator.wf(),
    {
        Validator {
            id,
            shard_id,
            votes_cast: 0,
            successful_votes: 0,
            average_response_time_ms: 0,
            participation_count: 0,
            consensus_contribution_count: 0,
            epochs_active: 1,
            penalized: false,
            final_vote_weight,
        }
    }

    /// Multiplies the base weight by `factor` (in millionths) and keeps the
    /// result within 0.3 and 1.0.
    pub fn adjust_weight(&mut self, factor: u64)
        ensures
            final(self).final_vote_weight == adjusted_weight(
                old(self).final_vote_weight as int,
                factor as int,
            ),
            *final(self) == (Validator {
                final_vote_weight: final(self).final_vote_weight,
                ..*old(self)
            }),
    {
        assert((self.final_vote_weight as u128) * (factor as u128) <= 0xFFFF_FFFF_FFFF_FFFF
            * 0xFFFF_FFFF_FFFF_FFFF) by (nonlinear_arith)
            requires
                self.final_vote_weight <= 0xFFFF_FFFF_FFFF_FFFF,
                factor <= 0xFFFF_FFFF_FFFF_FFFF,
        ;
        let product: u128 = (self.final_vote_weight as u128) * (factor as u128) / (
        WEIGHT_ONE as u128);
        if product < MIN_VOTE_WEIGHT as u128 {
            self.final_vote_weight = MIN_VOTE_WEIGHT;
        } else if product > MAX_BASE_WEIGHT as u128 {
            self.final_vote_weight = MAX_BASE_WEIGHT;
        } else {
            self.final_vote_weight = product as u64;
        }
    }

    /// Records one vote: its outcome, its response time in milliseconds, and
    /// whether it sided with the consensus.
    pub fn cast_vote(&mut self, is_successful: bool, response_time: u128, aligns_with_consensus: bool)
        requires
            old(self).wf(),
            old(self).votes_cast < usize::MAX,
            old(self).participation_count < usize::MAX,
        ensures
            *final(self) == old(self).after_vote(
                is_successful,
                response_time,
                aligns_with_consensus,
            ),
            final(self).wf(),
    {
        self.votes_cast += 1;
        if is_successful {
            self.successful_votes += 1;
        }
        self.average_response_time_ms = next_mean(
            self.average_response_time_ms,
            self.votes_cast,
            response_time,
        );
        self.participation_count += 1;
        if aligns_with_consensus {
            self.consensus_contribution_count += 1;
        }
    }

    /// The weight of this validator's vote in `current_epoch`, in
    /// millionths; never below 0.3.
    pub fn get_final_vote_weight(&self, current_epoch: usize) -> (weight: u64)
        ensures
            weight == self.vote_weight(current_epoch),
            weight >= MIN_VOTE_WEIGHT,
    {
        let honesty_score: u64 = if self.votes_cast == 0 {
            WEIGHT_ONE
        } else {
            ratio_score_of(self.successful_votes, self.votes_cast)
        };
        let time_weight: u64 = if self.average_response_time_ms >= WEIGHT_ONE as u128 {
            proof {
                lemma_small_quotient_is_zero(
                    WEIGHT_ONE as int,
                    self.average_response_time_ms + 1,
                );
            }
            0
        } else {
            let quotient: u128 = (WEIGHT_ONE as u128) / (self.average_response_time_ms + 1);
            proof {
                lemma_div_is_ordered_by_denominator(
                    WEIGHT_ONE as int,
                    1,
                    self.average_response_time_ms + 1,
                );
            }
            quotient as u64
        };
        let participation_score: u64 = if current_epoch == 0 {
            WEIGHT_ONE
        } else if self.participation_count == 0 {
            IDLE_PARTICIPATION_SCORE
        } else {
            ratio_score_of(self.participation_count, current_epoch)
        };
        let consensus_contribution_score: u64 = if self.participation_count == 0 {
            WEIGHT_ONE
        } else {
            ratio_score_of(self.consensus_contribution_count, self.participation_count)
        };
        let integrity_penalty: u64 = if self.penalized {
            PENALTY_FACTOR
        } else {
            WEIGHT_ONE
        };
        let by_honesty: u64 = scale_weight(self.final_vote_weight, honesty_score);
        let by_time: u64 = scale_weight(by_honesty, time_weight);
        let by_participation: u64 = scale_weight(by_time, participation_score);
        let by_consensus: u64 = scale_weight(by_participation, consensus_contribution_score);
        let raw: u64 = scale_weight(by_consensus, integrity_penalty);
        if raw < MIN_VOTE_WEIGHT {
            MIN_VOTE_WEIGHT
        } else {
            raw
        }
    }

    /// Whether this validator's weight in `current_epoch` exceeds the
    /// validation threshold of that epoch. The transaction id plays no part.
    pub fn validate_transaction(&self, transaction_id: &str, current_epoch: usize) -> (valid: bool)
        ensures
            valid == (self.vote_weight(current_epoch) > validation_threshold(current_epoch)),
    {
        let final_weight: u64 = self.get_final_vote_weight(current_epoch);
        let threshold: u64 = if current_epoch < LATE_VALIDATION_EPOCH {
            EARLY_VALIDATION_THRESHOLD
        } else {
            LATE_VALIDATION_THRESHOLD
        };
        final_weight > threshold
    }
}

/// `part / whole` as a score.
fn ratio_score_of(part: usize, whole: usize) -> (score: u64)
    requires
        whole > 0,
    ensures
        score == ratio_score(part as int, whole as int),
        score <= WEIGHT_ONE,
{
    if part >= whole {
        WEIGHT_ONE
    } else {
        assert((part as u128) * (WEIGHT_ONE as u128) <= 0xFFFF_FFFF_FFFF_FFFF * 1_000_000)
            by (nonlinear_arith)
            requires
                part <= 0xFFFF_FFFF_FFFF_FFFF,
                WEIGHT_ONE == 1_000_000,
        ;
        let scaled: u128 = (part as u128) * (WEIGHT_ONE as u128);
        let quotient: u128 = scaled / (whole as u128);
        proof {
            lemma_mul_inequality(part as int, whole as int, WEIGHT_ONE as int);
            lemma_div_is_ordered(
                part as int * WEIGHT_ONE as int,
                whole as int * WEIGHT_ONE as int,
                whole as int,
            );
            assert(whole as int * WEIGHT_ONE as int / whole as int == WEIGHT_ONE as int)
                by (nonlinear_arith)
                requires
                    whole > 0,
            ;
        }
        quotient as u64
    }
}

/// The product of a weight and a score, rounded down.
fn scale_weight(weight: u64, score: u64) -> (scaled: u64)
    requires
        score <= WEIGHT_ONE,
    ensures
        scaled == scale(weight as int, score as int),
        scaled <= weight,
{
    assert((weight as u128) * (score as u128) <= 0xFFFF_FFFF_FFFF_FFFF * 1_000_000)
        by (nonlinear_arith)
        requires
            weight <= 0xFFFF_FFFF_FFFF_FFFF,
            score <= 1_000_000,
    ;
    let product: u128 = (weight as u128) * (score as u128);
    let quotient: u128 = product / (WEIGHT_ONE as u128);
    proof {
        lemma_scale_bounded(weight as int, score as int);
    }
    quotient as u64
}

/// The running mean after one more sample, computed without overflow.
fn next_mean(mean: u128, count: usize, sample: u128) -> (next: u128)
    requires
        count > 0,
    ensures
        next == running_mean(mean as int, count as int, sample as int),
{
    let n: u128 = count as u128;
    if sample >= mean {
        let rise: u128 = (sample - mean) / n;
        proof {
            let d = (sample - mean) as int;
            lemma_fundamental_div_mod(d, n as int);
            assert(mean * (n - 1) + sample == (mean + d / (n as int)) * n + d % (n as int))
                by (nonlinear_arith)
                requires
                    d == sample - mean,
                    n > 0,
                    d == (n as int) * (d / (n as int)) + d % (n as int),
            ;
            lemma_fundamental_div_mod_converse(
                mean * (n - 1) + sample,
                n as int,
                mean + d / (n as int),
                d % (n as int),
            );
            assert(rise <= sample - mean);
        }
        mean + rise
    } else {
        let gap: u128 = mean - sample;
        let whole: u128 = gap / n;
        proof {
            lemma_fundamental_div_mod(gap as int, n as int);
            assert(gap % n != 0 ==> whole < gap) by (nonlinear_arith)
                requires
                    gap == (n as int) * (whole as int) + (gap % n) as int,
                    n >= 1,
                    whole >= 0,
            ;
        }
        let fall: u128 = if gap % n == 0 {
            whole
        } else {
            whole + 1
        };
        proof {
            let g = gap as int;
            let m = n as int;
            let r = if g % m == 0 {
                0
            } else {
                m - g % m
            };
            assert(g == (g / m) * m + g % m && 0 <= g % m < m) by (nonlinear_arith)
                requires
                    m > 0,
                    g == m * (g / m) + g % m,
                    0 <= g % m < m,
            ;
            assert(fall * m - g == r) by (nonlinear_arith)
                requires
                    g == (g / m) * m + g % m,
                    fall == if g % m == 0 {
                        g / m
                    } else {
                        g / m + 1
                    },
                    r == if g % m == 0 {
                        0
                    } else {
                        m - g % m
                    },
            ;
            assert(mean * (m - 1) + sample == (mean - fall) * m + r) by (nonlinear_arith)
                requires
                    g == mean - sample,
                    fall * m - g == r,
            ;
            lemma_fundamental_div_mod_converse(mean * (m - 1) + sample, m, mean - fall, r);
        }
        mean - fall
    }
}

/// A quotient is zero where the divisor exceeds a non-negative dividend.
proof fn lemma_small_quotient_is_zero(x: int, d: int)
    requires
        0 <= x < d,
    ensures
        x / d == 0,
{
    lemma_fundamental_div_mod_converse(x, d, 0, x);
}

/// Scaling by a score of at most 1.0 yields a weight between zero and the
/// weight scaled.
pub proof fn lemma_scale_bounded(weight: int, score: int)
    requires
        0 <= weight,
        0 <= score <= WEIGHT_ONE,
    ensures
        0 <= scale(weight, score) <= weight,
{
    assert(weight * score <= weight * (WEIGHT_ONE as int)) by (nonlinear_arith)
        requires
            0 <= weight,
            score <= WEIGHT_ONE,
    ;
    lemma_div_is_ordered(weight * score, weight * (WEIGHT_ONE as int), WEIGHT_ONE as int);
    assert(weight * (WEIGHT_ONE as int) / (WEIGHT_ONE as int) == weight) by (nonlinear_arith);
    assert(0 <= weight * score) by (nonlinear_arith)
        requires
            0 <= weight,
            0 <= score,
    ;
    lemma_div_is_ordered(0, weight * score, WEIGHT_ONE as int);
}

/// Scaling by 1.0 leaves a weight as it is.
pub proof fn lemma_scale_by_one(weight: int)
    ensures
        scale(weight, WEIGHT_ONE as int) == weight,
{
    assert(weight * (WEIGHT_ONE as int) / (WEIGHT_ONE as int) == weight) by (nonlinear_arith);
}

/// A validator with a clean record votes in epoch 0 with its base weight,
/// or with 0.3 where the base weight is less.
pub proof fn lemma_fresh_validator_weight(id: usize, shard_id: usize, base: u64)
    ensures
        ({
            let fresh = Validator {
                id,
                shard_id,
                votes_cast: 0,
                successful_votes: 0,
                average_response_time_ms: 0,
                participation_count: 0,
                consensus_contribution_count: 0,
                epochs_active: 1,
                penalized: false,
                final_vote_weight: base,
            };
            fresh.vote_weight(0) == if base < MIN_VOTE_WEIGHT {
                MIN_VOTE_WEIGHT
            } else {
                base
            }
        }),
{
    lemma_scale_by_one(base as int);
    assert((WEIGHT_ONE as int) / 1 == WEIGHT_ONE as int);
}

/// Scaling is monotone in the weight and in the score.
pub proof fn lemma_scale_monotone(weight_a: int, score_a: int, weight_b: int, score_b: int)
    requires
        0 <= weight_a <= weight_b,
        0 <= score_a <= score_b,
    ensures
        scale(weight_a, score_a) <= scale(weight_b, score_b),
{
    assert(weight_a * score_a <= weight_b * score_b) by (nonlinear_arith)
        requires
            0 <= weight_a <= weight_b,
            0 <= score_a <= score_b,
    ;
    lemma_div_is_ordered(weight_a * score_a, weight_b * score_b, WEIGHT_ONE as int);
}

/// A ratio score lies between 0.0 and 1.0.
pub proof fn lemma_ratio_score_bounded(part: int, whole: int)
    requires
        0 <= part,
        0 < whole,
    ensures
        0 <= ratio_score(part, whole) <= WEIGHT_ONE,
{
    if part < whole {
        lemma_mul_inequality(part, whole, WEIGHT_ONE as int);
        lemma_div_is_ordered(part * WEIGHT_ONE, whole * WEIGHT_ONE, whole);
        assert(whole * WEIGHT_ONE / whole == WEIGHT_ONE as int) by (nonlinear_arith)
            requires
                whole > 0,
        ;
        assert(0 <= part * WEIGHT_ONE) by (nonlinear_arith)
            requires
                0 <= part,
        ;
        lemma_div_is_ordered(0, part * WEIGHT_ONE, whole);
    }
}

/// Every vote weight is at least 0.3.
pub proof fn lemma_vote_weight_at_least_minimum(validator: Validator, epoch: usize)
    ensures
        validator.vote_weight(epoch) >= MIN_VOTE_WEIGHT,
{
}

/// With every other field held constant, a validator that responds more
/// slowly on average has no greater vote weight.
pub proof fn lemma_vote_weight_monotone_in_response_time(
    faster: Validator,
    slower: Validator,
    epoch: usize,
)
    requires
        faster.average_response_time_ms <= slower.average_response_time_ms,
        slower == (Validator {
            average_response_time_ms: slower.average_response_time_ms,
            ..faster
        }),
    ensures
        slower.vote_weight(epoch) <= faster.vote_weight(epoch),
{
    let base = faster.final_vote_weight as int;
    let honesty = faster.honesty_score();
    let participation = faster.participation_score(epoch);
    let consensus = faster.consensus_score();
    let integrity = faster.integrity_penalty();
    lemma_scores_bounded(faster, epoch);
    lemma_scores_bounded(slower, epoch);
    lemma_div_is_ordered_by_denominator(
        WEIGHT_ONE as int,
        faster.average_response_time_ms + 1,
        slower.average_response_time_ms + 1,
    );
    lemma_scale_bounded(base, honesty);
    let w1 = scale(base, honesty);
    lemma_scale_bounded(w1, slower.time_weight());
    lemma_scale_monotone(w1, slower.time_weight(), w1, faster.time_weight());
    let w2s = scale(w1, slower.time_weight());
    let w2f = scale(w1, faster.time_weight());
    lemma_scale_bounded(w2s, participation);
    lemma_scale_monotone(w2s, participation, w2f, participation);
    let w3s = scale(w2s, participation);
    let w3f = scale(w2f, participation);
    lemma_scale_bounded(w3s, consensus);
    lemma_scale_monotone(w3s, consensus, w3f, consensus);
    let w4s = scale(w3s, consensus);
    let w4f = scale(w3f, consensus);
    lemma_scale_monotone(w4s, integrity, w4f, integrity);
}

/// Every score of a validator lies between 0.0 and 1.0.
pub proof fn lemma_scores_bounded(validator: Validator, epoch: usize)
    ensures
        0 <= validator.honesty_score() <= WEIGHT_ONE,
        0 <= validator.time_weight() <= WEIGHT_ONE,
        0 <= validator.participation_score(epoch) <= WEIGHT_ONE,
        0 <= validator.consensus_score() <= WEIGHT_ONE,
        0 <= validator.integrity_penalty() <= WEIGHT_ONE,
{
    if validator.votes_cast != 0 {
        lemma_ratio_score_bounded(validator.successful_votes as int, validator.votes_cast as int);
    }
    if epoch != 0 && validator.participation_count != 0 {
        lemma_ratio_score_bounded(validator.participation_count as int, epoch as int);
    }
    if validator.participation_count != 0 {
        lemma_ratio_score_bounded(
            validator.consensus_contribution_count as int,
            validator.participation_count as int,
        );
    }
    lemma_div_is_ordered_by_denominator(
        WEIGHT_ONE as int,
        1,
        validator.average_response_time_ms + 1,
    );
    lemma_div_is_ordered(0, WEIGHT_ONE as int, validator.average_response_time_ms + 1);
    assert(0int / (validator.average_response_time_ms + 1) == 0) by {
        lemma_small_quotient_is_zero(0, validator.average_response_time_ms + 1);
    }
}

/// What the proof-of-history generator is told of a validator.
#[derive(Debug, Clone, Copy, PartialEq, Eq, Structural)]
pub struct ValidatorPerformance {
    pub id: usize,
    /// The validator's vote weight in epoch 1, in millionths.
    pub honesty_score: u64,
    /// The validator's average response time, in milliseconds.
    pub response_time: u128,
}

impl ValidatorPerformance {
    /// The performance record of `validator`.
    pub fn from_validator(validator: &Validator) -> (performance: ValidatorPerformance)
        ensures
            performance.id == validator.id,
            performance.honesty_score == validator.vote_weight(1),
            performance.response_time == validator.average_response_time_ms,
    {
        ValidatorPerformance {
            id: validator.id,
            honesty_score: validator.get_final_vote_weight(1),
            response_time: validator.average_response_time_ms,
        }
    }
}

} // verus!
