//! How the validators' performance marks the hash a generator stands at
//! while an entry is made.
//!
//! Each record adds `:` and its contribution factor, in millionths, to the
//! hash. The records are taken by ascending validator id, so that the same
//! records always leave the same mark.

use vstd::prelude::*;
use vstd::string::*;
use crate::text::{decimal_text, push_decimal_text};
use crate::validator::{scale, ValidatorPerformance, WEIGHT_ONE};

verus! {

/// `honesty_score / (response_time + 1)`, in millionths.
pub open spec fn contribution_factor(record: ValidatorPerformance) -> int {
    scale(record.honesty_score as int, (WEIGHT_ONE as int) / (record.response_time + 1))
}

/// `sorted` with `record` put behind every record whose id is not above
/// its own.
pub open spec fn insert_by_id(sorted: Seq<ValidatorPerformance>, record: ValidatorPerformance) -> Seq<
    ValidatorPerformance,
>
    decreases sorted.len(),
{
    if sorted.len() == 0 {
        seq![record]
    } else if sorted.last().id <= record.id {
        sorted.push(record)
    } else {
        insert_by_id(sorted.drop_last(), record).push(sorted.last())
    }
}

/// The records by ascending id; those of equal id in the order given.
pub open spec fn by_ascending_id(records: Seq<ValidatorPerformance>) -> Seq<ValidatorPerformance>
    decreases records.len(),
{
    if records.len() == 0 {
        Seq::empty()
    } else {
        insert_by_id(by_ascending_id(records.drop_last()), records.last())
    }
}

/// `hash` with the mark of every record added, in the order given.
pub open spec fn marked(hash: Seq<char>, records: Seq<ValidatorPerformance>) -> Seq<char>
    decreases records.len(),
{
    if records.len() == 0 {
        hash
    } else {
        marked(hash, records.drop_last()) + seq![':'] + decimal_text(
            contribution_factor(records.last()) as nat,
        )
    }
}

/// The hash `previous_hash` as the performance of the validators marks it.
pub open spec fn perturbed_hash(previous_hash: Seq<char>, records: Seq<ValidatorPerformance>) -> Seq<
    char,
> {
    marked(previous_hash, by_ascending_id(records))
}

/// Putting a record at the place `insert_by_id` names is an insertion at
/// the index behind the last record of no greater id.
proof fn lemma_insert_by_id_is_insert(
    sorted: Seq<ValidatorPerformance>,
    record: ValidatorPerformance,
    at: int,
)
    requires
        0 <= at <= sorted.len(),
        at > 0 ==> sorted[at - 1].id <= record.id,
        forall|k: int| at <= k < sorted.len() ==> (#[trigger] sorted[k]).id > record.id,
    ensures
        insert_by_id(sorted, record) == sorted.insert(at, record),
    decreases sorted.len(),
{
    if sorted.len() == 0 {
        assert(sorted.insert(at, record) =~= seq![record]);
    } else if at == sorted.len() {
        assert(sorted.insert(at, record) =~= sorted.push(record));
    } else {
        assert(sorted[sorted.len() - 1].id > record.id);
        lemma_insert_by_id_is_insert(sorted.drop_last(), record, at);
        assert(sorted.drop_last().insert(at, record).push(sorted.last()) =~= sorted.insert(
            at,
            record,
        ));
    }
}

/// `honesty_score / (response_time + 1)`, in millionths.
pub fn contribution_factor_of(record: &ValidatorPerformance) -> (factor: u64)
    ensures
        factor == contribution_factor(*record),
{
    let time_weight: u64 = if record.response_time >= WEIGHT_ONE as u128 {
        proof {
            vstd::arithmetic::div_mod::lemma_fundamental_div_mod_converse(
                WEIGHT_ONE as int,
                record.response_time + 1,
                0,
                WEIGHT_ONE as int,
            );
        }
        0
    } else {
        let quotient: u128 = (WEIGHT_ONE as u128) / (record.response_time + 1);
        proof {
            vstd::arithmetic::div_mod::lemma_div_is_ordered_by_denominator(
                WEIGHT_ONE as int,
                1,
                record.response_time + 1,
            );
        }
        quotient as u64
    };
    assert((record.honesty_score as u128) * (time_weight as u128) <= 0xFFFF_FFFF_FFFF_FFFF
        * 1_000_000) by (nonlinear_arith)
        requires
            record.honesty_score <= 0xFFFF_FFFF_FFFF_FFFF,
            time_weight <= 1_000_000,
    ;
    let product: u128 = (record.honesty_score as u128) * (time_weight as u128);
    let factor: u128 = product / (WEIGHT_ONE as u128);
    proof {
        crate::validator::lemma_scale_bounded(record.honesty_score as int, time_weight as int);
    }
    factor as u64
}

/// The records by ascending id.
pub fn sort_by_id(records: &Vec<ValidatorPerformance>) -> (sorted: Vec<ValidatorPerformance>)
    ensures
        sorted@ == by_ascending_id(records@),
{
    let mut sorted: Vec<ValidatorPerformance> = Vec::new();
    let mut i: usize = 0;
    assert(records@.take(0) =~= Seq::<ValidatorPerformance>::empty());
    while i < records.len()
        invariant
            i <= records.len(),
            sorted@ == by_ascending_id(records@.take(i as int)),
            sorted@.len() == i,
        decreases records.len() - i,
    {
        let record: ValidatorPerformance = records[i];
        let mut at: usize = sorted.len();
        while at > 0 && sorted[at - 1].id > record.id
            invariant
                at <= sorted.len(),
                forall|k: int| at <= k < sorted@.len() ==> (#[trigger] sorted@[k]).id > record.id,
            decreases at,
        {
            at -= 1;
        }
        proof {
            lemma_insert_by_id_is_insert(sorted@, record, at as int);
            let next = records@.take(i + 1);
            assert(next.drop_last() =~= records@.take(i as int));
            assert(next.last() == record);
        }
        sorted.insert(at, record);
        i += 1;
    }
    assert(records@.take(i as int) =~= records@);
    sorted
}

/// The hash `previous_hash` as the performance of the validators marks it.
pub fn perturb(previous_hash: &str, records: &Vec<ValidatorPerformance>) -> (hash: String)
    ensures
        hash@ == perturbed_hash(previous_hash@, records@),
{
    let sorted = sort_by_id(records);
    let mut hash = String::from_str(previous_hash);
    let mut i: usize = 0;
    proof {
        reveal_strlit(":");
        assert(sorted@.take(0) =~= Seq::<ValidatorPerformance>::empty());
    }
    while i < sorted.len()
        invariant
            i <= sorted.len(),
            ":"@ == seq![':'],
            hash@ == marked(previous_hash@, sorted@.take(i as int)),
        decreases sorted.len() - i,
    {
        let ghost before = hash@;
        hash.append(":");
        push_decimal_text(&mut hash, contribution_factor_of(&sorted[i]));
        proof {
            let next = sorted@.take(i + 1);
            assert(next.drop_last() =~= sorted@.take(i as int));
            assert(next.last() == sorted@[i as int]);
            assert(hash@ =~= before + seq![':'] + decimal_text(
                contribution_factor(sorted@[i as int]) as nat,
            ));
        }
        i += 1;
    }
    assert(sorted@.take(i as int) =~= sorted@);
    hash
}

} // verus!
