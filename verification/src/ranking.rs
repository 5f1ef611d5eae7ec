//! The order of a shard's validators: by vote weight, greatest first.
//! Validators of equal weight keep the order they stood in.

use vstd::prelude::*;
use crate::validator::Validator;

verus! {

/// `ranked` with `validator` put behind every validator whose weight is not
/// below its own.
pub open spec fn insert_ranked(ranked: Seq<Validator>, validator: Validator, epoch: usize) -> Seq<
    Validator,
>
    decreases ranked.len(),
{
    if ranked.len() == 0 {
        seq![validator]
    } else if ranked.last().vote_weight(epoch) >= validator.vote_weight(epoch) {
        ranked.push(validator)
    } else {
        insert_ranked(ranked.drop_last(), validator, epoch).push(ranked.last())
    }
}

/// The validators by vote weight in `epoch`, greatest first; those of equal
/// weight in the order given.
pub open spec fn ranked(validators: Seq<Validator>, epoch: usize) -> Seq<Validator>
    decreases validators.len(),
{
    if validators.len() == 0 {
        Seq::empty()
    } else {
        insert_ranked(ranked(validators.drop_last(), epoch), validators.last(), epoch)
    }
}

/// Whether no validator stands before one of greater weight.
pub open spec fn is_ranked(validators: Seq<Validator>, epoch: usize) -> bool {
    forall|i: int, j: int|
        0 <= i < j < validators.len() ==> (#[trigger] validators[i]).vote_weight(epoch) >= (
        #[trigger] validators[j]).vote_weight(epoch)
}

/// Putting a validator at the place `insert_ranked` names is an insertion
/// at the index behind the last validator of no lesser weight.
pub proof fn lemma_insert_ranked_is_insert(
    ranked: Seq<Validator>,
    validator: Validator,
    epoch: usize,
    at: int,
)
    requires
        0 <= at <= ranked.len(),
        at > 0 ==> ranked[at - 1].vote_weight(epoch) >= validator.vote_weight(epoch),
        forall|k: int|
            at <= k < ranked.len() ==> (#[trigger] ranked[k]).vote_weight(epoch)
                < validator.vote_weight(epoch),
    ensures
        insert_ranked(ranked, validator, epoch) == ranked.insert(at, validator),
    decreases ranked.len(),
{
    if ranked.len() == 0 {
        assert(ranked.insert(at, validator) =~= seq![validator]);
    } else if at == ranked.len() {
        assert(ranked.insert(at, validator) =~= ranked.push(validator));
    } else {
        assert(ranked[ranked.len() - 1].vote_weight(epoch) < validator.vote_weight(epoch));
        lemma_insert_ranked_is_insert(ranked.drop_last(), validator, epoch, at);
        assert(ranked.drop_last().insert(at, validator).push(ranked.last()) =~= ranked.insert(
            at,
            validator,
        ));
    }
}

/// Inserting into a ranked sequence keeps it ranked and adds one validator.
pub proof fn lemma_insert_ranked_properties(ranked: Seq<Validator>, validator: Validator, epoch: usize)
    requires
        is_ranked(ranked, epoch),
    ensures
        is_ranked(insert_ranked(ranked, validator, epoch), epoch),
        insert_ranked(ranked, validator, epoch).len() == ranked.len() + 1,
        insert_ranked(ranked, validator, epoch).to_multiset() == ranked.to_multiset().insert(
            validator,
        ),
        forall|k: int|
            0 <= k < ranked.len() + 1 ==> (#[trigger] insert_ranked(ranked, validator, epoch)[k])
                == validator || ranked.contains(insert_ranked(ranked, validator, epoch)[k]),
    decreases ranked.len(),
{
    broadcast use vstd::seq_lib::group_to_multiset_ensures;

    let result = insert_ranked(ranked, validator, epoch);
    if ranked.len() == 0 {
        assert(ranked =~= Seq::<Validator>::empty());
        assert(seq![validator] =~= Seq::<Validator>::empty().push(validator));
    } else if ranked.last().vote_weight(epoch) >= validator.vote_weight(epoch) {
        assert forall|k: int| 0 <= k < ranked.len() + 1 implies (#[trigger] result[k])
            == validator || ranked.contains(result[k]) by {
            if k < ranked.len() {
                assert(ranked[k] == result[k]);
            }
        }
    } else {
        let front = ranked.drop_last();
        let inner = insert_ranked(front, validator, epoch);
        assert(is_ranked(front, epoch)) by {
            assert forall|i: int, j: int| 0 <= i < j < front.len() implies (#[trigger] front[i]).vote_weight(
                epoch,
            ) >= (#[trigger] front[j]).vote_weight(epoch) by {
                assert(front[i] == ranked[i] && front[j] == ranked[j]);
            }
        }
        lemma_insert_ranked_properties(front, validator, epoch);
        assert(ranked =~= front.push(ranked.last()));
        assert(ranked.to_multiset() =~= front.to_multiset().insert(ranked.last()));
        assert(result.to_multiset() =~= ranked.to_multiset().insert(validator));
        assert forall|k: int| 0 <= k < ranked.len() + 1 implies (#[trigger] result[k])
            == validator || ranked.contains(result[k]) by {
            if k < inner.len() {
                assert(result[k] == inner[k]);
                if inner[k] != validator {
                    assert(front.contains(inner[k]));
                    let w = choose|w: int| 0 <= w < front.len() && front[w] == inner[k];
                    assert(ranked[w] == inner[k]);
                }
            } else {
                assert(result[k] == ranked[ranked.len() - 1]);
            }
        }
        assert forall|i: int, j: int| 0 <= i < j < result.len() implies (#[trigger] result[i]).vote_weight(
            epoch,
        ) >= (#[trigger] result[j]).vote_weight(epoch) by {
            if j < inner.len() {
                assert(result[i] == inner[i] && result[j] == inner[j]);
            } else {
                assert(result[j] == ranked.last());
                assert(result[i] == inner[i]);
                if inner[i] != validator {
                    assert(front.contains(inner[i]));
                    let w = choose|w: int| 0 <= w < front.len() && front[w] == inner[i];
                    assert(ranked[w].vote_weight(epoch) >= ranked[ranked.len() - 1].vote_weight(
                        epoch,
                    ));
                }
            }
        }
    }
}

/// A ranking holds the validators it was made of, each as often as before,
/// with none before one of greater weight.
pub proof fn lemma_ranked_is_sorted_permutation(validators: Seq<Validator>, epoch: usize)
    ensures
        is_ranked(ranked(validators, epoch), epoch),
        ranked(validators, epoch).len() == validators.len(),
        ranked(validators, epoch).to_multiset() == validators.to_multiset(),
    decreases validators.len(),
{
    broadcast use vstd::seq_lib::group_to_multiset_ensures;

    if validators.len() == 0 {
        assert(validators =~= Seq::<Validator>::empty());
    } else {
        lemma_ranked_is_sorted_permutation(validators.drop_last(), epoch);
        lemma_insert_ranked_properties(
            ranked(validators.drop_last(), epoch),
            validators.last(),
            epoch,
        );
        assert(validators =~= validators.drop_last().push(validators.last()));
        assert(validators.to_multiset() =~= validators.drop_last().to_multiset().insert(
            validators.last(),
        ));
    }
}

/// Ranks `validators` by their vote weight in `epoch`.
pub fn rank_validators(validators: &Vec<Validator>, epoch: usize) -> (result: Vec<Validator>)
    ensures
        result@ == ranked(validators@, epoch),
{
    let mut result: Vec<Validator> = Vec::new();
    let mut i: usize = 0;
    assert(validators@.take(0) =~= Seq::<Validator>::empty());
    while i < validators.len()
        invariant
            i <= validators.len(),
            result@ == ranked(validators@.take(i as int), epoch),
            result@.len() == i,
        decreases validators.len() - i,
    {
        let validator: Validator = validators[i];
        let weight: u64 = validator.get_final_vote_weight(epoch);
        let mut at: usize = result.len();
        while at > 0 && result[at - 1].get_final_vote_weight(epoch) < weight
            invariant
                at <= result.len(),
                weight == validator.vote_weight(epoch),
                forall|k: int|
                    at <= k < result@.len() ==> (#[trigger] result@[k]).vote_weight(epoch)
                        < validator.vote_weight(epoch),
            decreases at,
        {
            at -= 1;
        }
        proof {
            lemma_insert_ranked_is_insert(result@, validator, epoch, at as int);
            let next = validators@.take(i + 1);
            assert(next.drop_last() =~= validators@.take(i as int));
            assert(next.last() == validator);
        }
        result.insert(at, validator);
        i += 1;
    }
    assert(validators@.take(i as int) =~= validators@);
    result
}

} // verus!
