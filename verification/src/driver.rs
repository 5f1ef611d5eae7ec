//! How transactions reach the shards: which shard an id is bound for, and
//! which entry point of the source shard takes a transaction.

use std::collections::hash_map::DefaultHasher;
use std::hash::{Hash, Hasher};
use vstd::prelude::*;
use crate::clock::unix_time_now;
use crate::network::gossip_protocol::{all_ready, lemma_headroom_shrinks, shard_views};
use crate::shard::Shard;
use crate::shard_model::ShardView;
use crate::transaction::{transaction_views, Transaction, TransactionView};

verus! {

/// Hashes `target` with a fresh `std::collections::hash_map::DefaultHasher`
/// (`Hash::hash`, then `Hasher::finish`). Trusted, and nothing is claimed
/// of the value: the standard library does not fix the algorithm.
#[verifier::external_body]
fn default_hash(target: &str) -> (hash: u64) {
    let mut hasher = DefaultHasher::new();
    target.hash(&mut hasher);
    hasher.finish()
}

/// The shard, counted from 1, that a hash falls to among `shard_count` shards.
pub open spec fn shard_of_hash(hash: u64, shard_count: usize) -> int {
    ((hash as usize) as int) % (shard_count as int) + 1
}

/// The shard, counted from 1, that a hash falls to among `shard_count` shards.
pub fn shard_for_hash(hash: u64, shard_count: usize) -> (shard: usize)
    requires
        shard_count > 0,
    ensures
        shard == shard_of_hash(hash, shard_count),
        1 <= shard <= shard_count,
{
    (hash as usize) % shard_count + 1
}

/// The shard, counted from 1, that the id `target` is bound for among
/// `shard_count` shards.
pub fn hash_to_shard(target: &str, shard_count: usize) -> (shard: usize)
    requires
        shard_count > 0,
    ensures
        1 <= shard <= shard_count,
{
    shard_for_hash(default_hash(target), shard_count)
}

/// A network's shards together with the transactions committed on the way.
pub struct Delivery {
    pub shards: Seq<ShardView>,
    pub committed: Seq<TransactionView>,
}

/// What becomes of the shards when `tx` is handed to the shard it comes
/// from: a transaction that stays within its shard is processed there,
/// one bound elsewhere is queued for gossip.
pub open spec fn submitted(shards: Seq<ShardView>, tx: TransactionView, now: i64) -> Delivery {
    let at = tx.from_shard - 1;
    if tx.from_shard == tx.to_shard {
        let step = shards[at].process_transactions(seq![tx], now);
        Delivery { shards: shards.update(at, step.state), committed: step.committed }
    } else {
        Delivery { shards: shards.update(at, shards[at].enqueue(tx)), committed: Seq::empty() }
    }
}

/// What becomes of the shards when the transactions are dealt out one by
/// one, the first to the first shard, the next to the next, and round
/// again, each as a batch of its own.
pub open spec fn distributed(shards: Seq<ShardView>, txs: Seq<TransactionView>, now: i64) -> Delivery
    decreases txs.len(),
{
    if txs.len() == 0 || shards.len() == 0 {
        Delivery { shards, committed: Seq::empty() }
    } else {
        let before = distributed(shards, txs.drop_last(), now);
        let at = turn(txs.len() - 1, shards.len() as int);
        let step = before.shards[at].process_transactions(seq![txs.last()], now);
        Delivery {
            shards: before.shards.update(at, step.state),
            committed: before.committed + step.committed,
        }
    }
}

/// Handing a batch to one shard keeps every shard sound and uses at most
/// one step of the room each shard's counters have.
pub proof fn lemma_delivery_keeps_ready(
    shards: Seq<ShardView>,
    at: int,
    batch: Seq<TransactionView>,
    now: i64,
    steps: int,
)
    requires
        steps >= 0,
        0 <= at < shards.len(),
        all_ready(shards, steps + 1),
    ensures
        all_ready(shards.update(at, shards[at].process_transactions(batch, now).state), steps),
{
    let after = shards.update(at, shards[at].process_transactions(batch, now).state);
    assert forall|i: int| 0 <= i < after.len() implies (#[trigger] after[i]).wf()
        && after[i].headroom(steps) by {
        assert(shards[i].wf() && shards[i].headroom(steps + 1));
        if i == at {
            lemma_headroom_shrinks(shards[i], steps + 1, 1);
            shards[i].lemma_batch_keeps_wf(batch, now);
        } else {
            lemma_headroom_shrinks(shards[i], steps + 1, steps);
        }
    }
}

/// The shard, counted from 0, that the transaction at index `k` falls to
/// when `n` shards are dealt to in turn.
#[verifier::opaque]
pub open spec fn turn(k: int, n: int) -> int {
    k % n
}

/// The first transaction falls to the first shard, and each next one to
/// the next shard, the first again behind the last.
pub proof fn lemma_turns(k: int, n: int)
    requires
        k >= 0,
        n > 0,
    ensures
        turn(0, n) == 0,
        0 <= turn(k, n) < n,
        turn(k + 1, n) == if turn(k, n) + 1 == n {
            0
        } else {
            turn(k, n) + 1
        },
{
    reveal(turn);
    vstd::arithmetic::div_mod::lemma_fundamental_div_mod(k, n);
    vstd::arithmetic::div_mod::lemma_mod_pos_bound(k, n);
    vstd::arithmetic::div_mod::lemma_small_mod(0, n as nat);
    let q = k / n;
    let r = k % n;
    if r + 1 == n {
        assert(k + 1 == (q + 1) * n + 0) by (nonlinear_arith)
            requires
                k == n * q + r,
                r + 1 == n,
        ;
        vstd::arithmetic::div_mod::lemma_fundamental_div_mod_converse(k + 1, n, q + 1, 0);
    } else {
        assert(k + 1 == q * n + (r + 1)) by (nonlinear_arith)
            requires
                k == n * q + r,
        ;
        vstd::arithmetic::div_mod::lemma_fundamental_div_mod_converse(k + 1, n, q, r + 1);
    }
}

/// Hands `transaction`, as a batch of its own, to the shard at index `at`.
fn deliver(shards: &mut Vec<Shard>, at: usize, transaction: Transaction, now: i64) -> (committed:
    Vec<Transaction>)
    requires
        at < old(shards)@.len(),
        shard_views(old(shards)@)[at as int].wf(),
        shard_views(old(shards)@)[at as int].headroom(1),
    ensures
        final(shards)@.len() == old(shards)@.len(),
        shard_views(final(shards)@) == shard_views(old(shards)@).update(
            at as int,
            shard_views(old(shards)@)[at as int].process_transactions(
                seq![transaction@],
                now,
            ).state,
        ),
        transaction_views(committed@) == shard_views(
            old(shards)@,
        )[at as int].process_transactions(seq![transaction@], now).committed,
{
    let ghost before = shard_views(shards@);
    let mut batch: Vec<Transaction> = Vec::new();
    batch.push(transaction);
    assert(transaction_views(batch@) =~= seq![transaction@]);
    let committed = shards[at].process_transactions_at(batch, now);
    assert(shard_views(shards@) =~= before.update(
        at as int,
        before[at as int].process_transactions(seq![transaction@], now).state,
    ));
    committed
}

/// Hands `transaction` to the shard it comes from, at time `now`: a
/// transaction that stays within its shard is processed there, one bound
/// elsewhere is queued for gossip. Returns the transactions committed.
pub fn submit_at(shards: &mut Vec<Shard>, transaction: Transaction, now: i64) -> (committed: Vec<
    Transaction,
>)
    requires
        1 <= transaction.from_shard <= old(shards)@.len(),
        all_ready(shard_views(old(shards)@), 1),
    ensures
        shard_views(final(shards)@) == submitted(
            shard_views(old(shards)@),
            transaction@,
            now,
        ).shards,
        transaction_views(committed@) == submitted(
            shard_views(old(shards)@),
            transaction@,
            now,
        ).committed,
{
    let ghost start = shard_views(shards@);
    let at: usize = transaction.from_shard - 1;
    assert(start[at as int].wf() && start[at as int].headroom(1));
    if transaction.from_shard == transaction.to_shard {
        deliver(shards, at, transaction, now)
    } else {
        shards[at].add_pending_cross_shard_tx(transaction);
        assert(shard_views(shards@) =~= submitted(start, transaction@, now).shards);
        let none: Vec<Transaction> = Vec::new();
        assert(transaction_views(none@) =~= Seq::<TransactionView>::empty());
        none
    }
}

/// Hands `transaction` to the shard it comes from, at the current time.
/// Returns the transactions committed.
pub fn submit(shards: &mut Vec<Shard>, transaction: Transaction) -> (committed: Vec<Transaction>)
    requires
        1 <= transaction.from_shard <= old(shards)@.len(),
        all_ready(shard_views(old(shards)@), 1),
    ensures
        exists|now: i64|
            (Delivery {
                shards: shard_views(final(shards)@),
                committed: transaction_views(committed@),
            }) == #[trigger] submitted(shard_views(old(shards)@), transaction@, now),
{
    let now: i64 = unix_time_now();
    let committed = submit_at(shards, transaction, now);
    assert((Delivery {
        shards: shard_views(shards@),
        committed: transaction_views(committed@),
    }) == submitted(shard_views(old(shards)@), transaction@, now));
    committed
}

/// Deals the transactions out at time `now`, one by one: the first to the
/// first shard, the next to the next, and round again. Without shards the
/// transactions are dropped. Returns the transactions committed.
pub fn distribute_transactions_at(shards: &mut Vec<Shard>, transactions: Vec<Transaction>, now: i64) -> (committed:
    Vec<Transaction>)
    requires
        all_ready(shard_views(old(shards)@), transactions@.len() as int),
    ensures
        shard_views(final(shards)@) == distributed(
            shard_views(old(shards)@),
            transaction_views(transactions@),
            now,
        ).shards,
        transaction_views(committed@) == distributed(
            shard_views(old(shards)@),
            transaction_views(transactions@),
            now,
        ).committed,
        all_ready(shard_views(final(shards)@), 0),
{
    let ghost start = shard_views(shards@);
    let ghost txs = transaction_views(transactions@);
    let mut committed: Vec<Transaction> = Vec::new();
    proof {
        assert(transaction_views(committed@) =~= Seq::<TransactionView>::empty());
    }
    if shards.len() == 0 {
        assert(all_ready(shard_views(shards@), 0));
        return committed;
    }
    let mut shard_index: usize = 0;
    let mut k: usize = 0;
    proof {
        assert(txs.take(0) =~= Seq::<TransactionView>::empty());
        lemma_turns(0, start.len() as int);
    }
    while k < transactions.len()
        invariant
            k <= transactions.len(),
            shards@.len() == start.len(),
            start.len() > 0,
            txs == transaction_views(transactions@),
            shard_index < start.len(),
            shard_index == turn(k as int, start.len() as int),
            shard_views(shards@) == distributed(start, txs.take(k as int), now).shards,
            transaction_views(committed@) == distributed(start, txs.take(k as int), now).committed,
            all_ready(shard_views(shards@), txs.len() - k),
        decreases transactions.len() - k,
    {
        let ghost before = shard_views(shards@);
        let ghost done_before = transaction_views(committed@);
        let ghost tx = transactions@[k as int]@;
        proof {
            assert(before[shard_index as int].wf() && before[shard_index as int].headroom(
                txs.len() - k,
            ));
            lemma_headroom_shrinks(before[shard_index as int], txs.len() - k, 1);
            assert(txs.take(k + 1).drop_last() =~= txs.take(k as int));
            assert(txs.take(k + 1).last() == tx);
            lemma_delivery_keeps_ready(before, shard_index as int, seq![tx], now, txs.len() - k - 1);
        }
        let mut done: Vec<Transaction> = deliver(
            shards,
            shard_index,
            transactions[k].duplicate(),
            now,
        );
        let ghost done_views = transaction_views(done@);
        committed.append(&mut done);
        proof {
            assert(transaction_views(committed@) =~= done_before + done_views);
            lemma_turns(k as int, start.len() as int);
        }
        assert(shard_index < shards@.len());
        shard_index = if shard_index == shards.len() - 1 {
            0
        } else {
            shard_index + 1
        };
        k += 1;
    }
    proof {
        assert(txs.take(k as int) =~= txs);
    }
    committed
}

} // verus!
