//! Gossip: carries queued transactions to the shards they are bound for,
//! and checkpoints to every other shard.

use vstd::prelude::*;
use crate::checkpoint::{Checkpoint, CheckpointView};
use crate::clock::unix_time_now;
use crate::shard::Shard;
use crate::shard_model::ShardView;
use crate::transaction::{transaction_views, Transaction, TransactionView};

verus! {

/// The states of a sequence of shards.
pub open spec fn shard_views(shards: Seq<Shard>) -> Seq<ShardView> {
    shards.map_values(|s: Shard| s@)
}

/// Every shard with its queue of transactions bound elsewhere emptied.
pub open spec fn drained(shards: Seq<ShardView>) -> Seq<ShardView> {
    shards.map_values(|s: ShardView| ShardView { pending_cross_shard_txs: Seq::empty(), ..s })
}

/// The queued transactions of all shards: shard by shard, each queue in order.
pub open spec fn collected(shards: Seq<ShardView>) -> Seq<TransactionView>
    decreases shards.len(),
{
    if shards.len() == 0 {
        Seq::empty()
    } else {
        collected(shards.drop_last()) + shards.last().pending_cross_shard_txs
    }
}

/// The index of the first shard with the given id, or the number of
/// shards where none has it.
pub open spec fn target_index(shards: Seq<ShardView>, id: usize) -> int
    decreases shards.len(),
{
    if shards.len() == 0 {
        0
    } else {
        let before = target_index(shards.drop_last(), id);
        if before < shards.len() - 1 {
            before
        } else if shards.last().id == id {
            shards.len() - 1
        } else {
            shards.len() as int
        }
    }
}

/// The shards of a network together with the transactions that a round of
/// gossip committed in them.
pub struct Round {
    pub shards: Seq<ShardView>,
    pub committed: Seq<TransactionView>,
}

/// What becomes of the shards when `tx` is handed to the first shard it is
/// bound for: that shard takes it in as a forwarded transaction. Where no
/// shard has the id, the transaction is dropped.
pub open spec fn forward(round: Round, tx: TransactionView, now: i64) -> Round {
    let at = target_index(round.shards, tx.to_shard);
    if at < round.shards.len() {
        let step = round.shards[at].process_cross_shard_transaction(tx, now);
        Round {
            shards: round.shards.update(at, step.state),
            committed: round.committed + step.committed,
        }
    } else {
        round
    }
}

/// What becomes of the shards when every transaction of `txs` is
/// forwarded, in order.
pub open spec fn forward_all(round: Round, txs: Seq<TransactionView>, now: i64) -> Round
    decreases txs.len(),
{
    if txs.len() == 0 {
        round
    } else {
        forward(forward_all(round, txs.drop_last(), now), txs.last(), now)
    }
}

/// One round of gossip at time `now`: every queue is emptied, and what the
/// queues held is forwarded, in the order collected.
pub open spec fn gossip_round(shards: Seq<ShardView>, now: i64) -> Round {
    forward_all(
        Round { shards: drained(shards), committed: Seq::empty() },
        collected(shards),
        now,
    )
}

/// What becomes of the shards when a checkpoint is broadcast: every shard
/// but the one it came from takes it over.
pub open spec fn with_checkpoint(shards: Seq<ShardView>, checkpoint: CheckpointView) -> Seq<
    ShardView,
> {
    shards.map_values(
        |s: ShardView|
            if s.id != checkpoint.shard_id {
                s.receive_checkpoint(checkpoint)
            } else {
                s
            },
    )
}

/// The checkpoints that wait in the shards to be sent, in shard order.
pub open spec fn pending_checkpoints(shards: Seq<ShardView>) -> Seq<CheckpointView>
    decreases shards.len(),
{
    if shards.len() == 0 {
        Seq::empty()
    } else {
        let before = pending_checkpoints(shards.drop_last());
        match shards.last().pending_checkpoint {
            Some(checkpoint) => before.push(checkpoint),
            None => before,
        }
    }
}

/// Every shard with no checkpoint waiting.
pub open spec fn without_pending_checkpoints(shards: Seq<ShardView>) -> Seq<ShardView> {
    shards.map_values(|s: ShardView| ShardView { pending_checkpoint: None, ..s })
}

/// What becomes of the shards when every checkpoint is broadcast, in order.
pub open spec fn with_checkpoints(shards: Seq<ShardView>, checkpoints: Seq<CheckpointView>) -> Seq<
    ShardView,
>
    decreases checkpoints.len(),
{
    if checkpoints.len() == 0 {
        shards
    } else {
        with_checkpoint(with_checkpoints(shards, checkpoints.drop_last()), checkpoints.last())
    }
}

/// What becomes of the shards when the checkpoints that wait in them are
/// taken and broadcast.
pub open spec fn disseminated(shards: Seq<ShardView>) -> Seq<ShardView> {
    with_checkpoints(without_pending_checkpoints(shards), pending_checkpoints(shards))
}

/// The views of a sequence of checkpoints.
pub open spec fn checkpoint_views(checkpoints: Seq<Checkpoint>) -> Seq<CheckpointView> {
    checkpoints.map_values(|c: Checkpoint| c@)
}

/// Whether every shard is sound and its counters can take `steps` steps.
pub open spec fn all_ready(shards: Seq<ShardView>, steps: int) -> bool {
    forall|i: int| 0 <= i < shards.len() ==> (#[trigger] shards[i]).wf() && shards[i].headroom(steps)
}

/// Forwarding keeps the shards sound and their ids in place, and uses at
/// most one step of the room each shard's counters have.
pub proof fn lemma_forward_keeps_ready(round: Round, tx: TransactionView, now: i64, steps: int)
    requires
        steps >= 0,
        all_ready(round.shards, steps + 1),
    ensures
        all_ready(forward(round, tx, now).shards, steps),
        forward(round, tx, now).shards.len() == round.shards.len(),
        forall|i: int|
            0 <= i < round.shards.len() ==> (#[trigger] forward(round, tx, now).shards[i]).id
                == round.shards[i].id,
{
    let at = target_index(round.shards, tx.to_shard);
    let after = forward(round, tx, now).shards;
    lemma_target_index_bounds(round.shards, tx.to_shard);
    assert forall|i: int| 0 <= i < after.len() implies (#[trigger] after[i]).wf()
        && after[i].headroom(steps) && after[i].id == round.shards[i].id by {
        assert(round.shards[i].wf() && round.shards[i].headroom(steps + 1));
        if i == at && at < round.shards.len() {
            assert(round.shards[i].headroom(1)) by {
                lemma_headroom_shrinks(round.shards[i], steps + 1, 1);
            }
            round.shards[i].lemma_forward_keeps_wf(tx, now);
        } else {
            lemma_headroom_shrinks(round.shards[i], steps + 1, steps);
        }
    }
}

/// Whether every shard's pool holds only transactions bound for it, and
/// no shard has a transaction queued for another.
pub open spec fn all_local(shards: Seq<ShardView>) -> bool {
    forall|i: int|
        0 <= i < shards.len() ==> (#[trigger] shards[i]).pool_is_local()
            && shards[i].pending_cross_shard_txs.len() == 0
}

/// Whether every transaction of `txs` is bound for a shard of `shards`.
pub open spec fn all_bound_within(txs: Seq<TransactionView>, shards: Seq<ShardView>) -> bool {
    forall|i: int|
        0 <= i < txs.len() ==> target_index(shards, (#[trigger] txs[i]).to_shard) < shards.len()
}

/// Forwarding a transaction keeps every pool local, and whatever it
/// commits is bound for one of the shards.
pub proof fn lemma_forward_keeps_local(round: Round, tx: TransactionView, now: i64)
    requires
        all_local(round.shards),
        all_bound_within(round.committed, round.shards),
    ensures
        all_local(forward(round, tx, now).shards),
        all_bound_within(forward(round, tx, now).committed, forward(round, tx, now).shards),
        forward(round, tx, now).shards.len() == round.shards.len(),
        forall|i: int|
            0 <= i < round.shards.len() ==> (#[trigger] forward(round, tx, now).shards[i]).id
                == round.shards[i].id,
{
    let at = target_index(round.shards, tx.to_shard);
    let after = forward(round, tx, now);
    lemma_target_index_bounds(round.shards, tx.to_shard);
    if at < round.shards.len() {
        assert(round.shards[at].pool_is_local());
        round.shards[at].lemma_forward_keeps_pool_local(tx, now);
    }
    assert forall|i: int| 0 <= i < after.shards.len() implies (#[trigger] after.shards[i]).id
        == round.shards[i].id && after.shards[i].pool_is_local()
        && after.shards[i].pending_cross_shard_txs.len() == 0 by {
        assert(round.shards[i].pool_is_local());
    }
    assert forall|id: usize| #![trigger target_index(after.shards, id)]
        target_index(after.shards, id) == target_index(round.shards, id) by {
        lemma_target_index_bounds(round.shards, id);
        let t = target_index(round.shards, id);
        assert forall|j: int| 0 <= j < t implies (#[trigger] after.shards[j]).id != id by {
            assert(round.shards[j].id != id);
        }
        lemma_first_match_is_target(after.shards, id, t);
    }
    assert forall|i: int| 0 <= i < after.committed.len() implies target_index(
        after.shards,
        (#[trigger] after.committed[i]).to_shard,
    ) < after.shards.len() by {
        if i < round.committed.len() {
            assert(after.committed[i] == round.committed[i]);
        } else {
            let step = round.shards[at].process_cross_shard_transaction(tx, now);
            assert(after.committed[i] == step.committed[i - round.committed.len()]);
            assert(after.committed[i].to_shard == round.shards[at].id);
            assert(target_index(round.shards, tx.to_shard) == at);
        }
    }
}

/// A round of gossip among shards with local pools leaves every pool
/// local and every queue empty, and commits only transactions bound for
/// a shard of the network.
pub proof fn lemma_gossip_keeps_pools_local(shards: Seq<ShardView>, now: i64)
    requires
        forall|i: int| 0 <= i < shards.len() ==> (#[trigger] shards[i]).pool_is_local(),
    ensures
        all_local(gossip_round(shards, now).shards),
        all_bound_within(gossip_round(shards, now).committed, gossip_round(shards, now).shards),
{
    let first = Round { shards: drained(shards), committed: Seq::empty() };
    assert forall|i: int| 0 <= i < first.shards.len() implies (#[trigger] first.shards[i]).pool_is_local()
        && first.shards[i].pending_cross_shard_txs.len() == 0 by {
        assert(shards[i].pool_is_local());
    }
    lemma_forward_all_keeps_local(first, collected(shards), now);
}

/// Forwarding transactions one after the other keeps every pool local.
pub proof fn lemma_forward_all_keeps_local(round: Round, txs: Seq<TransactionView>, now: i64)
    requires
        all_local(round.shards),
        all_bound_within(round.committed, round.shards),
    ensures
        all_local(forward_all(round, txs, now).shards),
        all_bound_within(forward_all(round, txs, now).committed, forward_all(round, txs, now).shards),
    decreases txs.len(),
{
    if txs.len() > 0 {
        lemma_forward_all_keeps_local(round, txs.drop_last(), now);
        lemma_forward_keeps_local(forward_all(round, txs.drop_last(), now), txs.last(), now);
    }
}

/// Forwarding transactions one after the other keeps the shards sound.
pub proof fn lemma_forward_all_keeps_ready(
    round: Round,
    txs: Seq<TransactionView>,
    now: i64,
    steps: int,
)
    requires
        steps >= 0,
        all_ready(round.shards, txs.len() + steps),
    ensures
        all_ready(forward_all(round, txs, now).shards, steps),
    decreases txs.len(),
{
    if txs.len() == 0 {
        assert forall|i: int| 0 <= i < round.shards.len() implies (#[trigger] round.shards[i]).wf()
            && round.shards[i].headroom(steps) by {
            lemma_headroom_shrinks(round.shards[i], txs.len() + steps, steps);
        }
    } else {
        lemma_forward_all_keeps_ready(round, txs.drop_last(), now, steps + 1);
        lemma_forward_keeps_ready(
            forward_all(round, txs.drop_last(), now),
            txs.last(),
            now,
            steps,
        );
    }
}

/// A round of gossip keeps every shard sound: every chain stays an
/// unbroken hash chain.
pub proof fn lemma_gossip_keeps_shards_sound(shards: Seq<ShardView>, now: i64)
    requires
        all_ready(shards, collected(shards).len() as int),
    ensures
        all_ready(gossip_round(shards, now).shards, 0),
{
    let first = Round { shards: drained(shards), committed: Seq::empty() };
    let steps = collected(shards).len() as int;
    assert forall|j: int| 0 <= j < shards.len() implies (#[trigger] first.shards[j]).wf()
        && first.shards[j].headroom(steps) by {
        assert(shards[j].wf() && shards[j].headroom(steps));
        assert forall|v: int| 0 <= v < shards[j].validators.len() implies (
        #[trigger] first.shards[j].validators[v]).epochs_active + steps <= usize::MAX by {
            assert(shards[j].validators[v].epochs_active + steps <= usize::MAX);
        }
    }
    lemma_forward_all_keeps_ready(first, collected(shards), now, 0);
}

/// Counters that can take some steps can take fewer.
pub proof fn lemma_headroom_shrinks(shard: ShardView, more: int, fewer: int)
    requires
        shard.headroom(more),
        fewer <= more,
    ensures
        shard.headroom(fewer),
{
    assert forall|i: int| 0 <= i < shard.validators.len() implies (
    #[trigger] shard.validators[i]).epochs_active + fewer <= usize::MAX by {
        assert(shard.validators[i].epochs_active + more <= usize::MAX);
    }
}

/// The target index lies within the shards or just behind them; within,
/// it names the first shard with the id.
pub proof fn lemma_target_index_bounds(shards: Seq<ShardView>, id: usize)
    ensures
        0 <= target_index(shards, id) <= shards.len(),
        target_index(shards, id) < shards.len() ==> shards[target_index(shards, id)].id == id,
        forall|j: int| 0 <= j < target_index(shards, id) ==> (#[trigger] shards[j]).id != id,
    decreases shards.len(),
{
    if shards.len() > 0 {
        lemma_target_index_bounds(shards.drop_last(), id);
        let before = target_index(shards.drop_last(), id);
        assert forall|j: int| 0 <= j < target_index(shards, id) implies (#[trigger] shards[j]).id
            != id by {
            if j < shards.len() - 1 {
                assert(shards.drop_last()[j].id != id);
            }
        }
        if before < shards.len() - 1 {
            assert(shards.drop_last()[before] == shards[before]);
        }
    }
}

/// The first index whose shard has the id is the target index.
pub proof fn lemma_first_match_is_target(shards: Seq<ShardView>, id: usize, at: int)
    requires
        0 <= at <= shards.len(),
        at < shards.len() ==> shards[at].id == id,
        forall|j: int| 0 <= j < at ==> (#[trigger] shards[j]).id != id,
    ensures
        target_index(shards, id) == at,
{
    lemma_target_index_bounds(shards, id);
    let t = target_index(shards, id);
    if t < at {
        assert(shards[t].id != id);
    }
    if at < t {
        assert(shards[at].id != id);
    }
}

/// The carrier of transactions and checkpoints between shards.
#[derive(Debug)]
pub struct GossipProtocol {
    /// The ids of the shards known to this carrier.
    pub known_shards: Vec<usize>,
}

impl GossipProtocol {
    /// A carrier that knows no shard yet.
    pub fn new() -> (gossip: GossipProtocol)
        ensures
            gossip.known_shards@ == Seq::<usize>::empty(),
    {
        GossipProtocol { known_shards: Vec::new() }
    }

    /// One round of gossip at time `now`: empties every shard's queue of
    /// transactions bound elsewhere, and hands each transaction to the
    /// first shard with the id it is bound for; a transaction bound for no
    /// shard is dropped. Returns the transactions committed on the way.
    pub fn gossip_at(&mut self, shards: &mut Vec<Shard>, now: i64) -> (committed: Vec<Transaction>)
        requires
            all_ready(shard_views(old(shards)@), collected(shard_views(old(shards)@)).len() as int),
        ensures
            shard_views(final(shards)@) == gossip_round(shard_views(old(shards)@), now).shards,
            transaction_views(committed@) == gossip_round(
                shard_views(old(shards)@),
                now,
            ).committed,
            final(self).known_shards@ == old(self).known_shards@,
            all_ready(shard_views(final(shards)@), 0),
    {
        let ghost start = shard_views(shards@);
        let mut to_forward: Vec<Transaction> = Vec::new();
        let mut i: usize = 0;
        assert(start.take(0) =~= Seq::<ShardView>::empty());
        assert(transaction_views(to_forward@) =~= collected(start.take(0)));
        while i < shards.len()
            invariant
                i <= shards.len(),
                shards@.len() == start.len(),
                transaction_views(to_forward@) == collected(start.take(i as int)),
                forall|j: int| 0 <= j < i ==> (#[trigger] shards@[j])@ == drained(start)[j],
                forall|j: int| i <= j < shards@.len() ==> (#[trigger] shards@[j])@ == start[j],
            decreases shards.len() - i,
        {
            let ghost before = transaction_views(to_forward@);
            let mut queue: Vec<Transaction> = shards[i].drain_pending_cross_shard_txs();
            let ghost queued = queue@;
            to_forward.append(&mut queue);
            proof {
                assert(start.take(i + 1).drop_last() =~= start.take(i as int));
                assert(start.take(i + 1).last() == start[i as int]);
                assert(transaction_views(to_forward@) =~= before + transaction_views(queued));
            }
            i += 1;
        }
        proof {
            assert(start.take(i as int) =~= start);
            assert(shard_views(shards@) =~= drained(start));
        }
        let ghost txs = collected(start);
        let ghost first = Round { shards: drained(start), committed: Seq::empty() };
        let mut committed: Vec<Transaction> = Vec::new();
        let mut k: usize = 0;
        proof {
            assert(txs.take(0) =~= Seq::<TransactionView>::empty());
            assert(transaction_views(committed@) =~= Seq::<TransactionView>::empty());
            assert(all_ready(drained(start), txs.len() as int)) by {
                assert forall|j: int| 0 <= j < start.len() implies (#[trigger] drained(start)[j]).wf()
                    && drained(start)[j].headroom(txs.len() as int) by {
                    assert(start[j].wf() && start[j].headroom(txs.len() as int));
                    assert forall|v: int| 0 <= v < start[j].validators.len() implies (
                    #[trigger] drained(start)[j].validators[v]).epochs_active + txs.len()
                        <= usize::MAX by {
                        assert(start[j].validators[v].epochs_active + txs.len() <= usize::MAX);
                    }
                }
            }
        }
        while k < to_forward.len()
            invariant
                k <= to_forward.len(),
                txs == transaction_views(to_forward@),
                first == (Round { shards: drained(start), committed: Seq::empty() }),
                shard_views(shards@) == forward_all(first, txs.take(k as int), now).shards,
                transaction_views(committed@) == forward_all(
                    first,
                    txs.take(k as int),
                    now,
                ).committed,
                all_ready(shard_views(shards@), txs.len() - k),
            decreases to_forward.len() - k,
        {
            let ghost round = forward_all(first, txs.take(k as int), now);
            let ghost tx = txs[k as int];
            let to_shard: usize = to_forward[k].to_shard;
            let mut at: usize = 0;
            while at < shards.len() && shards[at].shard_id() != to_shard
                invariant
                    at <= shards.len(),
                    forall|j: int| 0 <= j < at ==> (#[trigger] shard_views(shards@)[j]).id != to_shard,
                decreases shards.len() - at,
            {
                at += 1;
            }
            proof {
                assert(txs.take(k + 1).drop_last() =~= txs.take(k as int));
                assert(txs.take(k + 1).last() == tx);
                assert(tx == to_forward@[k as int]@);
                lemma_first_match_is_target(shard_views(shards@), to_shard, at as int);
                lemma_forward_keeps_ready(round, tx, now, txs.len() - k - 1);
            }
            if at < shards.len() {
                let ghost views_before = shard_views(shards@);
                let ghost done_before = transaction_views(committed@);
                proof {
                    assert(views_before[at as int].wf() && views_before[at as int].headroom(
                        txs.len() - k,
                    ));
                    lemma_headroom_shrinks(views_before[at as int], txs.len() - k, 1);
                }
                let mut done: Vec<Transaction> = shards[at].process_cross_shard_transaction_at(
                    to_forward[k].duplicate(),
                    now,
                );
                let ghost done_views = transaction_views(done@);
                committed.append(&mut done);
                proof {
                    assert(shard_views(shards@) =~= views_before.update(
                        at as int,
                        views_before[at as int].process_cross_shard_transaction(tx, now).state,
                    ));
                    assert(transaction_views(committed@) =~= done_before + done_views);
                }
            }
            k += 1;
        }
        proof {
            assert(txs.take(k as int) =~= txs);
        }
        committed
    }

    /// One round of gossip at the current time. Returns the transactions
    /// committed on the way.
    pub fn gossip(&mut self, shards: &mut Vec<Shard>) -> (committed: Vec<Transaction>)
        requires
            all_ready(shard_views(old(shards)@), collected(shard_views(old(shards)@)).len() as int),
        ensures
            exists|now: i64|
                (Round {
                    shards: shard_views(final(shards)@),
                    committed: transaction_views(committed@),
                }) == #[trigger] gossip_round(shard_views(old(shards)@), now),
            final(self).known_shards@ == old(self).known_shards@,
            all_ready(shard_views(final(shards)@), 0),
    {
        let now: i64 = unix_time_now();
        let committed = self.gossip_at(shards, now);
        assert((Round {
            shards: shard_views(shards@),
            committed: transaction_views(committed@),
        }) == gossip_round(shard_views(old(shards)@), now));
        committed
    }

    /// One round of gossip, made on a timer.
    pub fn periodic_gossip(&mut self, shards: &mut Vec<Shard>) -> (committed: Vec<Transaction>)
        requires
            all_ready(shard_views(old(shards)@), collected(shard_views(old(shards)@)).len() as int),
        ensures
            exists|now: i64|
                (Round {
                    shards: shard_views(final(shards)@),
                    committed: transaction_views(committed@),
                }) == #[trigger] gossip_round(shard_views(old(shards)@), now),
            final(self).known_shards@ == old(self).known_shards@,
            all_ready(shard_views(final(shards)@), 0),
    {
        self.gossip(shards)
    }

    /// Takes the checkpoint that waits in each shard and broadcasts them,
    /// in shard order. Returns how many were sent.
    pub fn disseminate_checkpoints(&mut self, shards: &mut Vec<Shard>) -> (sent: usize)
        ensures
            shard_views(final(shards)@) == disseminated(shard_views(old(shards)@)),
            sent == pending_checkpoints(shard_views(old(shards)@)).len(),
            final(self).known_shards@ == old(self).known_shards@,
    {
        let ghost start = shard_views(shards@);
        let mut waiting: Vec<Checkpoint> = Vec::new();
        let mut i: usize = 0;
        proof {
            assert(start.take(0) =~= Seq::<ShardView>::empty());
            assert(checkpoint_views(waiting@) =~= pending_checkpoints(start.take(0)));
        }
        while i < shards.len()
            invariant
                i <= shards.len(),
                shards@.len() == start.len(),
                waiting@.len() <= i,
                checkpoint_views(waiting@) == pending_checkpoints(start.take(i as int)),
                forall|j: int|
                    0 <= j < i ==> (#[trigger] shards@[j])@ == without_pending_checkpoints(
                        start,
                    )[j],
                forall|j: int| i <= j < shards@.len() ==> (#[trigger] shards@[j])@ == start[j],
            decreases shards.len() - i,
        {
            let ghost before = checkpoint_views(waiting@);
            proof {
                assert(start.take(i + 1).drop_last() =~= start.take(i as int));
                assert(start.take(i + 1).last() == start[i as int]);
            }
            match shards[i].drain_pending_checkpoint() {
                Some(checkpoint) => {
                    waiting.push(checkpoint);
                    assert(checkpoint_views(waiting@) =~= before.push(checkpoint@));
                },
                None => {},
            }
            i += 1;
        }
        proof {
            assert(start.take(i as int) =~= start);
            assert(shard_views(shards@) =~= without_pending_checkpoints(start));
        }
        let ghost cleared = without_pending_checkpoints(start);
        let ghost all = checkpoint_views(waiting@);
        let mut k: usize = 0;
        assert(all.take(0) =~= Seq::<CheckpointView>::empty());
        while k < waiting.len()
            invariant
                k <= waiting.len(),
                all == checkpoint_views(waiting@),
                shard_views(shards@) == with_checkpoints(cleared, all.take(k as int)),
                self.known_shards@ == old(self).known_shards@,
            decreases waiting.len() - k,
        {
            proof {
                assert(all.take(k + 1).drop_last() =~= all.take(k as int));
                assert(all.take(k + 1).last() == waiting@[k as int]@);
            }
            self.gossip_checkpoints(&waiting[k], shards);
            k += 1;
        }
        assert(all.take(k as int) =~= all);
        waiting.len()
    }

    /// Broadcasts a checkpoint: every shard but the one it came from takes
    /// it over.
    pub fn gossip_checkpoints(&mut self, checkpoint: &Checkpoint, shards: &mut Vec<Shard>)
        ensures
            shard_views(final(shards)@) == with_checkpoint(
                shard_views(old(shards)@),
                checkpoint@,
            ),
            final(self).known_shards@ == old(self).known_shards@,
    {
        let ghost start = shard_views(shards@);
        let mut i: usize = 0;
        while i < shards.len()
            invariant
                i <= shards.len(),
                shards@.len() == start.len(),
                forall|j: int|
                    0 <= j < i ==> (#[trigger] shards@[j])@ == with_checkpoint(
                        start,
                        checkpoint@,
                    )[j],
                forall|j: int| i <= j < shards@.len() ==> (#[trigger] shards@[j])@ == start[j],
            decreases shards.len() - i,
        {
            if shards[i].shard_id() != checkpoint.shard_id {
                shards[i].receive_checkpoint(checkpoint.duplicate());
            }
            i += 1;
        }
        assert(shard_views(shards@) =~= with_checkpoint(start, checkpoint@));
    }
}

} // verus!
