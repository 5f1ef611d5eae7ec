//! The ledger: running amounts by id. The shard carries it and hands it on
//! in checkpoints; consensus does not read it.

use vstd::prelude::*;
use vstd::string::*;

verus! {

/// The running amount recorded for one id.
#[derive(Debug, Clone)]
pub struct LedgerEntry {
    pub id: String,
    pub amount: u64,
}

/// The entries of a ledger as pairs of id and amount.
pub open spec fn ledger_view(entries: Seq<LedgerEntry>) -> Seq<(Seq<char>, u64)> {
    entries.map_values(|e: LedgerEntry| (e.id@, e.amount))
}

/// A copy of a ledger.
pub fn duplicate_ledger(entries: &Vec<LedgerEntry>) -> (copy: Vec<LedgerEntry>)
    ensures
        ledger_view(copy@) == ledger_view(entries@),
{
    let mut copy: Vec<LedgerEntry> = Vec::new();
    let mut i: usize = 0;
    while i < entries.len()
        invariant
            i <= entries.len(),
            copy@.len() == i,
            ledger_view(copy@) == ledger_view(entries@).take(i as int),
        decreases entries.len() - i,
    {
        copy.push(LedgerEntry { id: entries[i].id.clone(), amount: entries[i].amount });
        i += 1;
        assert(ledger_view(copy@) =~= ledger_view(entries@).take(i as int));
    }
    assert(ledger_view(entries@).take(i as int) =~= ledger_view(entries@));
    copy
}

} // verus!
