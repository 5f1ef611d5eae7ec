//! Blocks: one or more proof-of-history entries sealed under a hash.

use vstd::prelude::*;
use vstd::string::*;
use vstd::utf8::encode_utf8;
use crate::clock::unix_time_now;
use crate::hashing::{concat_utf8, push_utf8, sha256_hex, sha256_hex_text};
use crate::poh::entry::{PohEntry, PohEntryView};
use crate::poh::generator::entry_views;
use crate::text::{decimal_digits, push_decimal};

verus! {

/// The hash a chain's first block names as its predecessor.
pub open spec fn genesis_previous_hash() -> Seq<char> {
    "0"@
}

/// The hashes of a sequence of entries.
pub open spec fn entry_hashes(entries: Seq<PohEntryView>) -> Seq<Seq<char>> {
    entries.map_values(|e: PohEntryView| e.hash)
}

/// The bytes that a block's hash is taken over: the block number in
/// decimal, then the hash of every entry, then the previous block's hash.
pub open spec fn block_preimage(
    block_number: u64,
    hashes: Seq<Seq<char>>,
    previous_hash: Seq<char>,
) -> Seq<u8> {
    decimal_digits(block_number as nat) + concat_utf8(hashes) + encode_utf8(previous_hash)
}

/// The hash of the block with the given number, entries and predecessor.
pub open spec fn block_hash_of(
    block_number: u64,
    entries: Seq<PohEntryView>,
    previous_hash: Seq<char>,
) -> Seq<char> {
    sha256_hex_text(block_preimage(block_number, entry_hashes(entries), previous_hash))
}

/// The block with the given number, entries and predecessor, made at `timestamp`.
pub open spec fn block_at(
    block_number: u64,
    entries: Seq<PohEntryView>,
    previous_hash: Seq<char>,
    timestamp: i64,
) -> BlockView {
    BlockView {
        block_number,
        poh_entries: entries,
        previous_hash,
        block_hash: block_hash_of(block_number, entries, previous_hash),
        timestamp,
    }
}

/// A numbered bundle of entries, linked to the block before it.
#[derive(Debug)]
pub struct Block {
    pub block_number: u64,
    pub poh_entries: Vec<PohEntry>,
    pub previous_hash: String,
    pub block_hash: String,
    /// When the block was made, in seconds since the Unix epoch.
    pub timestamp: i64,
}

/// The mathematical content of a [`Block`].
pub struct BlockView {
    pub block_number: u64,
    pub poh_entries: Seq<PohEntryView>,
    pub previous_hash: Seq<char>,
    pub block_hash: Seq<char>,
    pub timestamp: i64,
}

impl BlockView {
    /// The block's hash is the hash of its number, entries and predecessor.
    pub open spec fn sealed(self) -> bool {
        self.block_hash == block_hash_of(self.block_number, self.poh_entries, self.previous_hash)
    }
}

impl View for Block {
    type V = BlockView;

    open spec fn view(&self) -> BlockView {
        BlockView {
            block_number: self.block_number,
            poh_entries: entry_views(self.poh_entries@),
            previous_hash: self.previous_hash@,
            block_hash: self.block_hash@,
            timestamp: self.timestamp,
        }
    }
}

/// The hash of a block with the given number, entries and predecessor.
pub fn compute_block_hash(block_number: u64, poh_entries: &Vec<PohEntry>, previous_hash: &str) -> (hash:
    String)
    ensures
        hash@ == block_hash_of(block_number, entry_views(poh_entries@), previous_hash@),
{
    let ghost hashes = entry_hashes(entry_views(poh_entries@));
    let mut preimage: Vec<u8> = Vec::new();
    push_decimal(&mut preimage, block_number);
    let mut i: usize = 0;
    assert(hashes.take(0) =~= Seq::<Seq<char>>::empty());
    assert(preimage@ =~= decimal_digits(block_number as nat) + concat_utf8(hashes.take(0)));
    while i < poh_entries.len()
        invariant
            i <= poh_entries.len(),
            hashes == entry_hashes(entry_views(poh_entries@)),
            preimage@ == decimal_digits(block_number as nat) + concat_utf8(
                hashes.take(i as int),
            ),
        decreases poh_entries.len() - i,
    {
        push_utf8(&mut preimage, poh_entries[i].hash.as_str());
        proof {
            assert(hashes.take(i + 1).drop_last() =~= hashes.take(i as int));
            assert(hashes.take(i + 1).last() == poh_entries@[i as int].hash@);
            assert(preimage@ =~= decimal_digits(block_number as nat) + concat_utf8(
                hashes.take(i + 1),
            ));
        }
        i += 1;
    }
    assert(hashes.take(i as int) =~= hashes);
    push_utf8(&mut preimage, previous_hash);
    sha256_hex(&preimage)
}

impl Block {
    /// Seals `poh_entries` into the block numbered `block_number` that
    /// follows `previous_hash`, made at `timestamp`.
    pub fn new_at(
        block_number: u64,
        poh_entries: Vec<PohEntry>,
        previous_hash: &str,
        timestamp: i64,
    ) -> (block: Block)
        ensures
            block@ == block_at(block_number, entry_views(poh_entries@), previous_hash@, timestamp),
            block@.sealed(),
    {
        let block_hash = compute_block_hash(block_number, &poh_entries, previous_hash);
        Block {
            block_number,
            poh_entries,
            previous_hash: String::from_str(previous_hash),
            block_hash,
            timestamp,
        }
    }

    /// Seals `poh_entries` into a block stamped with the current time.
    pub fn new(block_number: u64, poh_entries: Vec<PohEntry>, previous_hash: &str) -> (block: Block)
        ensures
            block@ == block_at(
                block_number,
                entry_views(poh_entries@),
                previous_hash@,
                block.timestamp,
            ),
            block@.sealed(),
    {
        let timestamp: i64 = unix_time_now();
        Block::new_at(block_number, poh_entries, previous_hash, timestamp)
    }

    /// Computes the block's hash anew from its number, entries and
    /// predecessor. For a sealed block this is the hash it carries.
    pub fn recompute_hash(&self) -> (hash: String)
        ensures
            hash@ == block_hash_of(self@.block_number, self@.poh_entries, self@.previous_hash),
            self@.sealed() ==> hash@ == self.block_hash@,
    {
        compute_block_hash(self.block_number, &self.poh_entries, self.previous_hash.as_str())
    }

    /// The number of transaction ids in the block's entries, or
    /// `usize::MAX` where they are more.
    pub fn transaction_count(&self) -> (count: usize)
        ensures
            count == capped(total_ids(self@.poh_entries)),
    {
        let ghost views = self@.poh_entries;
        let mut count: usize = 0;
        let mut i: usize = 0;
        assert(views.take(0) =~= Seq::<PohEntryView>::empty());
        while i < self.poh_entries.len()
            invariant
                i <= self.poh_entries.len(),
                views == entry_views(self.poh_entries@),
                count == capped(total_ids(views.take(i as int))),
            decreases self.poh_entries.len() - i,
        {
            proof {
                assert(views.take(i + 1).drop_last() =~= views.take(i as int));
                assert(views.take(i + 1).last().transactions.len()
                    == self.poh_entries@[i as int].transactions@.len());
            }
            count = count.saturating_add(self.poh_entries[i].transactions.len());
            i += 1;
        }
        assert(views.take(i as int) =~= views);
        count
    }

    /// A copy of this block.
    pub fn duplicate(&self) -> (copy: Block)
        ensures
            copy@ == self@,
    {
        let mut poh_entries: Vec<PohEntry> = Vec::new();
        let mut i: usize = 0;
        while i < self.poh_entries.len()
            invariant
                i <= self.poh_entries.len(),
                poh_entries@.len() == i,
                entry_views(poh_entries@) == entry_views(self.poh_entries@).take(i as int),
            decreases self.poh_entries.len() - i,
        {
            poh_entries.push(self.poh_entries[i].duplicate());
            i += 1;
            assert(entry_views(poh_entries@) =~= entry_views(self.poh_entries@).take(i as int));
        }
        assert(entry_views(self.poh_entries@).take(i as int) =~= entry_views(self.poh_entries@));
        Block {
            block_number: self.block_number,
            poh_entries,
            previous_hash: self.previous_hash.clone(),
            block_hash: self.block_hash.clone(),
            timestamp: self.timestamp,
        }
    }
}

/// The number of transaction ids in a sequence of entries.
pub open spec fn total_ids(entries: Seq<PohEntryView>) -> nat
    decreases entries.len(),
{
    if entries.len() == 0 {
        0
    } else {
        total_ids(entries.drop_last()) + entries.last().transactions.len()
    }
}

/// A count as a machine number: itself where it fits, else `usize::MAX`.
pub open spec fn capped(count: nat) -> usize {
    if count <= usize::MAX {
        count as usize
    } else {
        usize::MAX
    }
}

/// Two sealed blocks with the same number, the same entries and the same
/// predecessor carry the same hash.
pub proof fn lemma_block_hash_is_determined(a: BlockView, b: BlockView)
    requires
        a.sealed(),
        b.sealed(),
        a.block_number == b.block_number,
        a.poh_entries == b.poh_entries,
        a.previous_hash == b.previous_hash,
    ensures
        a.block_hash == b.block_hash,
{
}

} // verus!
