//! The per-shard generator that chains proof-of-history entries.

use vstd::prelude::*;
use vstd::string::*;
use crate::clock::unix_time_now;
use crate::hashing::string_views;
use crate::poh::entry::{entry_at, PohEntry, PohEntryView};
use crate::poh::performance::perturb;
use crate::validator::ValidatorPerformance;

verus! {

/// Whether one of the ids is empty.
pub open spec fn has_empty_id(ids: Seq<Seq<char>>) -> bool {
    exists|i: int| 0 <= i < ids.len() && #[trigger] ids[i].len() == 0
}

/// The entry that a generator standing at `prev_hash` makes of `ids`;
/// there is none where an id is empty or the timestamp has no calendar text.
pub open spec fn checked_entry(ids: Seq<Seq<char>>, prev_hash: Seq<char>, timestamp: i64) -> Option<
    PohEntryView,
> {
    if has_empty_id(ids) {
        None
    } else {
        entry_at(ids, prev_hash, timestamp)
    }
}

/// The message that tells why no entry could be made of `ids`: an id is
/// empty, or else the timestamp has no calendar text.
pub open spec fn entry_error(ids: Seq<Seq<char>>) -> Seq<char> {
    if has_empty_id(ids) {
        "Transaction is empty"@
    } else {
        "Timestamp out of range"@
    }
}

/// What a run over successive chunks of ids leaves behind.
pub struct ChunkRun {
    /// The entries made, in order, up to the first chunk that failed.
    pub entries: Seq<PohEntryView>,
    /// The hash the generator stands at after the run.
    pub previous_hash: Seq<char>,
    /// The message of the chunk that failed, if one did.
    pub error: Option<Seq<char>>,
}

/// The length of the next chunk taken from `remaining` ids.
pub open spec fn chunk_len(remaining: int, batch_size: usize) -> int {
    if remaining < batch_size {
        remaining
    } else {
        batch_size as int
    }
}

/// Runs a generator standing at `prev_hash` over `ids` in chunks of
/// `batch_size` (the last may be shorter). Each entry follows the hash of
/// the one before it. The run stops at the first chunk of which no entry
/// can be made.
pub open spec fn run_chunks(
    ids: Seq<Seq<char>>,
    prev_hash: Seq<char>,
    batch_size: usize,
    timestamp: i64,
) -> ChunkRun
    decreases ids.len(),
{
    if ids.len() == 0 || batch_size == 0 {
        ChunkRun { entries: Seq::empty(), previous_hash: prev_hash, error: None }
    } else {
        let n = chunk_len(ids.len() as int, batch_size);
        match checked_entry(ids.take(n), prev_hash, timestamp) {
            None => ChunkRun {
                entries: Seq::empty(),
                previous_hash: prev_hash,
                error: Some(entry_error(ids.take(n))),
            },
            Some(entry) => {
                let rest = run_chunks(ids.skip(n), entry.hash, batch_size, timestamp);
                ChunkRun { entries: seq![entry] + rest.entries, ..rest }
            },
        }
    }
}

/// The views of a sequence of entries.
pub open spec fn entry_views(entries: Seq<PohEntry>) -> Seq<PohEntryView> {
    entries.map_values(|e: PohEntry| e@)
}

/// A hasher that turns transaction ids into a chain of entries.
#[derive(Debug)]
pub struct PohGenerator {
    /// The hash of the last entry made; "0" before the first.
    pub previous_hash: String,
    /// The greatest number of ids in one entry.
    pub batch_size: usize,
}

/// The mathematical content of a [`PohGenerator`].
pub struct PohGeneratorView {
    pub previous_hash: Seq<char>,
    pub batch_size: usize,
}

impl View for PohGenerator {
    type V = PohGeneratorView;

    open spec fn view(&self) -> PohGeneratorView {
        PohGeneratorView { previous_hash: self.previous_hash@, batch_size: self.batch_size }
    }
}

impl PohGenerator {
    /// A generator that stands at the hash "0".
    pub fn new(batch_size: usize) -> (generator: PohGenerator)
        ensures
            generator@ == (PohGeneratorView { previous_hash: "0"@, batch_size }),
    {
        PohGenerator { previous_hash: String::from_str("0"), batch_size }
    }

    /// Makes one entry of `transactions`, stamped with `timestamp`, and
    /// moves the generator on to its hash. Once the entry is made, the
    /// performance records mark the hash the generator stood at; the mark
    /// is gone when the generator moves on, so the records enter neither
    /// the entry nor the hash the generator is left at.
    pub fn generate_entry_at(
        &mut self,
        transactions: Vec<String>,
        validator_performance: &Vec<ValidatorPerformance>,
        timestamp: i64,
    ) -> (outcome: Result<PohEntry, &'static str>)
        ensures
            final(self).batch_size == old(self).batch_size,
            match outcome {
                Ok(entry) => {
                    &&& checked_entry(
                        string_views(transactions@),
                        old(self).previous_hash@,
                        timestamp,
                    ) == Some(entry@)
                    &&& final(self).previous_hash@ == entry.hash@
                },
                Err(message) => {
                    &&& checked_entry(
                        string_views(transactions@),
                        old(self).previous_hash@,
                        timestamp,
                    ) is None
                    &&& message@ == entry_error(string_views(transactions@))
                    &&& final(self)@ == old(self)@
                },
            },
    {
        let mut i: usize = 0;
        while i < transactions.len()
            invariant
                i <= transactions.len(),
                forall|j: int| 0 <= j < i ==> (#[trigger] transactions@[j])@.len() > 0,
            decreases transactions.len() - i,
        {
            match PohEntry::validate_transaction(transactions[i].as_str()) {
                Ok(_) => {},
                Err(message) => {
                    assert(string_views(transactions@)[i as int].len() == 0);
                    return Err(message);
                },
            }
            i += 1;
        }
        assert(!has_empty_id(string_views(transactions@)));
        match PohEntry::new_at(transactions, self.previous_hash.as_str(), timestamp) {
            Some(entry) => {
                self.previous_hash = perturb(self.previous_hash.as_str(), validator_performance);
                self.previous_hash = entry.hash.clone();
                Ok(entry)
            },
            None => Err("Timestamp out of range"),
        }
    }

    /// Makes one entry of `transactions`, stamped with the current time.
    pub fn generate_entry(
        &mut self,
        transactions: Vec<String>,
        validator_performance: &Vec<ValidatorPerformance>,
    ) -> (outcome: Result<PohEntry, &'static str>)
        ensures
            final(self).batch_size == old(self).batch_size,
            match outcome {
                Ok(entry) => {
                    &&& checked_entry(
                        string_views(transactions@),
                        old(self).previous_hash@,
                        entry.timestamp,
                    ) == Some(entry@)
                    &&& final(self).previous_hash@ == entry.hash@
                },
                Err(message) => {
                    &&& final(self)@ == old(self)@
                    &&& message@ == entry_error(string_views(transactions@))
                },
            },
            has_empty_id(string_views(transactions@)) ==> outcome is Err,
    {
        let timestamp: i64 = unix_time_now();
        self.generate_entry_at(transactions, validator_performance, timestamp)
    }

    /// Makes one entry of every chunk of `batch_size` ids of `transactions`
    /// (the last chunk may be shorter), all stamped with `timestamp`, each
    /// following the one before it.
    pub fn generate_entries_at(
        &mut self,
        transactions: Vec<String>,
        validator_performance: &Vec<ValidatorPerformance>,
        timestamp: i64,
    ) -> (outcome: Result<Vec<PohEntry>, &'static str>)
        requires
            old(self).batch_size > 0,
        ensures
            final(self).batch_size == old(self).batch_size,
            transactions@.len() == 0 ==> {
                &&& outcome matches Err(message)
                &&& message@ == "No transactions provided"@
                &&& final(self)@ == old(self)@
            },
            transactions@.len() > 0 ==> {
                let run = run_chunks(
                    string_views(transactions@),
                    old(self).previous_hash@,
                    old(self).batch_size,
                    timestamp,
                );
                &&& final(self).previous_hash@ == run.previous_hash
                &&& match outcome {
                    Ok(entries) => run.error is None && entry_views(entries@) == run.entries,
                    Err(message) => run.error == Some(message@),
                }
            },
    {
        if transactions.len() == 0 {
            return Err("No transactions provided");
        }
        let ghost ids = string_views(transactions@);
        let ghost start = self.previous_hash@;
        let ghost whole = run_chunks(ids, start, self.batch_size, timestamp);
        let mut entries: Vec<PohEntry> = Vec::new();
        let mut i: usize = 0;
        assert(ids.skip(0) =~= ids);
        assert(entry_views(entries@) + whole.entries =~= whole.entries);
        while i < transactions.len()
            invariant
                i <= transactions.len(),
                self.batch_size == old(self).batch_size,
                self.batch_size > 0,
                ids == string_views(transactions@),
                start == old(self).previous_hash@,
                whole == run_chunks(ids, start, self.batch_size, timestamp),
                ({
                    let rest = run_chunks(
                        ids.skip(i as int),
                        self.previous_hash@,
                        self.batch_size,
                        timestamp,
                    );
                    &&& whole.entries == entry_views(entries@) + rest.entries
                    &&& whole.previous_hash == rest.previous_hash
                    &&& whole.error == rest.error
                }),
            decreases transactions.len() - i,
        {
            let remaining: usize = transactions.len() - i;
            let n: usize = if remaining < self.batch_size {
                remaining
            } else {
                self.batch_size
            };
            let mut chunk: Vec<String> = Vec::new();
            let mut k: usize = 0;
            while k < n
                invariant
                    k <= n,
                    i + n <= transactions.len(),
                    chunk@ == transactions@.subrange(i as int, i + k),
                decreases n - k,
            {
                chunk.push(transactions[i + k].clone());
                k += 1;
                assert(chunk@ =~= transactions@.subrange(i as int, i + k));
            }
            let ghost prev = self.previous_hash@;
            let ghost done = entry_views(entries@);
            let ghost chunk_ids = string_views(chunk@);
            proof {
                assert(ids.skip(i as int).len() == remaining);
                assert(n == chunk_len(ids.skip(i as int).len() as int, self.batch_size));
                assert(string_views(chunk@) =~= ids.skip(i as int).take(n as int));
                assert(ids.skip(i as int).skip(n as int) =~= ids.skip(i + n));
            }
            match self.generate_entry_at(chunk, validator_performance, timestamp) {
                Err(message) => {
                    proof {
                        let rest = run_chunks(
                            ids.skip(i as int),
                            prev,
                            self.batch_size,
                            timestamp,
                        );
                        assert(checked_entry(chunk_ids, prev, timestamp) is None);
                        assert(rest.error == Some(entry_error(chunk_ids)));
                        assert(rest.previous_hash == prev);
                    }
                    return Err(message);
                },
                Ok(entry) => {
                    proof {
                        assert(checked_entry(chunk_ids, prev, timestamp) == Some(entry@));
                        let rest = run_chunks(
                            ids.skip(i + n),
                            entry.hash@,
                            self.batch_size,
                            timestamp,
                        );
                        assert(entry_views(entries@.push(entry)) =~= done.push(entry@));
                        assert(done + (seq![entry@] + rest.entries) =~= done.push(entry@)
                            + rest.entries);
                    }
                    entries.push(entry);
                },
            }
            i += n;
        }
        assert(ids.skip(i as int) =~= Seq::<Seq<char>>::empty());
        assert(entry_views(entries@) + Seq::<PohEntryView>::empty() =~= entry_views(entries@));
        Ok(entries)
    }

    /// Makes one entry of every chunk of `batch_size` ids of `transactions`,
    /// all stamped with the current time.
    pub fn generate_entries(
        &mut self,
        transactions: Vec<String>,
        validator_performance: &Vec<ValidatorPerformance>,
    ) -> (outcome: Result<Vec<PohEntry>, &'static str>)
        requires
            old(self).batch_size > 0,
        ensures
            final(self).batch_size == old(self).batch_size,
            transactions@.len() == 0 ==> {
                &&& outcome matches Err(message)
                &&& message@ == "No transactions provided"@
                &&& final(self)@ == old(self)@
            },
            transactions@.len() > 0 ==> exists|timestamp: i64|
                {
                    let run = #[trigger] run_chunks(
                        string_views(transactions@),
                        old(self).previous_hash@,
                        old(self).batch_size,
                        timestamp,
                    );
                    &&& final(self).previous_hash@ == run.previous_hash
                    &&& match outcome {
                        Ok(entries) => run.error is None && entry_views(entries@) == run.entries,
                        Err(message) => run.error == Some(message@),
                    }
                },
    {
        let timestamp: i64 = unix_time_now();
        self.generate_entries_at(transactions, validator_performance, timestamp)
    }
}

} // verus!
