//! One proof-of-history entry.

use vstd::prelude::*;
use vstd::string::*;
use vstd::utf8::encode_utf8;
use crate::clock::{format_utc, unix_time_now, utc_text};
use crate::hashing::{clone_strings, concat_utf8, push_all_utf8, push_utf8, sha256_hex, sha256_hex_text, string_views};
use crate::text::{push_signed_decimal, signed_decimal_digits};

verus! {

/// A batch of transaction ids bound to the hash that preceded it and to the
/// moment it was made.
#[derive(Debug)]
pub struct PohEntry {
    pub transactions: Vec<String>,
    pub timestamp: i64,
    pub readable_timestamp: String,
    pub hash: String,
}

/// The mathematical content of a [`PohEntry`].
pub struct PohEntryView {
    pub transactions: Seq<Seq<char>>,
    pub timestamp: i64,
    pub readable_timestamp: Seq<char>,
    pub hash: Seq<char>,
}

impl View for PohEntry {
    type V = PohEntryView;

    open spec fn view(&self) -> PohEntryView {
        PohEntryView {
            transactions: string_views(self.transactions@),
            timestamp: self.timestamp,
            readable_timestamp: self.readable_timestamp@,
            hash: self.hash@,
        }
    }
}

/// The bytes that an entry's hash is taken over: every transaction id, then
/// the previous hash, then the timestamp in decimal.
pub open spec fn entry_preimage(
    transactions: Seq<Seq<char>>,
    prev_hash: Seq<char>,
    timestamp: i64,
) -> Seq<u8> {
    concat_utf8(transactions) + encode_utf8(prev_hash) + signed_decimal_digits(timestamp as int)
}

/// The hash of the entry over `transactions` that follows `prev_hash` at `timestamp`.
pub open spec fn entry_hash(
    transactions: Seq<Seq<char>>,
    prev_hash: Seq<char>,
    timestamp: i64,
) -> Seq<char> {
    sha256_hex_text(entry_preimage(transactions, prev_hash, timestamp))
}

/// The entry over `transactions` that follows `prev_hash` at `timestamp`;
/// there is none where the timestamp has no calendar text.
pub open spec fn entry_at(
    transactions: Seq<Seq<char>>,
    prev_hash: Seq<char>,
    timestamp: i64,
) -> Option<PohEntryView> {
    match utc_text(timestamp) {
        Some(text) => Some(
            PohEntryView {
                transactions,
                timestamp,
                readable_timestamp: text,
                hash: entry_hash(transactions, prev_hash, timestamp),
            },
        ),
        None => None,
    }
}

/// The view of an optional entry.
pub open spec fn entry_option_view(entry: Option<PohEntry>) -> Option<PohEntryView> {
    match entry {
        Some(e) => Some(e@),
        None => None,
    }
}

impl PohEntry {
    /// Builds the entry over `transactions` that follows `prev_hash`,
    /// stamped with `timestamp`.
    pub fn new_at(transactions: Vec<String>, prev_hash: &str, timestamp: i64) -> (entry: Option<
        PohEntry,
    >)
        ensures
            entry_option_view(entry) == entry_at(
                string_views(transactions@),
                prev_hash@,
                timestamp,
            ),
    {
        match format_utc(timestamp) {
            None => None,
            Some(readable_timestamp) => {
                let mut preimage: Vec<u8> = Vec::new();
                push_all_utf8(&mut preimage, &transactions);
                push_utf8(&mut preimage, prev_hash);
                push_signed_decimal(&mut preimage, timestamp);
                assert(preimage@ =~= entry_preimage(
                    string_views(transactions@),
                    prev_hash@,
                    timestamp,
                ));
                let hash = sha256_hex(&preimage);
                Some(PohEntry { transactions, timestamp, readable_timestamp, hash })
            },
        }
    }

    /// Builds the entry over `transactions` that follows `prev_hash`,
    /// stamped with the current time.
    pub fn new(transactions: Vec<String>, prev_hash: &str) -> (entry: Option<PohEntry>)
        ensures
            exists|timestamp: i64|
                entry_option_view(entry) == #[trigger] entry_at(
                    string_views(transactions@),
                    prev_hash@,
                    timestamp,
                ),
    {
        let timestamp = unix_time_now();
        PohEntry::new_at(transactions, prev_hash, timestamp)
    }

    /// Accepts a transaction id unless it is empty.
    pub fn validate_transaction(tx: &str) -> (outcome: Result<(), &'static str>)
        ensures
            outcome is Ok <==> tx@.len() > 0,
            outcome matches Err(message) ==> message@ == "Transaction is empty"@,
    {
        if tx.is_empty() {
            return Err("Transaction is empty");
        }
        Ok(())
    }

    /// A copy of this entry.
    pub fn duplicate(&self) -> (copy: PohEntry)
        ensures
            copy@ == self@,
    {
        let transactions = clone_strings(&self.transactions);
        PohEntry {
            transactions,
            timestamp: self.timestamp,
            readable_timestamp: self.readable_timestamp.clone(),
            hash: self.hash.clone(),
        }
    }
}

} // verus!
