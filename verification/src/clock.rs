//! The system clock and calendar text for timestamps.

use chrono::{DateTime, Utc};
use vstd::prelude::*;

verus! {

/// The text `YYYY-MM-DD HH:MM:SS` that `chrono` gives for the UTC instant
/// `secs` seconds after the Unix epoch, or `None` where `chrono` cannot
/// represent that instant.
pub uninterp spec fn utc_text(secs: i64) -> Option<Seq<char>>;

/// Reads the system clock with `chrono::Utc::now` and returns
/// `DateTime::timestamp`: whole seconds since the Unix epoch. Trusted, and
/// nothing is claimed of the value.
#[verifier::external_body]
pub(crate) fn unix_time_now() -> (secs: i64) {
    Utc::now().timestamp()
}

/// Builds the instant with `chrono::DateTime::from_timestamp(secs, 0)` and
/// renders it with `DateTime::format("%Y-%m-%d %H:%M:%S")`. Trusted: the
/// outcome depends on `secs` alone.
#[verifier::external_body]
pub(crate) fn format_utc(secs: i64) -> (text: Option<String>)
    ensures
        match text {
            Some(s) => utc_text(secs) == Some(s@),
            None => utc_text(secs) is None,
        },
{
    match DateTime::from_timestamp(secs, 0) {
        Some(instant) => Some(instant.format("%Y-%m-%d %H:%M:%S").to_string()),
        None => None,
    }
}

/// Seconds from `since` to `now`, and zero where the clock went backwards.
pub open spec fn elapsed_seconds(now: i64, since: i64) -> int {
    if now >= since {
        now - since
    } else {
        0
    }
}

/// Whether at least `threshold` seconds lie between `since` and `now`.
pub fn has_elapsed(now: i64, since: i64, threshold: u64) -> (reached: bool)
    ensures
        reached == (elapsed_seconds(now, since) >= threshold),
{
    if now >= since {
        let elapsed: i128 = now as i128 - since as i128;
        elapsed >= threshold as i128
    } else {
        threshold == 0
    }
}

} // verus!
