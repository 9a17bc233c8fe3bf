//! Times of modification: reading them from a record and holding them
//! against a window of days that ends now.

use crate::constants::{DATE_FORMAT, SECONDS_PER_DAY};
use crate::types::{text_of, FileInfo};
use chrono::{NaiveDateTime, Utc};
use vstd::prelude::*;

verus! {

/// The moment that a text names when it is read as `DATE_FORMAT` says, in
/// seconds since the start of 1970; `None` for a text that is not a time in
/// that format.
pub uninterp spec fn timestamp_of(text: Seq<char>) -> Option<i64>;

/// Reads a time with chrono's `NaiveDateTime::parse_from_str` and the format
/// `DATE_FORMAT`, and counts its seconds. Claimed of it, not proved: the
/// result depends on the text alone, which is what `timestamp_of` names.
#[verifier::external_body]
fn parse_timestamp(text: &str) -> (stamp: Option<i64>)
    ensures
        stamp == timestamp_of(text@),
{
    match NaiveDateTime::parse_from_str(text, DATE_FORMAT) {
        Ok(moment) => Some(moment.and_utc().timestamp()),
        Err(_) => None,
    }
}

/// The present moment by chrono's `Utc::now`, in seconds since the start of
/// 1970. Nothing is claimed of it: it is whatever the clock says. The clock
/// must not stand before 1970.
#[verifier::external_body]
pub(crate) fn current_timestamp() -> i64 {
    Utc::now().timestamp()
}

/// The moment at which a window of `days` days that ends at `now` begins.
pub open spec fn window_start(now: i64, days: u32) -> int {
    now - days * SECONDS_PER_DAY
}

/// The time lies inside the window: it is known and later than the
/// window's start.
pub open spec fn stamp_within(stamp: Option<i64>, now: i64, days: u32) -> bool {
    stamp matches Some(moment) && moment > window_start(now, days)
}

/// The time lies before the window: it is known and earlier than the
/// window's start.
pub open spec fn stamp_before(stamp: Option<i64>, now: i64, days: u32) -> bool {
    stamp matches Some(moment) && moment < window_start(now, days)
}

/// The time at which a file was last modified, where its record holds one
/// that can be read.
pub open spec fn modified_at(file: FileInfo) -> Option<i64> {
    match text_of(file.last_modified) {
        Some(text) => timestamp_of(text),
        None => None,
    }
}

/// Computes the moment at which the window of `days` days before `now`
/// begins.
pub fn start_of_window(now: i64, days: u32) -> (start: i128)
    ensures
        start == window_start(now, days),
{
    let day: i128 = SECONDS_PER_DAY as i128;
    assert((days as i128) * day == days * 86_400) by (nonlinear_arith)
        requires
            day == 86_400,
    ;
    let span: i128 = (days as i128) * day;
    now as i128 - span
}

/// Tells whether a time lies inside the window of `days` days before `now`.
/// An unknown time lies in no window.
pub fn is_within_window(stamp: Option<i64>, now: i64, days: u32) -> (within: bool)
    ensures
        within == stamp_within(stamp, now, days),
{
    match stamp {
        Some(moment) => {
            (moment as i128) > start_of_window(now, days)
        },
        None => false,
    }
}

/// Tells whether a time lies before the window of `days` days before `now`.
/// An unknown time lies before no window.
pub fn is_before_window(stamp: Option<i64>, now: i64, days: u32) -> (before: bool)
    ensures
        before == stamp_before(stamp, now, days),
{
    match stamp {
        Some(moment) => {
            (moment as i128) < start_of_window(now, days)
        },
        None => false,
    }
}

/// Reads the time of the last modification from a file's record.
pub fn modification_time(file: &FileInfo) -> (stamp: Option<i64>)
    ensures
        stamp == modified_at(*file),
{
    match &file.last_modified {
        Some(text) => parse_timestamp(text.as_str()),
        None => None,
    }
}

} // verus!
