//! Calendar dates of timestamps, and their day-month-year rendering.
use vstd::prelude::*;
use chrono::{DateTime, Datelike, FixedOffset};
use crate::text::{padded, padded_chars};

verus! {

/// The offset of the reporting time zone from UTC, in seconds (UTC+7).
pub const REPORT_OFFSET_SECS: i32 = 25200;

/// The calendar date (year, month, day) at UTC offset `offset_secs` of the
/// instant `millis` milliseconds after the Unix epoch, or `None` where the
/// instant lies outside the representable range of dates.
pub uninterp spec fn civil_date_of(millis: i64, offset_secs: i32) -> Option<(i32, u32, u32)>;

/// Relies on chrono's `DateTime::from_timestamp_millis` (`None` outside the
/// representable range), `FixedOffset::east_opt` (`Some` for offsets under a
/// day), `DateTime::with_timezone`, and `Datelike::{year, month, day}`
/// (months counted from 1 to 12, days from 1 to 31).
#[verifier::external_body]
fn civil_date(millis: i64, offset_secs: i32) -> (r: Option<(i32, u32, u32)>)
    requires
        -86_400 < offset_secs < 86_400,
    ensures
        r == civil_date_of(millis, offset_secs),
        r matches Some((y, m, d)) ==> 1 <= m <= 12 && 1 <= d <= 31,
{
    let zone = FixedOffset::east_opt(offset_secs).unwrap();
    match DateTime::from_timestamp_millis(millis) {
        Some(t) => {
            let local = t.with_timezone(&zone);
            Some((local.year(), local.month(), local.day()))
        },
        None => None,
    }
}

/// The year as four digits when it lies in 0..=9999; otherwise its sign
/// followed by at least four digits.
pub open spec fn year_text(year: int) -> Seq<char> {
    if 0 <= year <= 9999 {
        padded(year as nat, 4)
    } else if year > 9999 {
        seq!['+'] + padded(year as nat, 4)
    } else {
        seq!['-'] + padded((-year) as nat, 4)
    }
}

/// A date as `dd-mm-yyyy`.
pub open spec fn date_text(year: int, month: int, day: int) -> Seq<char> {
    padded(day as nat, 2) + seq!['-'] + padded(month as nat, 2) + seq!['-'] + year_text(year)
}

/// The `dd-mm-yyyy` rendering of a calendar date.
pub fn format_civil_date(year: i32, month: u32, day: u32) -> (r: Vec<char>)
    ensures
        r@ == date_text(year as int, month as int, day as int),
{
    let mut r = padded_chars(day as u64, 2);
    r.push('-');
    let mut m = padded_chars(month as u64, 2);
    r.append(&mut m);
    r.push('-');
    let mut y = if 0 <= year && year <= 9999 {
        padded_chars(year as u64, 4)
    } else if year > 9999 {
        let mut s: Vec<char> = Vec::new();
        s.push('+');
        let mut digits = padded_chars(year as u64, 4);
        s.append(&mut digits);
        s
    } else {
        let mut s: Vec<char> = Vec::new();
        s.push('-');
        let magnitude: u64 = (-(year as i64)) as u64;
        let mut digits = padded_chars(magnitude, 4);
        s.append(&mut digits);
        s
    };
    r.append(&mut y);
    proof {
        assert(r@ == date_text(year as int, month as int, day as int));
    }
    r
}

/// The date text of a timestamp in the reporting time zone, if its date is
/// representable.
pub open spec fn report_date_of(millis: i64) -> Option<Seq<char>> {
    match civil_date_of(millis, REPORT_OFFSET_SECS) {
        Some((y, m, d)) => Some(date_text(y as int, m as int, d as int)),
        None => None,
    }
}

/// The `dd-mm-yyyy` date of `millis` in the reporting time zone (UTC+7), or
/// `None` where the timestamp has no representable date.
pub fn report_date(millis: i64) -> (r: Option<Vec<char>>)
    ensures
        match r {
            Some(v) => report_date_of(millis) == Some(v@),
            None => report_date_of(millis) is None,
        },
{
    match civil_date(millis, REPORT_OFFSET_SECS) {
        Some((y, m, d)) => Some(format_civil_date(y, m, d)),
        None => None,
    }
}

} // verus!
