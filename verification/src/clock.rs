//! Wall-clock readings and their rendering, through `chrono`; random draws
//! and identifiers, through `rand` and `uuid`.

use vstd::prelude::*;
use chrono::{DateTime, Datelike, NaiveDate, Timelike, Utc};
use crate::text::{decimal, zero_pad};

verus! {

/// An instant: whole seconds since the Unix epoch and the nanoseconds past them.
#[derive(Clone, Copy, Debug, PartialEq, Eq)]
pub struct Timestamp {
    pub secs: i64,
    pub nanos: u32,
}

/// Whether an instant lies in the range the calendar handles: less than a
/// second of nanoseconds, and within about 250,000 years of the epoch.
pub open spec fn valid_timestamp(t: Timestamp) -> bool {
    t.nanos < 1_000_000_000 && -8_000_000_000_000 <= t.secs <= 8_000_000_000_000
}

/// Whether `a` is later than `b`.
pub open spec fn later_than(a: Timestamp, b: Timestamp) -> bool {
    a.secs > b.secs || (a.secs == b.secs && a.nanos > b.nanos)
}

/// The RFC 3339 text of an instant in UTC (what `DateTime::to_rfc3339` gives).
pub uninterp spec fn rfc3339_text(secs: i64, nanos: u32) -> Seq<char>;

/// The UTC date and time of an instant as `YYYYMMDDhhmmss`.
pub uninterp spec fn compact_datetime_text(secs: i64, nanos: u32) -> Seq<char>;

/// The current time: `Utc::now`, read as seconds and nanoseconds.
/// Nothing is claimed of which instant comes back but that it is in range.
#[verifier::external_body]
pub(crate) fn now() -> (t: Timestamp)
    ensures
        valid_timestamp(t),
{
    let n = Utc::now();
    Timestamp { secs: n.timestamp(), nanos: n.timestamp_subsec_nanos() }
}

/// The hour of the day in UTC: `Timelike::hour` of the instant, which is
/// the number of whole hours since the last midnight.
#[verifier::external_body]
pub(crate) fn utc_hour(t: Timestamp) -> (h: u32)
    requires
        valid_timestamp(t),
    ensures
        h as int == (t.secs as int % 86400) / 3600,
{
    DateTime::from_timestamp(t.secs, t.nanos).unwrap().hour()
}

/// `DateTime::to_rfc3339` of the instant in UTC.
#[verifier::external_body]
pub(crate) fn to_rfc3339(t: Timestamp) -> (s: String)
    requires
        valid_timestamp(t),
    ensures
        s@ == rfc3339_text(t.secs, t.nanos),
{
    DateTime::from_timestamp(t.secs, t.nanos).unwrap().to_rfc3339()
}

/// `DateTime::format` of the instant with `%Y%m%d%H%M%S`.
#[verifier::external_body]
pub(crate) fn to_compact_datetime(t: Timestamp) -> (s: String)
    requires
        valid_timestamp(t),
    ensures
        s@ == compact_datetime_text(t.secs, t.nanos),
{
    DateTime::from_timestamp(t.secs, t.nanos).unwrap().format("%Y%m%d%H%M%S").to_string()
}

/// A uniformly random 64-bit value: `rand::random::<u64>()`. Nothing is
/// claimed of the value.
#[verifier::external_body]
pub(crate) fn random_u64() -> u64 {
    rand::random::<u64>()
}

/// Whether a character is a lower-case hexadecimal digit or a hyphen.
pub open spec fn is_uuid_char(c: char) -> bool {
    ('0' <= c <= '9') || ('a' <= c <= 'f') || c == '-'
}

/// A fresh random (version 4) UUID in its hyphenated lower-case form:
/// `Uuid::new_v4().to_string()`, which is 36 characters long, each a
/// lower-case hexadecimal digit or a hyphen. Nothing else is claimed.
#[verifier::external_body]
pub(crate) fn new_uuid() -> (s: String)
    ensures
        s@.len() == 36,
        forall|i: int| 0 <= i < 36 ==> is_uuid_char(#[trigger] s@[i]),
{
    uuid::Uuid::new_v4().to_string()
}


/// The `YYYY-MM-DD` text of a date: the year zero-padded to four digits,
/// the month and the day to two.
pub open spec fn iso_date_text(y: int, m: int, d: int) -> Seq<char> {
    zero_pad(decimal(y as nat), 4) + "-"@ + zero_pad(decimal(m as nat), 2) + "-"@ + zero_pad(decimal(d as nat), 2)
}

/// Whether `y-m-d` has a four-digit year, a month from 1 to 12 and a day
/// from 1 to 31.
pub open spec fn plain_date(y: int, m: int, d: int) -> bool {
    0 <= y <= 9999 && 1 <= m <= 12 && 1 <= d <= 31
}

/// Whether the date `y1-m1-d1` comes after the date `y0-m0-d0`.
pub open spec fn date_comes_after(y1: int, m1: int, d1: int, y0: int, m0: int, d0: int) -> bool {
    y1 > y0 || (y1 == y0 && (m1 > m0 || (m1 == m0 && d1 > d0)))
}

/// Whether `s` is the `YYYY-MM-DD` text of a date after `y-m-d`.
pub open spec fn iso_text_after(s: Seq<char>, y: int, m: int, d: int) -> bool {
    exists|y1: int, m1: int, d1: int|
        plain_date(y1, m1, d1) && date_comes_after(y1, m1, d1, y, m, d) && s == #[trigger] iso_date_text(y1, m1, d1)
}

/// A number below `10^k` has at most `k` decimal digits.
pub proof fn lemma_decimal_at_most(n: nat, k: nat, bound: nat)
    requires
        k >= 1,
        bound == crate::credit::pow10(k),
        n < bound,
    ensures
        decimal(n).len() <= k,
    decreases k,
{
    if n >= 10 {
        assert(k >= 2) by {
            if k == 1 {
                assert(crate::credit::pow10(1) == 10 * crate::credit::pow10(0));
            }
        }
        let b2 = crate::credit::pow10((k - 1) as nat);
        assert(bound == 10 * b2);
        assert(n / 10 < b2) by (nonlinear_arith)
            requires
                n < 10 * b2,
        ;
        lemma_decimal_at_most(n / 10, (k - 1) as nat, b2);
    }
}

/// The `YYYY-MM-DD` text of a date with a four-digit year is ten
/// characters long.
pub proof fn lemma_iso_date_text_len(y: int, m: int, d: int)
    requires
        plain_date(y, m, d),
    ensures
        iso_date_text(y, m, d).len() == 10,
{
    reveal_with_fuel(crate::credit::pow10, 5);
    lemma_decimal_at_most(y as nat, 4, 10000);
    lemma_decimal_at_most(m as nat, 2, 100);
    lemma_decimal_at_most(d as nat, 2, 100);
    reveal_strlit("-");
}

/// The `YYYY-MM-DD` text of the date `days` days after the date `y-m-d`
/// (what `NaiveDate + Duration::days` formatted with `%Y-%m-%d` gives).
pub uninterp spec fn date_after_days_text(y: i32, m: u32, d: u32, days: i64) -> Seq<char>;

/// The `YYYY-MM-DD` text of the UTC date `days` days after an instant.
pub uninterp spec fn utc_date_after_days_text(secs: i64, nanos: u32, days: i64) -> Seq<char>;

/// `NaiveDate::from_ymd_opt(y, m, d)` formatted with `%Y-%m-%d`: the year
/// zero-padded to four digits, the month and the day to two. The date is
/// valid for the days asked for (1 to 28 exist in every month).
#[verifier::external_body]
pub(crate) fn format_ymd(y: i32, m: u32, d: u32) -> (s: String)
    requires
        0 <= y <= 9999,
        1 <= m <= 12,
        1 <= d <= 28,
    ensures
        s@ == iso_date_text(y as int, m as int, d as int),
{
    NaiveDate::from_ymd_opt(y, m, d).unwrap().format("%Y-%m-%d").to_string()
}

/// The date `y-m-d` plus `Duration::days(days)`, formatted with `%Y-%m-%d`.
/// Claimed of it beyond its name: for at least one day added, the text is
/// that of a later date, its year zero-padded to four digits and its month
/// and day to two (a hundred thousand days keep the year below 10000).
#[verifier::external_body]
pub(crate) fn format_ymd_after_days(y: i32, m: u32, d: u32, days: i64) -> (s: String)
    requires
        0 <= y <= 9000,
        1 <= m <= 12,
        1 <= d <= 28,
        0 <= days <= 100_000,
    ensures
        s@ == date_after_days_text(y, m, d, days),
        days >= 1 ==> iso_text_after(s@, y as int, m as int, d as int),
{
    (NaiveDate::from_ymd_opt(y, m, d).unwrap() + chrono::Duration::days(days)).format("%Y-%m-%d").to_string()
}

/// The instant plus `Duration::days(days)`, its UTC date formatted with
/// `%Y-%m-%d`.
#[verifier::external_body]
pub(crate) fn format_utc_date_after_days(t: Timestamp, days: i64) -> (s: String)
    requires
        valid_timestamp(t),
        0 <= days <= 100_000,
    ensures
        s@ == utc_date_after_days_text(t.secs, t.nanos, days),
{
    (DateTime::from_timestamp(t.secs, t.nanos).unwrap() + chrono::Duration::days(days)).format("%Y-%m-%d").to_string()
}


/// The date `NaiveDate::parse_from_str(s, fmt)` reads from a text with a
/// `strftime` format, as year, month and day; `None` when it reads none.
pub uninterp spec fn parsed_date(s: Seq<char>, fmt: Seq<char>) -> Option<(i32, u32, u32)>;

/// The date read from a `YYYY-MM-DD` text.
pub open spec fn parsed_iso_date(s: Seq<char>) -> Option<(i32, u32, u32)> {
    parsed_date(s, "%Y-%m-%d"@)
}

/// The local date of the instant an RFC 3339 text gives
/// (`DateTime::parse_from_rfc3339(s)` then `date_naive`), as year, month and
/// day; `None` when the text is not RFC 3339.
pub uninterp spec fn rfc3339_local_date(s: Seq<char>) -> Option<(i32, u32, u32)>;

/// `NaiveDate::parse_from_str(s, fmt)`, as year, month and day.
#[verifier::external_body]
pub(crate) fn parse_date(s: &str, fmt: &str) -> (r: Option<(i32, u32, u32)>)
    ensures
        r == parsed_date(s@, fmt@),
{
    match NaiveDate::parse_from_str(s, fmt) {
        Ok(d) => Some((d.year(), d.month(), d.day())),
        Err(_) => None,
    }
}

/// Reads a `YYYY-MM-DD` date.
pub(crate) fn parse_iso_date(s: &str) -> (r: Option<(i32, u32, u32)>)
    ensures
        r == parsed_iso_date(s@),
{
    parse_date(s, "%Y-%m-%d")
}

/// `DateTime::parse_from_rfc3339(s)` and its local date, as year, month and day.
#[verifier::external_body]
pub(crate) fn parse_rfc3339_date(s: &str) -> (r: Option<(i32, u32, u32)>)
    ensures
        r == rfc3339_local_date(s@),
{
    match DateTime::parse_from_rfc3339(s) {
        Ok(dt) => {
            let d = dt.date_naive();
            Some((d.year(), d.month(), d.day()))
        },
        Err(_) => None,
    }
}


/// The text `Display` gives for an instant in UTC
/// (`2024-01-01 10:00:00.123456789 UTC`).
pub uninterp spec fn utc_display_text(secs: i64, nanos: u32) -> Seq<char>;

/// `DateTime::<Utc>::to_string` of the instant.
#[verifier::external_body]
pub(crate) fn to_display_text(t: Timestamp) -> (s: String)
    requires
        valid_timestamp(t),
    ensures
        s@ == utc_display_text(t.secs, t.nanos),
{
    DateTime::from_timestamp(t.secs, t.nanos).unwrap().to_string()
}

} // verus!
