//! Calendar dates and times of day as the service reads and writes them
//! (proleptic Gregorian, no time zone).
use chrono::{Datelike, Timelike};
use vstd::prelude::*;
use vstd::string::*;

use crate::text::{all_digits, decimal, digits_value, zero_padded};
use crate::users::{lemma_decimal_digits, lemma_leading_zeros};

verus! {

/// Earliest year a date can have.
pub const MIN_YEAR: i32 = -262143i32;

/// Latest year a date can have.
pub const MAX_YEAR: i32 = 262142i32;

/// A date and a time of day. The nanosecond may reach two seconds' worth on the
/// 59th second, which is how a leap second is held.
#[derive(Clone, Copy, Debug, PartialEq, Eq, Structural)]
pub struct DateTimeParts {
    pub year: i32,
    pub month: u32,
    pub day: u32,
    pub hour: u32,
    pub minute: u32,
    pub second: u32,
    pub nanosecond: u32,
}

/// Whether a year of the proleptic Gregorian calendar has 366 days.
pub open spec fn is_leap_year(y: int) -> bool {
    y % 4 == 0 && (y % 100 != 0 || y % 400 == 0)
}

/// The number of days of a month.
pub open spec fn days_in_month(y: int, m: int) -> int {
    if m == 2 {
        if is_leap_year(y) {
            29
        } else {
            28
        }
    } else if m == 4 || m == 6 || m == 9 || m == 11 {
        30
    } else {
        31
    }
}

/// A date that exists, within the supported years.
pub open spec fn valid_date(y: i32, m: u32, d: u32) -> bool {
    &&& MIN_YEAR <= y <= MAX_YEAR
    &&& 1 <= m <= 12
    &&& 1 <= d <= days_in_month(y as int, m as int)
}

/// A time of day that exists.
pub open spec fn valid_time(h: u32, mi: u32, s: u32, ns: u32) -> bool {
    &&& h < 24 && mi < 60 && s < 60
    &&& ns < 1_000_000_000 || (s == 59 && ns < 2_000_000_000)
}

/// A date and time that exist.
pub open spec fn valid_parts(p: DateTimeParts) -> bool {
    valid_date(p.year, p.month, p.day) && valid_time(p.hour, p.minute, p.second, p.nanosecond)
}

/// The date at midnight.
pub open spec fn start_of_day(y: i32, m: u32, d: u32) -> DateTimeParts {
    DateTimeParts { year: y, month: m, day: d, hour: 0, minute: 0, second: 0, nanosecond: 0 }
}

/// The date at 23:59:59.
pub open spec fn end_of_day(y: i32, m: u32, d: u32) -> DateTimeParts {
    DateTimeParts { year: y, month: m, day: d, hour: 23, minute: 59, second: 59, nanosecond: 0 }
}

/// A date at a time given in hours, minutes and seconds (`NaiveDate::and_hms_opt` on
/// a time that exists).
pub fn at_time(y: i32, m: u32, d: u32, h: u32, mi: u32, s: u32) -> (p: DateTimeParts)
    requires
        valid_date(y, m, d),
        h < 24 && mi < 60 && s < 60,
    ensures
        valid_parts(p),
        p == (DateTimeParts { year: y, month: m, day: d, hour: h, minute: mi, second: s, nanosecond: 0 }),
{
    DateTimeParts { year: y, month: m, day: d, hour: h, minute: mi, second: s, nanosecond: 0 }
}

// ---------------------------------------------------------------------------
// Writing dates
// ---------------------------------------------------------------------------

/// `%Y`: the year with at least four digits, zero-padded; outside 0..=9999 it
/// carries its sign.
pub open spec fn year_text(y: int) -> Seq<char> {
    if 0 <= y <= 9999 {
        zero_padded(decimal(y as nat), 4)
    } else if y < 0 {
        seq!['-'] + zero_padded(decimal((-y) as nat), 4)
    } else {
        seq!['+'] + zero_padded(decimal(y as nat), 4)
    }
}

/// `%m`, `%d`, `%H`, `%M`: two digits, zero-padded.
pub open spec fn two_digits(v: int) -> Seq<char> {
    zero_padded(decimal(v as nat), 2)
}

/// `%Y-%m-%d`.
pub open spec fn ymd_label(y: i32, m: u32, d: u32) -> Seq<char> {
    year_text(y as int) + "-"@ + two_digits(m as int) + "-"@ + two_digits(d as int)
}

/// `%d/%m/%Y %H:%M`.
pub open spec fn dmy_hm_label(p: DateTimeParts) -> Seq<char> {
    two_digits(p.day as int) + "/"@ + two_digits(p.month as int) + "/"@ + year_text(p.year as int)
        + " "@ + two_digits(p.hour as int) + ":"@ + two_digits(p.minute as int)
}

/// Calls `chrono::NaiveDate::format("%Y-%m-%d")` on the date. chrono writes `%Y` as
/// the year zero-padded to four digits, with its sign when outside 0..=9999, and
/// `%m`, `%d` as two zero-padded digits (its documentation and source say so).
#[verifier::external_body]
pub(crate) fn date_label(y: i32, m: u32, d: u32) -> (s: String)
    requires
        valid_date(y, m, d),
    ensures
        s@ == ymd_label(y, m, d),
{
    chrono::NaiveDate::from_ymd_opt(y, m, d).unwrap().format("%Y-%m-%d").to_string()
}

/// Calls `chrono::NaiveDateTime::format("%d/%m/%Y %H:%M")`, with the padding rules
/// of `date_label`; seconds are not written, so the time is built at second 0.
#[verifier::external_body]
pub(crate) fn day_month_year_time_label(p: &DateTimeParts) -> (s: String)
    requires
        valid_parts(*p),
    ensures
        s@ == dmy_hm_label(*p),
{
    chrono::NaiveDate::from_ymd_opt(p.year, p.month, p.day).unwrap().and_hms_opt(
        p.hour,
        p.minute,
        0,
    ).unwrap().format("%d/%m/%Y %H:%M").to_string()
}

// ---------------------------------------------------------------------------
// Reading dates
// ---------------------------------------------------------------------------

/// What `chrono::NaiveDate::parse_from_str(s, "%Y-%m-%d")` gives: year, month and day,
/// or the text of its error.
pub uninterp spec fn date_parse_outcome(s: Seq<char>) -> Result<(i32, u32, u32), Seq<char>>;

/// What `chrono::NaiveDateTime::parse_from_str(s, fmt)` gives: the date and time as
/// year, month, day, hour, minute, second, nanosecond, or the text of its error.
pub uninterp spec fn datetime_parse_outcome(s: Seq<char>, fmt: Seq<char>) -> Result<
    (i32, u32, u32, u32, u32, u32, u32),
    Seq<char>,
>;

/// Calls `chrono::NaiveDate::parse_from_str(s, "%Y-%m-%d")`, taking the error by its
/// `Display` text. The outcome is a function of the text alone, named
/// `date_parse_outcome`; which texts parse is not stated here. A date that comes
/// back exists (a `NaiveDate` is always a valid date).
#[verifier::external_body]
pub(crate) fn parse_date(s: &str) -> (r: Result<(i32, u32, u32), String>)
    ensures
        match r {
            Ok(v) => date_parse_outcome(s@) == Ok::<(i32, u32, u32), Seq<char>>(v) && valid_date(
                v.0,
                v.1,
                v.2,
            ),
            Err(e) => date_parse_outcome(s@) == Err::<(i32, u32, u32), Seq<char>>(e@),
        },
{
    match chrono::NaiveDate::parse_from_str(s, "%Y-%m-%d") {
        Ok(d) => Ok((d.year(), d.month(), d.day())),
        Err(e) => Err(e.to_string()),
    }
}

/// Calls `chrono::NaiveDateTime::parse_from_str(s, fmt)`, taking the error by its
/// `Display` text. The outcome is a function of the text and the format alone, named
/// `datetime_parse_outcome`; which texts parse is not stated here. A date and time
/// that come back exist (a `NaiveDateTime` always holds a valid date and time).
#[verifier::external_body]
pub(crate) fn parse_datetime(s: &str, fmt: &str) -> (r: Result<DateTimeParts, String>)
    ensures
        match r {
            Ok(p) => valid_parts(p) && datetime_parse_outcome(s@, fmt@) == Ok::<
                (i32, u32, u32, u32, u32, u32, u32),
                Seq<char>,
            >((p.year, p.month, p.day, p.hour, p.minute, p.second, p.nanosecond)),
            Err(e) => datetime_parse_outcome(s@, fmt@) == Err::<
                (i32, u32, u32, u32, u32, u32, u32),
                Seq<char>,
            >(e@),
        },
{
    match chrono::NaiveDateTime::parse_from_str(s, fmt) {
        Ok(t) => Ok(
            DateTimeParts {
                year: t.year(),
                month: t.month(),
                day: t.day(),
                hour: t.hour(),
                minute: t.minute(),
                second: t.second(),
                nanosecond: t.nanosecond(),
            },
        ),
        Err(e) => Err(e.to_string()),
    }
}

/// The Gregorian calendar: February has 29 days in a year divisible by 4 but not by
/// 100, or divisible by 400, and 28 otherwise; April, June, September and November
/// have 30 days; the other months 31.
pub proof fn lemma_calendar(y: int, m: int)
    ensures
        m == 2 && y % 4 == 0 && (y % 100 != 0 || y % 400 == 0) ==> days_in_month(y, m) == 29,
        m == 2 && !(y % 4 == 0 && (y % 100 != 0 || y % 400 == 0)) ==> days_in_month(y, m) == 28,
        (m == 4 || m == 6 || m == 9 || m == 11) ==> days_in_month(y, m) == 30,
        (m == 1 || m == 3 || m == 5 || m == 7 || m == 8 || m == 10 || m == 12) ==> days_in_month(
            y,
            m,
        ) == 31,
        is_leap_year(y) <==> days_in_month(y, 2) == 29,
{
}

proof fn lemma_padded_reads(n: nat, w: nat)
    requires
        decimal(n).len() <= w,
    ensures
        zero_padded(decimal(n), w).len() == w,
        all_digits(zero_padded(decimal(n), w)),
        digits_value(zero_padded(decimal(n), w)) == n,
{
    lemma_decimal_digits(n);
    let d = decimal(n);
    if d.len() < w {
        lemma_leading_zeros((w - d.len()) as nat, d);
    }
}

proof fn lemma_decimal_len(n: nat)
    ensures
        n < 10 ==> decimal(n).len() == 1,
        n < 100 ==> decimal(n).len() <= 2,
        n < 10000 ==> decimal(n).len() <= 4,
{
    reveal_with_fuel(decimal, 5);
    if n >= 10 {
        assert(decimal(n).len() == decimal(n / 10).len() + 1);
        if n / 10 >= 10 {
            assert(decimal(n / 10).len() == decimal(n / 100).len() + 1);
            if n / 100 >= 10 {
                assert(decimal(n / 100).len() == decimal(n / 1000).len() + 1);
            }
        }
    }
}

/// A day label of a four-digit year is ten characters: the year in four digits, `-`,
/// the month in two digits, `-`, the day in two digits; each part reads back as the
/// year, month and day it was written from.
pub proof fn lemma_day_label_reads_back(y: i32, m: u32, d: u32)
    requires
        0 <= y <= 9999,
        1 <= m <= 12,
        1 <= d <= 31,
    ensures
        ymd_label(y, m, d).len() == 10,
        ymd_label(y, m, d)[4] == '-',
        ymd_label(y, m, d)[7] == '-',
        all_digits(ymd_label(y, m, d).subrange(0, 4)),
        digits_value(ymd_label(y, m, d).subrange(0, 4)) == y,
        all_digits(ymd_label(y, m, d).subrange(5, 7)),
        digits_value(ymd_label(y, m, d).subrange(5, 7)) == m,
        all_digits(ymd_label(y, m, d).subrange(8, 10)),
        digits_value(ymd_label(y, m, d).subrange(8, 10)) == d,
{
    lemma_decimal_len(y as nat);
    lemma_decimal_len(m as nat);
    lemma_decimal_len(d as nat);
    lemma_padded_reads(y as nat, 4);
    lemma_padded_reads(m as nat, 2);
    lemma_padded_reads(d as nat, 2);
    let yt = year_text(y as int);
    let mt = two_digits(m as int);
    let dt = two_digits(d as int);
    let l = ymd_label(y, m, d);
    assert(l =~= yt + "-"@ + mt + "-"@ + dt);
    reveal_strlit("-");
    assert(l.subrange(0, 4) =~= yt);
    assert(l.subrange(5, 7) =~= mt);
    assert(l.subrange(8, 10) =~= dt);
}

/// A date-time label of a four-digit year is sixteen characters: day, `/`, month,
/// `/`, year, a space, hour, `:`, minute; day, month, hour and minute in two digits and
/// the year in four, each part reading back as the value it was written from.
pub proof fn lemma_time_label_reads_back(p: DateTimeParts)
    requires
        0 <= p.year <= 9999,
        1 <= p.month <= 12,
        1 <= p.day <= 31,
        p.hour < 24,
        p.minute < 60,
    ensures
        dmy_hm_label(p).len() == 16,
        dmy_hm_label(p)[2] == '/' && dmy_hm_label(p)[5] == '/' && dmy_hm_label(p)[10] == ' '
            && dmy_hm_label(p)[13] == ':',
        all_digits(dmy_hm_label(p).subrange(0, 2)) && digits_value(dmy_hm_label(p).subrange(0, 2))
            == p.day,
        all_digits(dmy_hm_label(p).subrange(3, 5)) && digits_value(dmy_hm_label(p).subrange(3, 5))
            == p.month,
        all_digits(dmy_hm_label(p).subrange(6, 10)) && digits_value(dmy_hm_label(p).subrange(6, 10))
            == p.year,
        all_digits(dmy_hm_label(p).subrange(11, 13)) && digits_value(
            dmy_hm_label(p).subrange(11, 13),
        ) == p.hour,
        all_digits(dmy_hm_label(p).subrange(14, 16)) && digits_value(
            dmy_hm_label(p).subrange(14, 16),
        ) == p.minute,
{
    lemma_decimal_len(p.year as nat);
    lemma_decimal_len(p.month as nat);
    lemma_decimal_len(p.day as nat);
    lemma_decimal_len(p.hour as nat);
    lemma_decimal_len(p.minute as nat);
    lemma_padded_reads(p.year as nat, 4);
    lemma_padded_reads(p.month as nat, 2);
    lemma_padded_reads(p.day as nat, 2);
    lemma_padded_reads(p.hour as nat, 2);
    lemma_padded_reads(p.minute as nat, 2);
    let l = dmy_hm_label(p);
    let dd = two_digits(p.day as int);
    let mm = two_digits(p.month as int);
    let yy = year_text(p.year as int);
    let hh = two_digits(p.hour as int);
    let mi = two_digits(p.minute as int);
    reveal_strlit("/");
    reveal_strlit(" ");
    reveal_strlit(":");
    assert(l =~= dd + "/"@ + mm + "/"@ + yy + " "@ + hh + ":"@ + mi);
    assert(l.subrange(0, 2) =~= dd);
    assert(l.subrange(3, 5) =~= mm);
    assert(l.subrange(6, 10) =~= yy);
    assert(l.subrange(11, 13) =~= hh);
    assert(l.subrange(14, 16) =~= mi);
}

} // verus!
