//! Calendar date-times and their text forms.
use vstd::prelude::*;
use chrono::{Datelike, Timelike};
use crate::text::{nat_decimal, push_char, push_repeat, push_u64_decimal, repeat_char};

verus! {

/// Earliest year a date-time can carry.
pub const MIN_YEAR: i32 = -262143;

/// Latest year a date-time can carry.
pub const MAX_YEAR: i32 = 262142;

/// A date and time of day without time zone, to the second.
#[derive(Clone, Copy, Debug, PartialEq, Eq, Structural)]
pub struct DateTime {
    pub year: i32,
    pub month: u32,
    pub day: u32,
    pub hour: u32,
    pub minute: u32,
    pub second: u32,
}

/// Gregorian leap-year rule.
pub open spec fn is_leap_year(y: int) -> bool {
    (y % 4 == 0 && y % 100 != 0) || y % 400 == 0
}

/// Number of days in month `m` (1-based) of year `y`.
pub open spec fn days_in_month(y: int, m: int) -> int {
    if m == 2 {
        if is_leap_year(y) { 29 } else { 28 }
    } else if m == 4 || m == 6 || m == 9 || m == 11 {
        30
    } else {
        31
    }
}

/// Days from 1970-01-01 to day `d` of month `m` of year `y`, proleptic Gregorian
/// calendar (negative before 1970). Division here rounds down.
pub open spec fn days_from_civil(y: int, m: int, d: int) -> int {
    let y1 = if m <= 2 { y - 1 } else { y };
    let era = y1 / 400;
    let yoe = y1 - era * 400;
    let mp = if m > 2 { m - 3 } else { m + 9 };
    let doy = (153 * mp + 2) / 5 + d - 1;
    let doe = yoe * 365 + yoe / 4 - yoe / 100 + doy;
    era * 146097 + doe - 719468
}

/// Seconds from 1970-01-01 00:00:00 to the date-time.
pub open spec fn epoch_seconds(t: DateTime) -> int {
    days_from_civil(t.year as int, t.month as int, t.day as int) * 86400 + t.hour * 3600
        + t.minute * 60 + t.second
}

/// The first supported date-time: `MIN_YEAR`-01-01 00:00:00.
pub open spec fn earliest() -> DateTime {
    DateTime { year: MIN_YEAR, month: 1, day: 1, hour: 0, minute: 0, second: 0 }
}

/// The last supported date-time: `MAX_YEAR`-12-31 23:59:59.
pub open spec fn latest() -> DateTime {
    DateTime { year: MAX_YEAR, month: 12, day: 31, hour: 23, minute: 59, second: 59 }
}

/// The commit times chrono can turn into a date-time: those from [`earliest`] to [`latest`].
pub open spec fn timestamp_in_range(secs: int) -> bool {
    epoch_seconds(earliest()) <= secs <= epoch_seconds(latest())
}

impl DateTime {
    /// A real calendar date-time within the supported year range.
    pub open spec fn valid(self) -> bool {
        &&& MIN_YEAR <= self.year <= MAX_YEAR
        &&& 1 <= self.month <= 12
        &&& 1 <= self.day <= days_in_month(self.year as int, self.month as int)
        &&& self.hour < 24
        &&& self.minute < 60
        &&& self.second < 60
    }

    /// 1970-01-01 00:00:00, the default date-time.
    pub fn unix_epoch() -> (d: DateTime)
        ensures
            d == (DateTime { year: 1970, month: 1, day: 1, hour: 0, minute: 0, second: 0 }),
            d.valid(),
    {
        DateTime { year: 1970, month: 1, day: 1, hour: 0, minute: 0, second: 0 }
    }
}

/// At least two digits, zero-padded (`%m`, `%d`, `%H`, `%M`, `%S`).
pub open spec fn pad2(n: nat) -> Seq<char> {
    if n < 10 {
        seq!['0'] + nat_decimal(n)
    } else {
        nat_decimal(n)
    }
}

/// At least four digits, zero-padded.
pub open spec fn pad4(n: nat) -> Seq<char> {
    let d = nat_decimal(n);
    if d.len() < 4 {
        repeat_char('0', (4 - d.len()) as nat) + d
    } else {
        d
    }
}

/// The year as `%Y` writes it: four digits within 0..=9999, otherwise with an explicit sign.
pub open spec fn year_text(y: int) -> Seq<char> {
    if 0 <= y <= 9999 {
        pad4(y as nat)
    } else if y < 0 {
        seq!['-'] + pad4((-y) as nat)
    } else {
        seq!['+'] + pad4(y as nat)
    }
}

/// `%Y-%m-%d %H:%M`
pub open spec fn datetime_minutes_text(d: DateTime) -> Seq<char> {
    year_text(d.year as int) + seq!['-'] + pad2(d.month as nat) + seq!['-'] + pad2(d.day as nat)
        + seq![' '] + pad2(d.hour as nat) + seq![':'] + pad2(d.minute as nat)
}

/// `%Y-%m-%d %H:%M:%S`, the form in which the index stores date-times.
pub open spec fn datetime_text(d: DateTime) -> Seq<char> {
    datetime_minutes_text(d) + seq![':'] + pad2(d.second as nat)
}

proof fn lemma_nat_decimal_len(n: nat)
    ensures
        nat_decimal(n).len() >= 1,
        n >= 10 ==> nat_decimal(n).len() >= 2,
        n >= 100 ==> nat_decimal(n).len() >= 3,
        n >= 1000 ==> nat_decimal(n).len() >= 4,
        n < 10 ==> nat_decimal(n).len() == 1,
        n < 100 ==> nat_decimal(n).len() <= 2,
        n < 1000 ==> nat_decimal(n).len() <= 3,
    decreases n,
{
    if n >= 10 {
        lemma_nat_decimal_len(n / 10);
    }
}

fn push_pad2(s: &mut String, n: u32)
    ensures
        final(s)@ == old(s)@ + pad2(n as nat),
{
    if n < 10 {
        push_char(s, '0');
    }
    push_u64_decimal(s, n as u64);
    assert(final(s)@ =~= old(s)@ + pad2(n as nat));
}

fn push_pad4(s: &mut String, n: u64)
    ensures
        final(s)@ == old(s)@ + pad4(n as nat),
{
    proof {
        lemma_nat_decimal_len(n as nat);
    }
    let ghost start = s@;
    let zeros: usize = if n < 10 { 3 } else if n < 100 { 2 } else if n < 1000 { 1 } else { 0 };
    push_repeat(s, '0', zeros);
    push_u64_decimal(s, n);
    assert(s@ =~= start + pad4(n as nat));
}

fn push_year(s: &mut String, y: i32)
    ensures
        final(s)@ == old(s)@ + year_text(y as int),
{
    let ghost start = s@;
    if 0 <= y && y <= 9999 {
        push_pad4(s, y as u64);
    } else if y < 0 {
        push_char(s, '-');
        let m: u64 = ((-(y as i64)) as u64);
        push_pad4(s, m);
    } else {
        push_char(s, '+');
        push_pad4(s, y as u64);
    }
    assert(s@ =~= start + year_text(y as int));
}

/// Appends `%Y-%m-%d %H:%M`.
pub fn push_datetime_minutes(s: &mut String, d: &DateTime)
    ensures
        final(s)@ == old(s)@ + datetime_minutes_text(*d),
{
    let ghost start = s@;
    push_year(s, d.year);
    push_char(s, '-');
    push_pad2(s, d.month);
    push_char(s, '-');
    push_pad2(s, d.day);
    push_char(s, ' ');
    push_pad2(s, d.hour);
    push_char(s, ':');
    push_pad2(s, d.minute);
    assert(s@ =~= start + datetime_minutes_text(*d));
}

/// Formats `%Y-%m-%d %H:%M:%S`.
pub fn format_datetime(d: &DateTime) -> (r: String)
    ensures
        r@ == datetime_text(*d),
{
    let mut s = String::new();
    push_datetime_minutes(&mut s, d);
    push_char(&mut s, ':');
    push_pad2(&mut s, d.second);
    assert(s@ =~= datetime_text(*d));
    s
}

/// What `chrono::NaiveDateTime::parse_from_str(text, fmt)` yields, as a date-time.
pub uninterp spec fn chrono_parse(text: Seq<char>, fmt: Seq<char>) -> Option<DateTime>;

/// What `chrono::DateTime::from_timestamp(secs, 0)` yields, read as a UTC date-time.
pub uninterp spec fn chrono_from_timestamp(secs: int) -> Option<DateTime>;

/// Parses `text` with the chrono format `fmt` (`NaiveDateTime::parse_from_str`).
/// Trusted: the result is named by `chrono_parse`; a parsed value is a real calendar
/// date-time; and text that this library's own `%Y-%m-%d %H:%M:%S` form produced for a
/// valid date-time parses back to that date-time (`%Y` reads the sign that it writes
/// outside years 0..=9999). Sub-second parts are
/// dropped (chrono reports a leap second as second 59).
#[verifier::external_body]
pub(crate) fn parse_datetime(text: &str, fmt: &str) -> (r: Option<DateTime>)
    ensures
        r == chrono_parse(text@, fmt@),
        r matches Some(d) ==> d.valid(),
        forall|d: DateTime|
            #![trigger datetime_text(d)]
            d.valid() && fmt@ == "%Y-%m-%d %H:%M:%S"@ && text@
                == datetime_text(d) ==> r == Some(d),
{
    match chrono::NaiveDateTime::parse_from_str(text, fmt) {
        Ok(t) => Some(DateTime {
            year: t.year(),
            month: t.month(),
            day: t.day(),
            hour: t.hour(),
            minute: t.minute(),
            second: t.second(),
        }),
        Err(_) => None,
    }
}

/// The UTC date-time `secs` seconds after 1970-01-01 00:00:00
/// (`chrono::DateTime::from_timestamp(secs, 0)` then `naive_utc`).
/// Trusted: the result is named by `chrono_from_timestamp`; it is present exactly when
/// `secs` falls within the supported date range, and then it is the real calendar
/// date-time that lies `secs` seconds after 1970-01-01 00:00:00.
#[verifier::external_body]
pub(crate) fn datetime_from_timestamp(secs: i64) -> (r: Option<DateTime>)
    ensures
        r == chrono_from_timestamp(secs as int),
        r is Some <==> timestamp_in_range(secs as int),
        r matches Some(d) ==> d.valid() && epoch_seconds(d) == secs,
{
    match chrono::DateTime::from_timestamp(secs, 0) {
        Some(t) => {
            let t = t.naive_utc();
            Some(DateTime {
                year: t.year(),
                month: t.month(),
                day: t.day(),
                hour: t.hour(),
                minute: t.minute(),
                second: t.second(),
            })
        },
        None => None,
    }
}

} // verus!
