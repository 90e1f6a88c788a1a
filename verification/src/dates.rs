use vstd::prelude::*;
use crate::text::decimal;

verus! {

/// Whether `ts` (Unix seconds) is a time that `chrono::DateTime<Utc>` can
/// hold: from the start of year -262143 to the end of year 262142.
pub open spec fn is_datetime(ts: int) -> bool {
    -8334601228800 <= ts <= 8210266876799
}

/// Whether `y` is a leap year of the proleptic Gregorian calendar.
pub open spec fn is_leap_year(y: int) -> bool {
    y % 4 == 0 && (y % 100 != 0 || y % 400 == 0)
}

/// The number of days in month `m` (1 to 12) of year `y`.
pub open spec fn month_length(y: int, m: int) -> int {
    if m == 2 {
        if is_leap_year(y) { 29 } else { 28 }
    } else if m == 4 || m == 6 || m == 9 || m == 11 {
        30
    } else {
        31
    }
}

/// The days of year `y` before the first of month `m`.
pub open spec fn days_before_month(y: int, m: int) -> int
    decreases m,
{
    if m <= 1 {
        0
    } else {
        days_before_month(y, m - 1) + month_length(y, m - 1)
    }
}

/// Leap years from year 0 up to, not including, year `y` (negated for a
/// negative `y`: minus the leap years from `y` up to year 0).
pub open spec fn leap_years_before(y: int) -> int {
    (y + 3) / 4 - (y + 99) / 100 + (y + 399) / 400
}

/// The day number of the date `y-m-d`, counted from 1970-01-01.
pub open spec fn days_from_civil(y: int, m: int, d: int) -> int {
    365 * y + leap_years_before(y) + days_before_month(y, m) + d - 1 - 719528
}

/// Whether `y-m-d` is a date of the calendar.
pub open spec fn is_date(y: int, m: int, d: int) -> bool {
    1 <= m <= 12 && 1 <= d <= month_length(y, m)
}

/// The calendar date `(year, month, day)` in UTC of the time `ts` (Unix
/// seconds): the date whose day number is that of `ts`.
pub open spec fn utc_date(ts: int) -> (int, int, int) {
    choose|t: (int, int, int)| is_date(t.0, t.1, t.2) && days_from_civil(t.0, t.1, t.2) == ts / 86400
}

/// `n` in decimal, padded with zeros on the left to `width` digits.
pub open spec fn zero_padded(n: nat, width: nat) -> Seq<char> {
    let s = decimal(n);
    if s.len() < width {
        Seq::new((width - s.len()) as nat, |i: int| '0') + s
    } else {
        s
    }
}

/// The year as `%Y` writes it: four digits from 0 to 9999, else a sign and at
/// least four digits.
pub open spec fn year_text(y: int) -> Seq<char> {
    if 0 <= y <= 9999 {
        zero_padded(y as nat, 4)
    } else if y > 9999 {
        "+"@ + zero_padded(y as nat, 4)
    } else {
        "-"@ + zero_padded((-y) as nat, 4)
    }
}

/// The calendar date (`%Y-%m-%d`) in UTC of the time `ts`.
pub open spec fn ymd(ts: i64) -> Seq<char> {
    let t = utc_date(ts as int);
    year_text(t.0) + "-"@ + zero_padded(t.1 as nat, 2) + "-"@ + zero_padded(t.2 as nat, 2)
}

/// `chrono::DateTime::<Utc>::from_timestamp(ts, 0)` rendered with
/// `format(fmt).to_string()`.  Claimed: every time that `DateTime<Utc>` can
/// hold gives a text (the crate returns `None` only for out-of-range days),
/// and the text is the UTC calendar date of `ts` written as `%Y-%m-%d`
/// writes it: the proleptic Gregorian year, zero-padded to four digits and
/// signed outside 0 to 9999, then the month and the day in two digits.  The
/// format is restricted to that one, for which rendering cannot fail.
#[verifier::external_body]
pub(crate) fn format_timestamp(ts: i64, fmt: &str) -> (r: Option<String>)
    requires
        fmt@ == "%Y-%m-%d"@,
    ensures
        r matches Some(s) ==> s@ == ymd(ts),
        is_datetime(ts as int) ==> r is Some,
{
    match chrono::DateTime::from_timestamp(ts, 0) {
        Some(d) => Some(d.format(fmt).to_string()),
        None => None,
    }
}

/// The calendar date (`YYYY-MM-DD`, UTC) of the time `ts`.
pub fn format_ymd(ts: i64) -> (r: String)
    requires
        is_datetime(ts as int),
    ensures
        r@ == ymd(ts),
{
    match format_timestamp(ts, "%Y-%m-%d") {
        Some(s) => s,
        None => String::new(),
    }
}

} // verus!
