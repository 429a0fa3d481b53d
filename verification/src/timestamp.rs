//! RFC 3339 UTC timestamps (`2026-01-01T00:00:00Z`) of Unix epoch seconds, on
//! the proleptic Gregorian calendar, for the years 0000 to 9999 that the
//! format's four-digit year holds.
use vstd::prelude::*;
use crate::text::{digit, digit_char, opt_string_view, push_char};

verus! {

/// Whether `y` is a leap year of the Gregorian calendar.
pub open spec fn is_leap_year(y: int) -> bool {
    (y % 4 == 0 && y % 100 != 0) || y % 400 == 0
}

/// The number of days of year `y`.
pub open spec fn year_days(y: int) -> int {
    if is_leap_year(y) {
        366
    } else {
        365
    }
}

/// The number of days of month `m` (1 to 12) of year `y`.
pub open spec fn month_days(y: int, m: int) -> int {
    if m == 2 {
        if is_leap_year(y) {
            29
        } else {
            28
        }
    } else if m == 4 || m == 6 || m == 9 || m == 11 {
        30
    } else {
        31
    }
}

/// The days from 0000-01-01 to the first day of year `y`.
pub open spec fn days_before_year(y: nat) -> int
    decreases y,
{
    if y == 0 {
        0
    } else {
        days_before_year((y - 1) as nat) + year_days(y - 1)
    }
}

/// The days from the first day of year `y` to the first day of month `m`.
pub open spec fn days_before_month(y: int, m: nat) -> int
    decreases m,
{
    if m <= 1 {
        0
    } else {
        days_before_month(y, (m - 1) as nat) + month_days(y, m - 1)
    }
}

/// The date and time `t = (year, month, day, hour, minute, second)` is a
/// valid UTC time of a year from 0000 to 9999, `secs` seconds after
/// 1970-01-01T00:00:00Z.
pub open spec fn utc_fields(secs: int, t: (int, int, int, int, int, int)) -> bool {
    &&& 0 <= t.0 <= 9999
    &&& 1 <= t.1 <= 12
    &&& 1 <= t.2 <= month_days(t.0, t.1)
    &&& 0 <= t.3 < 24
    &&& 0 <= t.4 < 60
    &&& 0 <= t.5 < 60
    &&& (days_before_year(t.0 as nat) - days_before_year(1970) + days_before_month(t.0, t.1 as nat)
        + t.2 - 1) * 86400 + t.3 * 3600 + t.4 * 60 + t.5 == secs
}

/// Two decimal digits of `n < 100`.
pub open spec fn two_digits(n: int) -> Seq<char> {
    seq![digit_char((n / 10) as nat), digit_char((n % 10) as nat)]
}

/// Four decimal digits of `n < 10000`.
pub open spec fn four_digits(n: int) -> Seq<char> {
    two_digits(n / 100) + two_digits(n % 100)
}

/// The RFC 3339 text of a UTC date and time: `YYYY-MM-DDTHH:MM:SSZ`.
pub open spec fn rfc3339_text(t: (int, int, int, int, int, int)) -> Seq<char> {
    four_digits(t.0) + seq!['-'] + two_digits(t.1) + seq!['-'] + two_digits(t.2) + seq!['T']
        + two_digits(t.3) + seq![':'] + two_digits(t.4) + seq![':'] + two_digits(t.5) + seq!['Z']
}

/// The RFC 3339 UTC timestamp of `secs` epoch seconds, when its year lies
/// between 0000 and 9999.
pub open spec fn rfc3339_utc(secs: int) -> Option<Seq<char>> {
    if exists|t: (int, int, int, int, int, int)| utc_fields(secs, t) {
        Some(rfc3339_text(choose|t: (int, int, int, int, int, int)| utc_fields(secs, t)))
    } else {
        None
    }
}

proof fn lemma_days_before_year_grows(a: nat, b: nat)
    requires
        a <= b,
    ensures
        days_before_year(a) + 365 * (b - a) <= days_before_year(b),
    decreases b,
{
    if a < b {
        lemma_days_before_year_grows(a, (b - 1) as nat);
    }
}

proof fn lemma_days_before_month_grows(y: int, a: nat, b: nat)
    requires
        1 <= a <= b,
    ensures
        days_before_month(y, a) + 28 * (b - a) <= days_before_month(y, b),
    decreases b,
{
    if a < b {
        lemma_days_before_month_grows(y, a, (b - 1) as nat);
    }
}

proof fn lemma_year_is_twelve_months(y: int)
    ensures
        days_before_month(y, 13) == year_days(y),
{
    reveal_with_fuel(days_before_month, 13);
}

/// The day index (from 0000-01-01) of a valid date lies within its year.
proof fn lemma_day_in_year(y: nat, m: nat, d: int)
    requires
        1 <= m <= 12,
        1 <= d <= month_days(y as int, m as int),
    ensures
        days_before_year(y) <= days_before_year(y) + days_before_month(y as int, m) + d - 1
            < days_before_year(y + 1),
{
    lemma_days_before_month_grows(y as int, m + 1, 13);
    lemma_year_is_twelve_months(y as int);
    lemma_days_before_month_grows(y as int, 1, m);
}

/// A time of seconds after the epoch has one date and time at most.
proof fn lemma_utc_fields_unique(
    secs: int,
    a: (int, int, int, int, int, int),
    b: (int, int, int, int, int, int),
)
    requires
        utc_fields(secs, a),
        utc_fields(secs, b),
    ensures
        a == b,
{
    let da = days_before_year(a.0 as nat) + days_before_month(a.0, a.1 as nat) + a.2 - 1;
    let db = days_before_year(b.0 as nat) + days_before_month(b.0, b.1 as nat) + b.2 - 1;
    let ta = a.3 * 3600 + a.4 * 60 + a.5;
    let tb = b.3 * 3600 + b.4 * 60 + b.5;
    assert(da * 86400 + ta == db * 86400 + tb);
    assert(da == db && ta == tb) by (nonlinear_arith)
        requires
            da * 86400 + ta == db * 86400 + tb,
            0 <= ta < 86400,
            0 <= tb < 86400,
    ;
    assert(a.3 == b.3 && a.4 == b.4 && a.5 == b.5) by (nonlinear_arith)
        requires
            ta == tb,
            ta == a.3 * 3600 + a.4 * 60 + a.5,
            tb == b.3 * 3600 + b.4 * 60 + b.5,
            0 <= a.4 < 60,
            0 <= a.5 < 60,
            0 <= b.4 < 60,
            0 <= b.5 < 60,
    ;
    lemma_day_in_year(a.0 as nat, a.1 as nat, a.2);
    lemma_day_in_year(b.0 as nat, b.1 as nat, b.2);
    if a.0 < b.0 {
        lemma_days_before_year_grows((a.0 + 1) as nat, b.0 as nat);
    } else if b.0 < a.0 {
        lemma_days_before_year_grows((b.0 + 1) as nat, a.0 as nat);
    }
    assert(a.0 == b.0);
    let y = a.0;
    if a.1 < b.1 {
        lemma_days_before_month_grows(y, (a.1 + 1) as nat, b.1 as nat);
    } else if b.1 < a.1 {
        lemma_days_before_month_grows(y, (b.1 + 1) as nat, a.1 as nat);
    }
    assert(a.1 == b.1);
}

fn is_leap(y: u64) -> (res: bool)
    ensures
        res == is_leap_year(y as int),
{
    (y % 4 == 0 && y % 100 != 0) || y % 400 == 0
}

fn days_of_year(y: u64) -> (res: u64)
    ensures
        res == year_days(y as int),
{
    if is_leap(y) {
        366
    } else {
        365
    }
}

fn days_of_month(y: u64, m: u64) -> (res: u64)
    ensures
        res == month_days(y as int, m as int),
{
    if m == 2 {
        if is_leap(y) {
            29
        } else {
            28
        }
    } else if m == 4 || m == 6 || m == 9 || m == 11 {
        30
    } else {
        31
    }
}

fn push_two_digits(out: &mut String, n: u64)
    requires
        n < 100,
    ensures
        final(out)@ == old(out)@ + two_digits(n as int),
{
    push_char(out, digit((n / 10) as u128));
    push_char(out, digit((n % 10) as u128));
    proof {
        assert(final(out)@ =~= old(out)@ + two_digits(n as int));
    }
}

/// The RFC 3339 UTC timestamp of `secs` seconds after the Unix epoch, or
/// `None` when its year falls outside 0000 to 9999.
pub fn rfc3339_of(secs: i64) -> (res: Option<String>)
    ensures
        opt_string_view(res) == rfc3339_utc(secs as int),
{
    // Days from 0000-01-01 to 1970-01-01.
    let mut epoch: u64 = 0;
    let mut y: u64 = 0;
    while y < 1970
        invariant
            y <= 1970,
            epoch == days_before_year(y as nat),
            epoch <= 366 * y,
        decreases 1970 - y,
    {
        epoch = epoch + days_of_year(y);
        y = y + 1;
    }
    let total: i128 = secs as i128 + (epoch as i128) * 86400;
    if total < 0 {
        proof {
            assert forall|t: (int, int, int, int, int, int)| !utc_fields(secs as int, t) by {
                if utc_fields(secs as int, t) {
                    lemma_day_in_year(t.0 as nat, t.1 as nat, t.2);
                    lemma_days_before_year_grows(0, t.0 as nat);
                    lemma_days_before_month_grows(t.0, 1, t.1 as nat);
                    let dt = days_before_year(t.0 as nat) + days_before_month(t.0, t.1 as nat)
                        + t.2 - 1;
                    assert(dt >= 0);
                    assert(total == dt * 86400 + t.3 * 3600 + t.4 * 60 + t.5);
                }
            }
        }
        return None;
    }
    let days: u64 = (total / 86400) as u64;
    let rem: u64 = (total % 86400) as u64;
    // Find the year.
    let mut year: u64 = 0;
    let mut before: u64 = 0;
    while year < 10000 && days >= before + days_of_year(year)
        invariant
            year <= 10000,
            before == days_before_year(year as nat),
            before <= days,
            before <= 366 * year,
            days == total / 86400,
        decreases 10000 - year,
    {
        before = before + days_of_year(year);
        year = year + 1;
    }
    if year == 10000 {
        proof {
            assert forall|t: (int, int, int, int, int, int)| !utc_fields(secs as int, t) by {
                if utc_fields(secs as int, t) {
                    lemma_day_in_year(t.0 as nat, t.1 as nat, t.2);
                    lemma_days_before_year_grows((t.0 + 1) as nat, 10000);
                    let dt = days_before_year(t.0 as nat) + days_before_month(t.0, t.1 as nat)
                        + t.2 - 1;
                    let tt = t.3 * 3600 + t.4 * 60 + t.5;
                    assert(dt * 86400 + tt == total);
                    assert(dt < days);
                    assert(dt * 86400 + tt < days * 86400) by (nonlinear_arith)
                        requires
                            dt < days,
                            0 <= tt < 86400,
                    ;
                    assert(days * 86400 <= total) by (nonlinear_arith)
                        requires
                            days == total / 86400,
                            total >= 0,
                    ;
                }
            }
        }
        return None;
    }
    let day_of_year: u64 = days - before;
    proof {
        lemma_year_is_twelve_months(year as int);
    }
    // Find the month.
    let mut month: u64 = 1;
    let mut month_before: u64 = 0;
    while day_of_year >= month_before + days_of_month(year, month)
        invariant
            1 <= month <= 12,
            month_before == days_before_month(year as int, month as nat),
            month_before <= day_of_year,
            day_of_year < year_days(year as int),
            days_before_month(year as int, 13) == year_days(year as int),
        decreases 12 - month,
    {
        month_before = month_before + days_of_month(year, month);
        month = month + 1;
        proof {
            assert(month <= 12);
        }
    }
    let day: u64 = day_of_year - month_before + 1;
    let hour: u64 = rem / 3600;
    let minute: u64 = rem % 3600 / 60;
    let second: u64 = rem % 60;
    let ghost t = (year as int, month as int, day as int, hour as int, minute as int, second as int);
    proof {
        assert(total == days * 86400 + rem) by (nonlinear_arith)
            requires
                days == total / 86400,
                rem == total % 86400,
                total >= 0,
        ;
        assert(rem == hour * 3600 + minute * 60 + second) by (nonlinear_arith)
            requires
                hour == rem / 3600,
                minute == rem % 3600 / 60,
                second == rem % 60,
                rem < 86400,
        ;
        assert(utc_fields(secs as int, t));
        assert forall|u: (int, int, int, int, int, int)| utc_fields(secs as int, u) implies u == t by {
            lemma_utc_fields_unique(secs as int, u, t);
        }
    }
    let mut text = String::new();
    push_two_digits(&mut text, year / 100);
    push_two_digits(&mut text, year % 100);
    push_char(&mut text, '-');
    push_two_digits(&mut text, month);
    push_char(&mut text, '-');
    push_two_digits(&mut text, day);
    push_char(&mut text, 'T');
    push_two_digits(&mut text, hour);
    push_char(&mut text, ':');
    push_two_digits(&mut text, minute);
    push_char(&mut text, ':');
    push_two_digits(&mut text, second);
    push_char(&mut text, 'Z');
    proof {
        assert(text@ =~= rfc3339_text(t));
    }
    Some(text)
}

} // verus!
