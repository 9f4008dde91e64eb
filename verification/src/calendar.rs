//! Dates and timestamps: the proleptic Gregorian calendar from 1970-01-01,
//! and the two timestamp formats the manager writes.

use vstd::prelude::*;
use crate::text::{decimal, decimal_chars, padded_decimal, push_all, string_of, zero_pad};
use std::time::{Duration, SystemTime, SystemTimeError};

verus! {

// ---------------------------------------------------------------------------
// The calendar
// ---------------------------------------------------------------------------

/// Gregorian leap years.
pub open spec fn is_leap_year(y: int) -> bool {
    (y % 4 == 0 && y % 100 != 0) || y % 400 == 0
}

/// The number of days in year `y`.
pub open spec fn year_len(y: int) -> int {
    if is_leap_year(y) {
        366
    } else {
        365
    }
}

/// The number of days from 1970-01-01 to the first day of year `y` (`y >= 1970`).
pub open spec fn days_before_year(y: int) -> int
    decreases y - 1970,
{
    if y <= 1970 {
        0
    } else {
        days_before_year(y - 1) + year_len(y - 1)
    }
}

/// The number of days in the first `m` months (`0 <= m <= 12`) of year `y`.
pub open spec fn days_before_month(y: int, m: int) -> int {
    let leap_day: int = if m >= 2 && is_leap_year(y) {
        1
    } else {
        0
    };
    let normal: int = if m <= 0 {
        0
    } else if m == 1 {
        31
    } else if m == 2 {
        59
    } else if m == 3 {
        90
    } else if m == 4 {
        120
    } else if m == 5 {
        151
    } else if m == 6 {
        181
    } else if m == 7 {
        212
    } else if m == 8 {
        243
    } else if m == 9 {
        273
    } else if m == 10 {
        304
    } else if m == 11 {
        334
    } else {
        365
    };
    normal + leap_day
}

/// The number of days of month `m` (1-based) of year `y`.
pub open spec fn month_len(y: int, m: int) -> int {
    days_before_month(y, m) - days_before_month(y, m - 1)
}

/// The date `y-m-d` (month and day 1-based) is a calendar date no earlier
/// than 1970-01-01.
pub open spec fn valid_date(y: int, m: int, d: int) -> bool {
    1970 <= y && 1 <= m <= 12 && 1 <= d <= month_len(y, m)
}

/// The number of days from 1970-01-01 to `y-m-d`.
pub open spec fn days_from_civil(y: int, m: int, d: int) -> int {
    days_before_year(y) + days_before_month(y, m - 1) + d - 1
}

/// The first day count whose year no longer fits in an `i32`.
pub open spec fn day_limit() -> int {
    days_before_year(i32::MAX + 1)
}

/// A year has at least 365 days, so `y` starts at least `365 * (y - 1970)`
/// days after the epoch.
pub proof fn lemma_days_before_year_grows(y: int)
    requires
        y >= 1970,
    ensures
        days_before_year(y) >= 365 * (y - 1970),
    decreases y - 1970,
{
    if y > 1970 {
        lemma_days_before_year_grows(y - 1);
    }
}

/// Later years start later, each after the whole of every earlier one.
pub proof fn lemma_days_before_year_monotone(a: int, b: int)
    requires
        1970 <= a <= b,
    ensures
        days_before_year(a) <= days_before_year(b),
        a < b ==> days_before_year(a) + year_len(a) <= days_before_year(b),
    decreases b - a,
{
    if a < b {
        lemma_days_before_year_monotone(a, b - 1);
    }
}

/// The leap years from year 1 to year `n`.
pub closed spec fn leap_years_through(n: int) -> int {
    n / 4 - n / 100 + n / 400
}

/// Year `n` adds one leap year to the count exactly when it is a leap year.
proof fn lemma_leap_count_step(n: int)
    requires
        n >= 1,
    ensures
        leap_years_through(n) - leap_years_through(n - 1) == (if is_leap_year(n) {
            1int
        } else {
            0
        }),
{
    assert(n / 4 - (n - 1) / 4 == (if n % 4 == 0 { 1int } else { 0 })) by (nonlinear_arith)
        requires n >= 1;
    assert(n / 100 - (n - 1) / 100 == (if n % 100 == 0 { 1int } else { 0 })) by (nonlinear_arith)
        requires n >= 1;
    assert(n / 400 - (n - 1) / 400 == (if n % 400 == 0 { 1int } else { 0 })) by (nonlinear_arith)
        requires n >= 1;
    assert(n % 400 == 0 ==> n % 100 == 0 && n % 4 == 0) by (nonlinear_arith);
    assert(n % 100 == 0 ==> n % 4 == 0) by (nonlinear_arith);
}

/// The days before year `y`: 365 for each year since 1970 and one for each
/// leap year among them.
pub proof fn lemma_days_before_year_closed(y: int)
    requires
        y >= 1970,
    ensures
        days_before_year(y) == 365 * (y - 1970) + leap_years_through(y - 1) - leap_years_through(
            1969,
        ),
    decreases y - 1970,
{
    if y > 1970 {
        lemma_days_before_year_closed(y - 1);
        lemma_leap_count_step(y - 1);
    }
}

/// The first day count whose year no longer fits in an `i32`, as a number.
pub proof fn lemma_day_limit_value()
    ensures
        day_limit() == 784351576777,
{
    lemma_days_before_year_closed(i32::MAX + 1);
    assert(2147483647int / 4 == 536870911);
    assert(2147483647int / 100 == 21474836);
    assert(2147483647int / 400 == 5368709);
    assert(leap_years_through(2147483647) == 520764784);
    assert(leap_years_through(1969) == 477);
}

/// Whether `year` is a leap year.
pub fn is_leap(year: i32) -> (r: bool)
    ensures
        r == is_leap_year(year as int),
{
    let a: u64 = if year < 0 {
        (0i64 - year as i64) as u64
    } else {
        year as u64
    };
    proof {
        let y = year as int;
        assert(y % 4 == 0 <==> (a as int) % 4 == 0) by (nonlinear_arith)
            requires a == y || a == -y;
        assert(y % 100 == 0 <==> (a as int) % 100 == 0) by (nonlinear_arith)
            requires a == y || a == -y;
        assert(y % 400 == 0 <==> (a as int) % 400 == 0) by (nonlinear_arith)
            requires a == y || a == -y;
    }
    (a % 4 == 0 && a % 100 != 0) || a % 400 == 0
}

fn month_days(leap: bool, m: usize) -> (r: i64)
    requires
        m < 12,
    ensures
        r == month_len(if leap { 2000 } else { 2001 }, m + 1),
{
    if m == 1 {
        if leap {
            29
        } else {
            28
        }
    } else if m == 3 || m == 5 || m == 8 || m == 10 {
        30
    } else {
        31
    }
}

/// The calendar date that lies `days_since_epoch` days after 1970-01-01, as
/// (year, month, day). A negative count gives 1970, January, and the day
/// `days_since_epoch + 1` cast to `u32`.
pub fn days_to_ymd(days_since_epoch: i64) -> (r: (i32, u32, u32))
    requires
        days_since_epoch < day_limit(),
    ensures
        days_since_epoch >= 0 ==> valid_date(r.0 as int, r.1 as int, r.2 as int) && days_from_civil(
            r.0 as int,
            r.1 as int,
            r.2 as int,
        ) == days_since_epoch,
        days_since_epoch < 0 ==> r == (1970i32, 1u32, (days_since_epoch + 1) as u32),
{
    let mut year: i32 = 1970;
    let mut remaining: i64 = days_since_epoch;
    loop
        invariant
            1970 <= year,
            days_since_epoch < day_limit(),
            days_since_epoch < 0 ==> remaining == days_since_epoch && year == 1970,
            days_since_epoch >= 0 ==> remaining >= 0 && remaining == days_since_epoch
                - days_before_year(year as int),
        ensures
            1970 <= year,
            days_since_epoch < 0 ==> remaining == days_since_epoch && year == 1970,
            days_since_epoch >= 0 ==> remaining >= 0 && remaining == days_since_epoch
                - days_before_year(year as int) && remaining < year_len(year as int),
        decreases
                (if remaining >= 0 { remaining } else { 0 }),
    {
        let dy: i64 = if is_leap(year) {
            366
        } else {
            365
        };
        if remaining < dy {
            break;
        }
        proof {
            lemma_days_before_year_grows(year as int + 1);
            if days_since_epoch >= 0 {
                assert(days_before_year(year as int + 1) == days_before_year(year as int)
                    + year_len(year as int));
                if year == i32::MAX {
                    assert(days_since_epoch >= day_limit());
                }
            }
        }
        remaining = remaining - dy;
        year = year + 1;
    }
    let leap = is_leap(year);
    let mut m: usize = 0;
    while m < 12 && remaining >= month_days(leap, m)
        invariant
            m <= 12,
            1970 <= year,
            leap == is_leap_year(year as int),
            days_since_epoch < 0 ==> remaining == days_since_epoch && year == 1970 && m == 0,
            days_since_epoch >= 0 ==> remaining >= 0 && remaining == days_since_epoch
                - days_before_year(year as int) - days_before_month(year as int, m as int),
            days_since_epoch >= 0 ==> days_since_epoch - days_before_year(year as int) < year_len(
                year as int,
            ),
        decreases 12 - m,
    {
        remaining = remaining - month_days(leap, m);
        m = m + 1;
    }
    (year, (m + 1) as u32, (remaining + 1) as u32)
}

// ---------------------------------------------------------------------------
// Formats
// ---------------------------------------------------------------------------

/// `{:02}`-style two-digit field.
pub open spec fn pad2(n: nat) -> Seq<char> {
    zero_pad(decimal(n), 2)
}

/// The `YYYY-MM-DDTHH:MM:SS` text of the second `secs` after the epoch (UTC).
pub open spec fn iso_text(secs: nat) -> Seq<char> {
    let days = secs / 86400;
    let rem = secs % 86400;
    let (y, mo, d) = civil_of(days);
    zero_pad(decimal(y), 4) + "-"@ + pad2(mo) + "-"@ + pad2(d) + "T"@ + pad2(rem / 3600) + ":"@
        + pad2((rem % 3600) / 60) + ":"@ + pad2(rem % 60)
}

/// The calendar date of day `days` after 1970-01-01: the unique valid date
/// whose day count is `days`.
pub open spec fn civil_of(days: nat) -> (nat, nat, nat) {
    let t = choose|t: (nat, nat, nat)|
        valid_date(t.0 as int, t.1 as int, t.2 as int) && days_from_civil(
            t.0 as int,
            t.1 as int,
            t.2 as int,
        ) == days;
    t
}

/// Two valid dates with the same day count are the same date.
pub proof fn lemma_civil_unique(y1: int, m1: int, d1: int, y2: int, m2: int, d2: int)
    requires
        valid_date(y1, m1, d1),
        valid_date(y2, m2, d2),
        days_from_civil(y1, m1, d1) == days_from_civil(y2, m2, d2),
    ensures
        y1 == y2 && m1 == m2 && d1 == d2,
{
    if y1 < y2 {
        lemma_days_before_year_monotone(y1, y2);
    } else if y2 < y1 {
        lemma_days_before_year_monotone(y2, y1);
    }
}

/// The seconds since the epoch for which the year still fits in an `i32`.
pub open spec fn secs_in_range(secs: u64) -> bool {
    secs / 86400 < day_limit()
}

fn append(out: &mut Vec<char>, s: &str)
    ensures
        final(out)@ == old(out)@ + s@,
{
    let c = crate::text::chars_of(s);
    push_all(out, &c);
}

/// The ISO 8601 text (`YYYY-MM-DDTHH:MM:SS`, UTC, no zone) of `secs` seconds
/// after the epoch.
pub fn secs_to_iso(secs: u64) -> (r: String)
    requires
        secs_in_range(secs),
    ensures
        r@ == iso_text(secs as nat),
{
    let days = secs / 86400;
    let rem = secs % 86400;
    let h = rem / 3600;
    let m = (rem % 3600) / 60;
    let s = rem % 60;
    let (y, mo, d) = days_to_ymd(days as i64);
    proof {
        let t = civil_of(days as nat);
        assert(valid_date(y as int, mo as int, d as int));
        let w = (y as nat, mo as nat, d as nat);
        assert(valid_date(w.0 as int, w.1 as int, w.2 as int) && days_from_civil(
            w.0 as int,
            w.1 as int,
            w.2 as int,
        ) == days as nat);
        lemma_civil_unique(t.0 as int, t.1 as int, t.2 as int, y as int, mo as int, d as int);
    }
    let mut out = padded_decimal(y as u64, 4);
    append(&mut out, "-");
    push_all(&mut out, &padded_decimal(mo as u64, 2));
    append(&mut out, "-");
    push_all(&mut out, &padded_decimal(d as u64, 2));
    append(&mut out, "T");
    push_all(&mut out, &padded_decimal(h, 2));
    append(&mut out, ":");
    push_all(&mut out, &padded_decimal(m, 2));
    append(&mut out, ":");
    push_all(&mut out, &padded_decimal(s, 2));
    string_of(&out)
}

/// The text of an approximate timestamp `Y-MM-DDTHH-MM-SS` that counts
/// 365.25-day years and 30.4375-day months from the epoch, as backup and
/// export file names carry it.
pub open spec fn stamp_text(secs: nat) -> Seq<char> {
    decimal(1970 + secs / 31557600) + "-"@ + pad2((secs % 31557600) / 2629800 + 1) + "-"@
        + pad2((secs % 2629800) / 86400 + 1) + "T"@ + pad2((secs / 3600) % 24) + "-"@ + pad2(
        (secs / 60) % 60,
    ) + "-"@ + pad2(secs % 60)
}

/// The approximate timestamp of `secs` seconds after the epoch.
pub fn format_timestamp(secs: u64) -> (r: String)
    ensures
        r@ == stamp_text(secs as nat),
{
    let hours = (secs / 3600) % 24;
    let mins = (secs / 60) % 60;
    let s = secs % 60;
    let mut out = decimal_chars(1970 + secs / 31557600);
    append(&mut out, "-");
    push_all(&mut out, &padded_decimal((secs % 31557600) / 2629800 + 1, 2));
    append(&mut out, "-");
    push_all(&mut out, &padded_decimal((secs % 2629800) / 86400 + 1, 2));
    append(&mut out, "T");
    push_all(&mut out, &padded_decimal(hours, 2));
    append(&mut out, "-");
    push_all(&mut out, &padded_decimal(mins, 2));
    append(&mut out, "-");
    push_all(&mut out, &padded_decimal(s, 2));
    string_of(&out)
}

// ---------------------------------------------------------------------------
// The clock
// ---------------------------------------------------------------------------

#[verifier::external_type_specification]
#[verifier::external_body]
pub struct ExSystemTime(SystemTime);

#[verifier::external_type_specification]
#[verifier::external_body]
pub struct ExSystemTimeError(SystemTimeError);

/// `SystemTime::now`: the current time of the system clock. Nothing is
/// claimed of the value.
#[verifier::external_body]
fn clock_now() -> SystemTime {
    SystemTime::now()
}

/// `SystemTime::duration_since(UNIX_EPOCH)`: the time elapsed since the
/// epoch, or an error for a clock set before it. Nothing is claimed of the
/// value.
#[verifier::external_body]
fn since_unix_epoch(t: &SystemTime) -> Result<Duration, SystemTimeError> {
    t.duration_since(std::time::UNIX_EPOCH)
}

/// `Duration::as_secs`: the whole seconds of `d`. Nothing is claimed of the
/// value.
#[verifier::external_body]
fn whole_secs(d: &Duration) -> u64 {
    d.as_secs()
}

/// The whole seconds since the epoch on the system clock, 0 for a clock set
/// before the epoch.
pub fn unix_now_secs() -> u64 {
    match since_unix_epoch(&clock_now()) {
        Ok(d) => whole_secs(&d),
        Err(_) => 0,
    }
}

/// The approximate timestamp of the current time (`format_timestamp` of the
/// clock).
pub fn timestamp_string() -> (r: String)
    ensures
        exists|secs: u64| r@ == stamp_text(secs as nat),
{
    let secs = unix_now_secs();
    format_timestamp(secs)
}

/// The ISO 8601 text of the current time followed by `Z`. A clock at or
/// past the first day whose year no longer fits in an `i32` (`day_limit`)
/// is read as the last second before that day.
pub fn now_iso8601() -> (r: String)
    ensures
        exists|secs: u64| secs_in_range(secs) && r@ == iso_text(secs as nat) + "Z"@,
{
    let mut secs = unix_now_secs();
    proof {
        lemma_day_limit_value();
    }
    if secs / 86400 >= 784351576777 {
        secs = 784351576777 * 86400 - 1;
    }
    let iso = secs_to_iso(secs);
    let mut out = crate::text::chars_of(iso.as_str());
    append(&mut out, "Z");
    let r = string_of(&out);
    assert(secs_in_range(secs) && r@ == iso_text(secs as nat) + "Z"@);
    r
}

} // verus!
