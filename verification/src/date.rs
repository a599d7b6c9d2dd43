//! Calendar dates of Unix timestamps (proleptic Gregorian calendar, UTC).

use vstd::prelude::*;
use crate::text::{push_char, push_zero_padded, zero_pad, decimal};

verus! {

/// Whether `y` is a leap year of the Gregorian calendar.
pub open spec fn is_leap_year(y: int) -> bool {
    y % 4 == 0 && (y % 100 != 0 || y % 400 == 0)
}

/// Number of the leap years among the years `1..=x`.
spec fn leap_count(x: int) -> int {
    x / 4 - x / 100 + x / 400
}

/// Number of days of year `y`.
pub open spec fn year_length(y: int) -> int {
    if is_leap_year(y) { 366 } else { 365 }
}

/// Number of days of month `m` (1 to 12) of year `y`.
pub open spec fn month_length(y: int, m: int) -> int {
    if m == 2 {
        if is_leap_year(y) { 29 } else { 28 }
    } else if m == 4 || m == 6 || m == 9 || m == 11 {
        30
    } else {
        31
    }
}

/// Number of days from 1970-01-01 to January 1st of year `y` (`y` from
/// 1970 on).
pub open spec fn days_before_year(y: int) -> int
    decreases y - 1970,
{
    if y <= 1970 { 0 } else { days_before_year(y - 1) + year_length(y - 1) }
}

/// Number of days of year `y` before month `m` begins.
pub open spec fn days_before_month(y: int, m: int) -> int
    decreases m,
{
    if m <= 1 { 0 } else { days_before_month(y, m - 1) + month_length(y, m - 1) }
}

/// `y-m-d` is a date from 1970-01-01 on, and `n` days after 1970-01-01.
pub open spec fn is_civil_date(n: int, y: int, m: int, d: int) -> bool {
    &&& y >= 1970
    &&& 1 <= m <= 12
    &&& 1 <= d <= month_length(y, m)
    &&& days_before_year(y) + days_before_month(y, m) + (d - 1) == n
}

/// The date written as `YYYY-MM-DD` (the year with at least four digits).
pub open spec fn date_text(y: nat, m: nat, d: nat) -> Seq<char> {
    zero_pad(decimal(y), 4) + "-"@ + zero_pad(decimal(m), 2) + "-"@ + zero_pad(decimal(d), 2)
}

proof fn lemma_leap_count_step(y: int)
    requires
        y >= 1,
    ensures
        leap_count(y) == leap_count(y - 1) + (if is_leap_year(y) { 1int } else { 0 }),
{
}

/// The days before year `y`, counted with leap years in closed form.
proof fn lemma_days_before_year(y: int)
    requires
        y >= 1970,
    ensures
        days_before_year(y) == 365 * (y - 1970) + leap_count(y - 1) - 477,
    decreases y - 1970,
{
    if y > 1970 {
        lemma_days_before_year(y - 1);
        lemma_leap_count_step(y - 1);
    }
}

/// The days before each month, with February's leap day counted from March.
proof fn lemma_days_before_month(y: int, m: int)
    requires
        1 <= m <= 12,
    ensures
        days_before_month(y, m) == (if m <= 2 { 31 * (m - 1) } else {
            (153 * (m - 3) + 2) / 5 + 59 + (if is_leap_year(y) { 1int } else { 0 })
        }),
{
    reveal_with_fuel(days_before_month, 13);
}

/// The month of a day of the year counted from March 1st: `mp` months
/// after March, `doy - before` days into it. The February at the end is
/// that of year `y`.
proof fn lemma_month_of_shifted_day(doy: int, y: int)
    requires
        0 <= doy < 365 + (if is_leap_year(y) { 1int } else { 0 }),
    ensures
        ({
            let mp = (5 * doy + 2) / 153;
            let before = (153 * mp + 2) / 5;
            &&& 0 <= mp < 12
            &&& before <= doy
            &&& (mp < 10 <==> doy < 306)
            &&& mp < 10 ==> doy - before < month_length(y, mp + 3)
            &&& mp == 10 ==> before == 306 && doy - before < 31
            &&& mp == 11 ==> before == 337 && doy - before < month_length(y, 2)
        }),
{
}

/// Within a 400-year era counted from March 1st, the shifted year `yoe`
/// starts on day `365 * yoe + yoe / 4 - yoe / 100` and lasts 365 days, or
/// 366 when the February that ends it has a leap day.
proof fn lemma_year_of_era(doe: int)
    requires
        0 <= doe < 146097,
    ensures
        ({
            let yoe = (doe - doe / 1460 + doe / 36524 - doe / 146096) / 365;
            let start = 365 * yoe + yoe / 4 - yoe / 100;
            &&& 0 <= yoe < 400
            &&& start <= doe
            &&& doe < start + 365 + (if is_leap_year(yoe + 1) { 1int } else { 0 })
        }),
{
}


/// Days from 1970-01-01 to January 1st of year `y`, in closed form.
spec fn days_to_year(y: int) -> int {
    365 * (y - 1970) + leap_count(y - 1) - 477
}

/// A day `doy` days after March 1st of the shifted year `yoe` of era `era`
/// (counted from 0000-03-01) is `days` days after 1970-01-01: that March
/// 1st is 306 days before January 1st of the next year, from 1969 on.
#[verifier::spinoff_prover]
#[verifier::rlimit(40)]
proof fn lemma_shifted_year(days: int, era: int, yoe: int, doy: int)
    requires
        days >= 0,
        era >= 0,
        0 <= yoe < 400,
        0 <= doy < 366,
        days + 719468 == 146097 * era + 365 * yoe + yoe / 4 - yoe / 100 + doy,
    ensures
        400 * era + yoe >= 1969,
        days == days_to_year(400 * era + yoe + 1) - 306 + doy,
        doy < 306 ==> 400 * era + yoe >= 1970,
        is_leap_year(yoe + 1) == is_leap_year(400 * era + yoe + 1),
{
    let y0 = 400 * era + yoe;
    assert(leap_count(y0) == 97 * era + yoe / 4 - yoe / 100);
}

/// The date of the day `doy` days after March 1st of year `y0`.
proof fn lemma_date_in_shifted_year(days: int, y0: int, doy: int)
    requires
        y0 >= 1969,
        0 <= doy < 365 + (if is_leap_year(y0 + 1) { 1int } else { 0 }),
        doy < 306 ==> y0 >= 1970,
        days == days_to_year(y0 + 1) - 306 + doy,
    ensures
        ({
            let mp = (5 * doy + 2) / 153;
            let d = doy - (153 * mp + 2) / 5 + 1;
            let m = if mp < 10 { mp + 3 } else { mp - 9 };
            let y = if m <= 2 { y0 + 1 } else { y0 };
            is_civil_date(days, y, m, d)
        }),
{
    lemma_month_of_shifted_day(doy, y0 + 1);
    let mp = (5 * doy + 2) / 153;
    let m = if mp < 10 { mp + 3 } else { mp - 9 };
    if mp < 10 {
        lemma_leap_count_step(y0);
        lemma_days_before_year(y0);
        lemma_days_before_month(y0, m);
    } else {
        lemma_days_before_year(y0 + 1);
        lemma_days_before_month(y0 + 1, m);
    }
}

/// The date `days` days after 1970-01-01.
fn civil_from_days(days: u64) -> (r: (u64, u64, u64))
    requires
        days <= u64::MAX / 86400,
    ensures
        is_civil_date(days as int, r.0 as int, r.1 as int, r.2 as int),
{
    let z = days + 719468;
    let era = z / 146097;
    let doe = z % 146097;
    proof {
        lemma_year_of_era(doe as int);
    }
    let yoe = (doe - doe / 1460 + doe / 36524 - doe / 146096) / 365;
    let y0 = yoe + era * 400;
    let doy = doe - (365 * yoe + yoe / 4 - yoe / 100);
    assert(doy < 366);
    assert(days + 719468 == 146097 * era + 365 * yoe + yoe / 4 - yoe / 100 + doy);
    proof {
        lemma_shifted_year(days as int, era as int, yoe as int, doy as int);
        lemma_date_in_shifted_year(days as int, y0 as int, doy as int);
    }
    let mp = (5 * doy + 2) / 153;
    let d = doy - (153 * mp + 2) / 5 + 1;
    let m = if mp < 10 { mp + 3 } else { mp - 9 };
    let y = if m <= 2 { y0 + 1 } else { y0 };
    (y, m, d)
}
proof fn lemma_days_before_year_grows(a: int, b: int)
    requires
        1970 <= a < b,
    ensures
        days_before_year(a) + year_length(a) <= days_before_year(b),
    decreases b - a,
{
    if b > a + 1 {
        lemma_days_before_year_grows(a, b - 1);
    }
}

proof fn lemma_day_within_year(y: int, m: int, d: int)
    requires
        1 <= m <= 12,
        1 <= d <= month_length(y, m),
    ensures
        0 <= days_before_month(y, m) + (d - 1) < year_length(y),
{
    lemma_days_before_month(y, m);
}

/// A day number has at most one date: two dates `n` days after
/// 1970-01-01 are the same date.
pub proof fn law_civil_date_unique(n: int, y1: int, m1: int, d1: int, y2: int, m2: int, d2: int)
    requires
        is_civil_date(n, y1, m1, d1),
        is_civil_date(n, y2, m2, d2),
    ensures
        y1 == y2 && m1 == m2 && d1 == d2,
{
    lemma_day_within_year(y1, m1, d1);
    lemma_day_within_year(y2, m2, d2);
    if y1 < y2 {
        lemma_days_before_year_grows(y1, y2);
    } else if y2 < y1 {
        lemma_days_before_year_grows(y2, y1);
    }
    assert(y1 == y2);
    lemma_days_before_month(y1, m1);
    lemma_days_before_month(y1, m2);
}

/// Whether date `y1-m1-d1` comes no later than date `y2-m2-d2`.
pub open spec fn date_le(y1: int, m1: int, d1: int, y2: int, m2: int, d2: int) -> bool {
    y1 < y2 || (y1 == y2 && (m1 < m2 || (m1 == m2 && d1 <= d2)))
}

/// Later seconds never give an earlier date, and every second of a day
/// gives the date of the day's first second.
pub proof fn law_date_never_goes_back(
    s1: int,
    s2: int,
    y1: int,
    m1: int,
    d1: int,
    y2: int,
    m2: int,
    d2: int,
)
    requires
        0 <= s1 <= s2,
        is_civil_date(s1 / 86400, y1, m1, d1),
        is_civil_date(s2 / 86400, y2, m2, d2),
    ensures
        date_le(y1, m1, d1, y2, m2, d2),
        (s1 - s1 % 86400) / 86400 == s1 / 86400,
{
    let n1 = s1 / 86400;
    let n2 = s2 / 86400;
    assert(n1 <= n2) by (nonlinear_arith)
        requires
            0 <= s1 <= s2,
            n1 == s1 / 86400,
            n2 == s2 / 86400,
    ;
    lemma_day_within_year(y1, m1, d1);
    lemma_day_within_year(y2, m2, d2);
    if y2 < y1 {
        lemma_days_before_year_grows(y2, y1);
    } else if y1 < y2 {
    } else {
        lemma_days_before_month(y1, m1);
        lemma_days_before_month(y1, m2);
    }
}

/// Formats a Unix timestamp as its UTC date, `YYYY-MM-DD`.
pub fn utc_date(secs: u64) -> (r: String)
    ensures
        exists|y: nat, m: nat, d: nat|
            is_civil_date((secs / 86400) as int, y as int, m as int, d as int) && r@ == #[trigger] date_text(y, m, d),
{
    let (y, m, d) = civil_from_days(secs / 86400);
    let mut r = String::new();
    push_zero_padded(&mut r, y, 4);
    push_char(&mut r, '-');
    push_zero_padded(&mut r, m, 2);
    push_char(&mut r, '-');
    push_zero_padded(&mut r, d, 2);
    proof {
        reveal_strlit("-");
        assert(r@ =~= date_text(y as nat, m as nat, d as nat));
    }
    r
}

} // verus!
