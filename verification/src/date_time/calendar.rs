//! The proleptic Gregorian calendar: day numbers counted from 1970-01-01.
use vstd::prelude::*;

verus! {

pub open spec fn is_leap_year(year: int) -> bool {
    (year % 4 == 0 && year % 100 != 0) || year % 400 == 0
}

pub open spec fn days_in_year(year: int) -> int {
    if is_leap_year(year) {
        366
    } else {
        365
    }
}

pub open spec fn days_in_month(year: int, month: int) -> int {
    if month == 2 {
        if is_leap_year(year) {
            29
        } else {
            28
        }
    } else if month == 4 || month == 6 || month == 9 || month == 11 {
        30
    } else {
        31
    }
}

/// Days of the year that pass before the first day of `month` (1..=12).
pub open spec fn days_before_month(year: int, month: int) -> int {
    let common: int = if month == 1 {
        0
    } else if month == 2 {
        31
    } else if month == 3 {
        59
    } else if month == 4 {
        90
    } else if month == 5 {
        120
    } else if month == 6 {
        151
    } else if month == 7 {
        181
    } else if month == 8 {
        212
    } else if month == 9 {
        243
    } else if month == 10 {
        273
    } else if month == 11 {
        304
    } else {
        334
    };
    if month > 2 && is_leap_year(year) {
        common + 1
    } else {
        common
    }
}

/// The amount of leap years among the years before `year`, counted from an origin far in the
/// past (only differences of it matter).
pub open spec fn leap_years_before(year: int) -> int {
    (year - 1) / 4 - (year - 1) / 100 + (year - 1) / 400
}

/// The day number of January 1st of `year`.
pub open spec fn days_before_year(year: int) -> int {
    365 * (year - 1970) + leap_years_before(year) - leap_years_before(1970)
}

pub open spec fn is_valid_date(year: int, month: int, day: int) -> bool {
    1 <= month <= 12 && 1 <= day <= days_in_month(year, month)
}

/// The day number of a calendar date: 0 is 1970-01-01, negative numbers are before it.
pub open spec fn days_from_civil(year: int, month: int, day: int) -> int {
    days_before_year(year) + days_before_month(year, month) + day - 1
}

/// The weekday of a day number, 0 being Monday (1970-01-01 was a Thursday).
pub open spec fn weekday_from_days(days: int) -> int {
    (days + 3) % 7
}

#[verifier::spinoff_prover]
pub proof fn lemma_next_year(year: int)
    ensures
        days_before_year(year + 1) == days_before_year(year) + days_in_year(year),
{
    let p = year - 1;
    assert((p + 1) / 4 == p / 4 + (if (p + 1) % 4 == 0 { 1int } else { 0 }));
    assert((p + 1) / 100 == p / 100 + (if (p + 1) % 100 == 0 { 1int } else { 0 }));
    assert((p + 1) / 400 == p / 400 + (if (p + 1) % 400 == 0 { 1int } else { 0 }));
    if year % 400 == 0 {
        assert(year % 4 == 0 && year % 100 == 0);
    }
    if year % 100 == 0 {
        assert(year % 4 == 0);
    }
}

pub proof fn lemma_era(year: int, eras: int)
    ensures
        days_before_year(year + 400 * eras) == days_before_year(year) + 146097 * eras,
{
    let p = year - 1;
    assert((p + 400 * eras) / 4 == p / 4 + 100 * eras);
    assert((p + 400 * eras) / 100 == p / 100 + 4 * eras);
    assert((p + 400 * eras) / 400 == p / 400 + eras);
}

/// Within `k` years the day number grows by at least `365 * k` and at most `366 * k`.
pub proof fn lemma_years_span(year: int, k: nat)
    ensures
        365 * k <= days_before_year(year + k) - days_before_year(year) <= 366 * k,
    decreases k,
{
    if k > 0 {
        lemma_years_span(year, (k - 1) as nat);
        lemma_next_year(year + k - 1);
    }
}

pub proof fn lemma_days_before_year_monotonic(y1: int, y2: int)
    requires
        y1 <= y2,
    ensures
        days_before_year(y1) <= days_before_year(y2),
        y1 < y2 ==> days_before_year(y1 + 1) <= days_before_year(y2),
{
    lemma_years_span(y1, (y2 - y1) as nat);
    if y1 < y2 {
        lemma_years_span(y1 + 1, (y2 - y1 - 1) as nat);
    }
}

pub proof fn lemma_month_table(year: int, month: int)
    requires
        1 <= month <= 12,
    ensures
        month < 12 ==> days_before_month(year, month + 1) == days_before_month(year, month)
            + days_in_month(year, month),
        month == 12 ==> days_before_month(year, month) + days_in_month(year, month)
            == days_in_year(year),
        days_before_month(year, 1) == 0,
        days_before_month(year, month) >= 0,
        days_in_month(year, month) >= 28,
{
}

/// The day of the year of a valid date lies within its year.
pub proof fn lemma_day_of_year_in_range(year: int, month: int, day: int)
    requires
        is_valid_date(year, month, day),
    ensures
        0 <= days_before_month(year, month) + day - 1 < days_in_year(year),
        days_before_year(year) <= days_from_civil(year, month, day) < days_before_year(year + 1),
    decreases 12 - month,
{
    lemma_month_table(year, month);
    lemma_next_year(year);
    if month < 12 {
        lemma_month_table(year, month + 1);
        lemma_day_of_year_in_range(year, month + 1, 1);
    }
}

/// Months that come later in a year start later.
pub proof fn lemma_months_ordered(year: int, m1: int, m2: int)
    requires
        1 <= m1 < m2 <= 12,
    ensures
        days_before_month(year, m1) + days_in_month(year, m1) <= days_before_month(year, m2),
    decreases m2 - m1,
{
    lemma_month_table(year, m1);
    if m1 + 1 < m2 {
        lemma_months_ordered(year, m1 + 1, m2);
        lemma_month_table(year, m1 + 1);
    }
}

/// A day number names at most one valid date.
pub proof fn lemma_civil_unique(y1: int, m1: int, d1: int, y2: int, m2: int, d2: int)
    requires
        is_valid_date(y1, m1, d1),
        is_valid_date(y2, m2, d2),
        days_from_civil(y1, m1, d1) == days_from_civil(y2, m2, d2),
    ensures
        y1 == y2 && m1 == m2 && d1 == d2,
{
    lemma_day_of_year_in_range(y1, m1, d1);
    lemma_day_of_year_in_range(y2, m2, d2);
    if y1 < y2 {
        lemma_days_before_year_monotonic(y1, y2);
    } else if y2 < y1 {
        lemma_days_before_year_monotonic(y2, y1);
    }
    assert(y1 == y2);
    if m1 < m2 {
        lemma_months_ordered(y1, m1, m2);
    } else if m2 < m1 {
        lemma_months_ordered(y1, m2, m1);
    }
}

/// Calendar order of valid dates is the order of their day numbers.
pub proof fn lemma_civil_order(y1: int, m1: int, d1: int, y2: int, m2: int, d2: int)
    requires
        is_valid_date(y1, m1, d1),
        is_valid_date(y2, m2, d2),
        y1 < y2 || (y1 == y2 && m1 < m2) || (y1 == y2 && m1 == m2 && d1 < d2),
    ensures
        days_from_civil(y1, m1, d1) < days_from_civil(y2, m2, d2),
{
    lemma_day_of_year_in_range(y1, m1, d1);
    lemma_day_of_year_in_range(y2, m2, d2);
    if y1 < y2 {
        lemma_days_before_year_monotonic(y1, y2);
    } else if m1 < m2 {
        lemma_months_ordered(y1, m1, m2);
    }
}

/// `a` divided by the positive `b`, rounded towards negative infinity.
pub fn floor_div(a: i64, b: i64) -> (q: i64)
    requires
        b > 0,
    ensures
        q == a as int / b as int,
{
    if a >= 0 {
        a / b
    } else {
        let n = (-(a as i128) - 1) / (b as i128);
        proof {
            let na = -(a as int) - 1;
            assert(na >= 0);
            assert(a as int / b as int == -(na / b as int) - 1) by (nonlinear_arith)
                requires
                    na == -(a as int) - 1,
                    na >= 0,
                    b > 0,
            {
                let q = na / b as int;
                let r = na % b as int;
                assert(na == q * b + r);
                assert(0 <= r < b);
                assert(a as int == (-q - 1) * b + (b - r - 1));
            }
        }
        (-n - 1) as i64
    }
}


/// The range of years the executable conversions work on: comfortably wider than what a
/// signed 64-bit count of microseconds can reach.
pub open spec fn year_in_range(year: int) -> bool {
    -1_000_000 <= year <= 1_000_000
}

/// The range of day numbers the executable conversions work on.
pub open spec fn days_in_range(days: int) -> bool {
    -200_000_000 <= days <= 200_000_000
}

pub fn days_before_year_exec(year: i64) -> (r: i64)
    requires
        year_in_range(year as int),
    ensures
        r == days_before_year(year as int),
{
    let p = year - 1;
    365 * (year - 1970) + floor_div(p, 4) - floor_div(p, 100) + floor_div(p, 400) - 477
}

pub fn days_before_month_exec(year: i64, month: u32) -> (r: i64)
    requires
        year_in_range(year as int),
        1 <= month <= 12,
    ensures
        r == days_before_month(year as int, month as int),
{
    let common: i64 = if month == 1 {
        0
    } else if month == 2 {
        31
    } else if month == 3 {
        59
    } else if month == 4 {
        90
    } else if month == 5 {
        120
    } else if month == 6 {
        151
    } else if month == 7 {
        181
    } else if month == 8 {
        212
    } else if month == 9 {
        243
    } else if month == 10 {
        273
    } else if month == 11 {
        304
    } else {
        334
    };
    if month > 2 && is_leap_year_exec(year) {
        common + 1
    } else {
        common
    }
}

#[verifier::spinoff_prover]
pub fn is_leap_year_exec(year: i64) -> (r: bool)
    ensures
        r == is_leap_year(year as int),
{
    (year % 4 == 0 && year % 100 != 0) || year % 400 == 0
}

pub fn days_in_month_exec(year: i64, month: u32) -> (r: u32)
    ensures
        r == days_in_month(year as int, month as int),
{
    if month == 2 {
        if is_leap_year_exec(year) {
            29
        } else {
            28
        }
    } else if month == 4 || month == 6 || month == 9 || month == 11 {
        30
    } else {
        31
    }
}

/// The day number of a valid date.
pub fn days_from_civil_exec(year: i64, month: u32, day: u32) -> (r: i64)
    requires
        year_in_range(year as int),
        is_valid_date(year as int, month as int, day as int),
    ensures
        r == days_from_civil(year as int, month as int, day as int),
{
    days_before_year_exec(year) + days_before_month_exec(year, month) + day as i64 - 1
}

/// The calendar date of a day number.
pub fn civil_from_days(days: i64) -> (r: (i64, u32, u32))
    requires
        days_in_range(days as int),
    ensures
        year_in_range(r.0 as int),
        is_valid_date(r.0 as int, r.1 as int, r.2 as int),
        days_from_civil(r.0 as int, r.1 as int, r.2 as int) == days,
{
    let era = floor_div(days, 146097);
    let base = 1970 + 400 * era;
    let rest = days - 146097 * era;
    proof {
        lemma_era(1970, era as int);
    }
    let ghost start_base = days_before_year(base as int);
    assert(start_base == 146097 * era);
    let mut year = base + rest / 366;
    proof {
        lemma_years_span(base as int, (rest / 366) as nat);
        lemma_era(base as int, 1);
    }
    while days_before_year_exec(year + 1) <= days
        invariant
            base <= year <= base + 399,
            days_before_year(year as int) <= days,
            days < days_before_year(base + 400),
            year_in_range(base as int),
            year_in_range(base + 400),
            days_in_range(days as int),
        decreases days - days_before_year(year as int),
    {
        proof {
            lemma_next_year(year as int);
        }
        year = year + 1;
    }
    proof {
        lemma_next_year(year as int);
    }
    let day_of_year = days - days_before_year_exec(year);
    let mut month: u32 = 1;
    proof {
        lemma_month_table(year as int, 1);
    }
    while month < 12 && days_before_month_exec(year, month + 1) <= day_of_year
        invariant
            1 <= month <= 12,
            days_before_month(year as int, month as int) <= day_of_year,
            0 <= day_of_year < days_in_year(year as int),
            year_in_range(year as int),
        decreases 12 - month,
    {
        month = month + 1;
    }
    proof {
        lemma_month_table(year as int, month as int);
    }
    let day = (day_of_year - days_before_month_exec(year, month) + 1) as u32;
    (year, month, day)
}

/// The day after a valid date.
pub proof fn lemma_following_day(y: int, m: int, d: int) -> (r: (int, int, int))
    requires
        is_valid_date(y, m, d),
    ensures
        is_valid_date(r.0, r.1, r.2),
        days_from_civil(r.0, r.1, r.2) == days_from_civil(y, m, d) + 1,
        y <= r.0 <= y + 1,
{
    lemma_month_table(y, m);
    if d < days_in_month(y, m) {
        (y, m, d + 1)
    } else if m < 12 {
        lemma_month_table(y, m + 1);
        (y, m + 1, 1)
    } else {
        lemma_next_year(y);
        lemma_month_table(y + 1, 1);
        (y + 1, 1, 1)
    }
}

/// The day before a valid date.
pub proof fn lemma_previous_day(y: int, m: int, d: int) -> (r: (int, int, int))
    requires
        is_valid_date(y, m, d),
    ensures
        is_valid_date(r.0, r.1, r.2),
        days_from_civil(r.0, r.1, r.2) == days_from_civil(y, m, d) - 1,
        y - 1 <= r.0 <= y,
{
    if d > 1 {
        (y, m, d - 1)
    } else if m > 1 {
        lemma_month_table(y, m - 1);
        (y, m - 1, days_in_month(y, m - 1))
    } else {
        lemma_next_year(y - 1);
        lemma_month_table(y - 1, 12);
        (y - 1, 12, 31)
    }
}

/// The date `n` days after a valid date.
pub proof fn lemma_days_forward(y: int, m: int, d: int, n: nat) -> (r: (int, int, int))
    requires
        is_valid_date(y, m, d),
    ensures
        is_valid_date(r.0, r.1, r.2),
        days_from_civil(r.0, r.1, r.2) == days_from_civil(y, m, d) + n,
        y <= r.0 <= y + n,
    decreases n,
{
    if n == 0 {
        (y, m, d)
    } else {
        let p = lemma_days_forward(y, m, d, (n - 1) as nat);
        lemma_following_day(p.0, p.1, p.2)
    }
}

/// The date `n` days before a valid date.
pub proof fn lemma_days_back(y: int, m: int, d: int, n: nat) -> (r: (int, int, int))
    requires
        is_valid_date(y, m, d),
    ensures
        is_valid_date(r.0, r.1, r.2),
        days_from_civil(r.0, r.1, r.2) == days_from_civil(y, m, d) - n,
        y - n <= r.0 <= y,
    decreases n,
{
    if n == 0 {
        (y, m, d)
    } else {
        let p = lemma_days_back(y, m, d, (n - 1) as nat);
        lemma_previous_day(p.0, p.1, p.2)
    }
}

/// Every day number is the day number of a valid date.
pub proof fn lemma_date_of_day(days: int) -> (r: (int, int, int))
    ensures
        is_valid_date(r.0, r.1, r.2),
        days_from_civil(r.0, r.1, r.2) == days,
{
    assert(days_from_civil(1970, 1, 1) == 0);
    if days >= 0 {
        lemma_days_forward(1970, 1, 1, days as nat)
    } else {
        lemma_days_back(1970, 1, 1, (-days) as nat)
    }
}

/// A valid date whose day number is within `days_in_range` has a year within
/// `year_in_range`.
pub proof fn lemma_year_of_days(y: int, m: int, d: int)
    requires
        is_valid_date(y, m, d),
        days_in_range(days_from_civil(y, m, d)),
    ensures
        year_in_range(y),
{
    lemma_day_of_year_in_range(y, m, d);
    if y > 1_000_000 {
        lemma_years_span(1970, (y - 1970) as nat);
    } else if y < -1_000_000 {
        lemma_years_span(y + 1, (1970 - y - 1) as nat);
        lemma_next_year(y);
    }
}

} // verus!
