//! The proleptic Gregorian calendar, counted in days from 1970-01-01.
use vstd::prelude::*;

verus! {

/// A leap year of the Gregorian calendar.
pub open spec fn is_leap(y: int) -> bool {
    (y % 4 == 0 && y % 100 != 0) || y % 400 == 0
}

/// The number of days of year `y`.
pub open spec fn year_len(y: int) -> int {
    if is_leap(y) { 366 } else { 365 }
}

/// The number of days of month `m` (1 to 12) of year `y`.
pub open spec fn month_len(y: int, m: int) -> int {
    if m == 2 {
        if is_leap(y) { 29 } else { 28 }
    } else if m == 4 || m == 6 || m == 9 || m == 11 {
        30
    } else {
        31
    }
}

/// The days of year `y` before the first of month `m` (1 to 12).
pub open spec fn days_before_month(y: int, m: int) -> int {
    let base: int = if m == 1 { 0 }
        else if m == 2 { 31 }
        else if m == 3 { 59 }
        else if m == 4 { 90 }
        else if m == 5 { 120 }
        else if m == 6 { 151 }
        else if m == 7 { 181 }
        else if m == 8 { 212 }
        else if m == 9 { 243 }
        else if m == 10 { 273 }
        else if m == 11 { 304 }
        else { 334 };
    base + if m > 2 && is_leap(y) { 1int } else { 0int }
}

/// The number of leap years from year 1 to year `y - 1`.
pub open spec fn leaps_before(y: int) -> int {
    (y - 1) / 4 - (y - 1) / 100 + (y - 1) / 400
}

/// The days from 1970-01-01 to the first of January of year `y`.
pub open spec fn days_to_year(y: int) -> int {
    365 * (y - 1970) + leaps_before(y) - leaps_before(1970)
}

/// A date of the calendar.
pub open spec fn valid_date(y: int, m: int, d: int) -> bool {
    1 <= m <= 12 && 1 <= d <= month_len(y, m)
}

/// The days from 1970-01-01 to the date.
pub open spec fn days_from_civil(y: int, m: int, d: int) -> int {
    days_to_year(y) + days_before_month(y, m) + d - 1
}

/// The date `n` days after 1970-01-01.
pub open spec fn civil_from_days(n: nat) -> (int, int, int) {
    choose|date: (int, int, int)|
        date.0 >= 1970 && valid_date(date.0, date.1, date.2) && days_from_civil(
            date.0,
            date.1,
            date.2,
        ) == n
}

/// A year is as long as the distance between the first days of it and the next.
pub proof fn lemma_days_to_next_year(y: int)
    ensures
        days_to_year(y + 1) == days_to_year(y) + year_len(y),
{
    assert(y / 4 - (y - 1) / 4 == (if y % 4 == 0 { 1int } else { 0int })) by (nonlinear_arith);
    assert(y / 100 - (y - 1) / 100 == (if y % 100 == 0 { 1int } else { 0int })) by (nonlinear_arith);
    assert(y / 400 - (y - 1) / 400 == (if y % 400 == 0 { 1int } else { 0int })) by (nonlinear_arith);
    assert(y % 400 == 0 ==> y % 100 == 0 && y % 4 == 0) by (nonlinear_arith);
    assert(y % 100 == 0 ==> y % 4 == 0) by (nonlinear_arith);
}

/// Four hundred years hold 146097 days.
pub proof fn lemma_days_to_year_era(y: int, k: int)
    requires
        k >= 0,
    ensures
        days_to_year(y + 400 * k) == days_to_year(y) + 146097 * k,
{
    assert((y - 1 + 400 * k) / 4 == (y - 1) / 4 + 100 * k) by (nonlinear_arith);
    assert((y - 1 + 400 * k) / 100 == (y - 1) / 100 + 4 * k) by (nonlinear_arith);
    assert((y - 1 + 400 * k) / 400 == (y - 1) / 400 + k) by (nonlinear_arith);
}

/// Later years start later.
pub proof fn lemma_days_to_year_monotone(a: int, b: int)
    requires
        a <= b,
    ensures
        days_to_year(a) + 365 * (b - a) <= days_to_year(b),
    decreases b - a,
{
    if a < b {
        lemma_days_to_year_monotone(a, b - 1);
        lemma_days_to_next_year(b - 1);
    }
}

/// The months of a year fill it.
proof fn lemma_months_fill_year(y: int, m: int)
    requires
        1 <= m <= 12,
    ensures
        days_before_month(y, m) + month_len(y, m) <= year_len(y),
        m < 12 ==> days_before_month(y, m + 1) == days_before_month(y, m) + month_len(y, m),
        m == 12 ==> days_before_month(y, m) + month_len(y, m) == year_len(y),
{
}

/// No two dates fall on the same day.
pub proof fn lemma_civil_unique(a: (int, int, int), b: (int, int, int))
    requires
        valid_date(a.0, a.1, a.2),
        valid_date(b.0, b.1, b.2),
        days_from_civil(a.0, a.1, a.2) == days_from_civil(b.0, b.1, b.2),
    ensures
        a == b,
{
    lemma_months_fill_year(a.0, a.1);
    lemma_months_fill_year(b.0, b.1);
    if a.0 < b.0 {
        lemma_days_to_year_monotone(a.0 + 1, b.0);
        lemma_days_to_next_year(a.0);
        assert(false);
    } else if b.0 < a.0 {
        lemma_days_to_year_monotone(b.0 + 1, a.0);
        lemma_days_to_next_year(b.0);
        assert(false);
    } else {
        if a.1 < b.1 {
            lemma_month_order(a.0, a.1, b.1);
            assert(false);
        } else if b.1 < a.1 {
            lemma_month_order(a.0, b.1, a.1);
            assert(false);
        }
    }
}

/// Later months of a year start after earlier ones end.
proof fn lemma_month_order(y: int, m1: int, m2: int)
    requires
        1 <= m1 < m2 <= 12,
    ensures
        days_before_month(y, m1) + month_len(y, m1) <= days_before_month(y, m2),
{
}

/// The year, month and day `n` days after 1970-01-01.
pub fn civil_date(n: u64) -> (r: (u64, u64, u64))
    requires
        n <= 200_000_000_000_000,
    ensures
        r.0 >= 1970,
        valid_date(r.0 as int, r.1 as int, r.2 as int),
        days_from_civil(r.0 as int, r.1 as int, r.2 as int) == n,
        (r.0 as int, r.1 as int, r.2 as int) == civil_from_days(n as nat),
{
    let mut y: u64 = 1970;
    let mut rem: u64 = n;
    // whole years up to the start of a 400-year cycle in 2000
    while y < 2000 && rem >= year_length(y)
        invariant
            1970 <= y <= 2000,
            days_to_year(y as int) + rem == n,
        decreases 2000 - y,
    {
        proof {
            lemma_days_to_next_year(y as int);
        }
        rem = rem - year_length(y);
        y = y + 1;
    }
    if y == 2000 {
        // whole 400-year cycles
        let eras = rem / 146097;
        proof {
            lemma_days_to_year_era(2000, eras as int);
            assert(eras * 146097 <= rem) by (nonlinear_arith)
                requires
                    eras == rem / 146097,
            ;
            assert(eras <= 200_000_000_000_000int / 146097int) by (nonlinear_arith)
                requires
                    eras == rem / 146097,
                    rem <= 200_000_000_000_000,
            ;
            assert(rem - eras * 146097 < 146097) by (nonlinear_arith)
                requires
                    eras == rem / 146097,
            ;
        }
        y = 2000 + 400 * eras;
        rem = rem - 146097 * eras;
        // the remaining whole years of the cycle
        let ghost y0 = y;
        while rem >= year_length(y)
            invariant
                y0 <= y <= y0 + 401,
                y0 >= 2000,
                y0 <= 2000 + 400 * (200_000_000_000_000int / 146097int),
                days_to_year(y as int) + rem == n,
                rem + 365 * (y - y0) < 146097,
            decreases rem,
        {
            proof {
                lemma_days_to_next_year(y as int);
            }
            rem = rem - year_length(y);
            y = y + 1;
        }
    }
    // months of the year
    let mut m: u64 = 1;
    proof {
        assert(rem < year_len(y as int));
    }
    while rem >= month_length(y, m)
        invariant
            1 <= m <= 12,
            days_to_year(y as int) + days_before_month(y as int, m as int) + rem == n,
            days_before_month(y as int, m as int) + rem < year_len(y as int),
            y >= 1970,
        decreases 12 - m,
    {
        proof {
            lemma_months_fill_year(y as int, m as int);
        }
        rem = rem - month_length(y, m);
        m = m + 1;
    }
    let r = (y, m, rem + 1);
    proof {
        lemma_months_fill_year(y as int, m as int);
        let date = (y as int, m as int, rem + 1);
        assert(date.0 >= 1970 && valid_date(date.0, date.1, date.2) && days_from_civil(
            date.0,
            date.1,
            date.2,
        ) == n);
        let c = civil_from_days(n as nat);
        lemma_civil_unique(date, c);
    }
    r
}

/// The number of days of year `y`.
fn year_length(y: u64) -> (r: u64)
    ensures
        r == year_len(y as int),
{
    if (y % 4 == 0 && y % 100 != 0) || y % 400 == 0 {
        366
    } else {
        365
    }
}

/// The number of days of month `m` of year `y`.
fn month_length(y: u64, m: u64) -> (r: u64)
    ensures
        r == month_len(y as int, m as int),
{
    if m == 2 {
        if (y % 4 == 0 && y % 100 != 0) || y % 400 == 0 {
            29
        } else {
            28
        }
    } else if m == 4 || m == 6 || m == 9 || m == 11 {
        30
    } else {
        31
    }
}

} // verus!
