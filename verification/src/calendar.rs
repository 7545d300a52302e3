use vstd::prelude::*;

verus! {

pub const MS_PER_DAY: u64 = 86_400_000;

pub const MS_PER_HOUR: u64 = 3_600_000;

/// The Gregorian leap-year rule.
pub open spec fn is_leap_year(y: int) -> bool {
    (y % 4 == 0 && y % 100 != 0) || y % 400 == 0
}

pub open spec fn days_in_year(y: int) -> int {
    if is_leap_year(y) {
        366
    } else {
        365
    }
}

pub open spec fn days_in_month(y: int, m: int) -> int {
    if m == 2 {
        if is_leap_year(y) {
            29
        } else {
            28
        }
    } else if m == 4 || m == 6 || m == 9 || m == 11 {
        30
    } else {
        31
    }
}

/// Days in months `m..=12` of year `y`.
pub open spec fn days_from_month(y: int, m: int) -> int
    decreases 13 - m,
{
    if m > 12 {
        0
    } else {
        days_in_month(y, m) + days_from_month(y, m + 1)
    }
}

/// Peels whole years off a day count that starts at January the 1st of year
/// `y`: the year the count lands in, and the remaining day of that year.
pub open spec fn split_year(days: int, y: int) -> (int, int)
    decreases days,
{
    if days < days_in_year(y) {
        (y, days)
    } else {
        split_year(days - days_in_year(y), y + 1)
    }
}

/// Peels whole months off a day count that starts at the 1st of month `m` of
/// year `y`: the month the count lands in, and the remaining day of that
/// month.
pub open spec fn split_month(days: int, y: int, m: int) -> (int, int)
    decreases days,
{
    if days < days_in_month(y, m) {
        (m, days)
    } else {
        split_month(days - days_in_month(y, m), y, m + 1)
    }
}

/// The UTC (year, month, day, hour) a millisecond timestamp falls in.
/// Months and days are one-based.
pub open spec fn date_of_timestamp(ts: u64) -> (int, int, int, int) {
    let days = (ts as int) / (MS_PER_DAY as int);
    let (y, doy) = split_year(days, 1970);
    let (m, dom) = split_month(doy, y, 1);
    (y, m, dom + 1, ((ts as int) % (MS_PER_DAY as int)) / (MS_PER_HOUR as int))
}

/// A year has as many days as its twelve months together.
proof fn lemma_year_months(y: int)
    ensures
        days_from_month(y, 1) == days_in_year(y),
{
    reveal_with_fuel(days_from_month, 14);
}

/// Splitting months inside one year lands within that year: month at most 12
/// and day inside the month, provided the day count fits in the months left.
proof fn lemma_split_month_bounds(days: int, y: int, m: int)
    requires
        1 <= m <= 12,
        0 <= days < days_from_month(y, m),
    ensures
        ({
            let (mm, dd) = split_month(days, y, m);
            &&& m <= mm <= 12
            &&& 0 <= dd < days_in_month(y, mm)
        }),
    decreases days,
{
    if days < days_in_month(y, m) {
    } else {
        assert(days_from_month(y, m) == days_in_month(y, m) + days_from_month(y, m + 1));
        if m == 12 {
            assert(days_from_month(y, 13) == 0);
            assert(false);
        } else {
            lemma_split_month_bounds(days - days_in_month(y, m), y, m + 1);
        }
    }
}

fn is_leap_year_exec(y: u64) -> (r: bool)
    ensures
        r == is_leap_year(y as int),
{
    (y % 4 == 0 && y % 100 != 0) || y % 400 == 0
}

fn days_in_year_exec(y: u64) -> (r: u64)
    ensures
        r == days_in_year(y as int),
{
    if is_leap_year_exec(y) {
        366
    } else {
        365
    }
}

fn days_in_month_exec(y: u64, m: u64) -> (r: u64)
    ensures
        r == days_in_month(y as int, m as int),
{
    if m == 2 {
        if is_leap_year_exec(y) {
            29
        } else {
            28
        }
    } else if m == 4 || m == 6 || m == 9 || m == 11 {
        30
    } else {
        31
    }
}

/// Decomposes a millisecond timestamp into its UTC calendar date and hour.
pub fn timestamp_to_date(ts: u64) -> (r: (u32, u8, u8, u8))
    ensures
        ({
            let (y, m, d, h) = date_of_timestamp(ts);
            &&& r.0 == y
            &&& r.1 == m
            &&& r.2 == d
            &&& r.3 == h
        }),
{
    let days0 = ts / MS_PER_DAY;
    let mut days = days0;
    let mut y: u64 = 1970;
    while days >= days_in_year_exec(y)
        invariant
            1970 <= y,
            split_year(days0 as int, 1970) == split_year(days as int, y as int),
            (y - 1970) * 365 <= days0 - days,
            days <= days0,
        decreases days,
    {
        let diy = days_in_year_exec(y);
        proof {
            assert(split_year(days as int, y as int) == split_year(
                days as int - days_in_year(y as int),
                y as int + 1,
            ));
            assert((y + 1 - 1970) * 365 <= days0 - (days - diy)) by (nonlinear_arith)
                requires
                    (y - 1970) * 365 <= days0 - days,
                    diy >= 365,
                    y >= 1970,
            ;
        }
        days = days - diy;
        y = y + 1;
    }
    // The year loop has landed inside year y.
    assert(split_year(days0 as int, 1970) == (y as int, days as int));
    proof {
        assert(days0 <= u64::MAX / MS_PER_DAY);
        assert(y <= 1970 + days0 / 365) by (nonlinear_arith)
            requires
                (y - 1970) * 365 <= days0 - days,
                days <= days0,
                y >= 1970,
        ;
        assert(y < 0x1_0000_0000);
    }
    let year32 = y as u32;

    let ghost doy = days as int;
    proof {
        lemma_year_months(y as int);
        lemma_split_month_bounds(doy, y as int, 1);
    }
    let mut m: u64 = 1;
    while days >= days_in_month_exec(y, m)
        invariant
            1 <= m <= 12,
            split_month(doy, y as int, 1) == split_month(days as int, y as int, m as int),
            0 <= days < days_from_month(y as int, m as int),
        decreases days,
    {
        let dim = days_in_month_exec(y, m);
        proof {
            assert(split_month(days as int, y as int, m as int) == split_month(
                days as int - days_in_month(y as int, m as int),
                y as int,
                m as int + 1,
            ));
            assert(days_from_month(y as int, m as int) == days_in_month(y as int, m as int)
                + days_from_month(y as int, m as int + 1));
            if m == 12 {
                assert(days_from_month(y as int, 13) == 0);
                assert(false);
            }
        }
        days = days - dim;
        m = m + 1;
    }
    assert(split_month(doy, y as int, 1) == (m as int, days as int));

    let hour = (ts % MS_PER_DAY) / MS_PER_HOUR;
    proof {
        assert(ts % MS_PER_DAY < MS_PER_DAY);
        assert((ts % MS_PER_DAY) / MS_PER_HOUR < 24) by (nonlinear_arith)
            requires
                ts % MS_PER_DAY < 86_400_000,
        ;
    }
    (year32, m as u8, (days + 1) as u8, hour as u8)
}

} // verus!
