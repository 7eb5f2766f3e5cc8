//! Calendar dates from Unix time, in the proleptic Gregorian calendar.
use vstd::prelude::*;

verus! {

/// The civil date `(year, month, day)` of the day `days` after 1970-01-01,
/// by Howard Hinnant's `civil_from_days` (with `/` rounding down).
pub open spec fn civil_from_days(days: int) -> (int, int, int) {
    let z = days + 719468;
    let era = z / 146097;
    let doe = z - era * 146097;
    let yoe = (doe - doe / 1460 + doe / 36524 - doe / 146096) / 365;
    let y = yoe + era * 400;
    let doy = doe - (365 * yoe + yoe / 4 - yoe / 100);
    let mp = (5 * doy + 2) / 153;
    let d = doy - (153 * mp + 2) / 5 + 1;
    let m = if mp < 10 { mp + 3 } else { mp - 9 };
    (if m <= 2 { y + 1 } else { y }, m, d)
}

/// The number of days from 1970-01-01 to the civil date `(y, m, d)`, by
/// Howard Hinnant's `days_from_civil`.
pub open spec fn days_from_civil(y: int, m: int, d: int) -> int {
    let y1 = if m <= 2 { y - 1 } else { y };
    let era = y1 / 400;
    let yoe = y1 - era * 400;
    let mp = if m > 2 { m - 3 } else { m + 9 };
    let doy = (153 * mp + 2) / 5 + d - 1;
    let doe = yoe * 365 + yoe / 4 - yoe / 100 + doy;
    era * 146097 + doe - 719468
}

/// Whether `y` is a leap year of the Gregorian calendar.
pub open spec fn is_leap_year(y: int) -> bool {
    y % 4 == 0 && (y % 100 != 0 || y % 400 == 0)
}

/// The number of days of month `m` (1 to 12) of year `y`.
pub open spec fn days_in_month(y: int, m: int) -> int {
    if m == 2 {
        if is_leap_year(y) {
            29
        } else {
            28
        }
    } else if m == 4 || m == 6 || m == 9 || m == 11 {
        30
    } else {
        31
    }
}

/// The day of Unix time `secs`, counted from 1970-01-01 (rounding down).
pub open spec fn day_of(secs: int) -> int {
    secs / 86400
}

/// The smallest and largest day numbers whose dates the conversion handles:
/// those whose count from 0000-03-01 fits in an `i32`.
pub open spec fn day_in_range(days: int) -> bool {
    i32::MIN <= days && days + 719468 <= i32::MAX
}

/// `a` divided by `b`, rounded down.
fn div_floor(a: i64, b: i64) -> (q: i64)
    requires
        b > 0,
    ensures
        q == a / b,
{
    if a >= 0 {
        let q = (a as u64) / (b as u64);
        assert(q == a / b);
        q as i64
    } else {
        let n: u64 = (-(a + 1)) as u64;
        let k = n / (b as u64);
        assert(k <= n);
        let q: i64 = -(k as i64) - 1;
        proof {
            let ai = a as int;
            let bi = b as int;
            let ni = n as int;
            let ki = k as int;
            assert(ki == ni / bi);
            assert(ni == ki * bi + ni % bi) by (nonlinear_arith)
                requires
                    bi > 0,
                    ki == ni / bi,
            {}
            assert(0 <= ni % bi < bi) by (nonlinear_arith)
                requires
                    bi > 0,
            {}
            assert(ai == (-ki - 1) * bi + (bi - 1 - ni % bi)) by (nonlinear_arith)
                requires
                    ni == -(ai + 1),
                    ni == ki * bi + ni % bi,
            {}
            assert(ai / bi == -ki - 1) by (nonlinear_arith)
                requires
                    bi > 0,
                    ai == (-ki - 1) * bi + (bi - 1 - ni % bi),
                    0 <= bi - 1 - ni % bi < bi,
            {
                vstd::arithmetic::div_mod::lemma_fundamental_div_mod_converse(
                    ai,
                    bi,
                    -ki - 1,
                    bi - 1 - ni % bi,
                );
            }
        }
        q
    }
}

/// Converts a Unix timestamp (seconds since 1970-01-01 UTC) to
/// `(year, month, day)` in the proleptic Gregorian calendar.
pub fn unix_secs_to_ymd(secs: i64) -> (r: (i32, u8, u8))
    requires
        day_in_range(day_of(secs as int)),
    ensures
        r.0 as int == civil_from_days(day_of(secs as int)).0,
        r.1 as int == civil_from_days(day_of(secs as int)).1,
        r.2 as int == civil_from_days(day_of(secs as int)).2,
        1 <= r.1 <= 12,
        1 <= r.2 <= days_in_month(r.0 as int, r.1 as int),
{
    proof {
        lemma_civil_from_days_inverse(day_of(secs as int));
    }
    let days = div_floor(secs, 86400);
    let z = days + 719468;
    let era = div_floor(z, 146097);
    let doe = z - era * 146097;
    assert(0 <= doe < 146097) by (nonlinear_arith)
        requires
            era == z / 146097,
            doe == z - era * 146097,
    {}
    let yoe = (doe - doe / 1460 + doe / 36524 - doe / 146096) / 365;
    assert(0 <= yoe <= 399) by (nonlinear_arith)
        requires
            0 <= doe < 146097,
            yoe == (doe - doe / 1460 + doe / 36524 - doe / 146096) / 365,
    {}
    let y = yoe + era * 400;
    let doy = doe - (365 * yoe + yoe / 4 - yoe / 100);
    assert(0 <= doy <= 365) by (nonlinear_arith)
        requires
            0 <= doe < 146097,
            yoe == (doe - doe / 1460 + doe / 36524 - doe / 146096) / 365,
            doy == doe - (365 * yoe + yoe / 4 - yoe / 100),
    {}
    let mp = (5 * doy + 2) / 153;
    assert(0 <= mp <= 11) by (nonlinear_arith)
        requires
            0 <= doy <= 365,
            mp == (5 * doy + 2) / 153,
    {}
    let d = doy - (153 * mp + 2) / 5 + 1;
    assert(1 <= d <= 31) by (nonlinear_arith)
        requires
            0 <= doy <= 365,
            mp == (5 * doy + 2) / 153,
            d == doy - (153 * mp + 2) / 5 + 1,
    {}
    let m = if mp < 10 { mp + 3 } else { mp - 9 };
    let y = if m <= 2 { y + 1 } else { y };
    assert(-6000000 <= y <= 6000000) by (nonlinear_arith)
        requires
            i32::MIN + 719468 <= z <= i32::MAX,
            era == z / 146097,
            0 <= yoe <= 399,
            y == yoe + era * 400 || y == yoe + era * 400 + 1,
    {}
    (y as i32, m as u8, d as u8)
}

/// The Unix time `now_secs` shifted by `offset` hours, where every step of
/// that computation fits in an `i64`.
pub open spec fn shifted_secs(now_secs: u64, offset: Option<i64>) -> Option<int> {
    let h: int = match offset {
        Some(h) => h as int,
        None => 0,
    };
    if now_secs > i64::MAX || h * 3600 < i64::MIN || h * 3600 > i64::MAX || now_secs + h * 3600
        < i64::MIN || now_secs + h * 3600 > i64::MAX {
        None
    } else {
        Some(now_secs + h * 3600)
    }
}

/// Today's date at UTC offset `offset` (in hours), given the seconds since
/// 1970-01-01 UTC; nothing where the time is out of range.
pub fn today_ymd(now_secs: u64, offset: Option<i64>) -> (r: Option<(i32, u8, u8)>)
    ensures
        match r {
            Some(date) => shifted_secs(now_secs, offset) matches Some(secs) && day_in_range(
                day_of(secs),
            ) && date.0 as int == civil_from_days(day_of(secs)).0 && date.1 as int
                == civil_from_days(day_of(secs)).1 && date.2 as int == civil_from_days(
                day_of(secs),
            ).2,
            None => !(shifted_secs(now_secs, offset) matches Some(secs) && day_in_range(
                day_of(secs),
            )),
        },
{
    if now_secs > i64::MAX as u64 {
        return None;
    }
    let hours: i64 = match offset {
        Some(h) => h,
        None => 0,
    };
    let shift = match hours.checked_mul(3600) {
        Some(s) => s,
        None => return None,
    };
    let secs = match (now_secs as i64).checked_add(shift) {
        Some(s) => s,
        None => return None,
    };
    let days = div_floor(secs, 86400);
    if days < i32::MIN as i64 || days > i32::MAX as i64 - 719468 {
        return None;
    }
    Some(unix_secs_to_ymd(secs))
}

/// The day of the shifted year (from March) `doy` falls in the month
/// `mp` (0 for March) that the conversion picks, and within its length:
/// in February only of a year that `doy == 365` marks as leap.
proof fn lemma_day_within_month(doy: int, mp: int)
    requires
        0 <= doy <= 365,
        mp == (5 * doy + 2) / 153,
    ensures
        0 <= mp <= 11,
        mp < 11 ==> doy - (153 * mp + 2) / 5 + 1 <= days_in_month(0, if mp < 10 { mp + 3 } else { mp - 9 }),
        mp == 11 ==> doy - (153 * mp + 2) / 5 + 1 <= 28 || doy == 365,
        mp == 11 ==> doy - (153 * mp + 2) / 5 + 1 <= 29,
{
    assert(0 <= mp <= 11) by (nonlinear_arith)
        requires
            0 <= doy <= 365,
            mp == (5 * doy + 2) / 153,
    {}
    assert(153 * mp <= 5 * doy + 2 < 153 * mp + 153) by (nonlinear_arith)
        requires
            0 <= doy,
            mp == (5 * doy + 2) / 153,
    {}
    if mp == 0 {
    } else if mp == 1 {
    } else if mp == 2 {
    } else if mp == 3 {
    } else if mp == 4 {
    } else if mp == 5 {
    } else if mp == 6 {
    } else if mp == 7 {
    } else if mp == 8 {
    } else if mp == 9 {
    } else if mp == 10 {
    } else {
    }
}

/// The calendar repeats every 400 years: the day 146097 days later has the
/// same month and day, 400 years later.
pub proof fn lemma_four_hundred_years(days: int)
    ensures
        civil_from_days(days + 146097).0 == civil_from_days(days).0 + 400,
        civil_from_days(days + 146097).1 == civil_from_days(days).1,
        civil_from_days(days + 146097).2 == civil_from_days(days).2,
{
    let z = days + 719468;
    let era = z / 146097;
    assert((z + 146097) / 146097 == era + 1);
    assert((z + 146097) - (era + 1) * 146097 == z - era * 146097);
}

/// Counting the days back from the date of a day gives that day: the
/// date of every day number names that day and no other.  And that date
/// is a date of the calendar: a month from 1 to 12, and a day from 1 to
/// the length of that month in that year.
pub proof fn lemma_civil_from_days_inverse(days: int)
    ensures
        days_from_civil(civil_from_days(days).0, civil_from_days(days).1, civil_from_days(days).2)
            == days,
        1 <= civil_from_days(days).1 <= 12,
        1 <= civil_from_days(days).2 <= days_in_month(
            civil_from_days(days).0,
            civil_from_days(days).1,
        ),
{
    let z = days + 719468;
    let era = z / 146097;
    let doe = z - era * 146097;
    assert(0 <= doe < 146097) by (nonlinear_arith)
        requires
            era == z / 146097,
            doe == z - era * 146097,
    {}
    let yoe = (doe - doe / 1460 + doe / 36524 - doe / 146096) / 365;
    assert(0 <= yoe <= 399) by (nonlinear_arith)
        requires
            0 <= doe < 146097,
            yoe == (doe - doe / 1460 + doe / 36524 - doe / 146096) / 365,
    {}
    let y = yoe + era * 400;
    let doy = doe - (365 * yoe + yoe / 4 - yoe / 100);
    assert(0 <= doy <= 365) by (nonlinear_arith)
        requires
            0 <= doe < 146097,
            yoe == (doe - doe / 1460 + doe / 36524 - doe / 146096) / 365,
            doy == doe - (365 * yoe + yoe / 4 - yoe / 100),
    {}
    let mp = (5 * doy + 2) / 153;
    assert(0 <= mp <= 11) by (nonlinear_arith)
        requires
            0 <= doy <= 365,
            mp == (5 * doy + 2) / 153,
    {}
    let d = doy - (153 * mp + 2) / 5 + 1;
    assert(1 <= d <= 31) by (nonlinear_arith)
        requires
            0 <= doy <= 365,
            mp == (5 * doy + 2) / 153,
            d == doy - (153 * mp + 2) / 5 + 1,
    {}
    let m = if mp < 10 { mp + 3 } else { mp - 9 };
    let yy = if m <= 2 { y + 1 } else { y };
    assert(civil_from_days(days) == (yy, m, d));
    let y1 = if m <= 2 { yy - 1 } else { yy };
    assert(y1 == y);
    assert(y / 400 == era) by (nonlinear_arith)
        requires
            y == yoe + era * 400,
            0 <= yoe <= 399,
    {}
    let mp1 = if m > 2 { m - 3 } else { m + 9 };
    assert(mp1 == mp);
    assert((153 * mp1 + 2) / 5 + d - 1 == doy);
    assert(y - (y / 400) * 400 == yoe);
    lemma_day_within_month(doy, mp);
    if mp == 11 && doy == 365 {
        assert((yoe + 1) % 4 == 0 && ((yoe + 1) % 100 != 0 || yoe == 399)) by (nonlinear_arith)
            requires
                0 <= doe < 146097,
                yoe == (doe - doe / 1460 + doe / 36524 - doe / 146096) / 365,
                doy == doe - (365 * yoe + yoe / 4 - yoe / 100),
                doy == 365,
        {}
        assert(is_leap_year(yy)) by (nonlinear_arith)
            requires
                yy == yoe + 1 + era * 400,
                (yoe + 1) % 4 == 0,
                (yoe + 1) % 100 != 0 || yoe == 399,
                0 <= yoe <= 399,
        {}
    }
}


/// The days from 0000-03-01 to the first of March of the year `y1`
/// (counted from March), as `days_from_civil` counts them.
pub open spec fn march_year_start(y1: int) -> int {
    let era = y1 / 400;
    let yoe = y1 - era * 400;
    era * 146097 + yoe * 365 + yoe / 4 - yoe / 100
}

/// A year counted from March has 366 days when the February at its end
/// has 29 days, else 365.
proof fn lemma_march_year_step(y1: int)
    ensures
        march_year_start(y1 + 1) == march_year_start(y1) + 365 + (if is_leap_year(y1 + 1) {
            1int
        } else {
            0int
        }),
{
    let era = y1 / 400;
    let yoe = y1 - era * 400;
    assert(0 <= yoe < 400);
    if yoe < 399 {
        assert((y1 + 1) / 400 == era);
        let k = yoe + 1;
        assert((y1 + 1) % 4 == k % 4 && (y1 + 1) % 100 == k % 100 && (y1 + 1) % 400 == k) by {
            assert(y1 + 1 == era * 400 + k);
            vstd::arithmetic::div_mod::lemma_mod_multiples_vanish(era * 100, k, 4);
            vstd::arithmetic::div_mod::lemma_mod_multiples_vanish(era * 4, k, 100);
            vstd::arithmetic::div_mod::lemma_mod_multiples_vanish(era, k, 400);
        }
        assert(k / 4 - yoe / 4 == (if k % 4 == 0 { 1int } else { 0int }));
        assert(k / 100 - yoe / 100 == (if k % 100 == 0 { 1int } else { 0int }));
    } else {
        assert((y1 + 1) / 400 == era + 1);
        assert(y1 + 1 == (era + 1) * 400);
        assert((y1 + 1) % 400 == 0) by {
            vstd::arithmetic::div_mod::lemma_mod_multiples_basic(era + 1, 400);
        }
        assert((y1 + 1) % 4 == 0) by {
            vstd::arithmetic::div_mod::lemma_mod_multiples_basic((era + 1) * 100, 4);
        }
    }
}

/// Whether `(y, m, d)` is a date of the calendar.
pub open spec fn valid_date(y: int, m: int, d: int) -> bool {
    1 <= m <= 12 && 1 <= d <= days_in_month(y, m)
}

/// The date after `date`.
pub open spec fn next_date(date: (int, int, int)) -> (int, int, int) {
    let (y, m, d) = date;
    if d < days_in_month(y, m) {
        (y, m, d + 1)
    } else if m < 12 {
        (y, m + 1, 1)
    } else {
        (y + 1, 1, 1)
    }
}

/// Whether the date `a` comes before the date `b`.
pub open spec fn date_before(a: (int, int, int), b: (int, int, int)) -> bool {
    a.0 < b.0 || (a.0 == b.0 && (a.1 < b.1 || (a.1 == b.1 && a.2 < b.2)))
}

/// The first day of a month is as many days after the first day of the
/// month before as that month has.
proof fn lemma_month_step(y: int, m: int)
    requires
        1 <= m <= 12,
    ensures
        days_from_civil(if m < 12 { y } else { y + 1 }, if m < 12 { m + 1 } else { 1 }, 1)
            == days_from_civil(y, m, 1) + days_in_month(y, m),
{
    if m == 2 {
        lemma_march_year_step(y - 1);
        assert(days_from_civil(y, 3, 1) == march_year_start(y) - 719468);
        assert(days_from_civil(y, 2, 1) == march_year_start(y - 1) + 337 - 719468);
    }
}

/// Months in order start in order: the first day of a later month comes
/// at least a month's length after the first day of an earlier one.
proof fn lemma_months_in_order(y: int, m: int, y2: int, m2: int)
    requires
        1 <= m <= 12,
        1 <= m2 <= 12,
        y < y2 || (y == y2 && m < m2),
    ensures
        days_from_civil(y, m, 1) + days_in_month(y, m) <= days_from_civil(y2, m2, 1),
    decreases 12 * (y2 - y) + m2 - m,
{
    lemma_month_step(y, m);
    let ny = if m < 12 { y } else { y + 1 };
    let nm = if m < 12 { m + 1 } else { 1 };
    if ny != y2 || nm != m2 {
        lemma_months_in_order(ny, nm, y2, m2);
    }
}

/// Dates in order have day numbers in order.
proof fn lemma_dates_in_order(a: (int, int, int), b: (int, int, int))
    requires
        valid_date(a.0, a.1, a.2),
        valid_date(b.0, b.1, b.2),
        date_before(a, b),
    ensures
        days_from_civil(a.0, a.1, a.2) < days_from_civil(b.0, b.1, b.2),
{
    assert(days_from_civil(a.0, a.1, a.2) == days_from_civil(a.0, a.1, 1) + a.2 - 1);
    assert(days_from_civil(b.0, b.1, b.2) == days_from_civil(b.0, b.1, 1) + b.2 - 1);
    if a.0 != b.0 || a.1 != b.1 {
        lemma_months_in_order(a.0, a.1, b.0, b.1);
    }
}

/// The day after a day has the date after its date: the dates of
/// consecutive day numbers run through the calendar one day at a time.
pub proof fn lemma_next_day(days: int)
    ensures
        civil_from_days(days + 1) == next_date(civil_from_days(days)),
{
    let c = civil_from_days(days);
    let c2 = civil_from_days(days + 1);
    lemma_civil_from_days_inverse(days);
    lemma_civil_from_days_inverse(days + 1);
    let nx = next_date(c);
    assert(valid_date(nx.0, nx.1, nx.2));
    if c.2 < days_in_month(c.0, c.1) {
        assert(days_from_civil(nx.0, nx.1, nx.2) == days_from_civil(c.0, c.1, c.2) + 1);
    } else {
        lemma_month_step(c.0, c.1);
        assert(days_from_civil(c.0, c.1, c.2) == days_from_civil(c.0, c.1, 1) + c.2 - 1);
        assert(days_from_civil(nx.0, nx.1, nx.2) == days_from_civil(c.0, c.1, c.2) + 1);
    }
    if c2 != nx {
        if date_before(c2, nx) {
            lemma_dates_in_order(c2, nx);
        } else {
            lemma_dates_in_order(nx, c2);
        }
    }
}

/// A later day has a later date.
pub proof fn lemma_later_day_later_date(a: int, b: int)
    requires
        a < b,
    ensures
        date_before(civil_from_days(a), civil_from_days(b)),
{
    let ca = civil_from_days(a);
    let cb = civil_from_days(b);
    lemma_civil_from_days_inverse(a);
    lemma_civil_from_days_inverse(b);
    if !date_before(ca, cb) {
        if ca != cb {
            lemma_dates_in_order(cb, ca);
        }
    }
}

} // verus!
