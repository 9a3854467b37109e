//! The Gregorian calendar, and the law that `civil_from_days` counts days
//! through it: day 0 is 1970-01-01 and each next day is the calendar's next
//! date.
use vstd::prelude::*;
use crate::astro::civil_from_days;

verus! {

/// Year of era `yoe` (years counted from March 1 of the era's first year)
/// that holds day of era `doe`.
spec fn year_of_era(doe: int) -> int {
    (doe - doe / 1460 + doe / 36524 - doe / 146096) / 365
}

/// The first day of year of era `y`.
spec fn year_start(y: int) -> int {
    365 * y + y / 4 - y / 100
}

proof fn lemma_year_of_era(doe: int)
    requires
        0 <= doe < 146097,
    ensures
        0 <= year_of_era(doe) <= 399,
        year_start(year_of_era(doe)) <= doe,
        year_of_era(doe) < 399 ==> doe < year_start(year_of_era(doe) + 1),
{
}


/// A leap year of the Gregorian calendar.
pub open spec fn is_leap_year(y: int) -> bool {
    (y % 4 == 0 && y % 100 != 0) || y % 400 == 0
}

/// The number of days of month `m` (1 to 12) of year `y`.
pub open spec fn days_in_month(y: int, m: int) -> int {
    if m == 2 {
        if is_leap_year(y) {
            29
        } else {
            28
        }
    } else if m == 4 || m == 6 || m == 9 || m == 11 {
        30
    } else {
        31
    }
}

/// A valid date: a month from 1 to 12 and a day within it.
pub open spec fn valid_date(d: (int, int, int)) -> bool {
    1 <= d.1 <= 12 && 1 <= d.2 <= days_in_month(d.0, d.1)
}

/// The date after `d`: the next day of the month, else the first of the
/// next month, else January 1 of the next year.
pub open spec fn next_date(d: (int, int, int)) -> (int, int, int) {
    if d.2 < days_in_month(d.0, d.1) {
        (d.0, d.1, d.2 + 1)
    } else if d.1 < 12 {
        (d.0, d.1 + 1, 1)
    } else {
        (d.0 + 1, 1, 1)
    }
}

/// Month of the March-based year (0 is March) holding day of year `doy`.
spec fn month_of_year(doy: int) -> int {
    (5 * doy + 2) / 153
}

/// First day of March-based month `mp`.
spec fn month_start(mp: int) -> int {
    (153 * mp + 2) / 5
}

proof fn lemma_month_of_year(doy: int)
    requires
        0 <= doy <= 365,
    ensures
        0 <= month_of_year(doy) <= 11,
        month_start(month_of_year(doy)) <= doy,
        month_of_year(doy) < 11 ==> doy < month_start(month_of_year(doy) + 1),
{
}

/// The date of day of era `doe`, its year counted from the era's start.
spec fn era_date(doe: int) -> (int, int, int) {
    let y = year_of_era(doe);
    let doy = doe - year_start(y);
    let mp = month_of_year(doy);
    let d = doy - month_start(mp) + 1;
    let m = if mp < 10 {
        mp + 3
    } else {
        mp - 9
    };
    (if m <= 2 {
        y + 1
    } else {
        y
    }, m, d)
}

spec fn shift_years(d: (int, int, int), k: int) -> (int, int, int) {
    (d.0 + k, d.1, d.2)
}


proof fn lemma_leap_in_era(e: int, y: int)
    requires
        e >= 0,
        0 <= y <= 399,
    ensures
        is_leap_year(400 * e + y + 1) <==> ((y + 1) % 4 == 0 && ((y + 1) % 100 != 0 || y == 399)),
{
    let k = y + 1;
    vstd::arithmetic::div_mod::lemma_mod_multiples_vanish(100 * e, k, 4);
    vstd::arithmetic::div_mod::lemma_mod_multiples_vanish(4 * e, k, 100);
    vstd::arithmetic::div_mod::lemma_mod_multiples_vanish(e, k, 400);
    assert(4 * (100 * e) + k == 400 * e + y + 1 && 100 * (4 * e) + k == 400 * e + y + 1
        && 400 * e + k == 400 * e + y + 1) by (nonlinear_arith)
        requires
            k == y + 1,
    ;
}

/// The length of year of era `y`.
spec fn year_length(y: int) -> int {
    if y < 399 {
        year_start(y + 1) - year_start(y)
    } else {
        146097 - year_start(y)
    }
}

proof fn lemma_year_length(y: int)
    requires
        0 <= y <= 399,
    ensures
        year_length(y) == (if (y + 1) % 4 == 0 && ((y + 1) % 100 != 0 || y == 399) {
            366int
        } else {
            365int
        }),
{
}

/// Within an era, each day of era is followed by the calendar's next date.
proof fn lemma_era_next(e: int, doe: int)
    requires
        e >= 0,
        0 <= doe < 146096,
    ensures
        valid_date(shift_years(era_date(doe), 400 * e)),
        shift_years(era_date(doe + 1), 400 * e) == next_date(shift_years(era_date(doe), 400 * e)),
{
    let y = year_of_era(doe);
    lemma_year_of_era(doe);
    lemma_year_of_era(doe + 1);
    lemma_year_length(y);
    lemma_leap_in_era(e, y);
    let doy = doe - year_start(y);
    assert(0 <= doy < year_length(y));
    lemma_month_of_year(doy);
    let y1 = year_of_era(doe + 1);
    if doe + 1 < year_start(y) + year_length(y) {
        assert(y1 == y);
        lemma_month_of_year(doy + 1);
    } else {
        assert(y1 == y + 1);
        lemma_month_of_year(0);
    }
}


pub open spec fn as_date(c: (nat, nat, nat)) -> (int, int, int) {
    (c.0 as int, c.1 as int, c.2 as int)
}

proof fn lemma_civil_is_era_date(d: nat)
    ensures
        ({
            let z = d + 719468;
            let era: int = (z / 146097) as int;
            let doe = z - era * 146097;
            &&& 0 <= doe < 146097
            &&& era >= 0
            &&& as_date(civil_from_days(d)) == shift_years(era_date(doe), 400 * era)
        }),
{
    let z = d + 719468;
    let era: int = (z / 146097) as int;
    let doe = z - era * 146097;
    lemma_year_of_era(doe);
    let y = year_of_era(doe);
    let doy = doe - year_start(y);
    lemma_month_of_year(doy);
}

proof fn lemma_epoch()
    ensures
        civil_from_days(0) == (1970nat, 1nat, 1nat),
{
    lemma_civil_is_era_date(0);
    lemma_year_of_era(135080);
    assert(year_of_era(135080) == 369);
    assert(year_start(369) == 134774);
    lemma_month_of_year(306);
    assert(month_of_year(306) == 10);
    assert(month_start(10) == 306);
}

proof fn lemma_era_boundary(e: int)
    requires
        e >= 0,
    ensures
        valid_date(shift_years(era_date(146096), 400 * e)),
        shift_years(era_date(0), 400 * (e + 1)) == next_date(shift_years(era_date(146096), 400 * e)),
{
    lemma_year_of_era(146096);
    assert(year_of_era(146096) == 399);
    lemma_month_of_year(365);
    lemma_year_of_era(0);
    lemma_month_of_year(0);
    lemma_leap_in_era(e, 399);
    assert(era_date(146096) == (400int, 2int, 29int));
    assert(era_date(0) == (0int, 3int, 1int));
}

/// `civil_from_days` counts days through the Gregorian calendar: day 0 is
/// 1970-01-01, every day is a valid date, and day `d + 1` is the date
/// after day `d` (the next day of the month, the first of the next month,
/// or January 1 of the next year), leap years having a February 29.
pub proof fn civil_from_days_counts_days(d: nat)
    ensures
        civil_from_days(0) == (1970nat, 1nat, 1nat),
        valid_date(as_date(civil_from_days(d))),
        as_date(civil_from_days(d + 1)) == next_date(as_date(civil_from_days(d))),
{
    lemma_epoch();
    lemma_civil_is_era_date(d);
    lemma_civil_is_era_date(d + 1);
    let z = d + 719468;
    let era: int = (z / 146097) as int;
    let doe = z - era * 146097;
    if doe < 146096 {
        assert((z + 1) / 146097 == era);
        lemma_era_next(era, doe);
    } else {
        assert((z + 1) / 146097 == era + 1);
        assert(400 * (era + 1) == 400 * era + 400);
        lemma_era_boundary(era);
    }
}

} // verus!
