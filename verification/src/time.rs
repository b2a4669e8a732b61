//! Calendar arithmetic and the one timestamp shape this project emits.
//!
//! The protocol compares timestamps, not durations, so a lifetime such as
//! `24h` is resolved here into an absolute RFC 3339 expiry that every
//! participant can evaluate. Only `YYYY-MM-DDTHH:MM:SSZ` is read: accepting
//! offsets and fractions nothing here produces would mean quietly
//! mis-parsing one of them later.
use vstd::prelude::*;

use crate::decimal::{
    all_digits, decimal_value, padded, parse_i64, parse_i64_chars, parse_u64, parse_u64_chars,
    push_padded,
};
use crate::error::CliError;
use crate::text::{chars_of, slice, string_of, trim, trimmed};

verus! {

// ---------------------------------------------------------------------------
// The proleptic Gregorian calendar
// ---------------------------------------------------------------------------
/// Whether `y` is a leap year of the proleptic Gregorian calendar.
pub open spec fn is_leap_year(y: int) -> bool {
    y % 4 == 0 && (y % 100 != 0 || y % 400 == 0)
}

/// The number of days in month `m` of year `y`.
pub open spec fn days_in_month(y: int, m: int) -> int {
    if m == 2 {
        if is_leap_year(y) {
            29
        } else {
            28
        }
    } else if m == 4 || m == 6 || m == 9 || m == 11 {
        30
    } else {
        31
    }
}

/// Whether `(y, m, d)` names a day of the calendar.
pub open spec fn is_valid_date(y: int, m: int, d: int) -> bool {
    1 <= m <= 12 && 1 <= d <= days_in_month(y, m)
}

/// The day after a valid date.
pub open spec fn next_day(y: int, m: int, d: int) -> (int, int, int) {
    if d < days_in_month(y, m) {
        (y, m, d + 1)
    } else if m < 12 {
        (y, m + 1, 1)
    } else {
        (y + 1, 1, 1)
    }
}

/// Rust's `/` on integers: rounds toward zero.
pub open spec fn trunc_div(a: int, b: int) -> int {
    if a >= 0 {
        a / b
    } else {
        -((-a) / b)
    }
}

/// Months counted from March, so that February, with its variable length,
/// comes last.
pub open spec fn month_index(m: int) -> int {
    if m > 2 {
        m - 3
    } else {
        m + 9
    }
}

/// Day of a 400-year era (counted from 1 March of its first year) on which
/// year `yoe` of the era begins.
pub open spec fn era_year_start(yoe: int) -> int {
    365 * yoe + yoe / 4 - yoe / 100
}

/// Length of year `yoe` of an era, which ends with the February of the
/// following calendar year.
pub open spec fn era_year_length(yoe: int) -> int {
    if is_leap_year(yoe + 1) {
        366
    } else {
        365
    }
}

/// Day of a March-based year on which month index `mp` begins.
pub open spec fn month_start(mp: int) -> int {
    (153 * mp + 2) / 5
}

/// Day number relative to 1970-01-01 of `(y, m, d)`.
///
/// This is the closed form of counting days; [`law_epoch_day_counts_days`]
/// shows that it is one at 1970-01-02 and grows by one from each valid date
/// to the next, which is what a day count is.
pub open spec fn epoch_day(y: int, m: int, d: int) -> int {
    let yy = if m <= 2 {
        y - 1
    } else {
        y
    };
    let era = yy / 400;
    let yoe = yy - era * 400;
    let doy = trunc_div(153 * month_index(m) + 2, 5) + d - 1;
    era * 146097 + era_year_start(yoe) + doy - 719468
}

/// The valid date with day number `z`.
pub open spec fn date_of_day(z: int) -> (int, int, int) {
    choose|t: (int, int, int)| is_valid_date(t.0, t.1, t.2) && epoch_day(t.0, t.1, t.2) == z
}

// ---------------------------------------------------------------------------
// Finite facts about one era and one year, checked by bit blasting
// ---------------------------------------------------------------------------
/// The year of an era that contains day `doe` of the era.
pub open spec fn year_of_era(doe: int) -> int {
    (doe - doe / 1460 + doe / 36524 - doe / 146096) / 365
}

/// The March-based month that contains day `doy` of a year.
pub open spec fn month_of_year_day(doy: int) -> int {
    (5 * doy + 2) / 153
}

/// The length of a March-based month, February counted with 29 days.
pub open spec fn month_room(mp: int) -> int {
    if mp == 11 {
        29
    } else {
        month_start(mp + 1) - month_start(mp)
    }
}

proof fn lemma_year_of_era(doe: int)
    requires
        0 <= doe < 146097,
    ensures
        0 <= year_of_era(doe) < 400,
        era_year_start(year_of_era(doe)) <= doe < era_year_start(year_of_era(doe))
            + era_year_length(year_of_era(doe)),
{
    let x = doe as u32;
    assert(x < 146097 ==> ({
        let y = ((x - x / 1460 + x / 36524 - x / 146096) / 365) as u32;
        &&& y < 400
        &&& 365 * y + y / 4 - y / 100 <= x
        &&& x < 365 * y + y / 4 - y / 100 + (if (y + 1) % 4 == 0 && ((y + 1) % 100 != 0 || (y
            + 1) % 400 == 0) {
            366u32
        } else {
            365u32
        })
    })) by (bit_vector);
}

proof fn lemma_era_year(yoe: int, t: int)
    requires
        0 <= yoe < 400,
        0 <= t < era_year_length(yoe),
    ensures
        0 <= era_year_start(yoe) + t < 146097,
        year_of_era(era_year_start(yoe) + t) == yoe,
{
    let y = yoe as u32;
    let u = t as u32;
    assert(y < 400 && u < (if (y + 1) % 4 == 0 && ((y + 1) % 100 != 0 || (y + 1) % 400 == 0) {
        366u32
    } else {
        365u32
    }) ==> ({
        let x = (365 * y + y / 4 - y / 100 + u) as u32;
        &&& x < 146097
        &&& (x - x / 1460 + x / 36524 - x / 146096) / 365 == y
    })) by (bit_vector);
}

proof fn lemma_next_era_year(yoe: int)
    requires
        0 <= yoe < 399,
    ensures
        era_year_start(yoe + 1) == era_year_start(yoe) + era_year_length(yoe),
        era_year_start(399) + era_year_length(399) == 146097,
{
    let y = yoe as u32;
    assert(y < 399 ==> 365 * (y + 1) + (y + 1) / 4 - (y + 1) / 100 == 365 * y + y / 4 - y / 100
        + (if (y + 1) % 4 == 0 && ((y + 1) % 100 != 0 || (y + 1) % 400 == 0) {
        366u32
    } else {
        365u32
    })) by (bit_vector);
}

proof fn lemma_month_of_year_day(doy: int)
    requires
        0 <= doy < 366,
    ensures
        0 <= month_of_year_day(doy) <= 11,
        month_start(month_of_year_day(doy)) <= doy < month_start(month_of_year_day(doy))
            + month_room(month_of_year_day(doy)),
{
    let x = doy as u32;
    assert(x < 366 ==> ({
        let mp = ((5 * x + 2) / 153) as u32;
        &&& mp <= 11
        &&& (153 * mp + 2) / 5 <= x
        &&& x < (153 * mp + 2) / 5 + (if mp == 11 {
            29int
        } else {
            (153 * (mp + 1) + 2) / 5 - (153 * mp + 2) / 5
        })
    })) by (bit_vector);
}

proof fn lemma_month_start(mp: int, t: int)
    requires
        0 <= mp <= 11,
        0 <= t < month_room(mp),
    ensures
        month_of_year_day(month_start(mp) + t) == mp,
        month_start(mp) + t < 366,
{
    let m = mp as u32;
    let u = t as u32;
    assert(m <= 11 && u < (if m == 11 {
        29int
    } else {
        (153 * (m + 1) + 2) / 5 - (153 * m + 2) / 5
    }) ==> ({
        let x = ((153 * m + 2) / 5 + u) as u32;
        &&& x < 366
        &&& (5 * x + 2) / 153 == m
    })) by (bit_vector);
}

/// The lengths of the March-based months, in calendar terms.
proof fn lemma_month_lengths(y: int, m: int)
    requires
        1 <= m <= 12,
    ensures
        m != 2 ==> month_room(month_index(m)) == days_in_month(y, m),
        m == 2 ==> month_index(m) == 11 && month_start(11) == 337,
        0 <= month_index(m) <= 11,
        trunc_div(153 * month_index(m) + 2, 5) == month_start(month_index(m)),
{
    assert(month_start(0) == 0 && month_start(1) == 31 && month_start(2) == 61 && month_start(3)
        == 92 && month_start(4) == 122 && month_start(5) == 153 && month_start(6) == 184
        && month_start(7) == 214 && month_start(8) == 245 && month_start(9) == 275
        && month_start(10) == 306 && month_start(11) == 337 && month_start(12) == 367);
}

/// Which calendar year's February ends year `yoe` of an era.
proof fn lemma_era_february(era: int, yoe: int)
    requires
        0 <= yoe < 400,
    ensures
        era_year_length(yoe) == if is_leap_year(era * 400 + yoe + 1) {
            366int
        } else {
            365int
        },
{
    let y = era * 400 + yoe + 1;
    assert((era * 400 + yoe + 1) % 4 == (yoe + 1) % 4) by (nonlinear_arith)
        requires
            y == era * 400 + yoe + 1,
    {
        assert(era * 400 + yoe + 1 == 4 * (era * 100) + (yoe + 1));
    }
    assert((era * 400 + yoe + 1) % 100 == (yoe + 1) % 100) by (nonlinear_arith)
        requires
            y == era * 400 + yoe + 1,
    {
        assert(era * 400 + yoe + 1 == 100 * (era * 4) + (yoe + 1));
    }
    assert((era * 400 + yoe + 1) % 400 == (yoe + 1) % 400) by (nonlinear_arith)
        requires
            y == era * 400 + yoe + 1,
    {
        assert(era * 400 + yoe + 1 == 400 * era + (yoe + 1));
    }
}

proof fn lemma_era_of(yy: int)
    ensures
        0 <= yy - (yy / 400) * 400 < 400,
{
}

// ---------------------------------------------------------------------------
// The calendar laws
// ---------------------------------------------------------------------------
/// The inverse of [`epoch_day`], computed in closed form.
pub open spec fn civil_from_days_spec(z: int) -> (int, int, int) {
    let zz = z + 719468;
    let era = zz / 146097;
    let doe = zz - era * 146097;
    let yoe = year_of_era(doe);
    let doy = doe - era_year_start(yoe);
    let mp = month_of_year_day(doy);
    let d = doy - month_start(mp) + 1;
    let m = if mp < 10 {
        mp + 3
    } else {
        mp - 9
    };
    let y = yoe + era * 400;
    (if m <= 2 {
        y + 1
    } else {
        y
    }, m, d)
}

proof fn lemma_civil_from_days(z: int)
    ensures
        is_valid_date(
            civil_from_days_spec(z).0,
            civil_from_days_spec(z).1,
            civil_from_days_spec(z).2,
        ),
        epoch_day(civil_from_days_spec(z).0, civil_from_days_spec(z).1, civil_from_days_spec(z).2)
            == z,
{
    let zz = z + 719468;
    let era = zz / 146097;
    let doe = zz - era * 146097;
    assert(0 <= doe < 146097);
    lemma_year_of_era(doe);
    let yoe = year_of_era(doe);
    let doy = doe - era_year_start(yoe);
    lemma_month_of_year_day(doy);
    let mp = month_of_year_day(doy);
    let d = doy - month_start(mp) + 1;
    let m = if mp < 10 {
        mp + 3
    } else {
        mp - 9
    };
    let y = yoe + era * 400;
    let cy = if m <= 2 {
        y + 1
    } else {
        y
    };
    assert(month_index(m) == mp);
    lemma_month_lengths(cy, m);
    lemma_era_february(era, yoe);
    // validity
    if m == 2 {
        assert(cy == era * 400 + yoe + 1);
        assert(doy < era_year_length(yoe));
    }
    assert(is_valid_date(cy, m, d));
    // the day number
    let yy = if m <= 2 {
        cy - 1
    } else {
        cy
    };
    assert(yy == y);
    assert(yy / 400 == era) by (nonlinear_arith)
        requires
            yy == yoe + era * 400,
            0 <= yoe < 400,
    ;
    assert(yy - era * 400 == yoe);
    assert(epoch_day(cy, m, d) == era * 146097 + era_year_start(yoe) + doy - 719468);
}

proof fn lemma_civil_of_epoch_day(y: int, m: int, d: int)
    requires
        is_valid_date(y, m, d),
    ensures
        civil_from_days_spec(epoch_day(y, m, d)) == (y, m, d),
{
    let yy = if m <= 2 {
        y - 1
    } else {
        y
    };
    let era = yy / 400;
    let yoe = yy - era * 400;
    lemma_era_of(yy);
    lemma_month_lengths(y, m);
    let mp = month_index(m);
    let doy = month_start(mp) + d - 1;
    lemma_era_february(era, yoe);
    assert(0 <= d - 1 < month_room(mp));
    lemma_month_start(mp, d - 1);
    assert(doy < era_year_length(yoe)) by {
        if m == 2 {
            assert(y == era * 400 + yoe + 1);
        } else {
            assert(doy < 366);
            if doy == 365 {
                assert(mp == 11);
            }
        }
    }
    lemma_era_year(yoe, doy);
    let doe = era_year_start(yoe) + doy;
    let z = epoch_day(y, m, d);
    assert(z + 719468 == era * 146097 + doe);
    assert((era * 146097 + doe) / 146097 == era) by (nonlinear_arith)
        requires
            0 <= doe < 146097,
    ;
}

/// Every day number names exactly one valid date, and [`date_of_day`] is it.
pub proof fn law_every_day_is_one_date(z: int)
    ensures
        is_valid_date(date_of_day(z).0, date_of_day(z).1, date_of_day(z).2),
        epoch_day(date_of_day(z).0, date_of_day(z).1, date_of_day(z).2) == z,
        date_of_day(z) == civil_from_days_spec(z),
{
    lemma_civil_from_days(z);
    let c = civil_from_days_spec(z);
    assert(is_valid_date(c.0, c.1, c.2) && epoch_day(c.0, c.1, c.2) == z);
    let t = date_of_day(z);
    lemma_civil_of_epoch_day(t.0, t.1, t.2);
}

/// Distinct valid dates have distinct day numbers, and each valid date is
/// the date of its own day number.
pub proof fn law_dates_have_distinct_days(y: int, m: int, d: int)
    requires
        is_valid_date(y, m, d),
    ensures
        date_of_day(epoch_day(y, m, d)) == (y, m, d),
{
    law_every_day_is_one_date(epoch_day(y, m, d));
    lemma_civil_of_epoch_day(y, m, d);
}

proof fn lemma_era_step(yy: int)
    ensures
        yy - (yy / 400) * 400 < 399 ==> (yy + 1) / 400 == yy / 400,
        yy - (yy / 400) * 400 == 399 ==> (yy + 1) / 400 == yy / 400 + 1,
        0 <= yy - (yy / 400) * 400 < 400,
{
    let era = yy / 400;
    let yoe = yy - era * 400;
    assert(0 <= yoe < 400);
    if yoe < 399 {
        assert((yy + 1) / 400 == era) by (nonlinear_arith)
            requires
                yy + 1 == era * 400 + yoe + 1,
                0 <= yoe + 1 < 400,
        ;
    } else {
        assert((yy + 1) / 400 == era + 1) by (nonlinear_arith)
            requires
                yy + 1 == (era + 1) * 400,
        ;
    }
}

/// From the last day of February to 1 March: the end of a March-based year.
proof fn lemma_year_turns(y: int)
    ensures
        epoch_day(y, 3, 1) == epoch_day(y, 2, days_in_month(y, 2)) + 1,
{
    let yy = y - 1;
    lemma_era_step(yy);
    let era = yy / 400;
    let yoe = yy - era * 400;
    lemma_era_february(era, yoe);
    assert(y == era * 400 + yoe + 1);
    lemma_month_lengths(y, 2);
    lemma_month_lengths(y, 3);
    let before = epoch_day(y, 2, days_in_month(y, 2));
    assert(before == era * 146097 + era_year_start(yoe) + 337 + days_in_month(y, 2) - 1
        - 719468);
    assert(337 + days_in_month(y, 2) == era_year_length(yoe));
    if yoe < 399 {
        lemma_next_era_year(yoe);
        assert(epoch_day(y, 3, 1) == era * 146097 + era_year_start(yoe + 1) - 719468);
    } else {
        lemma_next_era_year(0);
        assert(era_year_start(0) == 0);
        assert(epoch_day(y, 3, 1) == (era + 1) * 146097 - 719468);
    }
}

/// [`epoch_day`] counts days: the epoch is day zero, and each valid date is
/// one day after the date before it.
pub proof fn law_epoch_day_counts_days(y: int, m: int, d: int)
    requires
        is_valid_date(y, m, d),
    ensures
        epoch_day(1970, 1, 1) == 0,
        is_valid_date(next_day(y, m, d).0, next_day(y, m, d).1, next_day(y, m, d).2),
        epoch_day(next_day(y, m, d).0, next_day(y, m, d).1, next_day(y, m, d).2) == epoch_day(
            y,
            m,
            d,
        ) + 1,
{
    lemma_month_lengths(y, m);
    assert(epoch_day(1970, 1, 1) == 0);
    if d < days_in_month(y, m) {
    } else if m == 2 {
        lemma_year_turns(y);
    } else if m < 12 {
        lemma_month_lengths(y, m + 1);
        if m == 1 {
            assert(epoch_day(y, 2, 1) == epoch_day(y, 1, 31) + 1);
        } else {
            assert(month_start(month_index(m + 1)) == month_start(month_index(m))
                + days_in_month(y, m));
        }
    } else {
        lemma_month_lengths(y + 1, 1);
        assert(epoch_day(y + 1, 1, 1) == epoch_day(y, 12, 31) + 1);
    }
}

// ---------------------------------------------------------------------------
// Executable calendar arithmetic
// ---------------------------------------------------------------------------
/// Days since the Unix epoch for a civil date (Howard Hinnant's algorithm).
pub fn days_from_civil(year: i64, month: i64, day: i64) -> (r: i64)
    requires
        -0x100_0000_0000 <= year <= 0x100_0000_0000,
        -0x100_0000_0000 <= month <= 0x100_0000_0000,
        -0x100_0000_0000 <= day <= 0x100_0000_0000,
    ensures
        r == epoch_day(year as int, month as int, day as int),
{
    let yy: i64 = year - if month <= 2 {
        1
    } else {
        0
    };
    let era: i64 = match yy.checked_div_euclid(400) {
        Some(e) => e,
        None => 0,
    };
    proof {
        lemma_era_of(yy as int);
    }
    let yoe: i64 = yy - era * 400;
    let index: i64 = month + if month > 2 {
        -3
    } else {
        9
    };
    let numerator: i64 = 153 * index + 2;
    let shift: i64 = if numerator >= 0 {
        numerator / 5
    } else {
        -((-numerator) / 5)
    };
    let day_of_year: i64 = shift + day - 1;
    let day_of_era: i64 = yoe * 365 + yoe / 4 - yoe / 100 + day_of_year;
    era * 146_097 + day_of_era - 719_468
}

/// The inverse of [`days_from_civil`]: the valid date with day number `days`.
pub fn civil_from_days(days: i64) -> (r: (i64, i64, i64))
    requires
        days <= i64::MAX - 719_468,
    ensures
        (r.0 as int, r.1 as int, r.2 as int) == date_of_day(days as int),
        is_valid_date(r.0 as int, r.1 as int, r.2 as int),
{
    let shifted: i64 = days + 719_468;
    let era: i64 = match shifted.checked_div_euclid(146_097) {
        Some(e) => e,
        None => 0,
    };
    let day_of_era: i64 = shifted - era * 146_097;
    proof {
        assert(0 <= day_of_era < 146097);
        lemma_year_of_era(day_of_era as int);
    }
    let year_of_era: i64 = (day_of_era - day_of_era / 1460 + day_of_era / 36_524 - day_of_era
        / 146_096) / 365;
    let year: i64 = year_of_era + era * 400;
    let day_of_year: i64 = day_of_era - (365 * year_of_era + year_of_era / 4 - year_of_era / 100);
    proof {
        lemma_month_of_year_day(day_of_year as int);
    }
    let month_index: i64 = (5 * day_of_year + 2) / 153;
    let day: i64 = day_of_year - (153 * month_index + 2) / 5 + 1;
    let month: i64 = month_index + if month_index < 10 {
        3
    } else {
        -9
    };
    proof {
        law_every_day_is_one_date(days as int);
    }
    (year + if month <= 2 {
        1
    } else {
        0
    }, month, day)
}

// ---------------------------------------------------------------------------
// Timestamps
// ---------------------------------------------------------------------------
/// Whether a character is ASCII.
pub open spec fn is_ascii_char(c: char) -> bool {
    c <= '\u{7f}'
}

/// The value of the digits of a timestamp between two positions.
pub open spec fn stamp_field(s: Seq<char>, from: int, to: int) -> int {
    decimal_value(s.subrange(from, to)) as int
}

/// Seconds since the Unix epoch for a timestamp in the one shape this
/// project writes, `YYYY-MM-DDTHH:MM:SSZ` with digits in every field, a
/// valid date and a time of day within range; `None` for anything else.
pub open spec fn stamp_seconds(s: Seq<char>) -> Option<int> {
    if is_canonical_stamp(s) {
        Some(
            epoch_day(stamp_field(s, 0, 4), stamp_field(s, 5, 7), stamp_field(s, 8, 10)) * 86400
                + stamp_field(s, 11, 13) * 3600 + stamp_field(s, 14, 16) * 60 + stamp_field(
                s,
                17,
                19,
            ),
        )
    } else {
        None
    }
}

/// The RFC 3339 UTC timestamp of `t` seconds since the Unix epoch.
pub open spec fn stamp_text(t: int) -> Seq<char> {
    let date = date_of_day(t / 86400);
    let r = t % 86400;
    padded(date.0, 4) + seq!['-'] + padded(date.1, 2) + seq!['-'] + padded(date.2, 2) + seq![
        'T',
    ] + padded(r / 3600, 2) + seq![':'] + padded((r % 3600) / 60, 2) + seq![':'] + padded(
        r % 60,
        2,
    ) + seq!['Z']
}

proof fn lemma_short_digits_bound(s: Seq<char>)
    requires
        all_digits(s),
        s.len() <= 4,
    ensures
        decimal_value(s) < 10000,
{
    crate::decimal::lemma_decimal_value_bound(s);
    assert(crate::decimal::pow10(0) == 1 && crate::decimal::pow10(1) == 10
        && crate::decimal::pow10(2) == 100 && crate::decimal::pow10(3) == 1000
        && crate::decimal::pow10(4) == 10000) by {
        reveal_with_fuel(crate::decimal::pow10, 5);
    }
}

/// The value of the digits `v[from..to]`, or `None` when one of them is
/// not a digit.
fn digit_field(v: &Vec<char>, from: usize, to: usize) -> (r: Option<i64>)
    requires
        from <= to <= v.len(),
        to - from <= 4,
    ensures
        match r {
            Some(x) => all_digits(v@.subrange(from as int, to as int)) && x == stamp_field(
                v@,
                from as int,
                to as int,
            ) && 0 <= x < 10000,
            None => !all_digits(v@.subrange(from as int, to as int)),
        },
{
    let mut acc: i64 = 0;
    let mut k: usize = from;
    assert(v@.subrange(from as int, from as int) =~= Seq::<char>::empty());
    while k < to
        invariant
            from <= k <= to <= v.len(),
            to - from <= 4,
            all_digits(v@.subrange(from as int, k as int)),
            acc == decimal_value(v@.subrange(from as int, k as int)),
            0 <= acc < 10000,
        decreases to - k,
    {
        let c = v[k];
        if !('0' <= c && c <= '9') {
            assert(v@.subrange(from as int, to as int)[k - from] == c);
            return None;
        }
        let ghost next = v@.subrange(from as int, k + 1);
        assert(next.drop_last() =~= v@.subrange(from as int, k as int));
        assert(next.last() == c);
        assert(all_digits(next)) by {
            assert forall|i: int| 0 <= i < next.len() implies crate::decimal::is_digit(
                #[trigger] next[i],
            ) by {
                if i < next.len() - 1 {
                    assert(next[i] == v@.subrange(from as int, k as int)[i]);
                }
            }
        }
        acc = acc * 10 + (c as u32 - '0' as u32) as i64;
        proof {
            lemma_short_digits_bound(next);
        }
        k = k + 1;
    }
    Some(acc)
}

/// Whether `m` is a month of the calendar and `d` a day of it in year `y`.
fn date_is_valid(y: i64, m: i64, d: i64) -> (r: bool)
    requires
        0 <= y,
    ensures
        r == is_valid_date(y as int, m as int, d as int),
{
    if m < 1 || m > 12 || d < 1 {
        return false;
    }
    let leap = y % 4 == 0 && (y % 100 != 0 || y % 400 == 0);
    let length: i64 = if m == 2 {
        if leap {
            29
        } else {
            28
        }
    } else if m == 4 || m == 6 || m == 9 || m == 11 {
        30
    } else {
        31
    };
    d <= length
}

/// Seconds since the Unix epoch for an RFC 3339 UTC timestamp.
///
/// Only the shape this project emits is accepted: `YYYY-MM-DDTHH:MM:SSZ`,
/// every field digits, the date one the calendar has and the time of day
/// within range.
pub fn time_from_rfc3339(value: &str) -> (r: Option<i64>)
    ensures
        match r {
            Some(t) => stamp_seconds(value@) == Some(t as int),
            None => stamp_seconds(value@) is None,
        },
{
    let v = chars_of(value);
    if v.len() != 20 {
        return None;
    }
    if v[4] != '-' || v[7] != '-' || v[10] != 'T' || v[13] != ':' || v[16] != ':' || v[19] != 'Z' {
        return None;
    }
    let year = match digit_field(&v, 0, 4) {
        Some(x) => x,
        None => return None,
    };
    let month = match digit_field(&v, 5, 7) {
        Some(x) => x,
        None => return None,
    };
    let day = match digit_field(&v, 8, 10) {
        Some(x) => x,
        None => return None,
    };
    let hour = match digit_field(&v, 11, 13) {
        Some(x) => x,
        None => return None,
    };
    let minute = match digit_field(&v, 14, 16) {
        Some(x) => x,
        None => return None,
    };
    let second = match digit_field(&v, 17, 19) {
        Some(x) => x,
        None => return None,
    };
    if !date_is_valid(year, month, day) || hour >= 24 || minute >= 60 || second >= 60 {
        return None;
    }
    let days = days_from_civil(year, month, day);
    proof {
        let yy: int = if month <= 2 {
            year - 1
        } else {
            year as int
        };
        lemma_era_of(yy);
        let era = yy / 400;
        assert(-30 <= era <= 30) by (nonlinear_arith)
            requires
                -10001 <= yy <= 10000,
                era == yy / 400,
        ;
        let yoe = yy - era * 400;
        assert(0 <= era_year_start(yoe) <= 150000);
        let num = 153 * month_index(month as int) + 2;
        assert(-20000 <= num <= 20000);
        assert(-4000 <= trunc_div(num, 5) <= 4000);
        assert(-10000000 <= days <= 10000000) by (nonlinear_arith)
            requires
                days == era * 146097 + era_year_start(yoe) + trunc_div(num, 5) + day - 1 - 719468,
                -30 <= era <= 30,
                0 <= era_year_start(yoe) <= 150000,
                -4000 <= trunc_div(num, 5) <= 4000,
                -100 < day < 100,
        ;
    }
    Some(days * 86_400 + hour * 3600 + minute * 60 + second)
}

/// Renders seconds since the Unix epoch as an RFC 3339 UTC timestamp.
pub fn rfc3339_from(seconds: i64) -> (s: String)
    ensures
        s@ == stamp_text(seconds as int),
{
    let days: i64 = match seconds.checked_div_euclid(86_400) {
        Some(d) => d,
        None => 0,
    };
    let remainder: i64 = match seconds.checked_rem_euclid(86_400) {
        Some(r) => r,
        None => 0,
    };
    let (year, month, day) = civil_from_days(days);
    let mut out: Vec<char> = Vec::new();
    push_padded(&mut out, year, 4);
    out.push('-');
    push_padded(&mut out, month, 2);
    out.push('-');
    push_padded(&mut out, day, 2);
    out.push('T');
    push_padded(&mut out, remainder / 3600, 2);
    out.push(':');
    push_padded(&mut out, (remainder % 3600) / 60, 2);
    out.push(':');
    push_padded(&mut out, remainder % 60, 2);
    out.push('Z');
    proof {
        let date = date_of_day(seconds as int / 86400);
        assert(out@ =~= stamp_text(seconds as int));
    }
    string_of(out.as_slice())
}

// ---------------------------------------------------------------------------
// Lifetimes and expiries
// ---------------------------------------------------------------------------
/// Seconds per unit of a lifetime: `m`, `h` and `d`; zero for anything else.
pub open spec fn lifetime_unit(c: char) -> int {
    if c == 'm' {
        60
    } else if c == 'h' {
        3600
    } else if c == 'd' {
        86400
    } else {
        0
    }
}

/// The seconds a lifetime such as `30m`, `24h` or `7d` stands for.
///
/// Surrounding whitespace is ignored; what remains is a positive integer
/// followed by one unit letter.
pub open spec fn lifetime_seconds(s: Seq<char>) -> Option<int> {
    let t = trim(s);
    if t.len() == 0 {
        None
    } else {
        match parse_i64(t.drop_last()) {
            Some(a) => if a > 0 && lifetime_unit(t.last()) > 0 {
                Some(a * lifetime_unit(t.last()))
            } else {
                None
            },
            None => None,
        }
    }
}

/// The lifetimes that can be read at all: the last character is split off
/// by its byte position, so it must be a single byte, and the product of a
/// valid amount and unit must fit in an `i64`.
pub open spec fn lifetime_is_readable(s: Seq<char>) -> bool {
    let t = trim(s);
    t.len() == 0 || (is_ascii_char(t.last()) && match lifetime_seconds(s) {
        Some(v) => v <= i64::MAX,
        None => true,
    })
}

/// Whether a lifetime can be read at all, so that a caller can refuse one
/// that cannot before asking for its seconds.
pub fn lifetime_readable(value: &str) -> (r: bool)
    ensures
        r == lifetime_is_readable(value@),
{
    let t = trimmed(&chars_of(value));
    if t.len() == 0 {
        return true;
    }
    let unit = t[t.len() - 1];
    if unit > '\u{7f}' {
        return false;
    }
    let digits = slice(&t, 0, t.len() - 1);
    assert(digits@ =~= t@.drop_last());
    let amount = match parse_i64_chars(&digits) {
        Some(a) => a,
        None => return true,
    };
    let seconds: i64 = if unit == 'm' {
        60
    } else if unit == 'h' {
        3600
    } else if unit == 'd' {
        86_400
    } else {
        0
    };
    if amount <= 0 || seconds == 0 {
        return true;
    }
    let limit = i64::MAX / seconds;
    proof {
        assert(amount <= limit <==> amount * seconds <= i64::MAX) by (nonlinear_arith)
            requires
                seconds > 0,
                amount > 0,
                limit == i64::MAX / seconds,
        ;
    }
    amount <= limit
}

/// Parses `30m`, `24h`, or `7d` into seconds.
pub fn parse_lifetime(value: &str) -> (r: Option<i64>)
    requires
        lifetime_is_readable(value@),
    ensures
        match r {
            Some(x) => lifetime_seconds(value@) == Some(x as int),
            None => lifetime_seconds(value@) is None,
        },
{
    let v = chars_of(value);
    let t = trimmed(&v);
    if t.len() == 0 {
        return None;
    }
    let digits = slice(&t, 0, t.len() - 1);
    assert(digits@ =~= t@.drop_last());
    let unit = t[t.len() - 1];
    let amount = match parse_i64_chars(&digits) {
        Some(a) => a,
        None => return None,
    };
    if amount <= 0 {
        return None;
    }
    if unit == 'm' {
        Some(amount * 60)
    } else if unit == 'h' {
        Some(amount * 3600)
    } else if unit == 'd' {
        Some(amount * 86_400)
    } else {
        None
    }
}

/// Turns a lifetime such as `24h` into an absolute RFC 3339 expiry.
///
/// The lifetime is checked first, then the starting time; whichever is
/// refused is named in the error.
pub fn expiry_from(now: &str, lifetime: &str) -> (r: Result<String, CliError>)
    requires
        lifetime_is_readable(lifetime@),
        lifetime_seconds(lifetime@) is Some && stamp_seconds(now@) is Some
            ==> stamp_seconds(now@).unwrap() + lifetime_seconds(lifetime@).unwrap() <= i64::MAX,
    ensures
        match (lifetime_seconds(lifetime@), stamp_seconds(now@)) {
            (None, _) => r matches Err(CliError::InvalidLifetime { value }) && value@
                == lifetime@,
            (Some(_), None) => r matches Err(CliError::InvalidLifetime { value }) && value@
                == now@,
            (Some(seconds), Some(start)) => r matches Ok(text) && text@ == stamp_text(
                start + seconds,
            ),
        },
{
    let seconds = match parse_lifetime(lifetime) {
        Some(s) => s,
        None => return Err(CliError::InvalidLifetime { value: lifetime.to_owned() }),
    };
    let start = match time_from_rfc3339(now) {
        Some(s) => s,
        None => return Err(CliError::InvalidLifetime { value: now.to_owned() }),
    };
    Ok(rfc3339_from(start + seconds))
}

// ---------------------------------------------------------------------------
// Round trips
// ---------------------------------------------------------------------------
/// Whether a timestamp is in the canonical shape this project writes:
/// `YYYY-MM-DDTHH:MM:SSZ` with digits in every field, a valid date, and a
/// time of day within range.
pub open spec fn is_canonical_stamp(s: Seq<char>) -> bool {
    &&& s.len() == 20
    &&& s[4] == '-' && s[7] == '-' && s[10] == 'T' && s[13] == ':' && s[16] == ':' && s[19] == 'Z'
    &&& all_digits(s.subrange(0, 4)) && all_digits(s.subrange(5, 7)) && all_digits(
        s.subrange(8, 10),
    ) && all_digits(s.subrange(11, 13)) && all_digits(s.subrange(14, 16)) && all_digits(
        s.subrange(17, 19),
    )
    &&& is_valid_date(
        decimal_value(s.subrange(0, 4)) as int,
        decimal_value(s.subrange(5, 7)) as int,
        decimal_value(s.subrange(8, 10)) as int,
    )
    &&& decimal_value(s.subrange(11, 13)) < 24
    &&& decimal_value(s.subrange(14, 16)) < 60
    &&& decimal_value(s.subrange(17, 19)) < 60
}

proof fn lemma_parse_digits(s: Seq<char>)
    requires
        all_digits(s),
        1 <= s.len() <= 4,
    ensures
        parse_i64(s) == Some(decimal_value(s) as int),
{
    assert(crate::decimal::is_digit(s[0]));
    crate::decimal::lemma_decimal_value_bound(s);
    assert(crate::decimal::pow10(4) == 10000) by {
        reveal_with_fuel(crate::decimal::pow10, 5);
    }
    assert(crate::decimal::pow10(s.len()) <= 10000) by {
        reveal_with_fuel(crate::decimal::pow10, 5);
    }
}

proof fn lemma_padded_field(n: int, width: int)
    requires
        0 <= n,
        width == 2 && n < 100 || width == 4 && n < 10000,
    ensures
        padded(n, width).len() == width,
        all_digits(padded(n, width)),
        decimal_value(padded(n, width)) == n,
        parse_i64(padded(n, width)) == Some(n),
{
    crate::decimal::lemma_digits_of(n as nat);
    if n >= 10 {
        crate::decimal::lemma_digits_of((n / 10) as nat);
        if n / 10 >= 10 {
            crate::decimal::lemma_digits_of((n / 100) as nat);
        }
    }
    crate::decimal::lemma_padded(n as nat, width);
    lemma_parse_digits(padded(n, width));
}

/// Only the one shape this project writes is read: a timestamp is read
/// exactly when it is `YYYY-MM-DDTHH:MM:SSZ` with digits in every field, a
/// date the calendar has, and a time of day within range.
pub proof fn law_only_the_canonical_shape_is_read(s: Seq<char>)
    ensures
        stamp_seconds(s) is Some <==> is_canonical_stamp(s),
{
}

/// Reading back a written timestamp gives the same second, for every second
/// whose year has four digits.
pub proof fn law_written_stamp_reads_back(t: int)
    requires
        0 <= date_of_day(t / 86400).0 <= 9999,
    ensures
        stamp_seconds(stamp_text(t)) == Some(t),
{
    let z = t / 86400;
    let r = t % 86400;
    law_every_day_is_one_date(z);
    let date = date_of_day(z);
    let (h, mi, se) = (r / 3600, (r % 3600) / 60, r % 60);
    assert(0 <= h < 24 && 0 <= mi < 60 && 0 <= se < 60) by (nonlinear_arith)
        requires
            0 <= r < 86400,
            h == r / 3600,
            mi == (r % 3600) / 60,
            se == r % 60,
    ;
    lemma_padded_field(date.0, 4);
    lemma_padded_field(date.1, 2);
    lemma_padded_field(date.2, 2);
    lemma_padded_field(h, 2);
    lemma_padded_field(mi, 2);
    lemma_padded_field(se, 2);
    let s = stamp_text(t);
    assert(s.subrange(0, 4) =~= padded(date.0, 4));
    assert(s.subrange(5, 7) =~= padded(date.1, 2));
    assert(s.subrange(8, 10) =~= padded(date.2, 2));
    assert(s.subrange(11, 13) =~= padded(h, 2));
    assert(s.subrange(14, 16) =~= padded(mi, 2));
    assert(s.subrange(17, 19) =~= padded(se, 2));
    assert(s.len() == 20);
    assert(s[4] == '-' && s[7] == '-' && s[10] == 'T' && s[13] == ':' && s[16] == ':' && s[19]
        == 'Z');
    assert(is_canonical_stamp(s));
    assert(h * 3600 + mi * 60 + se == r);
    assert(z * 86400 + r == t);
}

/// Every second of the years 0 to 9999, from `0000-01-01T00:00:00Z` to
/// `9999-12-31T23:59:59Z`, is written as a timestamp that reads back as
/// that second.
pub proof fn law_stamps_round_trip(t: int)
    requires
        -62167219200 <= t <= 253402300799,
    ensures
        stamp_seconds(stamp_text(t)) == Some(t),
{
    let z = t / 86400;
    assert(-719528 <= z <= 2932896);
    law_every_day_is_one_date(z);
    let zz = z + 719468;
    let era = zz / 146097;
    let doe = zz - era * 146097;
    assert(-1 <= era <= 24);
    assert(0 <= doe < 146097);
    lemma_year_of_era(doe);
    let yoe = year_of_era(doe);
    let doy = doe - era_year_start(yoe);
    let x = doe as u32;
    if era == -1 {
        assert(doe >= 146037);
        assert(x >= 146037 && x < 146097 ==> ({
            let y = ((x - x / 1460 + x / 36524 - x / 146096) / 365) as u32;
            &&& y == 399
            &&& (5 * (x - (365 * y + y / 4 - y / 100)) + 2) / 153 >= 10
        })) by (bit_vector);
    }
    if era == 24 {
        assert(doe <= 146036);
        assert(x <= 146036 ==> ({
            let y = ((x - x / 1460 + x / 36524 - x / 146096) / 365) as u32;
            y < 399 || (5 * (x - (365 * y + y / 4 - y / 100)) + 2) / 153 <= 9
        })) by (bit_vector);
    }
    assert(0 <= civil_from_days_spec(z).0 <= 9999);
    law_written_stamp_reads_back(t);
}

/// Writing a read timestamp gives the same text, for every timestamp in the
/// canonical shape.
pub proof fn law_canonical_stamp_writes_back(s: Seq<char>)
    requires
        is_canonical_stamp(s),
    ensures
        stamp_seconds(s) is Some,
        stamp_text(stamp_seconds(s).unwrap()) == s,
{
    let (fy, fm, fd) = (s.subrange(0, 4), s.subrange(5, 7), s.subrange(8, 10));
    let (fh, fi, fs) = (s.subrange(11, 13), s.subrange(14, 16), s.subrange(17, 19));
    let (y, m, d) = (
        decimal_value(fy) as int,
        decimal_value(fm) as int,
        decimal_value(fd) as int,
    );
    let (h, mi, se) = (decimal_value(fh) as int, decimal_value(fi) as int, decimal_value(fs) as int);
    let z = epoch_day(y, m, d);
    let r = h * 3600 + mi * 60 + se;
    let t = z * 86400 + r;
    assert(stamp_seconds(s) == Some(t));
    assert(0 <= r < 86400);
    assert(t / 86400 == z && t % 86400 == r) by (nonlinear_arith)
        requires
            t == z * 86400 + r,
            0 <= r < 86400,
    ;
    law_dates_have_distinct_days(y, m, d);
    assert(r / 3600 == h && (r % 3600) / 60 == mi && r % 60 == se) by (nonlinear_arith)
        requires
            r == h * 3600 + mi * 60 + se,
            0 <= h < 24,
            0 <= mi < 60,
            0 <= se < 60,
    ;
    crate::decimal::lemma_padded_of_digits(fy);
    crate::decimal::lemma_padded_of_digits(fm);
    crate::decimal::lemma_padded_of_digits(fd);
    crate::decimal::lemma_padded_of_digits(fh);
    crate::decimal::lemma_padded_of_digits(fi);
    crate::decimal::lemma_padded_of_digits(fs);
    assert(stamp_text(t) =~= s);
}

} // verus!
