//! Calendar arithmetic for the proleptic Gregorian calendar: leap years,
//! month lengths, English month names, and the weekday of the first day of a
//! month (Monday = 1 .. Sunday = 7).

use vstd::prelude::*;

use crate::error::CalError;

verus! {

/// Gregorian leap-year rule: divisible by 4 and (not by 100, or by 400).
pub open spec fn is_leap_year(y: int) -> bool {
    y % 4 == 0 && (y % 100 != 0 || y % 400 == 0)
}

/// Number of days in month `m` of year `y`, per the standard month-length
/// table and the Gregorian leap-year rule for February.
pub open spec fn days_in_month_spec(y: int, m: int) -> int
    recommends
        1 <= m <= 12,
{
    if m == 2 {
        if is_leap_year(y) {
            29
        } else {
            28
        }
    } else if m == 4 || m == 6 || m == 9 || m == 11 {
        30
    } else {
        31
    }
}

/// True when `d` divides `y` exactly.
fn divides(d: i32, y: i32) -> (r: bool)
    requires
        d > 0,
    ensures
        r == ((y as int) % (d as int) == 0),
{
    match y.checked_rem_euclid(d) {
        Some(m) => m == 0,
        None => {
            proof {
                vstd::arithmetic::div_mod::lemma_mod_bound(y as int, d as int);
            }
            false
        },
    }
}

/// Number of days in the given month, or `InvalidMonth` when the month is
/// outside 1..=12. February has 29 days in leap years, 28 otherwise.
pub fn get_days_in_month(year: i32, month: u32) -> (r: Result<u32, CalError>)
    ensures
        1 <= month <= 12 ==> r == Ok::<u32, CalError>(
            days_in_month_spec(year as int, month as int) as u32,
        ),
        !(1 <= month <= 12) ==> r == Err::<u32, CalError>(CalError::InvalidMonth),
{
    match month {
        1 | 3 | 5 | 7 | 8 | 10 | 12 => Ok(31),
        4 | 6 | 9 | 11 => Ok(30),
        2 => {
            if divides(4, year) && (!divides(100, year) || divides(400, year)) {
                Ok(29)
            } else {
                Ok(28)
            }
        },
        _ => Err(CalError::InvalidMonth),
    }
}

/// The smallest year for which a first-of-month date can be materialized.
pub const MIN_CAL_YEAR: i32 = -262143;

/// The largest year for which a first-of-month date can be materialized.
pub const MAX_CAL_YEAR: i32 = 262142;

/// Days from the first day of year 1 to the first day of year `y`
/// (negative for years before year 1).
pub open spec fn days_before_year(y: int) -> int {
    365 * (y - 1) + (y - 1) / 4 - (y - 1) / 100 + (y - 1) / 400
}

/// Days from the first day of year `y` to the first day of month `m` of
/// that year.
pub open spec fn days_before_month(y: int, m: int) -> int
    recommends
        1 <= m <= 12,
{
    let base: int = if m == 1 {
        0
    } else if m == 2 {
        31
    } else if m == 3 {
        59
    } else if m == 4 {
        90
    } else if m == 5 {
        120
    } else if m == 6 {
        151
    } else if m == 7 {
        181
    } else if m == 8 {
        212
    } else if m == 9 {
        243
    } else if m == 10 {
        273
    } else if m == 11 {
        304
    } else {
        334
    };
    base + if m > 2 && is_leap_year(y) {
        1int
    } else {
        0int
    }
}

/// Weekday of the first day of month `m` of year `y`, with Monday = 1 up to
/// Sunday = 7. The first day of year 1 in the proleptic Gregorian calendar
/// is a Monday, so the day count before that date taken modulo 7 gives the
/// weekday directly.
pub open spec fn first_weekday_spec(y: int, m: int) -> int {
    (days_before_year(y) + days_before_month(y, m)) % 7 + 1
}

/// The weekday number of the first of a month is always in 1..=7.
pub proof fn lemma_first_weekday_in_range(y: int, m: int)
    ensures
        1 <= first_weekday_spec(y, m) <= 7,
{
    vstd::arithmetic::div_mod::lemma_mod_bound(
        days_before_year(y) + days_before_month(y, m),
        7,
    );
}

/// Within a year, the day count to the first of the next month grows by the
/// current month's length, so the weekday offset of the next month is the
/// current one advanced by that length modulo 7.
pub proof fn lemma_weekday_advances_by_month_length(y: int, m: int)
    requires
        1 <= m <= 11,
    ensures
        days_before_month(y, m + 1) == days_before_month(y, m) + days_in_month_spec(y, m),
        first_weekday_spec(y, m + 1) == ((first_weekday_spec(y, m) - 1 + days_in_month_spec(
            y,
            m,
        )) % 7) + 1,
{
    let a = days_before_year(y) + days_before_month(y, m);
    let d = days_in_month_spec(y, m);
    vstd::arithmetic::div_mod::lemma_add_mod_noop(a, d, 7);
    vstd::arithmetic::div_mod::lemma_add_mod_noop(a % 7, d, 7);
    vstd::arithmetic::div_mod::lemma_mod_bound(a, 7);
    vstd::arithmetic::div_mod::lemma_small_mod((a % 7) as nat, 7);
}

/// Advancing a year steps each flooring quotient of the leap rule by one
/// exactly when the divisor divides the new year.
proof fn lemma_div_step(y: int, d: int)
    requires
        d > 0,
    ensures
        y / d == (y - 1) / d + if y % d == 0 {
            1int
        } else {
            0int
        },
{
    let q = (y - 1) / d;
    let r = (y - 1) % d;
    vstd::arithmetic::div_mod::lemma_fundamental_div_mod(y - 1, d);
    vstd::arithmetic::div_mod::lemma_mod_bound(y - 1, d);
    if r == d - 1 {
        assert(y == (q + 1) * d + 0) by (nonlinear_arith)
            requires
                y - 1 == q * d + r,
                r == d - 1,
        ;
        vstd::arithmetic::div_mod::lemma_fundamental_div_mod_converse(y, d, q + 1, 0);
    } else {
        vstd::arithmetic::div_mod::lemma_fundamental_div_mod_converse(y, d, q, r + 1);
    }
}

/// A year has 365 days, plus one in leap years.
pub proof fn lemma_year_length(y: int)
    ensures
        days_before_year(y + 1) == days_before_year(y) + 365 + if is_leap_year(y) {
            1int
        } else {
            0int
        },
{
    lemma_div_step(y, 4);
    lemma_div_step(y, 100);
    lemma_div_step(y, 400);
    vstd::arithmetic::div_mod::lemma_mod_mod(y, 100, 4);
    vstd::arithmetic::div_mod::lemma_mod_mod(y, 4, 25);
}

/// Across a year boundary: January's weekday offset is December's advanced
/// by December's 31 days modulo 7.
pub proof fn lemma_new_year_offset(y: int)
    ensures
        first_weekday_spec(y + 1, 1) == ((first_weekday_spec(y, 12) - 1 + 31) % 7) + 1,
{
    lemma_year_length(y);
    let a = days_before_year(y) + days_before_month(y, 12);
    vstd::arithmetic::div_mod::lemma_add_mod_noop(a, 31, 7);
    vstd::arithmetic::div_mod::lemma_add_mod_noop(a % 7, 31, 7);
    vstd::arithmetic::div_mod::lemma_mod_bound(a, 7);
    vstd::arithmetic::div_mod::lemma_small_mod((a % 7) as nat, 7);
}

/// Relies on `chrono::NaiveDate::from_ymd_opt` and `Datelike::weekday` with
/// `Weekday::number_from_monday`: construction of the first day of the month
/// succeeds exactly when the year is within chrono's representable range
/// (-262143..=262142), and the weekday of a date follows the proleptic
/// Gregorian calendar, numbered Monday = 1 .. Sunday = 7, which the day-count
/// formula `first_weekday_spec` expresses.
#[verifier::external_body]
fn weekday_of_first_day(year: i32, month: u32) -> (r: Option<u32>)
    requires
        1 <= month <= 12,
    ensures
        r is Some <==> MIN_CAL_YEAR <= year <= MAX_CAL_YEAR,
        r matches Some(d) ==> d as int == first_weekday_spec(year as int, month as int),
{
    chrono::NaiveDate::from_ymd_opt(year, month, 1)
        .map(|d| chrono::Datelike::weekday(&d).number_from_monday())
}

/// Weekday offset of the first day of the requested month, Monday = 1 up to
/// Sunday = 7. Fails with `InvalidMonth` when the month is outside 1..=12,
/// and with `InvalidDate` when the year cannot be materialized as a date.
pub fn get_first_day_of_month_offset(year: i32, month: u32) -> (r: Result<u32, CalError>)
    ensures
        !(1 <= month <= 12) ==> r == Err::<u32, CalError>(CalError::InvalidMonth),
        1 <= month <= 12 && !(MIN_CAL_YEAR <= year <= MAX_CAL_YEAR) ==> r == Err::<
            u32,
            CalError,
        >(CalError::InvalidDate),
        1 <= month <= 12 && MIN_CAL_YEAR <= year <= MAX_CAL_YEAR ==> r == Ok::<
            u32,
            CalError,
        >(first_weekday_spec(year as int, month as int) as u32),
        r matches Ok(d) ==> 1 <= d <= 7,
{
    if month < 1 || month > 12 {
        return Err(CalError::InvalidMonth);
    }
    proof {
        lemma_first_weekday_in_range(year as int, month as int);
    }
    match weekday_of_first_day(year, month) {
        Some(d) => Ok(d),
        None => Err(CalError::InvalidDate),
    }
}

/// The English name of month `m`.
pub open spec fn month_name_spec(m: int) -> Seq<char>
    recommends
        1 <= m <= 12,
{
    if m == 1 {
        "January"@
    } else if m == 2 {
        "February"@
    } else if m == 3 {
        "March"@
    } else if m == 4 {
        "April"@
    } else if m == 5 {
        "May"@
    } else if m == 6 {
        "June"@
    } else if m == 7 {
        "July"@
    } else if m == 8 {
        "August"@
    } else if m == 9 {
        "September"@
    } else if m == 10 {
        "October"@
    } else if m == 11 {
        "November"@
    } else {
        "December"@
    }
}

/// Relies on `chrono::Month::name` (reached through `Month::try_from` on the
/// month number): the English name of the month, "January" through
/// "December".
#[verifier::external_body]
fn chrono_month_name(month: u32) -> (r: String)
    requires
        1 <= month <= 12,
    ensures
        r@ == month_name_spec(month as int),
{
    let m = chrono::Month::try_from(month as u8).unwrap();
    m.name().to_string()
}

/// The English name of the requested month, or `InvalidMonth` when the month
/// is outside 1..=12.
pub fn get_month_name(month: u32) -> (r: Result<String, CalError>)
    ensures
        1 <= month <= 12 ==> (r matches Ok(s) && s@ == month_name_spec(month as int)),
        !(1 <= month <= 12) ==> r == Err::<String, CalError>(CalError::InvalidMonth),
{
    if 1 <= month && month <= 12 {
        Ok(chrono_month_name(month))
    } else {
        Err(CalError::InvalidMonth)
    }
}

/// The number of characters in the English name of month `m`.
pub fn month_name_len(month: u32) -> (n: usize)
    requires
        1 <= month <= 12,
    ensures
        n == month_name_spec(month as int).len(),
        n <= 9,
{
    proof {
        reveal_strlit("January");
        reveal_strlit("February");
        reveal_strlit("March");
        reveal_strlit("April");
        reveal_strlit("May");
        reveal_strlit("June");
        reveal_strlit("July");
        reveal_strlit("August");
        reveal_strlit("September");
        reveal_strlit("October");
        reveal_strlit("November");
        reveal_strlit("December");
    }
    match month {
        1 => 7,
        2 => 8,
        3 => 5,
        4 => 5,
        5 => 3,
        6 => 4,
        7 => 4,
        8 => 6,
        9 => 9,
        10 => 7,
        11 => 8,
        _ => 8,
    }
}

/// February has 29 days exactly in leap years, 28 otherwise.
pub proof fn lemma_february_days(y: int)
    ensures
        is_leap_year(y) ==> days_in_month_spec(y, 2) == 29,
        !is_leap_year(y) ==> days_in_month_spec(y, 2) == 28,
{
}

/// The months other than February have a fixed length, independent of the
/// year: 31 days for months 1, 3, 5, 7, 8, 10 and 12, and 30 days for
/// months 4, 6, 9 and 11.
pub proof fn lemma_fixed_month_days(y: int, m: int)
    requires
        1 <= m <= 12,
        m != 2,
    ensures
        (m == 1 || m == 3 || m == 5 || m == 7 || m == 8 || m == 10 || m == 12)
            ==> days_in_month_spec(y, m) == 31,
        (m == 4 || m == 6 || m == 9 || m == 11) ==> days_in_month_spec(y, m) == 30,
{
}

} // verus!
