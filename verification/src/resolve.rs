//! Resolution of the requested month: optional year and month arguments are
//! combined with a snapshot of today's date into a `CalendarRequest`.

use vstd::prelude::*;

verus! {

/// The largest year substituted when no year argument is given.
pub const MAX_DEFAULT_YEAR: i32 = 9999;

/// A snapshot of the current local date, captured once at startup and used
/// only for defaulting and for the highlight comparison.
#[derive(Clone, Copy, Debug, PartialEq, Eq, Structural)]
pub struct Today {
    pub year: i32,
    pub month: u32,
    pub day: u32,
}

/// The month the calendar is asked for.
#[derive(Clone, Copy, Debug, PartialEq, Eq, Structural)]
pub struct CalendarRequest {
    pub year: i32,
    pub month: u32,
}

/// The requested year: the given one when present, else today's year,
/// clamped to `MAX_DEFAULT_YEAR`.
pub fn resolve_year(given: Option<i32>, today_year: i32) -> (r: i32)
    ensures
        given matches Some(y) ==> r == y,
        given is None && today_year >= MAX_DEFAULT_YEAR ==> r == MAX_DEFAULT_YEAR,
        given is None && today_year < MAX_DEFAULT_YEAR ==> r == today_year,
{
    match given {
        Some(y) => y,
        None => {
            if today_year >= MAX_DEFAULT_YEAR {
                MAX_DEFAULT_YEAR
            } else {
                today_year
            }
        },
    }
}

/// The requested month: the given one when present, else today's month.
/// No range check happens here; an out-of-range month is rejected by the
/// calendar arithmetic.
pub fn resolve_month(given: Option<u32>, today_month: u32) -> (r: u32)
    ensures
        given matches Some(m) ==> r == m,
        given is None ==> r == today_month,
{
    match given {
        Some(m) => m,
        None => today_month,
    }
}

/// Combines the optional year and month arguments with today's date into
/// the request the arithmetic and the renderer work on.
pub fn resolve_request(year_arg: Option<i32>, month_arg: Option<u32>, today: &Today) -> (r:
    CalendarRequest)
    ensures
        year_arg matches Some(y) ==> r.year == y,
        year_arg is None && today.year >= MAX_DEFAULT_YEAR ==> r.year == MAX_DEFAULT_YEAR,
        year_arg is None && today.year < MAX_DEFAULT_YEAR ==> r.year == today.year,
        month_arg matches Some(m) ==> r.month == m,
        month_arg is None ==> r.month == today.month,
{
    CalendarRequest { year: resolve_year(year_arg, today.year), month: resolve_month(
        month_arg,
        today.month,
    ) }
}

} // verus!
