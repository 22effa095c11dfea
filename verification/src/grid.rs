//! The month grid: day cells in row-major order, wrapped every 7 cells,
//! with leading blank cells for the weekday offset of the first day and at
//! most one highlighted cell for today.

use vstd::prelude::*;

use crate::arith::{
    days_in_month_spec, first_weekday_spec, get_days_in_month, get_first_day_of_month_offset,
    MAX_CAL_YEAR, MIN_CAL_YEAR,
};
use crate::error::CalError;
use crate::resolve::{CalendarRequest, Today};

verus! {

/// One 3-character-wide grid slot: a blank placeholder before the first day
/// of the month, or a day number together with its highlight mark.
#[derive(Clone, Copy, Debug, PartialEq, Eq, Structural)]
pub enum Cell {
    Blank,
    Day(u32, bool),
}

/// The derived shape of a month: its length and the weekday of its first
/// day (Monday = 1 .. Sunday = 7).
#[derive(Clone, Copy, Debug, PartialEq, Eq, Structural)]
pub struct MonthLayout {
    pub days_in_month: u32,
    pub first_day_offset: u32,
}

impl MonthLayout {
    /// The invariant of a layout: a Gregorian month length and a weekday
    /// offset.
    pub open spec fn wf(self) -> bool {
        &&& 28 <= self.days_in_month <= 31
        &&& 1 <= self.first_day_offset <= 7
    }

    /// The number of grid cells, leading blanks included.
    pub open spec fn cell_count(self) -> int {
        self.days_in_month + self.first_day_offset - 1
    }
}

/// Derives the layout of the requested month. Fails with `InvalidMonth`
/// when the month is outside 1..=12, and with `InvalidDate` when the year
/// cannot be materialized as a date; the month is checked first.
pub fn month_layout(req: &CalendarRequest) -> (r: Result<MonthLayout, CalError>)
    ensures
        !(1 <= req.month <= 12) ==> r == Err::<MonthLayout, CalError>(CalError::InvalidMonth),
        1 <= req.month <= 12 && !(MIN_CAL_YEAR <= req.year <= MAX_CAL_YEAR) ==> r == Err::<
            MonthLayout,
            CalError,
        >(CalError::InvalidDate),
        1 <= req.month <= 12 && MIN_CAL_YEAR <= req.year <= MAX_CAL_YEAR ==> r == Ok::<
            MonthLayout,
            CalError,
        >(
            MonthLayout {
                days_in_month: days_in_month_spec(req.year as int, req.month as int) as u32,
                first_day_offset: first_weekday_spec(req.year as int, req.month as int) as u32,
            },
        ),
        r matches Ok(l) ==> l.wf(),
{
    let days = match get_days_in_month(req.year, req.month) {
        Ok(d) => d,
        Err(e) => {
            return Err(e);
        },
    };
    let offset = match get_first_day_of_month_offset(req.year, req.month) {
        Ok(o) => o,
        Err(e) => {
            return Err(e);
        },
    };
    Ok(MonthLayout { days_in_month: days, first_day_offset: offset })
}

/// True when day `day` of the requested month is today.
pub open spec fn is_today(req: CalendarRequest, today: Today, day: int) -> bool {
    req.year == today.year && req.month == today.month && today.day == day
}

/// The grid of the requested month: `first_day_offset - 1` leading blanks,
/// then the day numbers in order, each marked highlighted exactly when it
/// is today.
pub open spec fn grid_spec(req: CalendarRequest, layout: MonthLayout, today: Today) -> Seq<Cell>
    recommends
        layout.wf(),
{
    Seq::new(
        layout.cell_count() as nat,
        |i: int|
            if i < layout.first_day_offset - 1 {
                Cell::Blank
            } else {
                Cell::Day(
                    (i - layout.first_day_offset + 2) as u32,
                    is_today(req, today, i - layout.first_day_offset + 2),
                )
            },
    )
}

/// Builds the grid of the requested month, cell by cell in row-major order.
pub fn build_grid(req: &CalendarRequest, layout: &MonthLayout, today: &Today) -> (cells: Vec<Cell>)
    requires
        layout.wf(),
    ensures
        cells@ == grid_spec(*req, *layout, *today),
{
    let offset = layout.first_day_offset;
    let total = layout.days_in_month + offset - 1;
    let mut cells: Vec<Cell> = Vec::new();
    let mut d: u32 = 1;
    while d <= total
        invariant
            layout.wf(),
            total == layout.cell_count(),
            1 <= d <= total + 1,
            offset == layout.first_day_offset,
            cells@.len() == d - 1,
            forall|i: int|
                0 <= i < d - 1 ==> cells@[i] == grid_spec(*req, *layout, *today)[i],
        decreases total + 1 - d,
    {
        if d < offset {
            cells.push(Cell::Blank);
        } else {
            let day_num = d - offset + 1;
            let hl = req.year == today.year && req.month == today.month && day_num == today.day;
            cells.push(Cell::Day(day_num, hl));
        }
        d = d + 1;
    }
    proof {
        assert(cells@ =~= grid_spec(*req, *layout, *today));
    }
    cells
}

/// True when the cell carries the highlight mark.
pub open spec fn cell_highlighted(c: Cell) -> bool {
    c matches Cell::Day(_, true)
}

/// The number of highlighted cells in a grid.
pub open spec fn highlighted_count(s: Seq<Cell>) -> int
    decreases s.len(),
{
    if s.len() == 0 {
        0
    } else {
        highlighted_count(s.drop_last()) + if cell_highlighted(s.last()) {
            1int
        } else {
            0int
        }
    }
}

/// A grid without a highlighted cell has a highlighted count of zero.
proof fn lemma_count_none(s: Seq<Cell>)
    requires
        forall|i: int| 0 <= i < s.len() ==> !cell_highlighted(s[i]),
    ensures
        highlighted_count(s) == 0,
    decreases s.len(),
{
    if s.len() > 0 {
        lemma_count_none(s.drop_last());
    }
}

/// A grid whose only highlighted cell sits at index `j` has a highlighted
/// count of exactly one.
proof fn lemma_count_single(s: Seq<Cell>, j: int)
    requires
        0 <= j < s.len(),
        cell_highlighted(s[j]),
        forall|i: int| 0 <= i < s.len() && i != j ==> !cell_highlighted(s[i]),
    ensures
        highlighted_count(s) == 1,
    decreases s.len(),
{
    if j == s.len() - 1 {
        lemma_count_none(s.drop_last());
    } else {
        lemma_count_single(s.drop_last(), j);
    }
}

/// A month that starts on Monday (offset 1) has no leading blank cells:
/// every cell of its grid is a day cell, and the first cell is day 1.
pub proof fn lemma_monday_start_no_blanks(req: CalendarRequest, layout: MonthLayout, today: Today)
    requires
        layout.wf(),
        layout.first_day_offset == 1,
    ensures
        forall|i: int|
            0 <= i < grid_spec(req, layout, today).len() ==> ((#[trigger] grid_spec(
                req,
                layout,
                today,
            )[i]) matches Cell::Day(d, _) && d == i + 1),
        grid_spec(req, layout, today).len() == layout.days_in_month,
{
}

/// A month that starts on Sunday (offset 7) has exactly six leading blank
/// cells: the first six cells of its grid are blank, and every cell from
/// the seventh on is a day cell.
pub proof fn lemma_sunday_start_six_blanks(req: CalendarRequest, layout: MonthLayout, today: Today)
    requires
        layout.wf(),
        layout.first_day_offset == 7,
    ensures
        forall|i: int| 0 <= i < 6 ==> grid_spec(req, layout, today)[i] == Cell::Blank,
        forall|i: int|
            6 <= i < grid_spec(req, layout, today).len() ==> ((#[trigger] grid_spec(
                req,
                layout,
                today,
            )[i]) matches Cell::Day(d, _) && d == i - 5),
        grid_spec(req, layout, today).len() == layout.days_in_month + 6,
{
}

/// When today falls inside the requested month, exactly one cell of the
/// grid is highlighted, and it sits at index `day + first_day_offset - 2`
/// (the cell showing today's day number).
pub proof fn lemma_today_highlighted_once(req: CalendarRequest, layout: MonthLayout, today: Today)
    requires
        layout.wf(),
        req.year == today.year,
        req.month == today.month,
        1 <= today.day <= layout.days_in_month,
    ensures
        highlighted_count(grid_spec(req, layout, today)) == 1,
        grid_spec(req, layout, today)[today.day + layout.first_day_offset - 2] == Cell::Day(
            today.day,
            true,
        ),
{
    let s = grid_spec(req, layout, today);
    let j = today.day + layout.first_day_offset - 2;
    assert(cell_highlighted(s[j]));
    lemma_count_single(s, j);
}

/// When the requested month is not today's month (the year or the month
/// differs), no cell of the grid is highlighted, whatever today's day is.
pub proof fn lemma_other_month_no_highlight(req: CalendarRequest, layout: MonthLayout, today: Today)
    requires
        layout.wf(),
        req.year != today.year || req.month != today.month,
    ensures
        highlighted_count(grid_spec(req, layout, today)) == 0,
{
    lemma_count_none(grid_spec(req, layout, today));
}

} // verus!
