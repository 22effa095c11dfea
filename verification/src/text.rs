//! Fixed-width text for the calendar: decimal numbers, the centered header
//! line, the weekday label line, and the 3-character day cells wrapped into
//! rows of seven.

use vstd::prelude::*;

use crate::arith::{
    days_in_month_spec, first_weekday_spec, month_name_len, month_name_spec, MAX_CAL_YEAR,
    MIN_CAL_YEAR,
};
use crate::error::CalError;
use crate::grid::{build_grid, grid_spec, month_layout, Cell, MonthLayout};
use crate::resolve::{CalendarRequest, Today};

verus! {

/// The decimal digit character for `d`.
pub open spec fn digit_char(d: int) -> char
    recommends
        0 <= d <= 9,
{
    if d == 0 {
        '0'
    } else if d == 1 {
        '1'
    } else if d == 2 {
        '2'
    } else if d == 3 {
        '3'
    } else if d == 4 {
        '4'
    } else if d == 5 {
        '5'
    } else if d == 6 {
        '6'
    } else if d == 7 {
        '7'
    } else if d == 8 {
        '8'
    } else {
        '9'
    }
}

/// The decimal digits of a nonnegative number, most significant first.
pub open spec fn dec_str(n: int) -> Seq<char>
    recommends
        n >= 0,
    decreases n,
    when n >= 0
{
    if n < 10 {
        seq![digit_char(n)]
    } else {
        dec_str(n / 10).push(digit_char(n % 10))
    }
}

/// The decimal text of an integer: a minus sign before the digits of the
/// magnitude when negative.
pub open spec fn int_str(v: int) -> Seq<char> {
    if v < 0 {
        seq!['-'] + dec_str(-v)
    } else {
        dec_str(v)
    }
}

/// The one-character string for a decimal digit.
fn digit_str(d: u32) -> (r: &'static str)
    requires
        d <= 9,
    ensures
        r@ == seq![digit_char(d as int)],
{
    proof {
        reveal_strlit("0");
        reveal_strlit("1");
        reveal_strlit("2");
        reveal_strlit("3");
        reveal_strlit("4");
        reveal_strlit("5");
        reveal_strlit("6");
        reveal_strlit("7");
        reveal_strlit("8");
        reveal_strlit("9");
    }
    let r: &'static str = match d {
        0 => "0",
        1 => "1",
        2 => "2",
        3 => "3",
        4 => "4",
        5 => "5",
        6 => "6",
        7 => "7",
        8 => "8",
        _ => "9",
    };
    proof {
        assert(r@ =~= seq![digit_char(d as int)]);
    }
    r
}

/// The decimal text of a `u32`, most significant digit first.
pub fn u32_to_string(n: u32) -> (r: String)
    ensures
        r@ == dec_str(n as int),
{
    let mut s = String::new();
    let mut v: u32 = n;
    proof {
        assert(dec_str(v as int) + s@ =~= dec_str(n as int));
    }
    while v >= 10
        invariant
            dec_str(v as int) + s@ == dec_str(n as int),
        decreases v,
    {
        let d = digit_str(v % 10);
        let mut t = String::new();
        t.append(d);
        t.append(s.as_str());
        proof {
            assert(dec_str((v / 10) as int) + t@ =~= dec_str(v as int) + s@);
        }
        s = t;
        v = v / 10;
    }
    let d = digit_str(v);
    let mut t = String::new();
    t.append(d);
    t.append(s.as_str());
    proof {
        assert(t@ =~= dec_str(v as int) + s@);
    }
    t
}

/// The decimal text of an `i32`, with a leading minus sign when negative.
pub fn i32_to_string(v: i32) -> (r: String)
    ensures
        r@ == int_str(v as int),
{
    if v >= 0 {
        u32_to_string(v as u32)
    } else {
        let mag: u32 = (-(v as i64)) as u32;
        let digits = u32_to_string(mag);
        let mut t = String::new();
        t.append("-");
        t.append(digits.as_str());
        proof {
            reveal_strlit("-");
            assert(t@ =~= int_str(v as int));
        }
        t
    }
}

/// Powers of ten.
pub open spec fn pow10(k: nat) -> int
    decreases k,
{
    if k == 0 {
        1
    } else {
        10 * pow10((k - 1) as nat)
    }
}

/// A number below `pow10(k)` has at most `k` decimal digits.
proof fn lemma_dec_str_len_bound(n: int, k: nat)
    requires
        0 <= n,
        1 <= k,
        n < pow10(k),
    ensures
        dec_str(n).len() <= k,
    decreases k,
{
    if n >= 10 {
        assert(pow10(k) == 10 * pow10((k - 1) as nat));
        assert(n / 10 < pow10((k - 1) as nat)) by (nonlinear_arith)
            requires
                n >= 10,
                n < 10 * pow10((k - 1) as nat),
        ;
        lemma_dec_str_len_bound(n / 10, (k - 1) as nat);
    }
}

/// The number of decimal digits of a `u32`.
fn dec_len(n: u32) -> (r: usize)
    ensures
        r == dec_str(n as int).len(),
        r <= 10,
{
    proof {
        reveal_with_fuel(pow10, 11);
        assert(pow10(10) == 10000000000);
        lemma_dec_str_len_bound(n as int, 10);
    }
    let mut count: usize = 1;
    let mut v: u32 = n;
    while v >= 10
        invariant
            dec_str(n as int).len() == dec_str(v as int).len() + count - 1,
            1 <= count,
            count <= dec_str(n as int).len(),
            dec_str(n as int).len() <= 10,
        decreases v,
    {
        v = v / 10;
        count = count + 1;
    }
    count
}

/// The number of characters in the decimal text of an `i32`.
fn int_str_len(v: i32) -> (r: usize)
    ensures
        r == int_str(v as int).len(),
        r <= 11,
{
    if v >= 0 {
        dec_len(v as u32)
    } else {
        let mag: u32 = (-(v as i64)) as u32;
        1 + dec_len(mag)
    }
}

/// A run of `k` space characters.
pub open spec fn blanks(k: int) -> Seq<char> {
    Seq::new(k as nat, |i: int| ' ')
}

/// A string of `n` spaces.
fn spaces(n: usize) -> (r: String)
    ensures
        r@ == blanks(n as int),
{
    proof {
        reveal_strlit(" ");
    }
    let mut s = String::new();
    let mut i: usize = 0;
    proof {
        assert(s@ =~= blanks(0));
    }
    while i < n
        invariant
            i <= n,
            s@ == blanks(i as int),
        decreases n - i,
    {
        s.append(" ");
        i = i + 1;
        proof {
            reveal_strlit(" ");
            assert(s@ =~= blanks(i as int));
        }
    }
    s
}

/// `content` centered in a 20-character field: padded with spaces on both
/// sides, the extra space on the right when the padding is odd; content of
/// 20 characters or more is left as it is.
pub open spec fn centered20(content: Seq<char>) -> Seq<char> {
    if content.len() >= 20 {
        content
    } else {
        let pad = 20 - content.len();
        blanks(pad / 2) + content + blanks(pad - pad / 2)
    }
}

/// The header line of the calendar: the English month name and the year,
/// separated by one space, centered in a 20-character field.
pub open spec fn header_spec(m: int, y: int) -> Seq<char>
    recommends
        1 <= m <= 12,
{
    centered20(month_name_spec(m) + seq![' '] + int_str(y))
}

/// Renders the header line for the requested month, or `InvalidMonth` when
/// the month is outside 1..=12.
pub fn render_header(month: u32, year: i32) -> (r: Result<String, CalError>)
    ensures
        1 <= month <= 12 ==> (r matches Ok(s) && s@ == header_spec(month as int, year as int)),
        !(1 <= month <= 12) ==> r == Err::<String, CalError>(CalError::InvalidMonth),
{
    let name = match crate::arith::get_month_name(month) {
        Ok(n) => n,
        Err(e) => {
            return Err(e);
        },
    };
    let mut content = name;
    content.append(" ");
    let ystr = i32_to_string(year);
    content.append(ystr.as_str());
    let content_len = month_name_len(month) + 1 + int_str_len(year);
    proof {
        reveal_strlit(" ");
        assert(content@ =~= month_name_spec(month as int) + seq![' '] + int_str(year as int));
        assert(content_len == content@.len());
    }
    if content_len >= 20 {
        Ok(content)
    } else {
        let pad = 20 - content_len;
        let mut line = spaces(pad / 2);
        line.append(content.as_str());
        let right = spaces(pad - pad / 2);
        line.append(right.as_str());
        proof {
            assert(line@ =~= header_spec(month as int, year as int));
        }
        Ok(line)
    }
}

/// The text of a day number, right-aligned in a 2-character field and
/// followed by one space.
pub open spec fn day_text(d: int) -> Seq<char>
    recommends
        1 <= d <= 31,
{
    if d < 10 {
        seq![' ', digit_char(d), ' ']
    } else {
        seq![digit_char(d / 10), digit_char(d % 10), ' ']
    }
}

/// The 3-character text of one grid cell: three spaces for a blank cell,
/// the right-aligned day number for a day cell. The highlight mark does not
/// change the text, only how the surrounding program styles it.
pub open spec fn cell_text_spec(c: Cell) -> Seq<char> {
    match c {
        Cell::Blank => seq![' ', ' ', ' '],
        Cell::Day(d, _) => day_text(d as int),
    }
}

/// A cell a grid can hold: day numbers stay within a month's length.
pub open spec fn cell_wf(c: Cell) -> bool {
    match c {
        Cell::Blank => true,
        Cell::Day(d, _) => 1 <= d <= 31,
    }
}

/// The fixed-width text of one grid cell.
pub fn cell_text(c: &Cell) -> (r: String)
    requires
        cell_wf(*c),
    ensures
        r@ == cell_text_spec(*c),
{
    proof {
        reveal_strlit(" ");
        reveal_strlit("   ");
    }
    match c {
        Cell::Blank => {
            let mut s = String::new();
            s.append("   ");
            proof {
                assert(s@ =~= cell_text_spec(*c));
            }
            s
        },
        Cell::Day(d, _) => {
            let mut s = String::new();
            if *d < 10 {
                s.append(" ");
                s.append(digit_str(*d));
            } else {
                s.append(digit_str(*d / 10));
                s.append(digit_str(*d % 10));
            }
            s.append(" ");
            proof {
                assert(s@ =~= cell_text_spec(*c));
            }
            s
        },
    }
}

/// The concatenated text of a run of cells.
pub open spec fn row_text(s: Seq<Cell>) -> Seq<char>
    decreases s.len(),
{
    if s.len() == 0 {
        Seq::empty()
    } else {
        row_text(s.drop_last()) + cell_text_spec(s.last())
    }
}

/// The number of rows a grid of `n` cells wraps into, seven cells per row.
pub open spec fn row_count(n: int) -> int {
    (n + 6) / 7
}

/// The text of row `r` of the grid: the cells from `7 * r` up to the next
/// row break or the end of the grid.
pub open spec fn line_spec(cells: Seq<Cell>, r: int) -> Seq<char>
    recommends
        0 <= r < row_count(cells.len() as int),
{
    row_text(
        cells.subrange(
            7 * r,
            if 7 * r + 7 <= cells.len() {
                7 * r + 7
            } else {
                cells.len() as int
            },
        ),
    )
}

/// Appending one cell to a run appends its text.
proof fn lemma_row_text_push(s: Seq<Cell>, c: Cell)
    ensures
        row_text(s.push(c)) == row_text(s) + cell_text_spec(c),
{
    assert(s.push(c).drop_last() =~= s);
    assert(s.push(c).last() == c);
}

/// Wraps the grid cells into text rows of seven 3-character cells; the last
/// row may be shorter.
pub fn render_rows(cells: &Vec<Cell>) -> (lines: Vec<String>)
    requires
        forall|i: int| 0 <= i < cells@.len() ==> cell_wf(cells@[i]),
        cells@.len() + 6 <= usize::MAX,
    ensures
        lines@.len() == row_count(cells@.len() as int),
        forall|r: int|
            0 <= r < lines@.len() ==> (#[trigger] lines@[r])@ == line_spec(cells@, r),
{
    let n = cells.len();
    let rows = (n + 6) / 7;
    let mut lines: Vec<String> = Vec::new();
    let mut r: usize = 0;
    while r < rows
        invariant
            rows == row_count(n as int),
            n == cells@.len(),
            n + 6 <= usize::MAX,
            forall|i: int| 0 <= i < cells@.len() ==> cell_wf(cells@[i]),
            r <= rows,
            lines@.len() == r,
            forall|k: int| 0 <= k < r ==> (#[trigger] lines@[k])@ == line_spec(cells@, k),
        decreases rows - r,
    {
        let start = r * 7;
        let end = if start + 7 <= n {
            start + 7
        } else {
            n
        };
        proof {
            assert(start < n) by (nonlinear_arith)
                requires
                    r < rows,
                    rows == (n + 6) / 7,
                    start == r * 7,
                    n >= 0,
            ;
        }
        let mut cur = String::new();
        let mut j: usize = start;
        proof {
            assert(cur@ =~= row_text(cells@.subrange(start as int, j as int)));
        }
        while j < end
            invariant
                start <= j <= end <= n,
                n == cells@.len(),
                forall|i: int| 0 <= i < cells@.len() ==> cell_wf(cells@[i]),
                cur@ == row_text(cells@.subrange(start as int, j as int)),
            decreases end - j,
        {
            let t = cell_text(&cells[j]);
            cur.append(t.as_str());
            proof {
                let pre = cells@.subrange(start as int, j as int);
                assert(cells@.subrange(start as int, j + 1) =~= pre.push(cells@[j as int]));
                lemma_row_text_push(pre, cells@[j as int]);
            }
            j = j + 1;
        }
        lines.push(cur);
        r = r + 1;
    }
    lines
}

/// The fixed weekday label line, Monday first.
pub fn weekday_header() -> (r: &'static str)
    ensures
        r@ == "Mo Tu We Th Fr Sa Su"@,
{
    "Mo Tu We Th Fr Sa Su"
}

/// The full plain text of a month, line by line: the centered header, the
/// weekday labels, then the day rows.
pub open spec fn month_lines_spec(req: CalendarRequest, today: Today) -> Seq<Seq<char>>
    recommends
        1 <= req.month <= 12,
{
    let layout = (MonthLayout {
        days_in_month: days_in_month_spec(req.year as int, req.month as int) as u32,
        first_day_offset: first_weekday_spec(req.year as int, req.month as int) as u32,
    });
    let cells = grid_spec(req, layout, today);
    Seq::new(
        (2 + row_count(cells.len() as int)) as nat,
        |k: int|
            if k == 0 {
                header_spec(req.month as int, req.year as int)
            } else if k == 1 {
                "Mo Tu We Th Fr Sa Su"@
            } else {
                line_spec(cells, k - 2)
            },
    )
}

/// Renders the requested month as plain text lines, without color: the
/// header, the weekday labels, and the wrapped day rows. Fails exactly as
/// `month_layout` does.
pub fn render_month_text(req: &CalendarRequest, today: &Today) -> (r: Result<Vec<String>, CalError>)
    ensures
        !(1 <= req.month <= 12) ==> r == Err::<Vec<String>, CalError>(CalError::InvalidMonth),
        1 <= req.month <= 12 && !(MIN_CAL_YEAR <= req.year <= MAX_CAL_YEAR) ==> r == Err::<
            Vec<String>,
            CalError,
        >(CalError::InvalidDate),
        1 <= req.month <= 12 && MIN_CAL_YEAR <= req.year <= MAX_CAL_YEAR ==> (r matches Ok(lines)
            && lines@.map_values(|l: String| l@) == month_lines_spec(*req, *today)),
{
    let layout = match month_layout(req) {
        Ok(l) => l,
        Err(e) => {
            return Err(e);
        },
    };
    let header = match render_header(req.month, req.year) {
        Ok(h) => h,
        Err(e) => {
            return Err(e);
        },
    };
    let cells = build_grid(req, &layout, today);
    proof {
        assert(forall|i: int| 0 <= i < cells@.len() ==> cell_wf(#[trigger] cells@[i]));
    }
    let rows = render_rows(&cells);
    let mut lines: Vec<String> = Vec::new();
    lines.push(header);
    let mut wd = String::new();
    wd.append(weekday_header());
    lines.push(wd);
    let row_total = rows.len();
    let mut k: usize = 0;
    while k < row_total
        invariant
            row_total == rows@.len(),
            k <= row_total,
            lines@.len() == 2 + k,
            lines@[0]@ == header_spec(req.month as int, req.year as int),
            lines@[1]@ == "Mo Tu We Th Fr Sa Su"@,
            forall|j: int| 2 <= j < k + 2 ==> (#[trigger] lines@[j])@ == rows@[j - 2]@,
        decreases row_total - k,
    {
        let mut line = String::new();
        line.append(rows[k].as_str());
        lines.push(line);
        k = k + 1;
    }
    proof {
        assert(lines@.map_values(|l: String| l@) =~~= month_lines_spec(*req, *today));
    }
    Ok(lines)
}

} // verus!
