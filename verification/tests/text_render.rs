use cal::error::CalError;
use cal::grid::{build_grid, month_layout, Cell};
use cal::resolve::{CalendarRequest, Today};
use cal::text::{
    cell_text, i32_to_string, render_header, render_month_text, render_rows, u32_to_string,
    weekday_header,
};

fn far_away_today() -> Today {
    Today { year: 1777, month: 4, day: 30 }
}

#[test]
fn numbers_to_text() {
    assert_eq!(u32_to_string(0), "0");
    assert_eq!(u32_to_string(7), "7");
    assert_eq!(u32_to_string(10), "10");
    assert_eq!(u32_to_string(2024), "2024");
    assert_eq!(u32_to_string(u32::MAX), "4294967295");
    assert_eq!(i32_to_string(0), "0");
    assert_eq!(i32_to_string(9999), "9999");
    assert_eq!(i32_to_string(-45), "-45");
    assert_eq!(i32_to_string(i32::MIN), "-2147483648");
}

#[test]
fn cell_texts() {
    assert_eq!(cell_text(&Cell::Blank), "   ");
    assert_eq!(cell_text(&Cell::Day(5, false)), " 5 ");
    assert_eq!(cell_text(&Cell::Day(5, true)), " 5 ");
    assert_eq!(cell_text(&Cell::Day(12, false)), "12 ");
    assert_eq!(cell_text(&Cell::Day(31, false)), "31 ");
}

#[test]
fn header_is_centered_in_twenty_columns() {
    // "January 2024" has 12 characters: 8 spaces of padding, 4 on each side.
    assert_eq!(render_header(1, 2024).unwrap(), "    January 2024    ");
    // "September 2024" has 14 characters: 3 spaces on each side.
    assert_eq!(render_header(9, 2024).unwrap(), "   September 2024   ");
    // "May 3" has 5 characters: 15 spaces of padding, the extra one on the right.
    assert_eq!(render_header(5, 3).unwrap(), "       May 3        ");
    // "February 2024" has 13 characters: 3 spaces left, 4 right.
    assert_eq!(render_header(2, 2024).unwrap(), "   February 2024    ");
}

#[test]
fn header_wider_than_field_is_kept() {
    // "January -2147483648" has 19 characters: one trailing pad space.
    assert_eq!(render_header(1, i32::MIN).unwrap(), "January -2147483648 ");
}

#[test]
fn header_rejects_out_of_range_months() {
    assert!(render_header(0, 2024).is_err());
    assert!(render_header(13, 2024).is_err());
}

#[test]
fn weekday_header_is_monday_first() {
    assert_eq!(weekday_header(), "Mo Tu We Th Fr Sa Su");
}

#[test]
fn january_2024_renders_five_rows() {
    let req = CalendarRequest { year: 2024, month: 1 };
    let layout = month_layout(&req).unwrap();
    let cells = build_grid(&req, &layout, &far_away_today());
    let rows = render_rows(&cells);
    assert_eq!(rows.len(), 5);
    assert_eq!(rows[0], " 1  2  3  4  5  6  7 ");
    assert_eq!(rows[1], " 8  9 10 11 12 13 14 ");
    assert_eq!(rows[2], "15 16 17 18 19 20 21 ");
    assert_eq!(rows[3], "22 23 24 25 26 27 28 ");
    // The last row is partially filled with the remaining 3 cells.
    assert_eq!(rows[4], "29 30 31 ");
}

#[test]
fn sunday_start_renders_six_rows() {
    // October 2023: 31 days starting on a Sunday span 6 printed rows.
    let req = CalendarRequest { year: 2023, month: 10 };
    let layout = month_layout(&req).unwrap();
    let cells = build_grid(&req, &layout, &far_away_today());
    let rows = render_rows(&cells);
    assert_eq!(rows.len(), 6);
    assert_eq!(rows[0], "                   1 ");
    assert_eq!(rows[1], " 2  3  4  5  6  7  8 ");
    assert_eq!(rows[5], "30 31 ");
}

#[test]
fn full_month_text_january_2024() {
    let req = CalendarRequest { year: 2024, month: 1 };
    let lines = render_month_text(&req, &far_away_today()).unwrap();
    let expected = vec![
        "    January 2024    ",
        "Mo Tu We Th Fr Sa Su",
        " 1  2  3  4  5  6  7 ",
        " 8  9 10 11 12 13 14 ",
        "15 16 17 18 19 20 21 ",
        "22 23 24 25 26 27 28 ",
        "29 30 31 ",
    ];
    assert_eq!(lines, expected);
}

#[test]
fn full_month_text_errors_match_layout_errors() {
    let today = far_away_today();
    assert_eq!(
        render_month_text(&CalendarRequest { year: 2024, month: 0 }, &today),
        Err(CalError::InvalidMonth)
    );
    assert_eq!(
        render_month_text(&CalendarRequest { year: 300000, month: 5 }, &today),
        Err(CalError::InvalidDate)
    );
}

#[test]
fn february_2024_renders_five_rows() {
    // 29 days starting on a Thursday: 32 cells, 5 rows.
    let req = CalendarRequest { year: 2024, month: 2 };
    let layout = month_layout(&req).unwrap();
    let cells = build_grid(&req, &layout, &far_away_today());
    assert_eq!(cells.len(), 32);
    let rows = render_rows(&cells);
    assert_eq!(rows.len(), 5);
    assert_eq!(rows[0], "          1  2  3  4 ");
    assert_eq!(rows[4], "26 27 28 29 ");
}
