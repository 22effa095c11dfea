use cal::arith::{get_days_in_month, get_first_day_of_month_offset, get_month_name};
use cal::error::CalError;

#[test]
fn days_in_month_common_year() {
    let expected = [31, 28, 31, 30, 31, 30, 31, 31, 30, 31, 30, 31];
    for m in 1..=12u32 {
        assert_eq!(get_days_in_month(2023, m), Ok(expected[(m - 1) as usize]));
    }
}

#[test]
fn days_in_month_leap_year() {
    let expected = [31, 29, 31, 30, 31, 30, 31, 31, 30, 31, 30, 31];
    for m in 1..=12u32 {
        assert_eq!(get_days_in_month(2024, m), Ok(expected[(m - 1) as usize]));
    }
}

#[test]
fn february_2024_is_leap() {
    assert_eq!(get_days_in_month(2024, 2), Ok(29));
}

#[test]
fn february_2023_is_not_leap() {
    assert_eq!(get_days_in_month(2023, 2), Ok(28));
}

#[test]
fn february_century_rules() {
    assert_eq!(get_days_in_month(1900, 2), Ok(28));
    assert_eq!(get_days_in_month(2000, 2), Ok(29));
    assert_eq!(get_days_in_month(2100, 2), Ok(28));
    assert_eq!(get_days_in_month(1996, 2), Ok(29));
    assert_eq!(get_days_in_month(-4, 2), Ok(29));
}

#[test]
fn days_in_month_rejects_out_of_range_months() {
    for y in [-5000, 0, 1, 1999, 2024, 9999] {
        assert_eq!(get_days_in_month(y, 0), Err(CalError::InvalidMonth));
        assert_eq!(get_days_in_month(y, 13), Err(CalError::InvalidMonth));
        assert_eq!(get_days_in_month(y, 100), Err(CalError::InvalidMonth));
    }
}

#[test]
fn month_names() {
    let names = [
        "January",
        "February",
        "March",
        "April",
        "May",
        "June",
        "July",
        "August",
        "September",
        "October",
        "November",
        "December",
    ];
    for m in 1..=12u32 {
        assert_eq!(get_month_name(m).unwrap(), names[(m - 1) as usize]);
    }
}

#[test]
fn month_name_rejects_out_of_range_months() {
    assert_eq!(get_month_name(0), Err(CalError::InvalidMonth));
    assert_eq!(get_month_name(13), Err(CalError::InvalidMonth));
}

#[test]
fn first_day_offsets_of_known_months() {
    // January 2024 starts on a Monday.
    assert_eq!(get_first_day_of_month_offset(2024, 1), Ok(1));
    // February 2024 starts on a Thursday.
    assert_eq!(get_first_day_of_month_offset(2024, 2), Ok(4));
    // October 2023 starts on a Sunday.
    assert_eq!(get_first_day_of_month_offset(2023, 10), Ok(7));
    // May 2023 starts on a Monday.
    assert_eq!(get_first_day_of_month_offset(2023, 5), Ok(1));
    // The proleptic Gregorian calendar opens on a Monday.
    assert_eq!(get_first_day_of_month_offset(1, 1), Ok(1));
}

#[test]
fn first_day_offset_always_in_range() {
    for y in 1900..2101 {
        for m in 1..=12u32 {
            let off = get_first_day_of_month_offset(y, m).unwrap();
            assert!((1..=7).contains(&off));
        }
    }
}

#[test]
fn first_day_offset_rejects_out_of_range_months() {
    assert_eq!(get_first_day_of_month_offset(2024, 0), Err(CalError::InvalidMonth));
    assert_eq!(get_first_day_of_month_offset(2024, 13), Err(CalError::InvalidMonth));
}

#[test]
fn first_day_offset_rejects_out_of_range_years() {
    assert_eq!(get_first_day_of_month_offset(300000, 1), Err(CalError::InvalidDate));
    assert_eq!(get_first_day_of_month_offset(-300000, 1), Err(CalError::InvalidDate));
    // The edges of the representable range still work.
    assert!(get_first_day_of_month_offset(262142, 1).is_ok());
    assert!(get_first_day_of_month_offset(-262143, 1).is_ok());
}

#[test]
fn offsets_advance_by_month_lengths() {
    // Each month's offset is the previous one advanced by the previous
    // month's length modulo 7, across month and year boundaries alike.
    let mut prev = get_first_day_of_month_offset(1599, 12).unwrap();
    let mut prev_days = get_days_in_month(1599, 12).unwrap();
    for y in 1600..2401 {
        for m in 1..=12u32 {
            let off = get_first_day_of_month_offset(y, m).unwrap();
            assert_eq!(off, (prev - 1 + prev_days) % 7 + 1);
            prev = off;
            prev_days = get_days_in_month(y, m).unwrap();
        }
    }
}

#[test]
fn error_messages() {
    assert_eq!(
        CalError::InvalidMonth.message(),
        "Invalid month argument (only 1-12 is accepted)."
    );
    assert_eq!(
        CalError::InvalidDate.message(),
        "Invalid date: the year is outside the supported range."
    );
}
