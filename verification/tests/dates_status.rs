use power_rankings::dates::{format_date, plus_days, to_dec, upcoming_window, Date};
use power_rankings::errors::{check_status, RunError};

#[test]
fn decimal_rendering_is_exact() {
    assert_eq!(to_dec(0), "0");
    assert_eq!(to_dec(7), "7");
    assert_eq!(to_dec(42), "42");
    assert_eq!(to_dec(1203), "1203");
    assert_eq!(to_dec(u64::MAX), "18446744073709551615");
}

#[test]
fn dates_format_as_iso_days() {
    assert_eq!(format_date(&Date { year: 2024, month: 1, day: 16 }), "2024-01-16");
    assert_eq!(format_date(&Date { year: 987, month: 12, day: 3 }), "0987-12-03");
    assert_eq!(format_date(&Date { year: 2024, month: 11, day: 30 }), "2024-11-30");
}

#[test]
fn plus_days_crosses_months_and_leap_years() {
    let d = |y: i64, m: u32, day: u32| Date { year: y, month: m, day };
    assert_eq!(plus_days(&d(2024, 1, 10), 7), d(2024, 1, 17));
    assert_eq!(plus_days(&d(2024, 2, 26), 7), d(2024, 3, 4));
    assert_eq!(plus_days(&d(2023, 2, 26), 7), d(2023, 3, 5));
    assert_eq!(plus_days(&d(2023, 12, 28), 7), d(2024, 1, 4));
    assert_eq!(plus_days(&d(1900, 2, 26), 7), d(1900, 3, 5));
    assert_eq!(plus_days(&d(2000, 2, 26), 7), d(2000, 3, 4));
}

#[test]
fn upcoming_window_spans_seven_days() {
    let (start, end) = upcoming_window();
    assert_eq!(plus_days(&start, 7), end);
    assert!(start.month >= 1 && start.month <= 12);
    assert!(start.day >= 1 && start.day <= 31);
    assert!(start != end);
}

#[test]
fn only_2xx_statuses_pass() {
    assert_eq!(check_status(200), Ok(()));
    assert_eq!(check_status(204), Ok(()));
    assert_eq!(check_status(299), Ok(()));
    assert_eq!(check_status(199), Err(RunError::HttpStatus(199)));
    assert_eq!(check_status(301), Err(RunError::HttpStatus(301)));
    assert_eq!(check_status(404), Err(RunError::HttpStatus(404)));
    assert_eq!(check_status(500), Err(RunError::HttpStatus(500)));
}
