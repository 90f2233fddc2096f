use finance_api::datetime::{default_datetime, format_datetime, leap_year, month_length, parse_datetime, DateTime};

fn dt(year: i32, month: u8, day: u8, hour: u8, minute: u8, second: u8) -> DateTime {
    DateTime { year, month, day, hour, minute, second, nanosecond: 0 }
}

#[test]
fn formats_with_zero_padding() {
    assert_eq!(format_datetime(&dt(2024, 3, 5, 9, 7, 1)), "2024-03-05 09:07:01");
}

#[test]
fn formats_early_and_negative_years() {
    assert_eq!(format_datetime(&dt(7, 12, 31, 23, 59, 59)), "0007-12-31 23:59:59");
    assert_eq!(format_datetime(&dt(-44, 3, 15, 12, 0, 0)), "-0044-03-15 12:00:00");
}

#[test]
fn format_ignores_subseconds() {
    let mut d = dt(2025, 1, 1, 0, 0, 0);
    d.nanosecond = 123_456_789;
    assert_eq!(format_datetime(&d), "2025-01-01 00:00:00");
}

#[test]
fn parses_the_text_form() {
    assert_eq!(parse_datetime("2024-03-05 09:07:01"), Some(dt(2024, 3, 5, 9, 7, 1)));
    assert_eq!(parse_datetime("-0044-03-15 12:00:00"), Some(dt(-44, 3, 15, 12, 0, 0)));
    assert_eq!(parse_datetime("+2024-03-05 09:07:01"), Some(dt(2024, 3, 5, 9, 7, 1)));
}

#[test]
fn refuses_bad_layouts() {
    assert_eq!(parse_datetime(""), None);
    assert_eq!(parse_datetime("2024-03-05"), None);
    assert_eq!(parse_datetime("2024-03-05T09:07:01"), None);
    assert_eq!(parse_datetime("2024-03-05 09:07:01 "), None);
    assert_eq!(parse_datetime("2024-3-05 09:07:01"), None);
    assert_eq!(parse_datetime("2024-03-05 09:07:0x"), None);
    assert_eq!(parse_datetime("20240-03-05 09:07:01"), None);
}

#[test]
fn refuses_moments_that_do_not_exist() {
    assert_eq!(parse_datetime("2023-02-29 00:00:00"), None);
    assert_eq!(parse_datetime("2024-02-29 00:00:00"), Some(dt(2024, 2, 29, 0, 0, 0)));
    assert_eq!(parse_datetime("2024-04-31 00:00:00"), None);
    assert_eq!(parse_datetime("2024-13-01 00:00:00"), None);
    assert_eq!(parse_datetime("2024-00-01 00:00:00"), None);
    assert_eq!(parse_datetime("2024-01-00 00:00:00"), None);
    assert_eq!(parse_datetime("2024-01-01 24:00:00"), None);
    assert_eq!(parse_datetime("2024-01-01 00:60:00"), None);
    assert_eq!(parse_datetime("2024-01-01 00:00:60"), None);
}

#[test]
fn round_trip_of_text_form() {
    for d in [dt(2024, 2, 29, 23, 59, 59), dt(0, 1, 1, 0, 0, 0), dt(-9999, 12, 31, 1, 2, 3), dt(9999, 6, 30, 12, 30, 45)] {
        assert_eq!(parse_datetime(&format_datetime(&d)), Some(d));
    }
}

#[test]
fn leap_years_follow_the_gregorian_rule() {
    assert!(leap_year(2024));
    assert!(!leap_year(2023));
    assert!(!leap_year(1900));
    assert!(leap_year(2000));
    assert!(leap_year(-4));
    assert_eq!(month_length(2023, 2), 28);
    assert_eq!(month_length(2024, 2), 29);
    assert_eq!(month_length(2024, 4), 30);
    assert_eq!(month_length(2024, 12), 31);
}

#[test]
fn validity_of_values() {
    assert!(dt(2024, 2, 29, 0, 0, 0).is_valid());
    assert!(!dt(2023, 2, 29, 0, 0, 0).is_valid());
    assert!(!dt(10000, 1, 1, 0, 0, 0).is_valid());
    let mut d = dt(2024, 1, 1, 0, 0, 0);
    d.nanosecond = 1_000_000_000;
    assert!(!d.is_valid());
}

#[test]
fn default_datetime_is_the_current_time() {
    let now = default_datetime();
    assert!(now.is_valid());
    assert!(now.year >= 2024);
}
