use mood_journal::date::{
    days_in_month, days_in_year, format_date, is_leap_year, next_date, parse_date, today, weekday,
    Date,
};

fn d(year: u32, month: u8, day: u8) -> Date {
    Date { year, month, day }
}

#[test]
fn leap_years() {
    assert!(is_leap_year(2024));
    assert!(!is_leap_year(2025));
    assert!(!is_leap_year(1900));
    assert!(is_leap_year(2000));
    assert!(is_leap_year(1996));
    assert!(!is_leap_year(2100));
}

#[test]
fn year_and_month_lengths() {
    assert_eq!(days_in_year(2024), 366);
    assert_eq!(days_in_year(2025), 365);
    assert_eq!(days_in_month(2024, 2), 29);
    assert_eq!(days_in_month(2025, 2), 28);
    assert_eq!(days_in_month(2025, 4), 30);
    assert_eq!(days_in_month(2025, 12), 31);
}

#[test]
fn known_weekdays() {
    // 0 = Monday .. 6 = Sunday
    assert_eq!(weekday(d(2025, 1, 1)), 2); // Wednesday
    assert_eq!(weekday(d(2024, 1, 1)), 0); // Monday
    assert_eq!(weekday(d(2000, 1, 1)), 5); // Saturday
    assert_eq!(weekday(d(1970, 1, 1)), 3); // Thursday
    assert_eq!(weekday(d(2025, 3, 10)), 0); // Monday
    assert_eq!(weekday(d(2000, 12, 31)), 6); // Sunday
}

#[test]
fn next_date_rolls_over() {
    assert_eq!(next_date(d(2025, 1, 31)), d(2025, 2, 1));
    assert_eq!(next_date(d(2024, 2, 28)), d(2024, 2, 29));
    assert_eq!(next_date(d(2025, 2, 28)), d(2025, 3, 1));
    assert_eq!(next_date(d(2025, 12, 31)), d(2026, 1, 1));
    assert_eq!(next_date(d(2025, 3, 10)), d(2025, 3, 11));
}

#[test]
fn date_validity() {
    assert!(Date::new(2025, 2, 29).is_none());
    assert!(Date::new(2024, 2, 29).is_some());
    assert!(Date::new(2025, 13, 1).is_none());
    assert!(Date::new(2025, 0, 1).is_none());
    assert!(Date::new(0, 1, 1).is_none());
    assert!(Date::new(10000, 1, 1).is_none());
    assert_eq!(Date::new(2025, 3, 10), Some(d(2025, 3, 10)));
}

#[test]
fn formats_zero_padded() {
    assert_eq!(format_date(d(2025, 3, 10)), "2025-03-10");
    assert_eq!(format_date(d(5, 1, 7)), "0005-01-07");
    assert_eq!(format_date(d(9999, 12, 31)), "9999-12-31");
}

#[test]
fn parses_exactly_the_valid_dates() {
    assert_eq!(parse_date("2025-03-10"), Some(d(2025, 3, 10)));
    assert_eq!(parse_date("0005-01-07"), Some(d(5, 1, 7)));
    assert_eq!(parse_date("2024-02-29"), Some(d(2024, 2, 29)));
    assert_eq!(parse_date("2025-02-29"), None);
    assert_eq!(parse_date("2025-13-01"), None);
    assert_eq!(parse_date("2025-00-01"), None);
    assert_eq!(parse_date("2025-3-10"), None);
    assert_eq!(parse_date("10-03-2025"), None);
    assert_eq!(parse_date("2025/03/10"), None);
    assert_eq!(parse_date(""), None);
    assert_eq!(parse_date("garbage!!!"), None);
}

#[test]
fn format_then_parse_round_trips() {
    for &date in &[d(2025, 1, 1), d(2024, 2, 29), d(1, 1, 1), d(9999, 12, 31), d(1987, 11, 3)] {
        assert_eq!(parse_date(&format_date(date)), Some(date));
    }
}

#[test]
fn today_is_a_valid_date() {
    let t = today();
    assert!(t.is_some());
}
