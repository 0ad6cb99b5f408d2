use chrono::{Datelike, Timelike};
use termie::clock::{format_timestamp, LocalTime};

fn at(year: i32, month: u32, day: u32, hour: u32, minute: u32, second: u32) -> LocalTime {
    LocalTime { year, month, day, hour, minute, second }
}

#[test]
fn timestamp_layout() {
    assert_eq!(format_timestamp(&at(2024, 1, 2, 3, 4, 5)), "2024-01-02 03:04:05");
    assert_eq!(format_timestamp(&at(1999, 12, 31, 23, 59, 60)), "1999-12-31 23:59:60");
    assert_eq!(format_timestamp(&at(7, 10, 10, 0, 0, 0)), "0007-10-10 00:00:00");
}

#[test]
fn timestamp_years_outside_four_digits_have_a_sign() {
    assert_eq!(format_timestamp(&at(12345, 6, 7, 8, 9, 10)), "+12345-06-07 08:09:10");
    assert_eq!(format_timestamp(&at(-1, 1, 1, 0, 0, 0)), "-0001-01-01 00:00:00");
    assert_eq!(format_timestamp(&at(-262144, 1, 1, 0, 0, 0)), "-262144-01-01 00:00:00");
    assert_eq!(format_timestamp(&at(9999, 1, 1, 0, 0, 0)), "9999-01-01 00:00:00");
    assert_eq!(format_timestamp(&at(10000, 1, 1, 0, 0, 0)), "+10000-01-01 00:00:00");
}

#[test]
fn timestamp_matches_chrono() {
    let now = chrono::Local::now();
    let t = at(now.year(), now.month(), now.day(), now.hour(), now.minute(), now.second());
    assert_eq!(format_timestamp(&t), now.format("%Y-%m-%d %H:%M:%S").to_string());
}
