use devnotes::timestamp::{format_date, format_datetime, Timestamp};

fn ts(year: u16, month: u8, day: u8, hour: u8, minute: u8, second: u8) -> Timestamp {
    Timestamp::new(year, month, day, hour, minute, second).expect("a real calendar instant")
}

#[test]
fn new_accepts_a_plain_date() {
    let t = ts(2024, 1, 2, 3, 4, 5);
    assert_eq!(t.year, 2024);
    assert_eq!(t.month, 1);
    assert_eq!(t.day, 2);
    assert_eq!(t.hour, 3);
    assert_eq!(t.minute, 4);
    assert_eq!(t.second, 5);
}

#[test]
fn new_rejects_a_month_out_of_range() {
    assert!(Timestamp::new(2024, 13, 1, 0, 0, 0).is_none());
    assert!(Timestamp::new(2024, 0, 1, 0, 0, 0).is_none());
}

#[test]
fn new_rejects_a_day_out_of_range() {
    assert!(Timestamp::new(2024, 4, 31, 0, 0, 0).is_none());
    assert!(Timestamp::new(2024, 1, 32, 0, 0, 0).is_none());
    assert!(Timestamp::new(2024, 2, 0, 0, 0, 0).is_none());
}

#[test]
fn new_knows_leap_years() {
    assert!(Timestamp::new(2024, 2, 29, 0, 0, 0).is_some());
    assert!(Timestamp::new(2023, 2, 29, 0, 0, 0).is_none());
    assert!(Timestamp::new(1900, 2, 29, 0, 0, 0).is_none());
    assert!(Timestamp::new(2000, 2, 29, 0, 0, 0).is_some());
}

#[test]
fn new_rejects_a_time_out_of_range() {
    assert!(Timestamp::new(2024, 1, 1, 24, 0, 0).is_none());
    assert!(Timestamp::new(2024, 1, 1, 0, 60, 0).is_none());
    assert!(Timestamp::new(2024, 1, 1, 0, 0, 60).is_none());
}

#[test]
fn date_is_zero_padded() {
    let t = ts(987, 3, 4, 0, 0, 0);
    assert_eq!(format_date(&t), "0987-03-04");
}

#[test]
fn datetime_shows_the_time_of_day() {
    let t = ts(2024, 12, 31, 23, 59, 58);
    assert_eq!(format_datetime(&t), "2024-12-31 23:59:58");
    let u = ts(2024, 1, 2, 3, 4, 5);
    assert_eq!(format_datetime(&u), "2024-01-02 03:04:05");
}
