//! Calendar date conversions and ordering.

use backend::dates::{date_from_day_number, date_of_secs, days_in_month, Date};

fn d(y: u32, m: u32, day: u32) -> Date {
    Date::new_checked(y, m, day).expect("valid date")
}

#[test]
fn epoch_day_is_zero() {
    assert_eq!(d(1970, 1, 1).day_number(), 0);
    assert_eq!(d(1970, 1, 2).day_number(), 1);
}

#[test]
fn known_day_numbers() {
    assert_eq!(d(2000, 3, 1).day_number(), 11017);
    assert_eq!(d(2020, 6, 15).day_number(), 18428);
    assert_eq!(d(2020, 2, 29).day_number(), 18321);
    assert_eq!(d(1969, 12, 31).day_number(), -1);
    assert_eq!(d(2023, 11, 5).day_number(), 19666);
}

#[test]
fn day_window_seconds() {
    let x = d(2020, 6, 15);
    assert_eq!(x.day_start_secs(), 1_592_179_200);
    assert_eq!(x.day_end_secs(), 1_592_179_200 + 86_399);
}

#[test]
fn leap_year_rules() {
    assert!(Date::new_checked(2020, 2, 29).is_some());
    assert!(Date::new_checked(2021, 2, 29).is_none());
    assert!(Date::new_checked(1900, 2, 29).is_none());
    assert!(Date::new_checked(2000, 2, 29).is_some());
    assert_eq!(days_in_month(2024, 2), 29);
    assert_eq!(days_in_month(2023, 2), 28);
    assert_eq!(days_in_month(2023, 4), 30);
    assert_eq!(days_in_month(2023, 12), 31);
}

#[test]
fn rejects_malformed_dates() {
    assert!(Date::new_checked(2020, 13, 1).is_none());
    assert!(Date::new_checked(2020, 0, 1).is_none());
    assert!(Date::new_checked(2020, 4, 31).is_none());
    assert!(Date::new_checked(0, 1, 1).is_none());
    assert!(Date::new_checked(10000, 1, 1).is_none());
}

#[test]
fn decode_round_trips() {
    for (y, m, day) in [(1970u32, 1u32, 1u32), (2020, 6, 15), (1969, 12, 31), (2000, 2, 29)] {
        let x = d(y, m, day);
        let back = date_from_day_number(x.day_number()).expect("decodes");
        assert_eq!(back, x);
        let via_secs = date_of_secs(x.day_start_secs()).expect("decodes");
        assert_eq!(via_secs, x);
        let via_end = date_of_secs(x.day_end_secs()).expect("decodes");
        assert_eq!(via_end, x);
    }
}

#[test]
fn decode_rejects_out_of_range() {
    assert!(date_from_day_number(-800_000).is_none());
    assert!(date_from_day_number(3_100_000).is_none());
}

#[test]
fn ordering_by_day_number() {
    let a = d(2019, 1, 1);
    let b = d(2021, 1, 1);
    assert!(a.le(&b));
    assert!(!b.le(&a));
    assert!(a.le(&a));
}
