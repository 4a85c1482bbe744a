use chrono::{DateTime, TimeDelta, Utc};
use fuota::clock::{add_interval, add_seconds, Interval, Timestamp, FIRST_SECOND, LAST_SECOND};

fn at(secs: i64, nanos: u32) -> Timestamp {
    Timestamp { secs, nanos }
}

#[test]
fn calendar_bounds() {
    assert_eq!(DateTime::<Utc>::MIN_UTC.timestamp(), FIRST_SECOND);
    assert_eq!(DateTime::<Utc>::MAX_UTC.timestamp(), LAST_SECOND);
    assert_eq!(DateTime::<Utc>::MIN_UTC.timestamp_subsec_nanos(), 0);
    assert_eq!(DateTime::<Utc>::MAX_UTC.timestamp_subsec_nanos(), 999_999_999);
}

#[test]
fn timestamps_on_the_calendar() {
    assert!(at(0, 0).is_valid());
    assert!(at(FIRST_SECOND, 0).is_valid());
    assert!(at(LAST_SECOND, 999_999_999).is_valid());
    assert!(!at(FIRST_SECOND - 1, 0).is_valid());
    assert!(!at(LAST_SECOND + 1, 0).is_valid());
    assert!(!at(0, 1_000_000_000).is_valid());
}

#[test]
fn seconds_are_added() {
    assert_eq!(add_seconds(at(100, 5), 3600), Some(at(3700, 5)));
    assert_eq!(add_seconds(at(100, 5), -200), Some(at(-100, 5)));
    assert_eq!(add_seconds(at(LAST_SECOND - 1, 7), 1), Some(at(LAST_SECOND, 7)));
    assert_eq!(add_seconds(at(LAST_SECOND, 0), 1), None);
    assert_eq!(add_seconds(at(FIRST_SECOND, 0), -1), None);
    assert_eq!(add_seconds(at(0, 0), i64::MAX), None);
    assert_eq!(add_seconds(at(0, 0), i64::MIN), None);
}

#[test]
fn seconds_are_added_on_the_calendar_of_chrono() {
    for start in [FIRST_SECOND, -86_401, -1, 0, 1_700_000_000, LAST_SECOND] {
        for seconds in [-1_000_000_000_000, -3600, -1, 0, 1, 3600, 8_210_266_876_799] {
            let expected = DateTime::from_timestamp(start, 7)
                .unwrap()
                .checked_add_signed(TimeDelta::seconds(seconds))
                .map(|time| at(time.timestamp(), time.timestamp_subsec_nanos()));
            assert_eq!(add_seconds(at(start, 7), seconds), expected);
        }
    }
}

#[test]
fn intervals_are_added_with_carry() {
    let interval = Interval { secs: 1, nanos: 600_000_000 };
    assert_eq!(add_interval(at(10, 500_000_000), interval), Some(at(12, 100_000_000)));
    assert_eq!(add_interval(at(-10, 300_000_000), interval), Some(at(-9, 900_000_000)));
    assert_eq!(add_interval(at(LAST_SECOND - 1, 500_000_000), interval), None);
    assert_eq!(add_interval(at(0, 0), Interval { secs: u64::MAX, nanos: 0 }), None);
    assert_eq!(add_interval(at(0, 0), Interval { secs: i64::MAX as u64, nanos: 0 }), None);
}
