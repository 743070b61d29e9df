use scylla::frame::response::calendar::{CalendarDate, CalendarTime};
use scylla::frame::response::result::{CqlDate, CqlTimestamp};

#[test]
fn a_date_shows_its_day_of_the_calendar() {
    assert_eq!(
        CqlDate { days_since_epoch: 0 }.calendar(),
        Some(CalendarDate { year: 1970, month: 1, day: 1 })
    );
    assert_eq!(
        CqlDate { days_since_epoch: -1 }.calendar(),
        Some(CalendarDate { year: 1969, month: 12, day: 31 })
    );
    assert_eq!(
        CqlDate { days_since_epoch: 13036 }.calendar(),
        Some(CalendarDate { year: 2005, month: 9, day: 10 })
    );
    assert_eq!(
        CqlDate { days_since_epoch: 19782 }.calendar(),
        Some(CalendarDate { year: 2024, month: 2, day: 29 })
    );
}

#[test]
fn a_date_that_chrono_cannot_hold_has_no_day_of_the_calendar() {
    assert_eq!(CqlDate { days_since_epoch: i32::MAX }.calendar(), None);
    assert_eq!(CqlDate { days_since_epoch: i32::MIN }.calendar(), None);
    assert_eq!(CqlDate { days_since_epoch: 100_000_000 }.calendar(), None);
}

#[test]
fn a_timestamp_shows_its_time_in_utc() {
    assert_eq!(
        CqlTimestamp { millis_since_epoch: 947_638_923_004 }.calendar(),
        Some(CalendarTime {
            date: CalendarDate { year: 2000, month: 1, day: 12 },
            hour: 1,
            minute: 2,
            second: 3,
            millisecond: 4,
        })
    );
    assert_eq!(
        CqlTimestamp { millis_since_epoch: -1 }.calendar(),
        Some(CalendarTime {
            date: CalendarDate { year: 1969, month: 12, day: 31 },
            hour: 23,
            minute: 59,
            second: 59,
            millisecond: 999,
        })
    );
    assert_eq!(CqlTimestamp { millis_since_epoch: i64::MAX }.calendar(), None);
    assert_eq!(CqlTimestamp { millis_since_epoch: i64::MIN }.calendar(), None);
}
