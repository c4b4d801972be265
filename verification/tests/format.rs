//! The rendered form of every kind of date value, held against expected
//! strings and against chrono's own rendering of the same values.

use chrono::offset::TimeZone;
use chrono::FixedOffset;
use chrono::Local;
use chrono::NaiveDate;
use chrono::NaiveTime;
use chrono::Utc;

use date_format::CivilDateTime;
use date_format::Date;
use date_format::DateValue;
use date_format::LocalInstant;
use date_format::OffsetInstant;
use date_format::Time;
use date_format::UtcInstant;
use date_format::ZonedDateTime;

fn date(year: i32, month: u8, day: u8) -> Date {
    Date::new(year, month, day).unwrap()
}

fn time(hour: u8, minute: u8, second: u8, nanosecond: u32) -> Time {
    Time::new(hour, minute, second, nanosecond).unwrap()
}

fn civil(year: i32, month: u8, day: u8, hour: u8, minute: u8, second: u8, nano: u32) -> CivilDateTime {
    CivilDateTime { date: date(year, month, day), time: time(hour, minute, second, nano) }
}

#[test]
fn plain_dates_render_as_iso() {
    assert_eq!(DateValue::ChronoDate(date(2015, 9, 5)).format(), "2015-09-05");
    assert_eq!(DateValue::ChronoDate(date(0, 1, 1)).format(), "0000-01-01");
    assert_eq!(DateValue::ChronoDate(date(9999, 12, 31)).format(), "9999-12-31");
    assert_eq!(DateValue::ChronoDate(date(-1, 1, 1)).format(), "-0001-01-01");
    assert_eq!(DateValue::ChronoDate(date(10000, 12, 31)).format(), "+10000-12-31");
    assert_eq!(DateValue::ChronoDate(date(-262143, 1, 1)).format(), "-262143-01-01");
    assert_eq!(DateValue::ChronoDate(date(262142, 12, 31)).format(), "+262142-12-31");
}

#[test]
fn date_construction_accepts_exactly_real_days() {
    assert!(Date::new(2020, 2, 29).is_some());
    assert!(Date::new(2021, 2, 29).is_none());
    assert!(Date::new(2000, 2, 29).is_some());
    assert!(Date::new(1900, 2, 29).is_none());
    assert!(Date::new(2021, 4, 31).is_none());
    assert!(Date::new(2021, 13, 1).is_none());
    assert!(Date::new(2021, 0, 1).is_none());
    assert!(Date::new(2021, 1, 0).is_none());
    assert!(Date::new(262143, 1, 1).is_none());
    assert!(Date::new(-262144, 1, 1).is_none());
}

#[test]
fn time_construction_accepts_exactly_well_formed_fields() {
    assert!(Time::new(23, 59, 59, 1_999_999_999).is_some());
    assert!(Time::new(24, 0, 0, 0).is_none());
    assert!(Time::new(0, 60, 0, 0).is_none());
    assert!(Time::new(0, 0, 60, 0).is_none());
    assert!(Time::new(0, 0, 0, 2_000_000_000).is_none());
}

#[test]
fn times_render_with_shortest_fraction() {
    assert_eq!(DateValue::ChronoTime(time(23, 56, 4, 0)).format(), "23:56:04");
    assert_eq!(DateValue::ChronoTime(time(23, 56, 4, 12_000_000)).format(), "23:56:04.012");
    assert_eq!(DateValue::ChronoTime(time(23, 56, 4, 1_234_000)).format(), "23:56:04.001234");
    assert_eq!(DateValue::ChronoTime(time(23, 56, 4, 123_456)).format(), "23:56:04.000123456");
}

#[test]
fn leap_seconds_render_as_second_sixty() {
    assert_eq!(DateValue::ChronoTime(time(6, 59, 59, 1_500_000_000)).format(), "06:59:60.500");
    assert_eq!(DateValue::ChronoTime(time(23, 59, 59, 1_000_000_000)).format(), "23:59:60");
}

#[test]
fn datetimes_render_date_space_time() {
    assert_eq!(
        DateValue::ChronoDateTime(civil(2016, 11, 15, 7, 39, 24, 0)).format(),
        "2016-11-15 07:39:24"
    );
    assert_eq!(
        DateValue::ChronoDateTime(civil(2015, 6, 30, 23, 59, 59, 1_500_000_000)).format(),
        "2015-06-30 23:59:60.500"
    );
}

#[test]
fn utc_values_carry_the_utc_marker() {
    assert_eq!(
        DateValue::ChronoDateTimeUtc(civil(2016, 11, 15, 7, 39, 24, 0)).format(),
        "2016-11-15 07:39:24 UTC"
    );
}

#[test]
fn zoned_values_render_local_time_and_offset() {
    let z = ZonedDateTime::new(civil(2016, 11, 15, 7, 39, 24, 0), 9 * 3600).unwrap();
    assert_eq!(
        DateValue::ChronoDateTimeWithTimeZone(z).format(),
        "2016-11-15 16:39:24 +09:00"
    );
    let half = ZonedDateTime::new(civil(2016, 11, 15, 7, 39, 24, 0), -(3 * 3600 + 30 * 60)).unwrap();
    assert_eq!(
        DateValue::ChronoDateTimeWithTimeZone(half).format(),
        "2016-11-15 04:09:24 -03:30"
    );
    let odd = ZonedDateTime::new(civil(2016, 11, 15, 7, 39, 24, 0), 5430).unwrap();
    assert_eq!(
        DateValue::ChronoDateTimeWithTimeZone(odd).format(),
        "2016-11-15 09:09:54 +01:30:30"
    );
}

#[test]
fn offsets_step_over_day_month_and_year_ends() {
    let forward = ZonedDateTime::new(civil(2020, 12, 31, 23, 30, 0, 0), 3600).unwrap();
    assert_eq!(
        DateValue::ChronoDateTimeWithTimeZone(forward).format(),
        "2021-01-01 00:30:00 +01:00"
    );
    let back = ZonedDateTime::new(civil(2020, 3, 1, 0, 15, 0, 0), -3600).unwrap();
    assert_eq!(
        DateValue::ChronoDateTimeWithTimeZone(back).format(),
        "2020-02-29 23:15:00 -01:00"
    );
    let plain_year = ZonedDateTime::new(civil(2019, 3, 1, 0, 15, 0, 0), -3600).unwrap();
    assert_eq!(
        DateValue::ChronoDateTimeWithTimeZone(plain_year).format(),
        "2019-02-28 23:15:00 -01:00"
    );
}

#[test]
fn zoned_construction_accepts_exactly_well_formed_values() {
    assert!(ZonedDateTime::new(civil(2016, 11, 15, 7, 39, 24, 0), 86_399).is_some());
    assert!(ZonedDateTime::new(civil(2016, 11, 15, 7, 39, 24, 0), 86_400).is_none());
    assert!(ZonedDateTime::new(civil(2016, 11, 15, 7, 39, 24, 0), -86_400).is_none());
}

#[test]
fn naive_date_matches_chrono_rendering() {
    let samples = [
        NaiveDate::from_ymd_opt(2015, 9, 5).unwrap(),
        NaiveDate::from_ymd_opt(0, 1, 1).unwrap(),
        NaiveDate::from_ymd_opt(9999, 12, 31).unwrap(),
        NaiveDate::from_ymd_opt(-1, 1, 1).unwrap(),
        NaiveDate::from_ymd_opt(10000, 12, 31).unwrap(),
        NaiveDate::MIN,
        NaiveDate::MAX,
    ];
    for d in samples {
        assert_eq!(DateValue::from_naive_date(d).format(), d.to_string());
    }
}

#[test]
fn naive_time_matches_chrono_rendering() {
    let samples = [
        NaiveTime::from_hms_opt(23, 56, 4).unwrap(),
        NaiveTime::from_hms_milli_opt(23, 56, 4, 12).unwrap(),
        NaiveTime::from_hms_micro_opt(23, 56, 4, 1234).unwrap(),
        NaiveTime::from_hms_nano_opt(23, 56, 4, 123_456).unwrap(),
        NaiveTime::from_hms_milli_opt(6, 59, 59, 1_500).unwrap(),
        NaiveTime::from_hms_opt(0, 0, 0).unwrap(),
    ];
    for t in samples {
        assert_eq!(DateValue::from_naive_time(t).format(), t.to_string());
    }
}

#[test]
fn naive_datetime_matches_chrono_rendering() {
    let samples = [
        NaiveDate::from_ymd_opt(2016, 11, 15).unwrap().and_hms_opt(7, 39, 24).unwrap(),
        NaiveDate::from_ymd_opt(2015, 6, 30).unwrap().and_hms_milli_opt(23, 59, 59, 1_500).unwrap(),
        NaiveDate::from_ymd_opt(-42, 2, 28).unwrap().and_hms_nano_opt(1, 2, 3, 4).unwrap(),
    ];
    for dt in samples {
        assert_eq!(DateValue::from_naive_date_time(dt).format(), dt.to_string());
    }
}

#[test]
fn utc_instant_matches_chrono_rendering() {
    let naive = NaiveDate::from_ymd_opt(2016, 11, 15).unwrap().and_hms_opt(7, 39, 24).unwrap();
    let dt = Utc.from_utc_datetime(&naive);
    assert_eq!(DateValue::from_date_time_utc(UtcInstant(dt)).format(), dt.to_string());
}

#[test]
fn fixed_offset_instant_matches_chrono_rendering() {
    let naive = NaiveDate::from_ymd_opt(2020, 12, 31).unwrap().and_hms_opt(23, 30, 0).unwrap();
    let offsets = [
        FixedOffset::east_opt(9 * 3600).unwrap(),
        FixedOffset::east_opt(-(3 * 3600 + 30 * 60)).unwrap(),
        FixedOffset::east_opt(5430).unwrap(),
        FixedOffset::east_opt(-5430).unwrap(),
        FixedOffset::east_opt(0).unwrap(),
    ];
    for off in offsets {
        let dt = off.from_utc_datetime(&naive);
        assert_eq!(
            DateValue::from_date_time_with_time_zone(OffsetInstant(dt)).format(),
            dt.to_string()
        );
    }
}

#[test]
fn local_instant_matches_chrono_rendering() {
    let naive = NaiveDate::from_ymd_opt(2016, 11, 15).unwrap().and_hms_opt(7, 39, 24).unwrap();
    let dt = Local.from_utc_datetime(&naive);
    assert_eq!(DateValue::from_date_time_local(LocalInstant(dt)).format(), dt.to_string());
}

#[test]
fn hand_built_values_can_be_checked_for_validity() {
    let good = DateValue::ChronoDate(Date { year: 2020, month: 2, day: 29 });
    assert!(good.is_well_formed());
    let bad_day = DateValue::ChronoDate(Date { year: 2021, month: 2, day: 29 });
    assert!(!bad_day.is_well_formed());
    let bad_time = DateValue::ChronoTime(Time { hour: 24, minute: 0, second: 0, nanosecond: 0 });
    assert!(!bad_time.is_well_formed());
}
