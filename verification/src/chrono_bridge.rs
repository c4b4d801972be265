//! Conversions from chrono's date and time types into the crate's own.
//!
//! chrono values are opaque here: small trusted extractors read their fields
//! as plain integers, stating only what chrono's own invariants guarantee,
//! and the verified constructors assemble the crate's values from them.

use chrono::Datelike;
use chrono::Timelike;
use vstd::prelude::*;

use crate::calendar::days_in_month;
use crate::calendar::Date;
use crate::calendar::CivilDateTime;
use crate::calendar::Time;
use crate::calendar::MAX_YEAR;
use crate::calendar::MIN_YEAR;
use crate::calendar::SECS_PER_DAY;
use crate::date_format::DateValue;
use crate::date_format::ZonedDateTime;

verus! {

#[verifier::external_type_specification]
#[verifier::external_body]
pub struct ExNaiveDate(chrono::NaiveDate);

#[verifier::external_type_specification]
#[verifier::external_body]
pub struct ExNaiveTime(chrono::NaiveTime);

#[verifier::external_type_specification]
#[verifier::external_body]
pub struct ExNaiveDateTime(chrono::NaiveDateTime);

/// A chrono instant in universal time.
///
/// chrono's `DateTime` is generic over a zone trait, which keeps it from
/// being declared to the verifier, so the value is held opaquely.
#[verifier::external_body]
pub struct UtcInstant(pub chrono::DateTime<chrono::Utc>);

/// A chrono instant in the machine's local zone, held opaquely.
#[verifier::external_body]
pub struct LocalInstant(pub chrono::DateTime<chrono::Local>);

/// A chrono instant in a fixed-offset zone, held opaquely.
#[verifier::external_body]
pub struct OffsetInstant(pub chrono::DateTime<chrono::FixedOffset>);

/// Relies on chrono's `Datelike` accessors for `NaiveDate`: a `NaiveDate` is
/// always a valid proleptic Gregorian date with a year inside chrono's
/// supported range.
#[verifier::external_body]
fn naive_date_fields(d: &chrono::NaiveDate) -> (r: (i32, u8, u8))
    ensures
        MIN_YEAR <= r.0 <= MAX_YEAR,
        1 <= r.1 <= 12,
        1 <= r.2 <= days_in_month(r.0 as int, r.1 as int),
{
    (d.year(), d.month() as u8, d.day() as u8)
}

/// Relies on chrono's `Timelike` accessors for `NaiveTime`: hour, minute and
/// second are in range, and the nanosecond count stays below two billion
/// (values of one billion and above mark a leap second).
#[verifier::external_body]
fn naive_time_fields(t: &chrono::NaiveTime) -> (r: (u8, u8, u8, u32))
    ensures
        r.0 < 24,
        r.1 < 60,
        r.2 < 60,
        r.3 < 2_000_000_000,
{
    (t.hour() as u8, t.minute() as u8, t.second() as u8, t.nanosecond())
}

/// Relies on `NaiveDateTime::date`: the date component of the value.
#[verifier::external_body]
fn naive_datetime_date(dt: &chrono::NaiveDateTime) -> (r: chrono::NaiveDate) {
    dt.date()
}

/// Relies on `NaiveDateTime::time`: the time component of the value.
#[verifier::external_body]
fn naive_datetime_time(dt: &chrono::NaiveDateTime) -> (r: chrono::NaiveTime) {
    dt.time()
}

/// Relies on `chrono::DateTime::naive_utc` at the `Utc` zone: the universal
/// date-time the instant stores.
#[verifier::external_body]
fn utc_naive(dt: &UtcInstant) -> (r: chrono::NaiveDateTime) {
    dt.0.naive_utc()
}

/// Relies on `chrono::DateTime::naive_utc` at the `Local` zone: the universal
/// date-time the instant stores.
#[verifier::external_body]
fn local_naive(dt: &LocalInstant) -> (r: chrono::NaiveDateTime) {
    dt.0.naive_utc()
}

/// Relies on `chrono::DateTime::naive_utc` at the `FixedOffset` zone: the universal
/// date-time the instant stores.
#[verifier::external_body]
fn fixed_naive(dt: &OffsetInstant) -> (r: chrono::NaiveDateTime) {
    dt.0.naive_utc()
}

/// Relies on `chrono::DateTime::offset` and `FixedOffset::local_minus_utc`: a
/// `FixedOffset` always holds fewer seconds than one day, either way.
#[verifier::external_body]
fn local_offset_seconds(dt: &LocalInstant) -> (r: i32)
    ensures
        -SECS_PER_DAY < r < SECS_PER_DAY,
{
    dt.0.offset().local_minus_utc()
}

/// Relies on `chrono::DateTime::offset` and `FixedOffset::local_minus_utc`: a
/// `FixedOffset` always holds fewer seconds than one day, either way.
#[verifier::external_body]
fn fixed_offset_seconds(dt: &OffsetInstant) -> (r: i32)
    ensures
        -SECS_PER_DAY < r < SECS_PER_DAY,
{
    dt.0.offset().local_minus_utc()
}

/// The crate's date for a chrono `NaiveDate`.
fn date_of(d: &chrono::NaiveDate) -> (r: Date)
    ensures
        r.wf(),
        MIN_YEAR <= r.year <= MAX_YEAR,
{
    let (year, month, day) = naive_date_fields(d);
    Date { year, month, day }
}

/// The crate's time for a chrono `NaiveTime`.
fn time_of(t: &chrono::NaiveTime) -> (r: Time)
    ensures
        r.wf(),
{
    let (hour, minute, second, nanosecond) = naive_time_fields(t);
    Time { hour, minute, second, nanosecond }
}

/// The crate's date-time for a chrono `NaiveDateTime`.
fn datetime_of(dt: &chrono::NaiveDateTime) -> (r: CivilDateTime)
    ensures
        r.in_range(),
{
    let date = date_of(&naive_datetime_date(dt));
    let time = time_of(&naive_datetime_time(dt));
    CivilDateTime { date, time }
}

impl DateValue {
    /// A date value from a chrono calendar date.
    pub fn from_naive_date(value: chrono::NaiveDate) -> (r: DateValue)
        ensures
            r is ChronoDate,
            r.wf(),
    {
        DateValue::ChronoDate(date_of(&value))
    }

    /// A date value from a chrono time of day.
    pub fn from_naive_time(value: chrono::NaiveTime) -> (r: DateValue)
        ensures
            r is ChronoTime,
            r.wf(),
    {
        DateValue::ChronoTime(time_of(&value))
    }

    /// A date value from a chrono date and time without a zone.
    pub fn from_naive_date_time(value: chrono::NaiveDateTime) -> (r: DateValue)
        ensures
            r is ChronoDateTime,
            r.wf(),
    {
        DateValue::ChronoDateTime(datetime_of(&value))
    }

    /// A date value from a chrono instant in universal time.
    pub fn from_date_time_utc(value: UtcInstant) -> (r: DateValue)
        ensures
            r is ChronoDateTimeUtc,
            r.wf(),
    {
        DateValue::ChronoDateTimeUtc(datetime_of(&utc_naive(&value)))
    }

    /// A date value from a chrono instant in the machine's local zone.
    pub fn from_date_time_local(value: LocalInstant) -> (r: DateValue)
        ensures
            r is ChronoDateTimeLocal,
            r.wf(),
    {
        let datetime = datetime_of(&local_naive(&value));
        let offset_seconds = local_offset_seconds(&value);
        DateValue::ChronoDateTimeLocal(ZonedDateTime { datetime, offset_seconds })
    }

    /// A date value from a chrono instant with a fixed offset.
    pub fn from_date_time_with_time_zone(value: OffsetInstant) -> (r: DateValue)
        ensures
            r is ChronoDateTimeWithTimeZone,
            r.wf(),
    {
        let datetime = datetime_of(&fixed_naive(&value));
        let offset_seconds = fixed_offset_seconds(&value);
        DateValue::ChronoDateTimeWithTimeZone(ZonedDateTime { datetime, offset_seconds })
    }
}

} // verus!
