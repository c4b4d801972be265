//! Calendar dates, times of day and combined date-times as plain integer
//! fields, with their validity invariants and day-level arithmetic.

use vstd::prelude::*;

verus! {

/// First year a `Date` constructed through `Date::new` may carry.
pub const MIN_YEAR: i32 = -262143;

/// Last year a `Date` constructed through `Date::new` may carry.
pub const MAX_YEAR: i32 = 262142;

/// Seconds in a civil day.
pub const SECS_PER_DAY: i32 = 86400;

/// Leap years of the proleptic Gregorian calendar.
pub open spec fn is_leap_year(year: int) -> bool {
    (year % 4 == 0 && year % 100 != 0) || year % 400 == 0
}

/// Number of days in the given month of the given year.
pub open spec fn days_in_month(year: int, month: int) -> int {
    if month == 2 {
        if is_leap_year(year) {
            29
        } else {
            28
        }
    } else if month == 4 || month == 6 || month == 9 || month == 11 {
        30
    } else {
        31
    }
}

/// A calendar date of the proleptic Gregorian calendar.
///
/// Well-formed dates keep the year within one year of the
/// `MIN_YEAR..=MAX_YEAR` range: the two extra years give day arithmetic room
/// to step over the boundary, as `shift` may do.
#[derive(Clone, Copy, PartialEq, Eq, Structural, Debug)]
pub struct Date {
    pub year: i32,
    pub month: u8,
    pub day: u8,
}

impl Date {
    /// Validity of a date: a real day of the calendar, in the supported
    /// year range extended by one year on each side.
    pub open spec fn wf(self) -> bool {
        &&& MIN_YEAR - 1 <= self.year <= MAX_YEAR + 1
        &&& 1 <= self.month <= 12
        &&& 1 <= self.day <= days_in_month(self.year as int, self.month as int)
    }

    /// Builds a date, accepting exactly the real calendar days with a year
    /// in `MIN_YEAR..=MAX_YEAR`.
    pub fn new(year: i32, month: u8, day: u8) -> (r: Option<Date>)
        ensures
            r is Some <==> {
                &&& MIN_YEAR <= year <= MAX_YEAR
                &&& 1 <= month <= 12
                &&& 1 <= day <= days_in_month(year as int, month as int)
            },
            r is Some ==> r->0 == (Date { year, month, day }),
            r is Some ==> r->0.wf(),
    {
        if year < MIN_YEAR || year > MAX_YEAR || month < 1 || month > 12 || day < 1 {
            None
        } else if day > month_days(year, month) {
            None
        } else {
            Some(Date { year, month, day })
        }
    }

    /// Runtime form of `wf`, for callers outside the verifier's reach.
    pub fn is_well_formed(&self) -> (r: bool)
        ensures
            r == self.wf(),
    {
        if self.year < MIN_YEAR - 1 || self.year > MAX_YEAR + 1 || self.month < 1 || self.month
            > 12 || self.day < 1 {
            false
        } else {
            self.day <= month_days(self.year, self.month)
        }
    }
}

/// A number and its negation are divisible by the same positive divisors.
proof fn lemma_neg_divides(y: int, d: int)
    requires
        d > 0,
    ensures
        (y % d == 0) <==> ((-y) % d == 0),
{
    vstd::arithmetic::div_mod::lemma_fundamental_div_mod(y, d);
    vstd::arithmetic::div_mod::lemma_fundamental_div_mod(-y, d);
    if y % d == 0 {
        assert(-y == (-(y / d)) * d) by (nonlinear_arith)
            requires
                y == d * (y / d) + y % d,
                y % d == 0,
        ;
        vstd::arithmetic::div_mod::lemma_mod_multiples_basic(-(y / d), d);
    }
    if (-y) % d == 0 {
        assert(y == (-((-y) / d)) * d) by (nonlinear_arith)
            requires
                -y == d * ((-y) / d) + (-y) % d,
                (-y) % d == 0,
        ;
        vstd::arithmetic::div_mod::lemma_mod_multiples_basic(-((-y) / d), d);
    }
}

/// Executable form of `is_leap_year`.
pub fn leap_year(year: i32) -> (r: bool)
    ensures
        r == is_leap_year(year as int),
{
    let a: u32 = if year >= 0 {
        year as u32
    } else {
        (-(year as i64)) as u32
    };
    proof {
        assert(a == if year as int >= 0 { year as int } else { -(year as int) });
        lemma_neg_divides(year as int, 4);
        lemma_neg_divides(year as int, 100);
        lemma_neg_divides(year as int, 400);
    }
    (a % 4 == 0 && a % 100 != 0) || a % 400 == 0
}

/// Executable form of `days_in_month`.
pub fn month_days(year: i32, month: u8) -> (r: u8)
    requires
        1 <= month <= 12,
    ensures
        r == days_in_month(year as int, month as int),
{
    if month == 2 {
        if leap_year(year) {
            29
        } else {
            28
        }
    } else if month == 4 || month == 6 || month == 9 || month == 11 {
        30
    } else {
        31
    }
}

/// The calendar day after `d`.
pub open spec fn next_date(d: Date) -> Date {
    if d.day < days_in_month(d.year as int, d.month as int) {
        Date { year: d.year, month: d.month, day: (d.day + 1) as u8 }
    } else if d.month < 12 {
        Date { year: d.year, month: (d.month + 1) as u8, day: 1 }
    } else {
        Date { year: (d.year + 1) as i32, month: 1, day: 1 }
    }
}

/// The calendar day before `d`.
pub open spec fn prev_date(d: Date) -> Date {
    if d.day > 1 {
        Date { year: d.year, month: d.month, day: (d.day - 1) as u8 }
    } else if d.month > 1 {
        Date {
            year: d.year,
            month: (d.month - 1) as u8,
            day: days_in_month(d.year as int, d.month as int - 1) as u8,
        }
    } else {
        Date { year: (d.year - 1) as i32, month: 12, day: 31 }
    }
}

/// Steps a date forward by one day, rolling over month and year ends.
pub fn succ(d: Date) -> (r: Date)
    requires
        d.wf(),
        d.year <= MAX_YEAR,
    ensures
        r == next_date(d),
        r.wf(),
{
    if d.day < month_days(d.year, d.month) {
        Date { year: d.year, month: d.month, day: d.day + 1 }
    } else if d.month < 12 {
        Date { year: d.year, month: d.month + 1, day: 1 }
    } else {
        Date { year: d.year + 1, month: 1, day: 1 }
    }
}

/// Steps a date back by one day, rolling over month and year starts.
pub fn pred(d: Date) -> (r: Date)
    requires
        d.wf(),
        d.year >= MIN_YEAR,
    ensures
        r == prev_date(d),
        r.wf(),
{
    if d.day > 1 {
        Date { year: d.year, month: d.month, day: d.day - 1 }
    } else if d.month > 1 {
        Date { year: d.year, month: d.month - 1, day: month_days(d.year, d.month - 1) }
    } else {
        Date { year: d.year - 1, month: 12, day: 31 }
    }
}

/// A time of day.
///
/// A nanosecond count of `1_000_000_000` or more marks a leap second: the
/// displayed second is one higher and the excess nanoseconds are the
/// fraction shown.
#[derive(Clone, Copy, PartialEq, Eq, Structural, Debug)]
pub struct Time {
    pub hour: u8,
    pub minute: u8,
    pub second: u8,
    pub nanosecond: u32,
}

impl Time {
    /// Validity of a time of day, leap seconds included.
    pub open spec fn wf(self) -> bool {
        &&& self.hour < 24
        &&& self.minute < 60
        &&& self.second < 60
        &&& self.nanosecond < 2_000_000_000
    }

    /// Builds a time of day, accepting exactly the well-formed field values.
    pub fn new(hour: u8, minute: u8, second: u8, nanosecond: u32) -> (r: Option<Time>)
        ensures
            r is Some <==> (hour < 24 && minute < 60 && second < 60 && nanosecond
                < 2_000_000_000),
            r is Some ==> r->0 == (Time { hour, minute, second, nanosecond }),
            r is Some ==> r->0.wf(),
    {
        if hour < 24 && minute < 60 && second < 60 && nanosecond < 2_000_000_000 {
            Some(Time { hour, minute, second, nanosecond })
        } else {
            None
        }
    }

    /// Runtime form of `wf`, for callers outside the verifier's reach.
    pub fn is_well_formed(&self) -> (r: bool)
        ensures
            r == self.wf(),
    {
        self.hour < 24 && self.minute < 60 && self.second < 60 && self.nanosecond < 2_000_000_000
    }
}

/// A calendar date together with a time of day.
#[derive(Clone, Copy, PartialEq, Eq, Structural, Debug)]
pub struct CivilDateTime {
    pub date: Date,
    pub time: Time,
}

impl CivilDateTime {
    /// Validity of a combined date and time.
    pub open spec fn wf(self) -> bool {
        self.date.wf() && self.time.wf()
    }

    /// Whether the date also stays inside `MIN_YEAR..=MAX_YEAR`, as every
    /// date built through `Date::new` does.
    pub open spec fn in_range(self) -> bool {
        self.wf() && MIN_YEAR <= self.date.year <= MAX_YEAR
    }

    /// Runtime form of `wf`, for callers outside the verifier's reach.
    pub fn is_well_formed(&self) -> (r: bool)
        ensures
            r == self.wf(),
    {
        self.date.is_well_formed() && self.time.is_well_formed()
    }

    /// Runtime form of `in_range`, for callers outside the verifier's reach.
    pub fn is_in_range(&self) -> (r: bool)
        ensures
            r == self.in_range(),
    {
        self.is_well_formed() && self.date.year >= MIN_YEAR && self.date.year <= MAX_YEAR
    }
}

/// Seconds since midnight of the whole-second part of `t`.
pub open spec fn seconds_of_day(t: Time) -> int {
    t.hour * 3600 + t.minute * 60 + t.second
}

/// The time of day `s` seconds after midnight, carrying `nanosecond` over.
pub open spec fn time_of_secs(s: int, nanosecond: u32) -> Time {
    Time {
        hour: (s / 3600) as u8,
        minute: ((s / 60) % 60) as u8,
        second: (s % 60) as u8,
        nanosecond,
    }
}

/// `dt` moved by `off` seconds, with `off` less than a day in magnitude:
/// the date steps by at most one day and the fractional second is kept.
pub open spec fn shifted(dt: CivilDateTime, off: int) -> CivilDateTime {
    let total = seconds_of_day(dt.time) + off;
    if total < 0 {
        CivilDateTime {
            date: prev_date(dt.date),
            time: time_of_secs(total + SECS_PER_DAY as int, dt.time.nanosecond),
        }
    } else if total >= SECS_PER_DAY as int {
        CivilDateTime {
            date: next_date(dt.date),
            time: time_of_secs(total - SECS_PER_DAY as int, dt.time.nanosecond),
        }
    } else {
        CivilDateTime { date: dt.date, time: time_of_secs(total, dt.time.nanosecond) }
    }
}

/// Moves a date-time by an offset of less than one day in magnitude.
pub fn shift(dt: CivilDateTime, off: i32) -> (r: CivilDateTime)
    requires
        dt.in_range(),
        -SECS_PER_DAY < off < SECS_PER_DAY,
    ensures
        r == shifted(dt, off as int),
        r.wf(),
{
    let tod: i32 = dt.time.hour as i32 * 3600 + dt.time.minute as i32 * 60
        + dt.time.second as i32;
    let total: i32 = tod + off;
    if total < 0 {
        let s: i32 = total + SECS_PER_DAY;
        CivilDateTime { date: pred(dt.date), time: secs_to_time(s, dt.time.nanosecond) }
    } else if total >= SECS_PER_DAY {
        let s: i32 = total - SECS_PER_DAY;
        CivilDateTime { date: succ(dt.date), time: secs_to_time(s, dt.time.nanosecond) }
    } else {
        CivilDateTime { date: dt.date, time: secs_to_time(total, dt.time.nanosecond) }
    }
}

/// A second count within one day splits into hour, minute and second parts
/// that sum back to it.
proof fn lemma_secs_split(s: int)
    requires
        0 <= s < 86400,
    ensures
        0 <= s / 3600 < 24,
        0 <= (s / 60) % 60 < 60,
        0 <= s % 60 < 60,
        3600 * (s / 3600) + 60 * ((s / 60) % 60) + (s % 60) == s,
{
    let h = s / 3600;
    let r1 = s % 3600;
    vstd::arithmetic::div_mod::lemma_fundamental_div_mod(s, 3600);
    vstd::arithmetic::div_mod::lemma_div_pos_is_pos(s, 3600);
    vstd::arithmetic::div_mod::lemma_div_is_ordered(s, 86399, 3600);
    let m = r1 / 60;
    let sec = r1 % 60;
    vstd::arithmetic::div_mod::lemma_fundamental_div_mod(r1, 60);
    vstd::arithmetic::div_mod::lemma_div_pos_is_pos(r1, 60);
    vstd::arithmetic::div_mod::lemma_div_is_ordered(r1, 3599, 60);
    vstd::arithmetic::div_mod::lemma_fundamental_div_mod_converse(s, 60, 60 * h + m, sec);
    vstd::arithmetic::div_mod::lemma_fundamental_div_mod_converse(60 * h + m, 60, h, m);
}

/// Rebuilding a time from its own second count returns the time.
proof fn lemma_time_roundtrip(t: Time)
    requires
        t.wf(),
    ensures
        0 <= seconds_of_day(t) < 86400,
        time_of_secs(seconds_of_day(t), t.nanosecond) == t,
{
    let s = seconds_of_day(t);
    vstd::arithmetic::div_mod::lemma_fundamental_div_mod_converse(
        s,
        60,
        60 * t.hour + t.minute,
        t.second as int,
    );
    vstd::arithmetic::div_mod::lemma_fundamental_div_mod_converse(
        60 * t.hour + t.minute,
        60,
        t.hour as int,
        t.minute as int,
    );
    vstd::arithmetic::div_mod::lemma_fundamental_div_mod_converse(
        s,
        3600,
        t.hour as int,
        60 * t.minute + t.second,
    );
}

/// Stepping a date forward keeps it well formed, and stepping back again
/// returns the original date.
proof fn lemma_next_prev(d: Date)
    requires
        d.wf(),
        d.year <= MAX_YEAR,
    ensures
        next_date(d).wf(),
        prev_date(next_date(d)) == d,
{
}

/// Stepping a date back keeps it well formed, and stepping forward again
/// returns the original date.
proof fn lemma_prev_next(d: Date)
    requires
        d.wf(),
        d.year >= MIN_YEAR,
    ensures
        prev_date(d).wf(),
        next_date(prev_date(d)) == d,
{
}

/// Shifting a date-time by an offset of less than one day and then by the
/// opposite offset returns the original value.
pub proof fn lemma_shift_roundtrip(dt: CivilDateTime, off: int)
    requires
        dt.in_range(),
        -(SECS_PER_DAY as int) < off < SECS_PER_DAY as int,
    ensures
        shifted(shifted(dt, off), -off) == dt,
{
    let t = dt.time;
    let s = seconds_of_day(t);
    lemma_time_roundtrip(t);
    let total = s + off;
    let dt2 = shifted(dt, off);
    if total < 0 {
        lemma_secs_split(total + SECS_PER_DAY as int);
        lemma_prev_next(dt.date);
        assert(seconds_of_day(dt2.time) == total + SECS_PER_DAY as int);
        assert(shifted(dt2, -off) == dt);
    } else if total >= SECS_PER_DAY as int {
        lemma_secs_split(total - SECS_PER_DAY as int);
        lemma_next_prev(dt.date);
        assert(seconds_of_day(dt2.time) == total - SECS_PER_DAY as int);
        assert(shifted(dt2, -off) == dt);
    } else {
        lemma_secs_split(total);
        assert(seconds_of_day(dt2.time) == total);
        assert(shifted(dt2, -off) == dt);
    }
}

/// Splits a second count within one day back into hour, minute and second.
fn secs_to_time(s: i32, nanosecond: u32) -> (r: Time)
    requires
        0 <= s < SECS_PER_DAY,
    ensures
        r == time_of_secs(s as int, nanosecond),
        nanosecond < 2_000_000_000 ==> r.wf(),
{
    Time {
        hour: (s / 3600) as u8,
        minute: ((s / 60) % 60) as u8,
        second: (s % 60) as u8,
        nanosecond,
    }
}

} // verus!
