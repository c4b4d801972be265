//! The textual form of date and time values.
//!
//! Dates render as `YYYY-MM-DD` with an explicit sign outside the years
//! 0 through 9999; times as `HH:MM:SS` with the shortest of a milli-, micro-
//! or nanosecond fraction; combined values as date, space, time; and
//! offset-carrying values in local time followed by `UTC` or a `+HH:MM[:SS]`
//! offset.

use vstd::prelude::*;
use vstd::string::StringExecFns;

use crate::calendar::Date;
use crate::calendar::CivilDateTime;
use crate::calendar::Time;
use crate::calendar::MAX_YEAR;
use crate::calendar::MIN_YEAR;
use crate::calendar::SECS_PER_DAY;
use crate::calendar::shift;
use crate::calendar::shifted;
use crate::digits::dec_fixed;
use crate::digits::dec_str;
use crate::digits::push_dec;
use crate::digits::push_fixed;

verus! {

/// A year as displayed: four zero-padded digits, or a signed unpadded form
/// (still at least four digits) outside 0 through 9999.
pub open spec fn year_display(y: int) -> Seq<char> {
    if 0 <= y <= 9999 {
        dec_fixed(y, 4)
    } else if y > 9999 {
        seq!['+'] + dec_str(y)
    } else if y >= -9999 {
        seq!['-'] + dec_fixed(-y, 4)
    } else {
        seq!['-'] + dec_str(-y)
    }
}

/// A date as displayed: year, month and day, dash separated.
pub open spec fn date_display(d: Date) -> Seq<char> {
    year_display(d.year as int) + seq!['-'] + dec_fixed(d.month as int, 2) + seq!['-'] + dec_fixed(
        d.day as int,
        2,
    )
}

/// The fractional second as displayed: empty when zero, otherwise a dot and
/// the shortest of three, six or nine zero-padded digits.
pub open spec fn frac_display(nano: int) -> Seq<char> {
    if nano == 0 {
        Seq::empty()
    } else if nano % 1_000_000 == 0 {
        seq!['.'] + dec_fixed(nano / 1_000_000, 3)
    } else if nano % 1_000 == 0 {
        seq!['.'] + dec_fixed(nano / 1_000, 6)
    } else {
        seq!['.'] + dec_fixed(nano, 9)
    }
}

/// A time as displayed: hour, minute and second, colon separated, then the
/// fraction. During a leap second the displayed second is one higher.
pub open spec fn time_display(t: Time) -> Seq<char> {
    let sec = if t.nanosecond >= 1_000_000_000 {
        t.second + 1
    } else {
        t.second as int
    };
    let nano = if t.nanosecond >= 1_000_000_000 {
        t.nanosecond - 1_000_000_000
    } else {
        t.nanosecond as int
    };
    dec_fixed(t.hour as int, 2) + seq![':'] + dec_fixed(t.minute as int, 2) + seq![':']
        + dec_fixed(sec, 2) + frac_display(nano)
}

/// A combined date and time as displayed: date, space, time.
pub open spec fn datetime_display(dt: CivilDateTime) -> Seq<char> {
    date_display(dt.date) + seq![' '] + time_display(dt.time)
}

/// An offset as displayed: sign, hours and minutes, and seconds only when
/// they are not zero.
pub open spec fn offset_display(off: int) -> Seq<char> {
    let a = if off < 0 {
        -off
    } else {
        off
    };
    let sign = if off < 0 {
        '-'
    } else {
        '+'
    };
    let head = seq![sign] + dec_fixed(a / 3600, 2) + seq![':'] + dec_fixed((a / 60) % 60, 2);
    if a % 60 == 0 {
        head
    } else {
        head + seq![':'] + dec_fixed(a % 60, 2)
    }
}

/// An instant kept as universal time together with the fixed offset of its
/// time zone, in seconds east of UTC.
#[derive(Clone, Copy, PartialEq, Eq, Structural, Debug)]
pub struct ZonedDateTime {
    pub datetime: CivilDateTime,
    pub offset_seconds: i32,
}

impl ZonedDateTime {
    /// Validity: a date-time in the constructible range and an offset of
    /// less than one day in magnitude.
    pub open spec fn wf(self) -> bool {
        self.datetime.in_range() && -SECS_PER_DAY < self.offset_seconds < SECS_PER_DAY
    }

    /// Builds an instant from its universal date-time and offset, accepting
    /// exactly the well-formed combinations.
    pub fn new(datetime: CivilDateTime, offset_seconds: i32) -> (r: Option<ZonedDateTime>)
        ensures
            r is Some <==> (datetime.in_range() && -SECS_PER_DAY < offset_seconds
                < SECS_PER_DAY),
            r is Some ==> r->0 == (ZonedDateTime { datetime, offset_seconds }),
            r is Some ==> r->0.wf(),
    {
        if datetime.is_in_range() && offset_seconds > -SECS_PER_DAY && offset_seconds
            < SECS_PER_DAY {
            Some(ZonedDateTime { datetime, offset_seconds })
        } else {
            None
        }
    }

    /// Runtime form of `wf`, for callers outside the verifier's reach.
    pub fn is_well_formed(&self) -> (r: bool)
        ensures
            r == self.wf(),
    {
        self.datetime.is_in_range() && self.offset_seconds > -SECS_PER_DAY && self.offset_seconds
            < SECS_PER_DAY
    }
}

/// An instant with an offset as displayed: the local date-time, a space,
/// and the offset.
pub open spec fn zoned_display(z: ZonedDateTime) -> Seq<char> {
    datetime_display(shifted(z.datetime, z.offset_seconds as int)) + seq![' '] + offset_display(
        z.offset_seconds as int,
    )
}

/// A date or time value of any of the supported kinds.
#[derive(Clone, Copy, PartialEq, Eq, Structural, Debug)]
pub enum DateValue {
    ChronoDate(Date),
    ChronoTime(Time),
    ChronoDateTime(CivilDateTime),
    ChronoDateTimeUtc(CivilDateTime),
    ChronoDateTimeLocal(ZonedDateTime),
    ChronoDateTimeWithTimeZone(ZonedDateTime),
}

/// A value as displayed: plain kinds render directly; universal instants
/// carry a `UTC` marker and offset instants their local time and offset.
pub open spec fn date_value_display(v: DateValue) -> Seq<char> {
    match v {
        DateValue::ChronoDate(d) => date_display(d),
        DateValue::ChronoTime(t) => time_display(t),
        DateValue::ChronoDateTime(dt) => datetime_display(dt),
        DateValue::ChronoDateTimeUtc(dt) => datetime_display(dt) + seq![' ', 'U', 'T', 'C'],
        DateValue::ChronoDateTimeLocal(z) => zoned_display(z),
        DateValue::ChronoDateTimeWithTimeZone(z) => zoned_display(z),
    }
}

impl DateValue {
    /// Validity of the value carried by each kind.
    pub open spec fn wf(self) -> bool {
        match self {
            DateValue::ChronoDate(d) => d.wf(),
            DateValue::ChronoTime(t) => t.wf(),
            DateValue::ChronoDateTime(dt) => dt.wf(),
            DateValue::ChronoDateTimeUtc(dt) => dt.wf(),
            DateValue::ChronoDateTimeLocal(z) => z.wf(),
            DateValue::ChronoDateTimeWithTimeZone(z) => z.wf(),
        }
    }

    /// Runtime form of `wf`, for callers outside the verifier's reach.
    pub fn is_well_formed(&self) -> (r: bool)
        ensures
            r == self.wf(),
    {
        match self {
            DateValue::ChronoDate(d) => d.is_well_formed(),
            DateValue::ChronoTime(t) => t.is_well_formed(),
            DateValue::ChronoDateTime(dt) => dt.is_well_formed(),
            DateValue::ChronoDateTimeUtc(dt) => dt.is_well_formed(),
            DateValue::ChronoDateTimeLocal(z) => z.is_well_formed(),
            DateValue::ChronoDateTimeWithTimeZone(z) => z.is_well_formed(),
        }
    }

    /// Renders the value exactly as `date_value_display` describes.
    pub fn format(&self) -> (r: String)
        requires
            self.wf(),
        ensures
            r@ == date_value_display(*self),
    {
        match self {
            DateValue::ChronoDate(d) => format_date(d),
            DateValue::ChronoTime(t) => format_time(t),
            DateValue::ChronoDateTime(dt) => format_datetime(dt),
            DateValue::ChronoDateTimeUtc(dt) => {
                let mut out = format_datetime(dt);
                proof {
                    reveal_strlit(" UTC");
                }
                out.append(" UTC");
                proof {
                    assert(out@ =~= date_value_display(*self));
                }
                out
            },
            DateValue::ChronoDateTimeLocal(z) => format_zoned(z),
            DateValue::ChronoDateTimeWithTimeZone(z) => format_zoned(z),
        }
    }
}

/// Appends the displayed year onto `out`.
fn push_year(out: &mut String, y: i32)
    requires
        MIN_YEAR - 1 <= y <= MAX_YEAR + 1,
    ensures
        final(out)@ == old(out)@ + year_display(y as int),
{
    proof {
        reveal_strlit("+");
        reveal_strlit("-");
    }
    if 0 <= y && y <= 9999 {
        push_fixed(out, y as u32, 4);
        proof {
            assert(out@ =~= old(out)@ + year_display(y as int));
        }
    } else if y > 9999 {
        out.append("+");
        push_dec(out, y as u32);
        proof {
            assert(out@ =~= old(out)@ + year_display(y as int));
        }
    } else {
        let a: u32 = (-(y as i64)) as u32;
        proof {
            assert(a == -(y as int));
        }
        out.append("-");
        if y >= -9999 {
            push_fixed(out, a, 4);
        } else {
            push_dec(out, a);
        }
        proof {
            assert(out@ =~= old(out)@ + year_display(y as int));
        }
    }
}

/// Renders a date exactly as `date_display` describes.
pub fn format_date(d: &Date) -> (r: String)
    requires
        d.wf(),
    ensures
        r@ == date_display(*d),
{
    proof {
        reveal_strlit("-");
    }
    let mut out = String::new();
    push_year(&mut out, d.year);
    out.append("-");
    push_fixed(&mut out, d.month as u32, 2);
    out.append("-");
    push_fixed(&mut out, d.day as u32, 2);
    proof {
        assert(out@ =~= date_display(*d));
    }
    out
}

/// Renders a time exactly as `time_display` describes.
pub fn format_time(t: &Time) -> (r: String)
    requires
        t.wf(),
    ensures
        r@ == time_display(*t),
{
    proof {
        reveal_strlit(":");
        reveal_strlit(".");
    }
    let (sec, nano): (u8, u32) = if t.nanosecond >= 1_000_000_000 {
        (t.second + 1, t.nanosecond - 1_000_000_000)
    } else {
        (t.second, t.nanosecond)
    };
    let mut out = String::new();
    push_fixed(&mut out, t.hour as u32, 2);
    out.append(":");
    push_fixed(&mut out, t.minute as u32, 2);
    out.append(":");
    push_fixed(&mut out, sec as u32, 2);
    if nano != 0 {
        out.append(".");
        if nano % 1_000_000 == 0 {
            push_fixed(&mut out, nano / 1_000_000, 3);
        } else if nano % 1_000 == 0 {
            push_fixed(&mut out, nano / 1_000, 6);
        } else {
            push_fixed(&mut out, nano, 9);
        }
    }
    proof {
        assert(out@ =~= time_display(*t));
    }
    out
}

/// Renders a combined date and time exactly as `datetime_display` describes.
pub fn format_datetime(dt: &CivilDateTime) -> (r: String)
    requires
        dt.wf(),
    ensures
        r@ == datetime_display(*dt),
{
    proof {
        reveal_strlit(" ");
    }
    let mut out = format_date(&dt.date);
    out.append(" ");
    let t = format_time(&dt.time);
    out.append(t.as_str());
    proof {
        assert(out@ =~= datetime_display(*dt));
    }
    out
}

/// Renders an offset exactly as `offset_display` describes.
pub fn format_offset(off: i32) -> (r: String)
    requires
        -SECS_PER_DAY < off < SECS_PER_DAY,
    ensures
        r@ == offset_display(off as int),
{
    proof {
        reveal_strlit("+");
        reveal_strlit("-");
        reveal_strlit(":");
    }
    let mut out = String::new();
    let a: u32 = if off < 0 {
        (-off) as u32
    } else {
        off as u32
    };
    if off < 0 {
        out.append("-");
    } else {
        out.append("+");
    }
    push_fixed(&mut out, a / 3600, 2);
    out.append(":");
    push_fixed(&mut out, (a / 60) % 60, 2);
    if a % 60 != 0 {
        out.append(":");
        push_fixed(&mut out, a % 60, 2);
    }
    proof {
        assert(out@ =~= offset_display(off as int));
    }
    out
}

/// Renders an offset-carrying instant exactly as `zoned_display` describes.
pub fn format_zoned(z: &ZonedDateTime) -> (r: String)
    requires
        z.wf(),
    ensures
        r@ == zoned_display(*z),
{
    proof {
        reveal_strlit(" ");
    }
    let local = shift(z.datetime, z.offset_seconds);
    let mut out = format_datetime(&local);
    out.append(" ");
    let o = format_offset(z.offset_seconds);
    out.append(o.as_str());
    proof {
        assert(out@ =~= zoned_display(*z));
    }
    out
}

} // verus!
