//! Instants and the spans of time between them.
//!
//! An instant is a calendar day and a time of day, with no offset: callers
//! hand in instants of one common offset. A span is a signed number of
//! nanoseconds.

use crate::calendar::{CivilDate, Date};
use vstd::prelude::*;

verus! {

pub const NANOS_PER_SECOND: i64 = 1_000_000_000;

pub const NANOS_PER_MINUTE: i64 = 60_000_000_000;

pub const NANOS_PER_HOUR: i64 = 3_600_000_000_000;

pub const NANOS_PER_DAY: i64 = 86_400_000_000_000;

/// `a / b` rounded towards zero, for a positive `b`.
pub open spec fn truncated_quotient(a: int, b: int) -> int {
    if a >= 0 {
        a / b
    } else {
        -((-a) / b)
    }
}

/// Whether a span of `nanoseconds` is one a [`Duration`] can hold: its whole
/// seconds fit in 64 bits.
pub open spec fn duration_fits(nanoseconds: int) -> bool {
    i64::MIN <= truncated_quotient(nanoseconds, NANOS_PER_SECOND as int) <= i64::MAX
}

/// What `time::Duration` prints for a span of `seconds` and `nanoseconds`
/// when asked for no decimals: the span in its largest unit that reaches one,
/// rounded to a whole number. The rounding is that of the floating-point
/// formatter, which is why it is named here and not written out.
pub uninterp spec fn rounded_duration_text(seconds: int, nanoseconds: int) -> Seq<char>;

/// A signed span of time, to the nanosecond.
#[derive(Clone, Copy, PartialEq, Eq, Structural, PartialOrd, Ord, Hash, Debug)]
pub struct Duration {
    seconds: i64,
    nanoseconds: i32,
}

impl View for Duration {
    type V = int;

    /// The span in nanoseconds.
    closed spec fn view(&self) -> int {
        self.seconds * NANOS_PER_SECOND + self.nanoseconds
    }
}

impl Duration {
    #[verifier::type_invariant]
    spec fn normalized(self) -> bool {
        &&& -NANOS_PER_SECOND < self.nanoseconds < NANOS_PER_SECOND
        &&& self.seconds > 0 ==> self.nanoseconds >= 0
        &&& self.seconds < 0 ==> self.nanoseconds <= 0
    }

    /// The span of `seconds` seconds and `nanoseconds` nanoseconds, which may
    /// differ in sign, if a `Duration` can hold it.
    pub fn new(seconds: i64, nanoseconds: i32) -> (duration: Option<Duration>)
        ensures
            duration is Some <==> duration_fits(seconds * NANOS_PER_SECOND + nanoseconds),
            duration matches Some(d) ==> d@ == seconds * NANOS_PER_SECOND + nanoseconds,
    {
        let total: i128 = seconds as i128 * 1_000_000_000 + nanoseconds as i128;
        let whole: i128 = total / 1_000_000_000;
        let rest: i128 = total % 1_000_000_000;
        if whole < -9_223_372_036_854_775_808 || whole > 9_223_372_036_854_775_807 {
            None
        } else {
            Some(Duration { seconds: whole as i64, nanoseconds: rest as i32 })
        }
    }

    /// The span of `seconds` whole seconds.
    pub fn seconds(seconds: i64) -> (duration: Duration)
        ensures
            duration@ == seconds * NANOS_PER_SECOND,
    {
        Duration { seconds, nanoseconds: 0 }
    }

    /// The span in nanoseconds.
    pub fn whole_nanoseconds(&self) -> (nanoseconds: i128)
        ensures
            nanoseconds == self@,
            duration_fits(self@),
    {
        proof {
            use_type_invariant(self);
        }
        self.seconds as i128 * 1_000_000_000 + self.nanoseconds as i128
    }

    /// The whole seconds of the span, rounded towards zero.
    pub fn whole_seconds(&self) -> (seconds: i64)
        ensures
            seconds == truncated_quotient(self@, NANOS_PER_SECOND as int),
    {
        proof {
            use_type_invariant(self);
        }
        self.seconds
    }

    /// What is left of the span beyond its whole seconds, in nanoseconds. It
    /// has the sign of the span.
    pub fn subsec_nanoseconds(&self) -> (nanoseconds: i32)
        ensures
            nanoseconds == self@ - truncated_quotient(self@, NANOS_PER_SECOND as int)
                * NANOS_PER_SECOND,
            -NANOS_PER_SECOND < nanoseconds < NANOS_PER_SECOND,
    {
        proof {
            use_type_invariant(self);
        }
        self.nanoseconds
    }

    /// The whole minutes of the span, rounded towards zero.
    pub fn whole_minutes(&self) -> (minutes: i64)
        ensures
            minutes == truncated_quotient(self@, NANOS_PER_MINUTE as int),
    {
        proof {
            use_type_invariant(self);
        }
        self.seconds / 60
    }

    /// The whole hours of the span, rounded towards zero.
    pub fn whole_hours(&self) -> (hours: i64)
        ensures
            hours == truncated_quotient(self@, NANOS_PER_HOUR as int),
    {
        proof {
            use_type_invariant(self);
        }
        self.seconds / 3_600
    }

    /// The whole days of the span, rounded towards zero.
    pub fn whole_days(&self) -> (days: i64)
        ensures
            days == truncated_quotient(self@, NANOS_PER_DAY as int),
    {
        proof {
            use_type_invariant(self);
        }
        self.seconds / 86_400
    }

    /// Whether the span is below zero.
    pub fn is_negative(&self) -> (negative: bool)
        ensures
            negative == (self@ < 0),
    {
        proof {
            use_type_invariant(self);
        }
        self.seconds < 0 || self.nanoseconds < 0
    }

    /// The span in its largest unit that reaches one, rounded to a whole
    /// number, such as `5d` or `-10h`.
    pub fn to_rounded_string(&self) -> (text: String)
        ensures
            text@ == rounded_duration_text(
                truncated_quotient(self@, NANOS_PER_SECOND as int),
                self@ - truncated_quotient(self@, NANOS_PER_SECOND as int) * NANOS_PER_SECOND,
            ),
    {
        proof {
            use_type_invariant(self);
        }
        displayed_rounded(self.seconds, self.nanoseconds)
    }
}

/// Formats `time::Duration::new(seconds, nanoseconds)` with the `Display`
/// impl of `time::Duration` and precision 0.
///
/// Claimed, not proved: the text depends on the two numbers alone.
#[verifier::external_body]
fn displayed_rounded(seconds: i64, nanoseconds: i32) -> (text: String)
    requires
        -NANOS_PER_SECOND < nanoseconds < NANOS_PER_SECOND,
        seconds > 0 ==> nanoseconds >= 0,
        seconds < 0 ==> nanoseconds <= 0,
    ensures
        text@ == rounded_duration_text(seconds as int, nanoseconds as int),
{
    format!("{:.0}", time::Duration::new(seconds, nanoseconds))
}

/// An instant as unbounded integers: a day and a time of day.
pub struct CivilDateTime {
    pub date: CivilDate,
    pub hour: int,
    pub minute: int,
    pub second: int,
    pub nanosecond: int,
}

impl CivilDateTime {
    /// The day exists and the time is one of the day's.
    pub open spec fn is_valid(self) -> bool {
        &&& self.date.is_valid()
        &&& 0 <= self.hour < 24
        &&& 0 <= self.minute < 60
        &&& 0 <= self.second < 60
        &&& 0 <= self.nanosecond < NANOS_PER_SECOND
    }

    /// The time that has passed since the day began, in nanoseconds.
    pub open spec fn nanos_since_midnight(self) -> int {
        self.hour * NANOS_PER_HOUR + self.minute * NANOS_PER_MINUTE + self.second
            * NANOS_PER_SECOND + self.nanosecond
    }

    /// The time from this instant to the beginning of `day`, in nanoseconds;
    /// negative where the day has begun before.
    pub open spec fn nanos_until_midnight_of(self, day: CivilDate) -> int {
        (day.julian_day() - self.date.julian_day()) * NANOS_PER_DAY - self.nanos_since_midnight()
    }
}

/// A day and a time of day.
#[derive(Clone, Copy, PartialEq, Eq, Structural, PartialOrd, Ord, Hash, Debug)]
pub struct DateTime {
    date: Date,
    hour: u8,
    minute: u8,
    second: u8,
    nanosecond: u32,
}

impl View for DateTime {
    type V = CivilDateTime;

    closed spec fn view(&self) -> CivilDateTime {
        CivilDateTime {
            date: self.date@,
            hour: self.hour as int,
            minute: self.minute as int,
            second: self.second as int,
            nanosecond: self.nanosecond as int,
        }
    }
}

impl DateTime {
    #[verifier::type_invariant]
    spec fn time_of_day(self) -> bool {
        &&& self.hour < 24
        &&& self.minute < 60
        &&& self.second < 60
        &&& self.nanosecond < NANOS_PER_SECOND
    }

    /// The instant on `date` at the given time, if the day has that time.
    pub fn new(date: Date, hour: u8, minute: u8, second: u8, nanosecond: u32) -> (instant: Option<
        DateTime,
    >)
        ensures
            instant is Some <==> hour < 24 && minute < 60 && second < 60 && nanosecond
                < NANOS_PER_SECOND,
            instant matches Some(t) ==> t@ == (CivilDateTime {
                date: date@,
                hour: hour as int,
                minute: minute as int,
                second: second as int,
                nanosecond: nanosecond as int,
            }) && t@.is_valid(),
    {
        if hour < 24 && minute < 60 && second < 60 && nanosecond < 1_000_000_000 {
            let _ = date.year();
            Some(DateTime { date, hour, minute, second, nanosecond })
        } else {
            None
        }
    }

    /// The instant at which `date` begins.
    pub fn midnight(date: Date) -> (instant: DateTime)
        ensures
            instant@ == (CivilDateTime { date: date@, hour: 0, minute: 0, second: 0, nanosecond: 0 }),
            instant@.is_valid(),
    {
        let _ = date.year();
        DateTime { date, hour: 0, minute: 0, second: 0, nanosecond: 0 }
    }

    /// The day of the instant.
    pub fn date(&self) -> (date: Date)
        ensures
            date@ == self@.date,
            self@.is_valid(),
    {
        proof {
            use_type_invariant(self);
        }
        let _ = self.date.year();
        self.date
    }

    /// The hour of the day, 0 to 23.
    pub fn hour(&self) -> (hour: u8)
        ensures
            hour == self@.hour,
            hour < 24,
    {
        proof {
            use_type_invariant(self);
        }
        self.hour
    }

    /// The minute of the hour, 0 to 59.
    pub fn minute(&self) -> (minute: u8)
        ensures
            minute == self@.minute,
            minute < 60,
    {
        proof {
            use_type_invariant(self);
        }
        self.minute
    }

    /// The second of the minute, 0 to 59.
    pub fn second(&self) -> (second: u8)
        ensures
            second == self@.second,
            second < 60,
    {
        proof {
            use_type_invariant(self);
        }
        self.second
    }

    /// The nanosecond of the second.
    pub fn nanosecond(&self) -> (nanosecond: u32)
        ensures
            nanosecond == self@.nanosecond,
            nanosecond < NANOS_PER_SECOND,
    {
        proof {
            use_type_invariant(self);
        }
        self.nanosecond
    }

    /// The span from this instant to the beginning of `day`: negative where
    /// the day has begun before, zero where it begins now.
    pub fn until_midnight_of(&self, day: &Date) -> (span: Duration)
        ensures
            span@ == self@.nanos_until_midnight_of(day@),
    {
        proof {
            use_type_invariant(self);
        }
        let days: i64 = day.to_julian_day() as i64 - self.date.to_julian_day() as i64;
        let elapsed: i64 = self.hour as i64 * 3_600 + self.minute as i64 * 60 + self.second as i64;
        let whole: i64 = days * 86_400 - elapsed;
        if self.nanosecond == 0 {
            Duration { seconds: whole, nanoseconds: 0 }
        } else if whole > 0 {
            Duration { seconds: whole - 1, nanoseconds: 1_000_000_000 - self.nanosecond as i32 }
        } else {
            Duration { seconds: whole, nanoseconds: -(self.nanosecond as i32) }
        }
    }
}

} // verus!
