//! Dates of the proleptic Gregorian calendar, as plain values.
//!
//! The mathematical model is [`CivilDate`]: a year, a month number and a day
//! number as unbounded integers. [`Date`] is the executable value whose
//! invariant is that its model names a day that exists.

use crate::text::zero_padded;
use vstd::prelude::*;

verus! {

/// The first year a [`Date`] can hold.
pub const MIN_YEAR: i32 = -9999;

/// The last year a [`Date`] can hold.
pub const MAX_YEAR: i32 = 9999;

/// Whether `year` has a 29th of February.
pub open spec fn is_leap_year(year: int) -> bool {
    year % 4 == 0 && (year % 100 != 0 || year % 400 == 0)
}

/// Number of days of month `month` (1 to 12) in `year`.
pub open spec fn days_in_month(year: int, month: int) -> int {
    if month == 2 {
        if is_leap_year(year) {
            29
        } else {
            28
        }
    } else if month == 4 || month == 6 || month == 9 || month == 11 {
        30
    } else {
        31
    }
}

/// Number of days of `year` that lie before the first of month `month`.
pub open spec fn days_before_month(year: int, month: int) -> int
    decreases month,
{
    if month <= 1 {
        0
    } else {
        days_before_month(year, month - 1) + days_in_month(year, month - 1)
    }
}

/// Number of days between a fixed origin and the first of January of `year`.
///
/// Each year adds 365 days and each leap year before `year` one more. The
/// origin is chosen so that [`CivilDate::julian_day`] is the astronomers' day
/// count, on which 2000-01-01 is day 2 451 545.
pub open spec fn days_before_year(year: int) -> int {
    let y = year - 1;
    365 * y + y / 4 - y / 100 + y / 400 + 1_721_425
}

/// A calendar day as three unbounded integers.
pub struct CivilDate {
    pub year: int,
    pub month: int,
    pub day: int,
}

impl CivilDate {
    /// The day exists in the calendar and its year is one a [`Date`] can hold.
    pub open spec fn is_valid(self) -> bool {
        &&& MIN_YEAR <= self.year <= MAX_YEAR
        &&& 1 <= self.month <= 12
        &&& 1 <= self.day <= days_in_month(self.year, self.month)
    }

    /// Position of the day within its year, counted from 1.
    pub open spec fn ordinal(self) -> int {
        days_before_month(self.year, self.month) + self.day
    }

    /// The Julian day number of the day.
    pub open spec fn julian_day(self) -> int {
        days_before_year(self.year) + self.ordinal()
    }

    /// `self` is the same day as `other` or an earlier one.
    pub open spec fn le(self, other: CivilDate) -> bool {
        self.year < other.year || (self.year == other.year && (self.month < other.month || (
        self.month == other.month && self.day <= other.day)))
    }

    /// `self` is an earlier day than `other`.
    pub open spec fn lt(self, other: CivilDate) -> bool {
        self.le(other) && self != other
    }

    /// The day after `self`.
    pub open spec fn next_day(self) -> CivilDate {
        if self.day < days_in_month(self.year, self.month) {
            CivilDate { year: self.year, month: self.month, day: self.day + 1 }
        } else if self.month < 12 {
            CivilDate { year: self.year, month: self.month + 1, day: 1 }
        } else {
            CivilDate { year: self.year + 1, month: 1, day: 1 }
        }
    }
}

/// The text of a day: the year in four digits, with a minus sign before a
/// negative one, then the month and the day in two digits each, joined by
/// hyphens.
pub open spec fn date_text(date: CivilDate) -> Seq<char> {
    let sign = if date.year < 0 {
        seq!['-']
    } else {
        Seq::empty()
    };
    let year = if date.year < 0 {
        -date.year
    } else {
        date.year
    };
    sign + zero_padded(year as nat, 4) + seq!['-'] + zero_padded(date.month as nat, 2) + seq!['-']
        + zero_padded(date.day as nat, 2)
}

/// The English name of the month with number `month`.
pub open spec fn month_name(month: int) -> Seq<char> {
    if month == 1 {
        "January"@
    } else if month == 2 {
        "February"@
    } else if month == 3 {
        "March"@
    } else if month == 4 {
        "April"@
    } else if month == 5 {
        "May"@
    } else if month == 6 {
        "June"@
    } else if month == 7 {
        "July"@
    } else if month == 8 {
        "August"@
    } else if month == 9 {
        "September"@
    } else if month == 10 {
        "October"@
    } else if month == 11 {
        "November"@
    } else {
        "December"@
    }
}

/// The days before each month, written out.
pub proof fn lemma_days_before_month(year: int, month: int)
    requires
        1 <= month <= 12,
    ensures
        days_before_month(year, month) == (if month <= 2 {
            31 * (month - 1)
        } else {
            let leap: int = if is_leap_year(year) {
                1
            } else {
                0
            };
            leap + (if month == 3 {
                59int
            } else if month == 4 {
                90
            } else if month == 5 {
                120
            } else if month == 6 {
                151
            } else if month == 7 {
                181
            } else if month == 8 {
                212
            } else if month == 9 {
                243
            } else if month == 10 {
                273
            } else if month == 11 {
                304
            } else {
                334
            })
        }),
{
    reveal_with_fuel(days_before_month, 13);
}

/// A year has 365 days, and a leap year 366: that is the distance between
/// the first of January of one year and of the next.
pub proof fn lemma_days_in_year(year: int)
    ensures
        days_before_year(year + 1) - days_before_year(year) == (if is_leap_year(year) {
            366int
        } else {
            365
        }),
{
}

/// Later years start later, by at least 365 days for each year between.
pub proof fn lemma_days_before_year_grows(earlier: int, later: int)
    requires
        earlier <= later,
    ensures
        days_before_year(later) - days_before_year(earlier) >= 365 * (later - earlier),
{
    let a = earlier - 1;
    let b = later - 1;
    assert(b / 4 - b / 100 + b / 400 >= a / 4 - a / 100 + a / 400) by {
        lemma_leap_days_grow(a, b);
    }
}

/// The count of leap years up to a year never falls as the year grows.
proof fn lemma_leap_days_grow(a: int, b: int)
    requires
        a <= b,
    ensures
        a / 4 - a / 100 + a / 400 <= b / 4 - b / 100 + b / 400,
    decreases b - a,
{
    if a < b {
        lemma_leap_days_grow(a, b - 1);
    }
}

impl CivilDate {
    /// A day that exists lies within its year: the first has ordinal 1, the
    /// last 365, or 366 in a leap year.
    pub proof fn lemma_ordinal_bounds(self)
        requires
            self.is_valid(),
        ensures
            1 <= self.ordinal() <= 365 + (if is_leap_year(self.year) {
                1int
            } else {
                0
            }),
    {
        lemma_days_before_month(self.year, self.month);
    }

    /// Within one year, days are ordered as their ordinals are.
    pub proof fn lemma_le_by_ordinal(self, other: CivilDate)
        requires
            self.is_valid(),
            other.is_valid(),
            self.year == other.year,
        ensures
            self.le(other) <==> self.ordinal() <= other.ordinal(),
    {
        lemma_days_before_month(self.year, self.month);
        lemma_days_before_month(other.year, other.month);
    }

    /// Days are ordered as their Julian day numbers are, and only equal days
    /// share a number.
    pub proof fn lemma_le_by_julian_day(self, other: CivilDate)
        requires
            self.is_valid(),
            other.is_valid(),
        ensures
            self.le(other) <==> self.julian_day() <= other.julian_day(),
            self == other <==> self.julian_day() == other.julian_day(),
    {
        self.lemma_ordinal_bounds();
        other.lemma_ordinal_bounds();
        if self.year == other.year {
            self.lemma_le_by_ordinal(other);
            lemma_days_before_month(self.year, self.month);
            lemma_days_before_month(other.year, other.month);
        } else if self.year < other.year {
            lemma_days_in_year(self.year);
            lemma_days_before_year_grows(self.year + 1, other.year);
        } else {
            lemma_days_in_year(other.year);
            lemma_days_before_year_grows(other.year + 1, self.year);
        }
    }

    /// A day of a later year has a greater Julian day number, whether or
    /// not a [`Date`] can hold that year.
    pub proof fn lemma_julian_day_after_year(self, earlier: CivilDate)
        requires
            earlier.is_valid(),
            earlier.year < self.year,
            1 <= self.month <= 12,
            1 <= self.day,
        ensures
            earlier.julian_day() < self.julian_day(),
    {
        earlier.lemma_ordinal_bounds();
        lemma_days_before_month(self.year, self.month);
        lemma_days_in_year(earlier.year);
        lemma_days_before_year_grows(earlier.year + 1, self.year);
    }

    /// The order of days is total and antisymmetric.
    pub proof fn lemma_le_total(self, other: CivilDate)
        ensures
            self.le(other) || other.le(self),
            self.le(other) && other.le(self) ==> self == other,
    {
    }

    /// The order of days is transitive.
    pub proof fn lemma_le_transitive(self, middle: CivilDate, other: CivilDate)
        requires
            self.le(middle),
            middle.le(other),
        ensures
            self.le(other),
    {
    }

    /// The day after a day is the next Julian day, and no day lies between
    /// the two.
    pub proof fn lemma_next_day(self)
        requires
            self.is_valid(),
        ensures
            self.next_day().julian_day() == self.julian_day() + 1,
            self.year < MAX_YEAR || self.month < 12 || self.day < 31 ==> self.next_day().is_valid(),
            self.lt(self.next_day()),
            forall|other: CivilDate| #[trigger] self.lt(other) && other.is_valid() ==> self.next_day().le(other),
    {
        lemma_days_before_month(self.year, self.month);
        if self.month < 12 {
            lemma_days_before_month(self.year, self.month + 1);
        }
        lemma_days_in_year(self.year);
    }

    /// The Julian day number of a day that exists fits well within 32 bits.
    pub proof fn lemma_julian_day_bounds(self)
        requires
            self.is_valid(),
        ensures
            -1_930_999 <= self.julian_day() <= 5_373_484,
    {
        self.lemma_ordinal_bounds();
        lemma_days_before_year_grows(MIN_YEAR as int, self.year);
        lemma_days_before_year_grows(self.year, MAX_YEAR as int);
    }
}


/// A month of the year.
#[derive(Clone, Copy, PartialEq, Eq, Structural, PartialOrd, Ord, Hash, Debug)]
pub enum Month {
    January,
    February,
    March,
    April,
    May,
    June,
    July,
    August,
    September,
    October,
    November,
    December,
}

impl View for Month {
    type V = int;

    /// The month's number, 1 for January to 12 for December.
    open spec fn view(&self) -> int {
        match self {
            Month::January => 1,
            Month::February => 2,
            Month::March => 3,
            Month::April => 4,
            Month::May => 5,
            Month::June => 6,
            Month::July => 7,
            Month::August => 8,
            Month::September => 9,
            Month::October => 10,
            Month::November => 11,
            Month::December => 12,
        }
    }
}

impl Month {
    /// The month's number, 1 for January to 12 for December.
    pub fn number(self) -> (n: u8)
        ensures
            n == self@,
            1 <= n <= 12,
    {
        match self {
            Month::January => 1,
            Month::February => 2,
            Month::March => 3,
            Month::April => 4,
            Month::May => 5,
            Month::June => 6,
            Month::July => 7,
            Month::August => 8,
            Month::September => 9,
            Month::October => 10,
            Month::November => 11,
            Month::December => 12,
        }
    }

    /// The month with the given number, if the number is one of 1 to 12.
    pub fn from_number(n: u8) -> (month: Option<Month>)
        ensures
            month is Some <==> 1 <= n <= 12,
            month matches Some(m) ==> m@ == n,
    {
        match n {
            1 => Some(Month::January),
            2 => Some(Month::February),
            3 => Some(Month::March),
            4 => Some(Month::April),
            5 => Some(Month::May),
            6 => Some(Month::June),
            7 => Some(Month::July),
            8 => Some(Month::August),
            9 => Some(Month::September),
            10 => Some(Month::October),
            11 => Some(Month::November),
            12 => Some(Month::December),
            _ => None,
        }
    }

    /// The greatest number of days the month has in any year.
    pub fn max_days(self) -> (n: u8)
        ensures
            n == days_in_month(2000, self@),
    {
        match self {
            Month::February => 29,
            Month::April | Month::June | Month::September | Month::November => 30,
            _ => 31,
        }
    }

    /// The English name of the month, such as `January`.
    pub fn name(self) -> (name: String)
        ensures
            name@ == month_name(self@),
    {
        displayed_month(self.number())
    }
}

/// The error of asking for a day that the calendar does not have, such as the
/// 29th of February of a common year, or one in a year beyond the calendar.
#[derive(Clone, Copy, PartialEq, Eq, Structural, Debug)]
pub struct InvalidCalendarDate;

/// A day of the calendar between the years -9999 and 9999.
#[derive(Clone, Copy, PartialEq, Eq, Structural, PartialOrd, Ord, Hash, Debug)]
pub struct Date {
    year: i32,
    month: Month,
    day: u8,
}

impl View for Date {
    type V = CivilDate;

    closed spec fn view(&self) -> CivilDate {
        CivilDate { year: self.year as int, month: self.month@, day: self.day as int }
    }
}

impl Date {
    #[verifier::type_invariant]
    spec fn exists_in_calendar(self) -> bool {
        self@.is_valid()
    }

    /// The day `day` of `month` in `year`, if the calendar has it.
    pub fn from_calendar_date(year: i32, month: Month, day: u8) -> (date: Result<
        Date,
        InvalidCalendarDate,
    >)
        ensures
            date is Ok <==> (CivilDate { year: year as int, month: month@, day: day as int }).is_valid(),
            date matches Ok(d) ==> d@ == (CivilDate {
                year: year as int,
                month: month@,
                day: day as int,
            }),
    {
        match checked_calendar_date(year, month.number(), day) {
            Ok(()) => Ok(Date { year, month, day }),
            Err(_) => Err(InvalidCalendarDate),
        }
    }

    /// The year.
    pub fn year(&self) -> (year: i32)
        ensures
            year == self@.year,
            self@.is_valid(),
    {
        proof {
            use_type_invariant(self);
        }
        self.year
    }

    /// The month.
    pub fn month(&self) -> (month: Month)
        ensures
            month@ == self@.month,
            self@.is_valid(),
    {
        proof {
            use_type_invariant(self);
        }
        self.month
    }

    /// The day of the month.
    pub fn day(&self) -> (day: u8)
        ensures
            day == self@.day,
            self@.is_valid(),
    {
        proof {
            use_type_invariant(self);
        }
        self.day
    }

    /// The position of the day within its year, counted from 1.
    pub fn ordinal(&self) -> (ordinal: u16)
        ensures
            ordinal == self@.ordinal(),
            1 <= ordinal <= 366,
    {
        proof {
            use_type_invariant(self);
            self@.lemma_ordinal_bounds();
        }
        ordinal_in_year(self.year, self.month.number(), self.day)
    }

    /// The Julian day number of the day.
    pub fn to_julian_day(&self) -> (day: i32)
        ensures
            day == self@.julian_day(),
            -1_930_999 <= day <= 5_373_484,
    {
        proof {
            use_type_invariant(self);
            self@.lemma_julian_day_bounds();
        }
        julian_day_number(self.year, self.month.number(), self.day)
    }

    /// Whether `self` is the same day as `other` or an earlier one.
    pub fn is_on_or_before(&self, other: &Date) -> (before: bool)
        ensures
            before == self@.le(other@),
    {
        let month = self.month.number();
        let other_month = other.month.number();
        self.year < other.year || (self.year == other.year && (month < other_month || (month
            == other_month && self.day <= other.day)))
    }

    /// The day after this one, unless this is the last day of the calendar.
    pub fn next_day(&self) -> (next: Option<Date>)
        ensures
            next is Some <==> self@.next_day().is_valid(),
            next matches Some(d) ==> d@ == self@.next_day(),
    {
        proof {
            use_type_invariant(self);
            self@.lemma_next_day();
        }
        if self.day < 31 {
            match Date::from_calendar_date(self.year, self.month, self.day + 1) {
                Ok(next) => {
                    return Some(next);
                },
                Err(_) => {},
            }
        }
        match Month::from_number(self.month.number() + 1) {
            Some(month) => match Date::from_calendar_date(self.year, month, 1) {
                Ok(next) => Some(next),
                Err(_) => None,
            },
            None => {
                if self.year < MAX_YEAR {
                    match Date::from_calendar_date(self.year + 1, Month::January, 1) {
                        Ok(next) => Some(next),
                        Err(_) => None,
                    }
                } else {
                    None
                }
            },
        }
    }

    /// The day as text, such as `2024-01-13`.
    pub fn to_string(&self) -> (text: String)
        ensures
            text@ == date_text(self@),
    {
        proof {
            use_type_invariant(self);
        }
        displayed_date(self.year, self.month.number(), self.day)
    }
}

/// `time::error::ComponentRange`, the error of the calendar functions of the
/// `time` crate. Nothing is read from it.
#[verifier::external_type_specification]
#[verifier::external_body]
pub struct ExComponentRange(time::error::ComponentRange);

/// Calls `time::Date::from_calendar_date`, after `time::Month::try_from` on
/// the month number, and keeps only whether a date came back.
///
/// Claimed, not proved: the call succeeds exactly for the days of the
/// proleptic Gregorian calendar in the years -9999 to 9999.
#[verifier::external_body]
fn checked_calendar_date(year: i32, month: u8, day: u8) -> (checked: Result<
    (),
    time::error::ComponentRange,
>)
    ensures
        checked is Ok <==> (CivilDate {
            year: year as int,
            month: month as int,
            day: day as int,
        }).is_valid(),
{
    let month = time::Month::try_from(month)?;
    time::Date::from_calendar_date(year, month, day)?;
    Ok(())
}

/// Calls `time::Date::ordinal` on the `time::Date` of the given day.
///
/// Claimed, not proved: the result is the day's position within its year,
/// the days of the months before it plus the day of the month.
#[verifier::external_body]
fn ordinal_in_year(year: i32, month: u8, day: u8) -> (ordinal: u16)
    requires
        (CivilDate { year: year as int, month: month as int, day: day as int }).is_valid(),
    ensures
        ordinal == (CivilDate { year: year as int, month: month as int, day: day as int }).ordinal(),
{
    let month = time::Month::try_from(month).unwrap();
    time::Date::from_calendar_date(year, month, day).unwrap().ordinal()
}

/// Calls `time::Date::to_julian_day` on the `time::Date` of the given day.
///
/// Claimed, not proved: the result is the Julian day number, which grows by
/// one from each day to the next and is 2 451 545 on 2000-01-01.
#[verifier::external_body]
fn julian_day_number(year: i32, month: u8, day: u8) -> (number: i32)
    requires
        (CivilDate { year: year as int, month: month as int, day: day as int }).is_valid(),
    ensures
        number == (CivilDate {
            year: year as int,
            month: month as int,
            day: day as int,
        }).julian_day(),
{
    let month = time::Month::try_from(month).unwrap();
    time::Date::from_calendar_date(year, month, day).unwrap().to_julian_day()
}

/// Formats the `time::Date` of the given day with its `Display` impl.
///
/// Claimed, not proved: the text is the year in four digits, after a minus
/// sign if it is negative, the month and the day in two digits each, with
/// hyphens between.
#[verifier::external_body]
fn displayed_date(year: i32, month: u8, day: u8) -> (text: String)
    requires
        (CivilDate { year: year as int, month: month as int, day: day as int }).is_valid(),
    ensures
        text@ == date_text(CivilDate { year: year as int, month: month as int, day: day as int }),
{
    let month = time::Month::try_from(month).unwrap();
    format!("{}", time::Date::from_calendar_date(year, month, day).unwrap())
}

/// Formats the `time::Month` of the given number with its `Display` impl.
///
/// Claimed, not proved: the text is the month's English name.
#[verifier::external_body]
fn displayed_month(month: u8) -> (text: String)
    requires
        1 <= month <= 12,
    ensures
        text@ == month_name(month as int),
{
    format!("{}", time::Month::try_from(month).unwrap())
}

} // verus!
