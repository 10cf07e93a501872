//! Birthdays: a month and a day that come round every year.
//!
//! The mathematical model is [`MonthDay`]. Everything a [`Birthday`] computes
//! is stated over it: in which years the day exists, on which day it falls
//! next, and how long that is from an instant.

use crate::calendar::{
    days_in_month, is_leap_year, month_name, CivilDate, Date, InvalidCalendarDate, Month, MAX_YEAR,
    MIN_YEAR,
};
use crate::instant::{CivilDateTime, DateTime, Duration, NANOS_PER_DAY};
use crate::text::{digits, push_digits, push_zero_padded, zero_padded};
use vstd::prelude::*;

verus! {

/// The first leap year that is `year` or comes after it.
///
/// Leap years are four years apart, except across a year that divides by 100
/// and not by 400, where they are eight apart.
pub open spec fn leap_year_from(year: int) -> int {
    let fourth = year + (-year) % 4;
    if is_leap_year(fourth) {
        fourth
    } else {
        fourth + 4
    }
}

/// A month and a day of the month, as unbounded integers.
pub struct MonthDay {
    pub month: int,
    pub day: int,
}

impl MonthDay {
    /// The month has such a day in some year: the 29th of February counts,
    /// the 30th does not.
    pub open spec fn is_valid(self) -> bool {
        1 <= self.month <= 12 && 1 <= self.day <= days_in_month(2000, self.month)
    }

    /// The day the rule names in `year`.
    pub open spec fn in_year(self, year: int) -> CivilDate {
        CivilDate { year, month: self.month, day: self.day }
    }

    /// Whether `year` has the day. Only the 29th of February is ever missing.
    pub open spec fn exists_in(self, year: int) -> bool {
        self.day <= days_in_month(year, self.month)
    }

    /// Whether `date` is the rule's day in its year.
    pub open spec fn occurs_on(self, date: CivilDate) -> bool {
        self.month == date.month && self.day == date.day
    }

    /// The first year, `year` or later, that has the day.
    pub open spec fn first_year_from(self, year: int) -> int {
        if self.exists_in(year) {
            year
        } else {
            leap_year_from(year)
        }
    }

    /// The year of the first occurrence on or after `today`: `today`'s own
    /// year where the rule's day has not passed in it, else the next, and
    /// from there the first year that has the day.
    pub open spec fn next_occurrence_year(self, today: CivilDate) -> int {
        if today.le(self.in_year(today.year)) {
            self.first_year_from(today.year)
        } else {
            self.first_year_from(today.year + 1)
        }
    }

    /// The first occurrence on or after `today`.
    pub open spec fn next_occurrence(self, today: CivilDate) -> CivilDate {
        self.in_year(self.next_occurrence_year(today))
    }

    /// Whether the first occurrence on or after `today` lies within the years
    /// a [`Date`] can hold.
    pub open spec fn has_next_occurrence(self, today: CivilDate) -> bool {
        self.next_occurrence_year(today) <= MAX_YEAR
    }

    /// The number of days from `today` to the first occurrence on or after it.
    pub open spec fn days_until_next(self, today: CivilDate) -> int {
        self.next_occurrence(today).julian_day() - today.julian_day()
    }

    /// The time from `now` to the beginning of the day of the first
    /// occurrence on or after `now`'s day, in nanoseconds. It is negative
    /// while that day is `now`'s own and has begun.
    pub open spec fn nanos_until_next(self, now: CivilDateTime) -> int {
        now.nanos_until_midnight_of(self.next_occurrence(now.date))
    }

    /// The rule as text: the month's name, a space and the day.
    pub open spec fn text(self) -> Seq<char> {
        month_name(self.month).push(' ') + digits(self.day as nat)
    }

    /// The rule as `MM-DD`.
    pub open spec fn iso_text(self) -> Seq<char> {
        zero_padded(self.month as nat, 2).push('-') + zero_padded(self.day as nat, 2)
    }

    /// `first_year_from` names a year that has the day, at most eight years
    /// on, and no year before it from `year` on has the day.
    pub proof fn lemma_first_year_from(self, year: int)
        requires
            self.is_valid(),
        ensures
            year <= self.first_year_from(year) <= year + 7,
            self.exists_in(self.first_year_from(year)),
            forall|other: int| year <= other < self.first_year_from(year) ==> !self.exists_in(other),
    {
    }

    /// Where none of the four years from `year` on divides by 100, one of
    /// them has the day.
    pub proof fn lemma_first_year_within_four(self, year: int)
        requires
            self.is_valid(),
            (year - 1) / 100 == (year + 3) / 100,
        ensures
            self.first_year_from(year) <= year + 3,
    {
        if !self.exists_in(year) {
            let fourth = year + (-year) % 4;
            let century = (year + 3) / 100;
            assert(year <= fourth <= year + 3);
            assert(fourth % 4 == 0);
            assert(100 * century <= year - 1 < fourth);
            assert(fourth < 100 * (century + 1));
            assert(fourth % 100 != 0);
            assert(is_leap_year(fourth));
        }
    }

    /// The first occurrence on or after `today` exists, falls on the rule's
    /// day, is not before `today`, and no occurrence lies between the two.
    pub proof fn lemma_next_occurrence_is_earliest(self, today: CivilDate)
        requires
            self.is_valid(),
            today.is_valid(),
        ensures
            self.occurs_on(self.next_occurrence(today)),
            self.exists_in(self.next_occurrence_year(today)),
            self.has_next_occurrence(today) ==> self.next_occurrence(today).is_valid(),
            today.le(self.next_occurrence(today)),
            today.year <= self.next_occurrence_year(today) <= today.year + 8,
            forall|other: CivilDate|
                #![trigger self.occurs_on(other)]
                MIN_YEAR <= other.year && self.exists_in(other.year) && self.occurs_on(other)
                    && today.le(other) ==> self.next_occurrence(today).le(other),
    {
        self.lemma_first_year_from(today.year);
        self.lemma_first_year_from(today.year + 1);
    }

    /// The first occurrence on or after `today` is `today` itself exactly
    /// when the rule falls on `today`.
    pub proof fn lemma_next_occurrence_today(self, today: CivilDate)
        requires
            self.is_valid(),
            today.is_valid(),
        ensures
            self.occurs_on(today) <==> self.next_occurrence(today) == today,
            self.occurs_on(today) <==> self.days_until_next(today) == 0,
            self.has_next_occurrence(today) ==> self.days_until_next(today) >= 0,
    {
        self.lemma_next_occurrence_is_earliest(today);
        if self.has_next_occurrence(today) {
            today.lemma_le_by_julian_day(self.next_occurrence(today));
        } else {
            let next = self.next_occurrence(today);
            assert(next.year > today.year);
            next.lemma_julian_day_after_year(today);
        }
    }

    /// Asked a day later, the next occurrence is the same or a later one,
    /// never an earlier one; it is a later one exactly when the rule falls on
    /// the first of the two days.
    pub proof fn lemma_next_occurrence_a_day_later(self, today: CivilDate)
        requires
            self.is_valid(),
            today.is_valid(),
            today.next_day().is_valid(),
        ensures
            self.next_occurrence(today).le(self.next_occurrence(today.next_day())),
            self.next_occurrence(today) == self.next_occurrence(today.next_day())
                || self.next_occurrence(today).lt(self.next_occurrence(today.next_day())),
            self.occurs_on(today) <==> self.next_occurrence(today) != self.next_occurrence(
                today.next_day(),
            ),
    {
        let tomorrow = today.next_day();
        let first = self.next_occurrence(today);
        let second = self.next_occurrence(tomorrow);
        self.lemma_next_occurrence_is_earliest(today);
        self.lemma_next_occurrence_is_earliest(tomorrow);
        today.lemma_next_day();
        today.lemma_le_transitive(tomorrow, second);
        assert(self.occurs_on(second));
        assert(first.le(second));
        first.lemma_le_total(second);
        if !self.occurs_on(today) {
            assert(first != today);
            assert(today.lt(first));
            if first.year <= MAX_YEAR {
                assert(first.is_valid());
                assert(tomorrow.le(first));
            } else {
                assert(tomorrow.le(first));
            }
            assert(self.occurs_on(first));
            assert(second.le(first));
        } else {
            self.lemma_next_occurrence_today(today);
            assert(first == today);
            assert(today.lt(tomorrow));
            assert(tomorrow.le(second));
        }
    }

    /// The time until the next birthday is never a whole day in the past,
    /// and is in the past at all only while the birthday is today and the
    /// day has begun.
    pub proof fn lemma_time_until_next_sign(self, now: CivilDateTime)
        requires
            self.is_valid(),
            now.is_valid(),
        ensures
            self.nanos_until_next(now) > -NANOS_PER_DAY,
            self.nanos_until_next(now) < 0 <==> self.occurs_on(now.date)
                && now.nanos_since_midnight() > 0,
            self.nanos_until_next(now) == 0 <==> self.occurs_on(now.date)
                && now.nanos_since_midnight() == 0,
    {
        self.lemma_next_occurrence_today(now.date);
        self.lemma_next_occurrence_is_earliest(now.date);
        let next = self.next_occurrence(now.date);
        let days = self.days_until_next(now.date);
        if self.has_next_occurrence(now.date) {
            now.date.lemma_le_by_julian_day(next);
        } else {
            next.lemma_julian_day_after_year(now.date);
        }
        assert(days >= 0);
        assert(0 <= now.nanos_since_midnight() < NANOS_PER_DAY);
        if days >= 1 {
            assert(days * NANOS_PER_DAY >= NANOS_PER_DAY);
        }
    }

    /// A rule that falls on a 29th of February falls only on days of leap
    /// years.
    pub proof fn lemma_leap_day_needs_leap_year(self, date: CivilDate)
        requires
            date.is_valid(),
            self.occurs_on(date),
            self.month == 2,
            self.day == 29,
        ensures
            is_leap_year(date.year),
    {
    }
}

/// A month and a day of the month on which a birthday falls every year that
/// has the day.
#[derive(Clone, Copy, PartialEq, Eq, Structural, Hash, Debug)]
pub struct Birthday {
    month: Month,
    day: u8,
}

impl View for Birthday {
    type V = MonthDay;

    closed spec fn view(&self) -> MonthDay {
        MonthDay { month: self.month@, day: self.day as int }
    }
}

impl Birthday {
    #[verifier::type_invariant]
    spec fn day_of_month(self) -> bool {
        self@.is_valid()
    }

    /// The birthday on day `day` of `month`, unless the month never has such
    /// a day.
    pub fn new(month: Month, day: u8) -> (birthday: Option<Birthday>)
        ensures
            birthday is Some <==> (MonthDay { month: month@, day: day as int }).is_valid(),
            birthday matches Some(b) ==> b@ == (MonthDay { month: month@, day: day as int }),
    {
        if 1 <= day && day <= month.max_days() {
            Some(Birthday { month, day })
        } else {
            None
        }
    }

    /// The month the birthday falls in.
    pub fn month(&self) -> (month: Month)
        ensures
            month@ == self@.month,
            self@.is_valid(),
    {
        proof {
            use_type_invariant(self);
        }
        self.month
    }

    /// The day of the month the birthday falls on.
    pub fn day(&self) -> (day: u8)
        ensures
            day == self@.day,
            self@.is_valid(),
    {
        proof {
            use_type_invariant(self);
        }
        self.day
    }

    /// The birthday of someone born on `date`.
    pub fn from_date(date: &Date) -> (birthday: Birthday)
        ensures
            birthday@ == (MonthDay { month: date@.month, day: date@.day }),
            birthday@.occurs_on(date@),
    {
        let month = date.month();
        let day = date.day();
        Birthday { month, day }
    }

    /// Whether the birthday falls on `date`.
    pub fn is_occurring_on(&self, date: &Date) -> (occurring: bool)
        ensures
            occurring == self@.occurs_on(date@),
    {
        self.month.number() == date.month().number() && self.day == date.day()
    }

    /// The birthday in `year`, if that year has the day and is one a `Date`
    /// can hold.
    pub fn occurrence_in_year(&self, year: i32) -> (date: Result<Date, InvalidCalendarDate>)
        ensures
            date is Ok <==> self@.in_year(year as int).is_valid(),
            date is Ok <==> MIN_YEAR <= year <= MAX_YEAR && self@.exists_in(year as int),
            date matches Ok(d) ==> d@ == self@.in_year(year as int),
    {
        proof {
            use_type_invariant(self);
        }
        Date::from_calendar_date(year, self.month, self.day)
    }

    /// The birthday in the first year, `year` or later, that has the day;
    /// an error where no year a `Date` can hold is left that has it.
    fn first_occurrence_from(&self, year: i32) -> (date: Result<Date, InvalidCalendarDate>)
        requires
            MIN_YEAR <= year <= MAX_YEAR + 1,
        ensures
            date is Ok <==> self@.first_year_from(year as int) <= MAX_YEAR,
            date matches Ok(d) ==> d@ == self@.in_year(self@.first_year_from(year as int)),
    {
        proof {
            use_type_invariant(self);
            self@.lemma_first_year_from(year as int);
        }
        let mut candidate: i32 = year;
        while candidate <= MAX_YEAR
            invariant
                MIN_YEAR <= year <= candidate <= MAX_YEAR + 1,
                self@.is_valid(),
                forall|other: int| year <= other < candidate ==> !self@.exists_in(other),
                year <= self@.first_year_from(year as int),
                self@.exists_in(self@.first_year_from(year as int)),
                forall|other: int|
                    year <= other < self@.first_year_from(year as int) ==> !self@.exists_in(other),
            decreases MAX_YEAR + 1 - candidate,
        {
            match self.occurrence_in_year(candidate) {
                Ok(date) => {
                    return Ok(date);
                },
                Err(_) => {
                    candidate = candidate + 1;
                },
            }
        }
        Err(InvalidCalendarDate)
    }

    /// The birthday in the year of `today`; an error where that year lacks
    /// the day. No other year stands in for it: the search for a year that
    /// has the day is [`Birthday::next_occurrence`]'s.
    pub fn to_date(&self, today: &Date) -> (date: Result<Date, InvalidCalendarDate>)
        ensures
            date is Ok <==> self@.in_year(today@.year).is_valid(),
            date is Ok <==> self@.exists_in(today@.year),
            date matches Ok(d) ==> d@ == self@.in_year(today@.year),
    {
        self.occurrence_in_year(today.year())
    }

    /// The first day, `today` or later, on which the birthday falls; an error
    /// where that day lies beyond the years a `Date` can hold.
    pub fn next_occurrence(&self, today: &Date) -> (next: Result<Date, InvalidCalendarDate>)
        ensures
            next is Ok <==> self@.has_next_occurrence(today@),
            next matches Ok(d) ==> d@ == self@.next_occurrence(today@) && today@.le(d@)
                && self@.occurs_on(d@),
    {
        proof {
            use_type_invariant(self);
        }
        let year = today.year();
        proof {
            self@.lemma_next_occurrence_is_earliest(today@);
        }
        match self.occurrence_in_year(year) {
            Ok(this_year) => {
                proof {
                    today@.lemma_le_by_ordinal(this_year@);
                }
                if today.ordinal() <= this_year.ordinal() {
                    Ok(this_year)
                } else {
                    self.first_occurrence_from(year + 1)
                }
            },
            Err(_) => {
                proof {
                    self@.lemma_first_year_from(year as int);
                    self@.lemma_first_year_from(year + 1);
                }
                self.first_occurrence_from(year + 1)
            },
        }
    }

    /// The time from `now` to the beginning of the day on which the birthday
    /// next falls, counted from `now`'s day. While the birthday is today the
    /// span is zero at midnight and negative afterwards.
    pub fn til_next(&self, now: &DateTime) -> (span: Duration)
        requires
            self@.has_next_occurrence(now@.date),
        ensures
            span@ == self@.nanos_until_next(now@),
    {
        let today = now.date();
        match self.next_occurrence(&today) {
            Ok(next) => now.until_midnight_of(&next),
            Err(_) => Duration::seconds(0),
        }
    }

    /// The birthday as text, such as `January 13`.
    pub fn to_string(&self) -> (text: String)
        ensures
            text@ == self@.text(),
    {
        let mut text = self.month.name();
        text.push(' ');
        push_digits(&mut text, self.day as u64);
        text
    }

    /// The birthday as `MM-DD`, such as `01-13`.
    pub fn to_iso_string(&self) -> (text: String)
        ensures
            text@ == self@.iso_text(),
    {
        let mut text = String::new();
        push_zero_padded(&mut text, self.month.number() as u64, 2);
        text.push('-');
        push_zero_padded(&mut text, self.day as u64, 2);
        text
    }
}

} // verus!
