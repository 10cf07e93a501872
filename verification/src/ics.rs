//! The events of a birthday calendar in the iCalendar manner: one all-day
//! event for each character's next birthday.

use crate::calendar::{CivilDate, Date, InvalidCalendarDate};
use crate::character::{Character, CharacterModel};
use crate::instant::{CivilDateTime, DateTime};
use crate::text::{push_zero_padded, zero_padded};
use vstd::prelude::*;

verus! {

/// A year in at least four characters: zeros in front of a short one, and a
/// minus sign, which counts as one of the four, in front of a negative one.
pub open spec fn year_stamp(year: int) -> Seq<char> {
    if year >= 0 {
        zero_padded(year as nat, 4)
    } else if year > -1000 {
        seq!['-'] + zero_padded((-year) as nat, 3)
    } else {
        seq!['-'] + zero_padded((-year) as nat, 4)
    }
}

/// A day as `YYYYMMDD`.
pub open spec fn date_stamp(date: CivilDate) -> Seq<char> {
    year_stamp(date.year) + zero_padded(date.month as nat, 2) + zero_padded(date.day as nat, 2)
}

/// An instant as `YYYYMMDDTHHMMSS`.
pub open spec fn datetime_stamp(instant: CivilDateTime) -> Seq<char> {
    date_stamp(instant.date).push('T') + zero_padded(instant.hour as nat, 2) + zero_padded(
        instant.minute as nat,
        2,
    ) + zero_padded(instant.second as nat, 2)
}

fn push_date_stamp(text: &mut String, date: &Date)
    ensures
        final(text)@ == old(text)@ + date_stamp(date@),
{
    let year = date.year();
    if year >= 0 {
        push_zero_padded(text, year as u64, 4);
    } else {
        text.push('-');
        if year > -1000 {
            push_zero_padded(text, (-year) as u64, 3);
        } else {
            push_zero_padded(text, (-year) as u64, 4);
        }
    }
    push_zero_padded(text, date.month().number() as u64, 2);
    push_zero_padded(text, date.day() as u64, 2);
    proof {
        assert(text@ =~= old(text)@ + date_stamp(date@));
    }
}

/// The day as `YYYYMMDD`, the form of an all-day event's start and end.
pub fn date_to_dtstamp(date: &Date) -> (stamp: String)
    ensures
        stamp@ == date_stamp(date@),
{
    let mut stamp = String::new();
    push_date_stamp(&mut stamp, date);
    proof {
        assert(stamp@ =~= date_stamp(date@));
    }
    stamp
}

/// The instant as `YYYYMMDDTHHMMSS`, the form of an event's time stamp.
pub fn datetime_to_dtstamp(datetime: &DateTime) -> (stamp: String)
    ensures
        stamp@ == datetime_stamp(datetime@),
{
    let mut stamp = String::new();
    let date = datetime.date();
    push_date_stamp(&mut stamp, &date);
    stamp.push('T');
    push_zero_padded(&mut stamp, datetime.hour() as u64, 2);
    push_zero_padded(&mut stamp, datetime.minute() as u64, 2);
    push_zero_padded(&mut stamp, datetime.second() as u64, 2);
    proof {
        assert(stamp@ =~= datetime_stamp(datetime@));
    }
    stamp
}

/// An event as mathematical values.
pub struct EventModel {
    pub summary: Seq<char>,
    pub start: Seq<char>,
    pub end: Seq<char>,
}

/// The event for a character's next birthday on or after `today`: it is
/// named after the character, starts on the birthday and ends on the day
/// after.
pub open spec fn event_of(character: CharacterModel, today: CivilDate) -> EventModel {
    let birthday = character.birthday.next_occurrence(today);
    EventModel {
        summary: character.name + "'s Birthday"@,
        start: date_stamp(birthday),
        end: date_stamp(birthday.next_day()),
    }
}

/// Whether a character's next birthday on or after `today`, and the day
/// after it, are days of the calendar.
pub open spec fn has_event(character: CharacterModel, today: CivilDate) -> bool {
    character.birthday.has_next_occurrence(today) && character.birthday.next_occurrence(
        today,
    ).next_day().is_valid()
}

/// An all-day event of a birthday calendar.
#[derive(Debug, Clone, PartialEq, Eq)]
pub struct BirthdayEvent {
    /// What the event is called.
    pub summary: String,
    /// The day of the birthday, as `YYYYMMDD`.
    pub start: String,
    /// The day after, as `YYYYMMDD`.
    pub end: String,
}

impl View for BirthdayEvent {
    type V = EventModel;

    open spec fn view(&self) -> EventModel {
        EventModel { summary: self.summary@, start: self.start@, end: self.end@ }
    }
}

impl BirthdayEvent {
    /// The event for `character`'s next birthday on or after the day of
    /// `now`; an error where that day or the day after it lies beyond the
    /// calendar's years.
    pub fn new(character: &Character, now: &DateTime) -> (event: Result<
        BirthdayEvent,
        InvalidCalendarDate,
    >)
        ensures
            event is Ok <==> has_event(character@, now@.date),
            event matches Ok(e) ==> e@ == event_of(character@, now@.date),
    {
        let today = now.date();
        let birthday = match character.birthday().next_occurrence(&today) {
            Ok(birthday) => birthday,
            Err(err) => {
                return Err(err);
            },
        };
        let after = match birthday.next_day() {
            Some(after) => after,
            None => {
                return Err(InvalidCalendarDate);
            },
        };
        let mut summary = character.name().to_owned();
        summary.append("'s Birthday");
        Ok(
            BirthdayEvent {
                summary,
                start: date_to_dtstamp(&birthday),
                end: date_to_dtstamp(&after),
            },
        )
    }
}

/// The events of a list as mathematical values.
pub open spec fn event_models(events: Seq<BirthdayEvent>) -> Seq<EventModel> {
    events.map_values(|event: BirthdayEvent| event@)
}

/// The events of a birthday calendar for `characters`, one for each in their
/// order; an error as soon as one of them has no event.
pub fn birthday_events(characters: &Vec<Character>, now: &DateTime) -> (events: Result<
    Vec<BirthdayEvent>,
    InvalidCalendarDate,
>)
    ensures
        events is Ok <==> forall|i: int|
            0 <= i < characters@.len() ==> has_event((#[trigger] characters@[i])@, now@.date),
        events matches Ok(list) ==> event_models(list@) == characters@.map_values(
            |character: Character| event_of(character@, now@.date),
        ),
{
    let mut list: Vec<BirthdayEvent> = Vec::new();
    let mut done: usize = 0;
    while done < characters.len()
        invariant
            done <= characters@.len(),
            list@.len() == done,
            forall|i: int| 0 <= i < done ==> has_event((#[trigger] characters@[i])@, now@.date),
            forall|i: int|
                0 <= i < done ==> (#[trigger] list@[i])@ == event_of(characters@[i]@, now@.date),
        decreases characters@.len() - done,
    {
        match BirthdayEvent::new(&characters[done], now) {
            Ok(event) => {
                list.push(event);
            },
            Err(err) => {
                return Err(err);
            },
        }
        done = done + 1;
    }
    proof {
        assert(event_models(list@) =~= characters@.map_values(
            |character: Character| event_of(character@, now@.date),
        ));
    }
    Ok(list)
}

} // verus!
