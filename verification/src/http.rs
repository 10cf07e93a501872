//! What the web pages show: the rows of the birthday calendar, and which
//! page answers which failure.

use crate::calendar::{date_text, InvalidCalendarDate};
use crate::character::{
    all_have_next_occurrence, has_urgency, in_category, keeps_ties, sorted_by_upcoming, urgency,
    BirthdayCategories, Category, Character, CharacterModel, Characters,
};
use crate::instant::{
    rounded_duration_text, truncated_quotient, CivilDateTime, DateTime, Duration, NANOS_PER_DAY,
    NANOS_PER_HOUR, NANOS_PER_MINUTE, NANOS_PER_SECOND,
};
use crate::resilient::FetchError;
use crate::text::{decimal, push_decimal};
use vstd::prelude::*;

verus! {

/// A span of `nanoseconds` in the manner of ISO 8601, `P1DT2H3M4S`: the
/// whole days, the whole hours beyond the days, the whole minutes beyond the
/// hours and the whole seconds beyond the minutes. All four have the sign of
/// the span.
pub open spec fn duration_iso_text(nanoseconds: int) -> Seq<char> {
    let days = truncated_quotient(nanoseconds, NANOS_PER_DAY as int);
    let hours = truncated_quotient(nanoseconds - days * NANOS_PER_DAY, NANOS_PER_HOUR as int);
    let minutes = truncated_quotient(
        nanoseconds - truncated_quotient(nanoseconds, NANOS_PER_HOUR as int) * NANOS_PER_HOUR,
        NANOS_PER_MINUTE as int,
    );
    let seconds = truncated_quotient(
        nanoseconds - truncated_quotient(nanoseconds, NANOS_PER_MINUTE as int) * NANOS_PER_MINUTE,
        NANOS_PER_SECOND as int,
    );
    seq!['P'] + decimal(days) + seq!['D', 'T'] + decimal(hours) + seq!['H'] + decimal(minutes)
        + seq!['M'] + decimal(seconds) + seq!['S']
}

/// The span in the manner of ISO 8601, such as `P1DT2H3M4S`.
pub fn duration_to_iso(dur: &Duration) -> (text: String)
    ensures
        text@ == duration_iso_text(dur@),
{
    let days = dur.whole_days();
    let whole_hours = dur.whole_hours();
    let whole_minutes = dur.whole_minutes();
    let whole_seconds = dur.whole_seconds();
    let hours = whole_hours - days * 24;
    let minutes = whole_minutes - whole_hours * 60;
    let seconds = whole_seconds - whole_minutes * 60;
    let mut text = String::new();
    text.push('P');
    push_decimal(&mut text, days);
    text.push('D');
    text.push('T');
    push_decimal(&mut text, hours);
    text.push('H');
    push_decimal(&mut text, minutes);
    text.push('M');
    push_decimal(&mut text, seconds);
    text.push('S');
    proof {
        assert(text@ =~= duration_iso_text(dur@));
    }
    text
}

/// A row of the calendar as mathematical values.
pub struct RowModel {
    pub name: Seq<char>,
    pub til_next_iso: Seq<char>,
    pub til_next_rounded: Seq<char>,
    pub birthday: Seq<char>,
    pub birthday_iso: Seq<char>,
    pub next_occurrence: Seq<char>,
}

/// The row that the calendar shows for a character at `now`.
pub open spec fn row_of(character: CharacterModel, now: CivilDateTime) -> RowModel {
    let span = character.birthday.nanos_until_next(now);
    RowModel {
        name: character.name,
        til_next_iso: duration_iso_text(span),
        til_next_rounded: rounded_duration_text(
            truncated_quotient(span, NANOS_PER_SECOND as int),
            span - truncated_quotient(span, NANOS_PER_SECOND as int) * NANOS_PER_SECOND,
        ),
        birthday: character.birthday.text(),
        birthday_iso: character.birthday.iso_text(),
        next_occurrence: date_text(character.birthday.next_occurrence(now.date)),
    }
}

/// The rows that the calendar shows for `characters` at `now`, in their
/// order. A character whose next birthday lies beyond the calendar's years
/// has no row.
pub open spec fn rows_of(characters: Seq<Character>, now: CivilDateTime) -> Seq<RowModel>
    decreases characters.len(),
{
    if characters.len() == 0 {
        Seq::empty()
    } else {
        let front = rows_of(characters.drop_last(), now);
        if characters.last()@.birthday.has_next_occurrence(now.date) {
            front.push(row_of(characters.last()@, now))
        } else {
            front
        }
    }
}

/// A character's row of the calendar: the texts that the page shows.
#[derive(Debug, Clone, PartialEq, Eq)]
pub struct CharacterHtml {
    pub name: String,
    pub til_next_iso: String,
    pub til_next_rounded: String,
    pub birthday: String,
    pub birthday_iso: String,
    pub next_occurrence: String,
}

impl View for CharacterHtml {
    type V = RowModel;

    open spec fn view(&self) -> RowModel {
        RowModel {
            name: self.name@,
            til_next_iso: self.til_next_iso@,
            til_next_rounded: self.til_next_rounded@,
            birthday: self.birthday@,
            birthday_iso: self.birthday_iso@,
            next_occurrence: self.next_occurrence@,
        }
    }
}

impl CharacterHtml {
    /// The row for `character` at `now`; an error where the character's next
    /// birthday lies beyond the calendar's years.
    pub fn new(character: &Character, now: &DateTime) -> (row: Result<
        CharacterHtml,
        InvalidCalendarDate,
    >)
        ensures
            row is Ok <==> character@.birthday.has_next_occurrence(now@.date),
            row matches Ok(html) ==> html@ == row_of(character@, now@),
    {
        let birthday = character.birthday();
        let today = now.date();
        match birthday.next_occurrence(&today) {
            Ok(next_occurrence) => {
                let til_next = birthday.til_next(now);
                Ok(
                    CharacterHtml {
                        next_occurrence: next_occurrence.to_string(),
                        til_next_iso: duration_to_iso(&til_next),
                        til_next_rounded: til_next.to_rounded_string(),
                        name: character.name().to_owned(),
                        birthday: birthday.to_string(),
                        birthday_iso: birthday.to_iso_string(),
                    },
                )
            },
            Err(err) => Err(err),
        }
    }
}

/// The rows of a list as mathematical values.
pub open spec fn row_models(rows: Seq<CharacterHtml>) -> Seq<RowModel> {
    rows.map_values(|row: CharacterHtml| row@)
}

/// The rows for `characters` at `now`.
fn rows_for(characters: &Vec<Character>, now: &DateTime) -> (rows: Vec<CharacterHtml>)
    ensures
        row_models(rows@) == rows_of(characters@, now@),
{
    let mut rows: Vec<CharacterHtml> = Vec::new();
    let mut done: usize = 0;
    proof {
        assert(row_models(rows@) =~= rows_of(characters@.subrange(0, 0), now@));
    }
    while done < characters.len()
        invariant
            done <= characters@.len(),
            row_models(rows@) == rows_of(characters@.subrange(0, done as int), now@),
        decreases characters@.len() - done,
    {
        let ghost before = rows@;
        proof {
            assert(characters@.subrange(0, done + 1).drop_last() =~= characters@.subrange(
                0,
                done as int,
            ));
            assert(characters@.subrange(0, done + 1).last() == characters@[done as int]);
        }
        match CharacterHtml::new(&characters[done], now) {
            Ok(row) => {
                rows.push(row);
                proof {
                    assert(row_models(rows@) =~= row_models(before).push(row@));
                }
            },
            Err(_) => {},
        }
        done = done + 1;
    }
    proof {
        assert(characters@.subrange(0, done as int) =~= characters@);
    }
    rows
}

/// The calendar page of a user: the rows of each group.
#[derive(Debug, Clone, PartialEq, Eq)]
pub struct BirthdayHtml {
    pub username: String,
    pub today: Vec<CharacterHtml>,
    pub within_thirty_days: Vec<CharacterHtml>,
    pub future: Vec<CharacterHtml>,
}

impl BirthdayHtml {
    /// The page of the user `username` for the grouped characters, with the
    /// rows of each group in the group's order.
    pub fn new(username: &str, categories: BirthdayCategories, now: &DateTime) -> (page: Result<
        BirthdayHtml,
        InvalidCalendarDate,
    >)
        ensures
            page matches Ok(html) && html.username@ == username@ && row_models(html.today@)
                == rows_of(categories.today@, now@) && row_models(html.within_thirty_days@)
                == rows_of(categories.within_thirty_days@, now@) && row_models(html.future@)
                == rows_of(categories.future@, now@),
    {
        Ok(
            BirthdayHtml {
                username: username.to_owned(),
                today: rows_for(&categories.today, now),
                within_thirty_days: rows_for(&categories.within_thirty_days, now),
                future: rows_for(&categories.future, now),
            },
        )
    }
}

/// The calendar page of the user `username` for `characters` at `now`: the
/// characters ordered by how soon their birthdays are, grouped, and a row
/// for each.
pub fn calendar_page(username: &str, characters: Vec<Character>, now: &DateTime) -> (page:
    BirthdayHtml)
    requires
        all_have_next_occurrence(characters@, now@.date),
    ensures
        page.username@ == username@,
        exists|ordered: Seq<Character>|
            {
                &&& sorted_by_upcoming(ordered, now@)
                &&& #[trigger] keeps_ties(characters@, ordered, now@)
                &&& row_models(page.today@) == rows_of(
                    ordered.filter(in_category(now@.date, Category::Today)),
                    now@,
                )
                &&& row_models(page.within_thirty_days@) == rows_of(
                    ordered.filter(in_category(now@.date, Category::WithinThirtyDays)),
                    now@,
                )
                &&& row_models(page.future@) == rows_of(
                    ordered.filter(in_category(now@.date, Category::Future)),
                    now@,
                )
            },
{
    let mut characters = characters;
    let ghost before = characters@;
    characters.sort_by_upcoming(now);
    let ghost ordered = characters@;
    proof {
        lemma_ties_keep_next_occurrence(before, ordered, now@);
    }
    let categories = characters.into_birthday_categories(now);
    let page = BirthdayHtml {
        username: username.to_owned(),
        today: rows_for(&categories.today, now),
        within_thirty_days: rows_for(&categories.within_thirty_days, now),
        future: rows_for(&categories.future, now),
    };
    assert(keeps_ties(before, ordered, now@));
    page
}

/// A collection that holds the characters of another holds only characters
/// that the other holds: if all of those have a next birthday within the
/// calendar, so have all of these.
proof fn lemma_ties_keep_next_occurrence(
    before: Seq<Character>,
    after: Seq<Character>,
    now: CivilDateTime,
)
    requires
        keeps_ties(before, after, now),
        all_have_next_occurrence(before, now.date),
    ensures
        all_have_next_occurrence(after, now.date),
{
    broadcast use vstd::seq_lib::group_filter_ensures;

    assert forall|i: int| 0 <= i < after.len() implies (
    #[trigger] after[i])@.birthday.has_next_occurrence(now.date) by {
        let c = after[i];
        let pred = has_urgency(now, urgency(c, now));
        assert(pred(c));
        assert(after.filter(pred).contains(after[i]));
        assert(after.filter(pred) == before.filter(pred));
        before.lemma_filter_contains_rev(pred, c);
    }
}

/// The page that answers a request that cannot be served.
#[derive(Debug, Clone, Copy, PartialEq, Eq, Structural)]
pub enum ErrorPage {
    /// The request names no user.
    UnprocessableEntity,
    /// The upstream service knows no user of the name.
    UserNotFound,
    /// The characters could not be had.
    InternalServerError,
}

impl ErrorPage {
    /// The HTTP status the page is sent with.
    pub open spec fn status_code(self) -> int {
        match self {
            ErrorPage::UnprocessableEntity => 422,
            ErrorPage::UserNotFound => 404,
            ErrorPage::InternalServerError => 500,
        }
    }

    /// The HTTP status the page is sent with.
    pub fn status(&self) -> (code: u16)
        ensures
            code == self.status_code(),
    {
        match self {
            ErrorPage::UnprocessableEntity => 422,
            ErrorPage::UserNotFound => 404,
            ErrorPage::InternalServerError => 500,
        }
    }

    /// The name of the template that renders the page's body; a request that
    /// names no user is answered without a body.
    pub fn template(&self) -> (name: Option<&'static str>)
        ensures
            *self == ErrorPage::UnprocessableEntity <==> name is None,
            *self == ErrorPage::UserNotFound ==> name == Some("user_not_found"),
            *self == ErrorPage::InternalServerError ==> name == Some("internal_server_error"),
    {
        match self {
            ErrorPage::UnprocessableEntity => None,
            ErrorPage::UserNotFound => Some("user_not_found"),
            ErrorPage::InternalServerError => Some("internal_server_error"),
        }
    }
}

/// The page that answers a failed lookup: an unknown user is the client's
/// concern, every other failure the server's.
pub fn failure_page(err: &FetchError) -> (page: ErrorPage)
    ensures
        page == (if err is NotFound {
            ErrorPage::UserNotFound
        } else {
            ErrorPage::InternalServerError
        }),
{
    match err {
        FetchError::NotFound(_) => ErrorPage::UserNotFound,
        _ => ErrorPage::InternalServerError,
    }
}

/// The user a request asks for: the value of its `username` parameter,
/// unless the parameter is missing or empty.
pub fn requested_user<'a>(username: Option<&'a str>) -> (user: Result<&'a str, ErrorPage>)
    ensures
        match username {
            Some(name) => if name@.len() == 0 {
                user == Err::<&str, ErrorPage>(ErrorPage::UnprocessableEntity)
            } else {
                user == Ok::<&str, ErrorPage>(name)
            },
            None => user == Err::<&str, ErrorPage>(ErrorPage::UnprocessableEntity),
        },
{
    match username {
        Some(name) => {
            if name.unicode_len() == 0 {
                Err(ErrorPage::UnprocessableEntity)
            } else {
                Ok(name)
            }
        },
        None => Err(ErrorPage::UnprocessableEntity),
    }
}

} // verus!
