//! The birthday table that the command line prints, line by line.

use crate::calendar::date_text;
use crate::character::{all_have_next_occurrence, BirthdayCategories, Character, CharacterModel};
use crate::instant::{rounded_duration_text, truncated_quotient, CivilDateTime, DateTime, NANOS_PER_SECOND};
use vstd::prelude::*;

verus! {

/// `count` spaces.
pub open spec fn spaces(count: int) -> Seq<char> {
    Seq::new(
        if count > 0 {
            count as nat
        } else {
            0
        },
        |i: int| ' ',
    )
}

/// `text` with spaces after it up to `width` characters; `text` itself where
/// it is that long or longer.
pub open spec fn padded_right(text: Seq<char>, width: int) -> Seq<char> {
    text + spaces(width - text.len())
}

/// `text` with spaces before it up to `width` characters; `text` itself
/// where it is that long or longer.
pub open spec fn padded_left(text: Seq<char>, width: int) -> Seq<char> {
    spaces(width - text.len()) + text
}

/// The line of the table for a character at `now`: after a tab, the name in
/// 20 columns, the rounded time until the next birthday in 6, to the right,
/// the birthday in 15, and the day of the next birthday.
pub open spec fn row_text(character: CharacterModel, now: CivilDateTime) -> Seq<char> {
    let span = character.birthday.nanos_until_next(now);
    let rounded = rounded_duration_text(
        truncated_quotient(span, NANOS_PER_SECOND as int),
        span - truncated_quotient(span, NANOS_PER_SECOND as int) * NANOS_PER_SECOND,
    );
    seq!['\t'] + padded_right(character.name, 20) + seq![' '] + padded_left(rounded, 6) + seq![' ']
        + padded_right(character.birthday.text(), 15) + seq![' '] + date_text(
        character.birthday.next_occurrence(now.date),
    )
}

/// The line of the table for a character whose birthday is today: its name
/// after a tab.
pub open spec fn name_text(character: CharacterModel) -> Seq<char> {
    seq!['\t'] + character.name
}

/// The heading of the characters whose birthday is today, with the day.
pub open spec fn today_heading(now: CivilDateTime) -> Seq<char> {
    "Birthdays TODAY ("@ + date_text(now.date) + "):\n"@
}

/// The lines of the table: for each group that is not empty a heading and a
/// line for each of its characters, in the group's order.
pub open spec fn table_text(
    today: Seq<Character>,
    soon: Seq<Character>,
    later: Seq<Character>,
    now: CivilDateTime,
) -> Seq<Seq<char>> {
    (if today.len() > 0 {
        seq![today_heading(now)] + today.map_values(|c: Character| name_text(c@))
    } else {
        Seq::empty()
    }) + (if soon.len() > 0 {
        seq!["\nUpcoming birthdays (next 30 days):\n"@] + soon.map_values(
            |c: Character| row_text(c@, now),
        )
    } else {
        Seq::empty()
    }) + (if later.len() > 0 {
        seq!["\nFuture birthdays:\n"@] + later.map_values(|c: Character| row_text(c@, now))
    } else {
        Seq::empty()
    })
}

/// The texts of a list of lines.
pub open spec fn line_texts(lines: Seq<String>) -> Seq<Seq<char>> {
    lines.map_values(|line: String| line@)
}

fn push_spaces(out: &mut String, width: usize, used: usize)
    ensures
        final(out)@ == old(out)@ + spaces(width - used),
{
    let mut count: usize = used;
    while count < width
        invariant
            used <= count,
            count <= width || count == used,
            out@ == old(out)@ + spaces(count - used),
        decreases width - count,
    {
        out.push(' ');
        count = count + 1;
        proof {
            assert(out@ =~= old(out)@ + spaces(count - used));
        }
    }
    proof {
        assert(spaces(count - used) =~= spaces(width - used));
    }
}

fn push_padded_right(out: &mut String, text: &str, width: usize)
    ensures
        final(out)@ == old(out)@ + padded_right(text@, width as int),
{
    out.append(text);
    push_spaces(out, width, text.unicode_len());
    proof {
        assert(out@ =~= old(out)@ + padded_right(text@, width as int));
    }
}

fn push_padded_left(out: &mut String, text: &str, width: usize)
    ensures
        final(out)@ == old(out)@ + padded_left(text@, width as int),
{
    push_spaces(out, width, text.unicode_len());
    out.append(text);
    proof {
        assert(out@ =~= old(out)@ + padded_left(text@, width as int));
    }
}

/// The line of the table for `character` at `now`.
pub fn character_row(character: &Character, now: &DateTime) -> (row: String)
    requires
        character@.birthday.has_next_occurrence(now@.date),
    ensures
        row@ == row_text(character@, now@),
{
    let birthday = character.birthday();
    let til_next = birthday.til_next(now);
    let today = now.date();
    let next = match birthday.next_occurrence(&today) {
        Ok(next) => next.to_string(),
        Err(_) => String::new(),
    };
    let til_next_str = til_next.to_rounded_string();
    let mut row = String::new();
    row.push('\t');
    push_padded_right(&mut row, character.name(), 20);
    row.push(' ');
    push_padded_left(&mut row, til_next_str.as_str(), 6);
    row.push(' ');
    push_padded_right(&mut row, birthday.to_string().as_str(), 15);
    row.push(' ');
    row.append(next.as_str());
    proof {
        assert(row@ =~= row_text(character@, now@));
    }
    row
}

fn push_rows(lines: &mut Vec<String>, characters: &Vec<Character>, now: &DateTime)
    requires
        all_have_next_occurrence(characters@, now@.date),
    ensures
        line_texts(final(lines)@) == line_texts(old(lines)@) + characters@.map_values(
            |c: Character| row_text(c@, now@),
        ),
{
    let mut done: usize = 0;
    proof {
        assert(line_texts(lines@) =~= line_texts(old(lines)@) + characters@.subrange(
            0,
            0,
        ).map_values(|c: Character| row_text(c@, now@)));
    }
    while done < characters.len()
        invariant
            done <= characters@.len(),
            all_have_next_occurrence(characters@, now@.date),
            line_texts(lines@) == line_texts(old(lines)@) + characters@.subrange(
                0,
                done as int,
            ).map_values(|c: Character| row_text(c@, now@)),
        decreases characters@.len() - done,
    {
        let ghost before = lines@;
        let row = character_row(&characters[done], now);
        lines.push(row);
        proof {
            assert(line_texts(lines@) =~= line_texts(before).push(row@));
            assert(characters@.subrange(0, done + 1) =~= characters@.subrange(0, done as int).push(
                characters@[done as int],
            ));
            assert(line_texts(lines@) =~= line_texts(old(lines)@) + characters@.subrange(
                0,
                done + 1,
            ).map_values(|c: Character| row_text(c@, now@)));
        }
        done = done + 1;
    }
    proof {
        assert(characters@.subrange(0, done as int) =~= characters@);
    }
}

fn push_names(lines: &mut Vec<String>, characters: &Vec<Character>)
    ensures
        line_texts(final(lines)@) == line_texts(old(lines)@) + characters@.map_values(
            |c: Character| name_text(c@),
        ),
{
    let mut done: usize = 0;
    proof {
        assert(line_texts(lines@) =~= line_texts(old(lines)@) + characters@.subrange(
            0,
            0,
        ).map_values(|c: Character| name_text(c@)));
    }
    while done < characters.len()
        invariant
            done <= characters@.len(),
            line_texts(lines@) == line_texts(old(lines)@) + characters@.subrange(
                0,
                done as int,
            ).map_values(|c: Character| name_text(c@)),
        decreases characters@.len() - done,
    {
        let ghost before = lines@;
        let mut line = String::new();
        line.push('\t');
        line.append(characters[done].name());
        proof {
            assert(line@ =~= name_text(characters@[done as int]@));
        }
        lines.push(line);
        proof {
            assert(line_texts(lines@) =~= line_texts(before).push(line@));
            assert(characters@.subrange(0, done + 1) =~= characters@.subrange(0, done as int).push(
                characters@[done as int],
            ));
            assert(line_texts(lines@) =~= line_texts(old(lines)@) + characters@.subrange(
                0,
                done + 1,
            ).map_values(|c: Character| name_text(c@)));
        }
        done = done + 1;
    }
    proof {
        assert(characters@.subrange(0, done as int) =~= characters@);
    }
}

/// The lines of the birthday table for the grouped characters at `now`.
pub fn birthday_table(categories: &BirthdayCategories, now: &DateTime) -> (lines: Vec<String>)
    requires
        all_have_next_occurrence(categories.within_thirty_days@, now@.date),
        all_have_next_occurrence(categories.future@, now@.date),
    ensures
        line_texts(lines@) == table_text(
            categories.today@,
            categories.within_thirty_days@,
            categories.future@,
            now@,
        ),
{
    let mut lines: Vec<String> = Vec::new();
    proof {
        assert(line_texts(lines@) =~= Seq::<Seq<char>>::empty());
    }
    if categories.today.len() > 0 {
        let mut heading = String::new();
        heading.append("Birthdays TODAY (");
        heading.append(now.date().to_string().as_str());
        heading.append("):\n");
        proof {
            assert(heading@ =~= today_heading(now@));
        }
        lines.push(heading);
        proof {
            assert(line_texts(lines@) =~= seq![today_heading(now@)]);
        }
        push_names(&mut lines, &categories.today);
    }
    let ghost first = line_texts(lines@);
    if categories.within_thirty_days.len() > 0 {
        let ghost before = lines@;
        let mut heading = String::new();
        heading.append("\nUpcoming birthdays (next 30 days):\n");
        proof {
            assert(heading@ =~= "\nUpcoming birthdays (next 30 days):\n"@);
        }
        lines.push(heading);
        proof {
            assert(line_texts(lines@) =~= line_texts(before).push(heading@));
        }
        push_rows(&mut lines, &categories.within_thirty_days, now);
        proof {
            assert(line_texts(lines@) =~= first + (seq!["\nUpcoming birthdays (next 30 days):\n"@]
                + categories.within_thirty_days@.map_values(|c: Character| row_text(c@, now@))));
        }
    }
    let ghost second = line_texts(lines@);
    proof {
        assert(second =~= first + (if categories.within_thirty_days@.len() > 0 {
            seq!["\nUpcoming birthdays (next 30 days):\n"@]
                + categories.within_thirty_days@.map_values(|c: Character| row_text(c@, now@))
        } else {
            Seq::empty()
        }));
    }
    if categories.future.len() > 0 {
        let ghost before = lines@;
        let mut heading = String::new();
        heading.append("\nFuture birthdays:\n");
        proof {
            assert(heading@ =~= "\nFuture birthdays:\n"@);
        }
        lines.push(heading);
        proof {
            assert(line_texts(lines@) =~= line_texts(before).push(heading@));
        }
        push_rows(&mut lines, &categories.future, now);
        proof {
            assert(line_texts(lines@) =~= second + (seq!["\nFuture birthdays:\n"@]
                + categories.future@.map_values(|c: Character| row_text(c@, now@))));
        }
    }
    proof {
        assert(line_texts(lines@) =~= table_text(
            categories.today@,
            categories.within_thirty_days@,
            categories.future@,
            now@,
        ));
    }
    lines
}

} // verus!
