//! Characters and collections of them: ordering by how soon the next
//! birthday is, and grouping into today, the next thirty days and later.

use crate::birthday::{Birthday, MonthDay};
use crate::calendar::CivilDate;
use crate::instant::{CivilDateTime, DateTime};
use vstd::prelude::*;

verus! {

/// The number of days ahead, counted from today, up to which a birthday is
/// listed as coming soon. The last of these days counts.
pub const WINDOW_DAYS: i32 = 30;

/// The group a birthday belongs to on a given day.
#[derive(Clone, Copy, PartialEq, Eq, Structural, Debug)]
pub enum Category {
    /// The birthday is today.
    Today,
    /// The birthday is not today and at most thirty days ahead.
    WithinThirtyDays,
    /// The birthday is more than thirty days ahead.
    Future,
}

impl MonthDay {
    /// The group of the rule on `today`.
    pub open spec fn category(self, today: CivilDate) -> Category {
        if self.occurs_on(today) {
            Category::Today
        } else if self.days_until_next(today) <= WINDOW_DAYS {
            Category::WithinThirtyDays
        } else {
            Category::Future
        }
    }
}

/// A character as mathematical values.
pub struct CharacterModel {
    pub name: Seq<char>,
    pub url: Seq<char>,
    pub birthday: MonthDay,
}

/// A name and birthday pair, with the address of the character's page.
#[derive(Clone, Eq, PartialEq, Hash, Debug)]
pub struct Character {
    name: String,
    url: String,
    birthday: Birthday,
}

impl View for Character {
    type V = CharacterModel;

    closed spec fn view(&self) -> CharacterModel {
        CharacterModel { name: self.name@, url: self.url@, birthday: self.birthday@ }
    }
}

impl Character {
    /// Create a new character.
    pub fn new(name: &str, url: &str, birthday: Birthday) -> (character: Character)
        ensures
            character@ == (CharacterModel { name: name@, url: url@, birthday: birthday@ }),
    {
        Character { name: name.to_owned(), url: url.to_owned(), birthday }
    }

    /// Get this character's name.
    pub fn name(&self) -> (name: &str)
        ensures
            name@ == self@.name,
    {
        self.name.as_str()
    }

    /// Get the address of this character's page.
    pub fn url(&self) -> (url: &str)
        ensures
            url@ == self@.url,
    {
        self.url.as_str()
    }

    /// Get this character's birthday.
    pub fn birthday(&self) -> (birthday: Birthday)
        ensures
            birthday@ == self@.birthday,
            self@.birthday.is_valid(),
    {
        let _ = self.birthday.day();
        self.birthday
    }

    /// The group this character's birthday belongs to on the day of `now`.
    pub fn category(&self, now: &DateTime) -> (category: Category)
        requires
            self@.birthday.has_next_occurrence(now@.date),
        ensures
            category == self@.birthday.category(now@.date),
    {
        let today = now.date();
        let birthday = self.birthday();
        if birthday.is_occurring_on(&today) {
            Category::Today
        } else {
            match birthday.next_occurrence(&today) {
                Ok(next) => {
                    if next.to_julian_day() - today.to_julian_day() <= WINDOW_DAYS {
                        Category::WithinThirtyDays
                    } else {
                        Category::Future
                    }
                },
                Err(_) => Category::Future,
            }
        }
    }
}

/// How soon the character's next birthday is from `now`, in nanoseconds: the
/// key that collections are ordered by.
pub open spec fn urgency(character: Character, now: CivilDateTime) -> int {
    character@.birthday.nanos_until_next(now)
}

/// The predicate that holds of the characters whose urgency is `key`.
pub open spec fn has_urgency(now: CivilDateTime, key: int) -> spec_fn(Character) -> bool {
    |character: Character| urgency(character, now) == key
}

/// The predicate that holds of the characters whose group on `today` is
/// `category`.
pub open spec fn in_category(today: CivilDate, category: Category) -> spec_fn(Character) -> bool {
    |character: Character| character@.birthday.category(today) == category
}

/// Every character's next birthday from `today` is on a day that exists
/// within the calendar's years.
pub open spec fn all_have_next_occurrence(characters: Seq<Character>, today: CivilDate) -> bool {
    forall|i: int|
        0 <= i < characters.len() ==> (#[trigger] characters[i])@.birthday.has_next_occurrence(
            today,
        )
}

/// No character comes before one whose birthday is sooner.
pub open spec fn sorted_by_upcoming(characters: Seq<Character>, now: CivilDateTime) -> bool {
    forall|i: int, j: int|
        0 <= i <= j < characters.len() ==> urgency(#[trigger] characters[i], now) <= urgency(
            #[trigger] characters[j],
            now,
        )
}

/// `after` holds the characters of `before`, and those of equal urgency in
/// the order they had in `before`.
pub open spec fn keeps_ties(before: Seq<Character>, after: Seq<Character>, now: CivilDateTime)
    -> bool {
    forall|key: int| #[trigger]
        after.filter(has_urgency(now, key)) == before.filter(has_urgency(now, key))
}

/// The characters whose birthday is today, those whose birthday is within
/// thirty days, and the others.
#[derive(Clone, Eq, PartialEq, Hash, Debug)]
pub struct BirthdayCategories {
    pub today: Vec<Character>,
    pub within_thirty_days: Vec<Character>,
    pub future: Vec<Character>,
}

/// Useful functions for working with a collection of characters.
pub trait Characters: Sized {
    /// The characters of the collection, in order.
    spec fn listing(&self) -> Seq<Character>;

    /// Orders the collection by how soon each birthday comes after `now`,
    /// soonest first. Characters whose birthdays are equally soon keep their
    /// order.
    fn sort_by_upcoming(&mut self, now: &DateTime)
        requires
            all_have_next_occurrence(old(self).listing(), now@.date),
        ensures
            sorted_by_upcoming(final(self).listing(), now@),
            keeps_ties(old(self).listing(), final(self).listing(), now@),
            final(self).listing().len() == old(self).listing().len(),
    ;

    /// Splits the collection into the characters whose birthday is on the day
    /// of `now`, those whose birthday is at most thirty days after it, and
    /// the rest. Each group keeps the order of the collection.
    fn into_birthday_categories(self, now: &DateTime) -> (categories: BirthdayCategories)
        requires
            all_have_next_occurrence(self.listing(), now@.date),
        ensures
            categories.today@ == self.listing().filter(in_category(now@.date, Category::Today)),
            categories.within_thirty_days@ == self.listing().filter(
                in_category(now@.date, Category::WithinThirtyDays),
            ),
            categories.future@ == self.listing().filter(in_category(now@.date, Category::Future)),
    ;
}

/// Filtering a sequence with one more element at the end.
proof fn lemma_filter_push<A>(s: Seq<A>, last: A, pred: spec_fn(A) -> bool)
    ensures
        s.push(last).filter(pred) == (if pred(last) {
            s.filter(pred).push(last)
        } else {
            s.filter(pred)
        }),
{
    reveal(Seq::filter);
    assert(s.push(last).drop_last() =~= s);
}

/// Filtering a sequence into which an element was inserted: where the
/// element passes and nothing before it does, it comes first in the result.
proof fn lemma_filter_insert<A>(s: Seq<A>, at: int, item: A, pred: spec_fn(A) -> bool)
    requires
        0 <= at <= s.len(),
        pred(item) ==> s.subrange(0, at).filter(pred).len() == 0,
    ensures
        s.insert(at, item).filter(pred) == (if pred(item) {
            seq![item] + s.filter(pred)
        } else {
            s.filter(pred)
        }),
{
    let head = s.subrange(0, at);
    let tail = s.subrange(at, s.len() as int);
    assert(s =~= head + tail);
    assert(s.insert(at, item) =~= head.push(item) + tail);
    Seq::filter_distributes_over_add(head, tail, pred);
    Seq::filter_distributes_over_add(head.push(item), tail, pred);
    lemma_filter_push(head, item, pred);
    if pred(item) {
        assert(head.filter(pred) =~= Seq::<A>::empty());
        assert(head.filter(pred).push(item) + tail.filter(pred) =~= seq![item] + (head.filter(pred)
            + tail.filter(pred)));
    }
}

/// A sequence none of whose elements passes filters to nothing.
proof fn lemma_filter_none<A>(s: Seq<A>, pred: spec_fn(A) -> bool)
    requires
        forall|i: int| 0 <= i < s.len() ==> !pred(#[trigger] s[i]),
    ensures
        s.filter(pred).len() == 0,
    decreases s.len(),
{
    reveal(Seq::filter);
    if s.len() > 0 {
        assert forall|i: int| 0 <= i < s.drop_last().len() implies !pred(
            #[trigger] s.drop_last()[i],
        ) by {
            assert(s.drop_last()[i] == s[i]);
        }
        lemma_filter_none(s.drop_last(), pred);
    }
}

/// The elements of a filtered sequence come from the sequence, in its order:
/// each has a position there, and later elements have later positions.
proof fn lemma_filter_positions<A>(s: Seq<A>, pred: spec_fn(A) -> bool) -> (positions: Seq<int>)
    ensures
        positions.len() == s.filter(pred).len(),
        forall|k: int|
            0 <= k < positions.len() ==> 0 <= #[trigger] positions[k] < s.len() && s[positions[k]]
                == s.filter(pred)[k],
        forall|k: int, l: int|
            0 <= k < l < positions.len() ==> #[trigger] positions[k] < #[trigger] positions[l],
    decreases s.len(),
{
    reveal(Seq::filter);
    if s.len() == 0 {
        Seq::empty()
    } else {
        let front = lemma_filter_positions(s.drop_last(), pred);
        assert forall|k: int| 0 <= k < front.len() implies s[#[trigger] front[k]]
            == s.drop_last().filter(pred)[k] by {
            assert(s.drop_last()[front[k]] == s[front[k]]);
        }
        if pred(s.last()) {
            front.push(s.len() - 1)
        } else {
            front
        }
    }
}

/// Filtering keeps the order by urgency: a group taken out of an ordered
/// collection is ordered.
pub proof fn lemma_filter_keeps_order(
    characters: Seq<Character>,
    now: CivilDateTime,
    pred: spec_fn(Character) -> bool,
)
    requires
        sorted_by_upcoming(characters, now),
    ensures
        sorted_by_upcoming(characters.filter(pred), now),
{
    let positions = lemma_filter_positions(characters, pred);
    let kept = characters.filter(pred);
    assert forall|i: int, j: int| 0 <= i <= j < kept.len() implies urgency(#[trigger] kept[i], now)
        <= urgency(#[trigger] kept[j], now) by {
        assert(kept[i] == characters[positions[i]]);
        assert(kept[j] == characters[positions[j]]);
        if i < j {
            assert(positions[i] < positions[j]);
        }
    }
}

/// Ordering by urgency and then grouping gives groups that are each ordered
/// by urgency.
pub proof fn lemma_groups_of_sorted_are_sorted(
    characters: Seq<Character>,
    now: CivilDateTime,
    category: Category,
)
    requires
        sorted_by_upcoming(characters, now),
    ensures
        sorted_by_upcoming(characters.filter(in_category(now.date, category)), now),
{
    lemma_filter_keeps_order(characters, now, in_category(now.date, category));
}

/// Grouping is exhaustive and disjoint: every character of the collection is
/// in exactly one group, so the groups together hold as many characters as
/// the collection, and each character as often as the collection does.
pub proof fn lemma_groups_partition(characters: Seq<Character>, today: CivilDate)
    ensures
        forall|i: int|
            0 <= i < characters.len() ==> {
                let c = #[trigger] characters[i];
                (in_category(today, Category::Today)(c) && !in_category(
                    today,
                    Category::WithinThirtyDays,
                )(c) && !in_category(today, Category::Future)(c)) || (!in_category(
                    today,
                    Category::Today,
                )(c) && in_category(today, Category::WithinThirtyDays)(c) && !in_category(
                    today,
                    Category::Future,
                )(c)) || (!in_category(today, Category::Today)(c) && !in_category(
                    today,
                    Category::WithinThirtyDays,
                )(c) && in_category(today, Category::Future)(c))
            },
        characters.filter(in_category(today, Category::Today)).len() + characters.filter(
            in_category(today, Category::WithinThirtyDays),
        ).len() + characters.filter(in_category(today, Category::Future)).len()
            == characters.len(),
        characters.filter(in_category(today, Category::Today)).to_multiset().add(
            characters.filter(in_category(today, Category::WithinThirtyDays)).to_multiset(),
        ).add(characters.filter(in_category(today, Category::Future)).to_multiset())
            == characters.to_multiset(),
    decreases characters.len(),
{
    let today_group = in_category(today, Category::Today);
    let soon_group = in_category(today, Category::WithinThirtyDays);
    let later_group = in_category(today, Category::Future);
    broadcast use vstd::seq_lib::group_to_multiset_ensures;

    if characters.len() == 0 {
        reveal(Seq::filter);
        assert(characters.filter(today_group) =~= Seq::<Character>::empty());
        assert(characters.filter(soon_group) =~= Seq::<Character>::empty());
        assert(characters.filter(later_group) =~= Seq::<Character>::empty());
        assert(characters.filter(today_group).to_multiset().add(
            characters.filter(soon_group).to_multiset(),
        ).add(characters.filter(later_group).to_multiset()) =~= characters.to_multiset());
    } else {
        let front = characters.drop_last();
        let last = characters.last();
        lemma_groups_partition(front, today);
        assert(characters =~= front.push(last));
        lemma_filter_push(front, last, today_group);
        lemma_filter_push(front, last, soon_group);
        lemma_filter_push(front, last, later_group);
        assert(characters.filter(today_group).to_multiset().add(
            characters.filter(soon_group).to_multiset(),
        ).add(characters.filter(later_group).to_multiset()) =~= front.to_multiset().insert(last));
        assert forall|i: int| 0 <= i < characters.len() implies {
            let c = #[trigger] characters[i];
            (today_group(c) && !soon_group(c) && !later_group(c)) || (!today_group(c) && soon_group(
                c,
            ) && !later_group(c)) || (!today_group(c) && !soon_group(c) && later_group(c))
        } by {}
    }
}

/// While a collection is being ordered: the characters already placed and
/// those still waiting hold, for each urgency, the characters of that urgency
/// in their first order, the placed ones after the waiting ones.
spec fn ties_so_far(
    before: Seq<Character>,
    placed: Seq<Character>,
    waiting: Seq<Character>,
    now: CivilDateTime,
) -> bool {
    forall|key: int| #[trigger]
        before.filter(has_urgency(now, key)) == waiting.filter(has_urgency(now, key))
            + placed.filter(has_urgency(now, key))
}

proof fn lemma_ties_at_start(before: Seq<Character>, now: CivilDateTime)
    ensures
        ties_so_far(before, Seq::empty(), before, now),
{
    assert forall|key: int| #[trigger]
        before.filter(has_urgency(now, key)) == before.filter(has_urgency(now, key))
            + Seq::<Character>::empty().filter(has_urgency(now, key)) by {
        lemma_filter_none(Seq::<Character>::empty(), has_urgency(now, key));
        assert(before.filter(has_urgency(now, key)) + Seq::<Character>::empty().filter(
            has_urgency(now, key),
        ) =~= before.filter(has_urgency(now, key)));
    }
}

proof fn lemma_ties_at_end(
    before: Seq<Character>,
    placed: Seq<Character>,
    waiting: Seq<Character>,
    now: CivilDateTime,
)
    requires
        ties_so_far(before, placed, waiting, now),
        waiting.len() == 0,
    ensures
        keeps_ties(before, placed, now),
{
    assert forall|key: int| #[trigger]
        placed.filter(has_urgency(now, key)) == before.filter(has_urgency(now, key)) by {
        lemma_filter_none(waiting, has_urgency(now, key));
        assert(before.filter(has_urgency(now, key)) == waiting.filter(has_urgency(now, key))
            + placed.filter(has_urgency(now, key)));
        assert(waiting.filter(has_urgency(now, key)) + placed.filter(has_urgency(now, key))
            =~= placed.filter(has_urgency(now, key)));
    }
}

/// Placing a character before the first placed one that is not sooner keeps
/// the placed ones ordered.
proof fn lemma_insert_keeps_order(
    placed: Seq<Character>,
    at: int,
    character: Character,
    now: CivilDateTime,
)
    requires
        sorted_by_upcoming(placed, now),
        0 <= at <= placed.len(),
        forall|i: int| 0 <= i < at ==> urgency(#[trigger] placed[i], now) < urgency(character, now),
        at < placed.len() ==> urgency(character, now) <= urgency(placed[at], now),
    ensures
        sorted_by_upcoming(placed.insert(at, character), now),
{
    let grown = placed.insert(at, character);
    assert forall|i: int, j: int| 0 <= i <= j < grown.len() implies urgency(
        #[trigger] grown[i],
        now,
    ) <= urgency(#[trigger] grown[j], now) by {
        if i < at {
            assert(grown[i] == placed[i]);
        } else if i > at {
            assert(grown[i] == placed[i - 1]);
        }
        if j < at {
            assert(grown[j] == placed[j]);
        } else if j > at {
            assert(grown[j] == placed[j - 1]);
            assert(urgency(placed[at], now) <= urgency(placed[j - 1], now));
        }
    }
}

/// Taking the last waiting character and placing it before the first placed
/// one that is not sooner keeps equally urgent characters in their order.
proof fn lemma_insert_keeps_ties(
    before: Seq<Character>,
    placed: Seq<Character>,
    waiting: Seq<Character>,
    at: int,
    character: Character,
    now: CivilDateTime,
)
    requires
        ties_so_far(before, placed, waiting.push(character), now),
        0 <= at <= placed.len(),
        forall|i: int| 0 <= i < at ==> urgency(#[trigger] placed[i], now) < urgency(character, now),
    ensures
        ties_so_far(before, placed.insert(at, character), waiting, now),
{
    assert forall|key: int| #[trigger]
        before.filter(has_urgency(now, key)) == waiting.filter(has_urgency(now, key))
            + placed.insert(at, character).filter(has_urgency(now, key)) by {
        let pred = has_urgency(now, key);
        assert(before.filter(pred) == waiting.push(character).filter(pred) + placed.filter(pred));
        if pred(character) {
            assert forall|i: int| 0 <= i < placed.subrange(0, at).len() implies !pred(
                #[trigger] placed.subrange(0, at)[i],
            ) by {
                assert(placed.subrange(0, at)[i] == placed[i]);
            }
            lemma_filter_none(placed.subrange(0, at), pred);
        }
        lemma_filter_insert(placed, at, character, pred);
        lemma_filter_push(waiting, character, pred);
        if pred(character) {
            assert(waiting.filter(pred).push(character) + placed.filter(pred) =~= waiting.filter(
                pred,
            ) + (seq![character] + placed.filter(pred)));
        }
    }
}

/// The characters of `characters`, last first.
fn reversed(characters: Vec<Character>) -> (turned: Vec<Character>)
    ensures
        turned@.len() == characters@.len(),
        forall|i: int|
            0 <= i < turned@.len() ==> #[trigger] turned@[i] == characters@[characters@.len() - 1
                - i],
{
    let ghost all = characters@;
    let mut rest = characters;
    let mut turned: Vec<Character> = Vec::new();
    while rest.len() > 0
        invariant
            turned@.len() + rest@.len() == all.len(),
            forall|i: int| 0 <= i < rest@.len() ==> rest@[i] == all[i],
            forall|i: int| 0 <= i < turned@.len() ==> #[trigger] turned@[i] == all[all.len() - 1 - i],
        decreases rest@.len(),
    {
        let character = rest.pop().unwrap();
        turned.push(character);
    }
    turned
}

impl Characters for Vec<Character> {
    open spec fn listing(&self) -> Seq<Character> {
        self@
    }

    fn sort_by_upcoming(&mut self, now: &DateTime) {
        let ghost before = self@;
        let mut rest: Vec<Character> = Vec::new();
        core::mem::swap(self, &mut rest);
        let mut keys: Vec<i128> = Vec::new();
        proof {
            lemma_ties_at_start(before, now@);
        }
        while rest.len() > 0
            invariant
                self@.len() + rest@.len() == before.len(),
                keys@.len() == self@.len(),
                all_have_next_occurrence(rest@, now@.date),
                forall|i: int| 0 <= i < self@.len() ==> keys@[i] == urgency(#[trigger] self@[i], now@),
                sorted_by_upcoming(self@, now@),
                ties_so_far(before, self@, rest@, now@),
            decreases rest@.len(),
        {
            let ghost sorted = self@;
            let ghost waiting = rest@;
            let character = rest.pop().unwrap();
            assert(character == waiting[waiting.len() - 1]);
            let key = character.birthday().til_next(now).whole_nanoseconds();
            let mut at: usize = 0;
            while at < keys.len() && keys[at] < key
                invariant
                    at <= keys@.len(),
                    forall|i: int| 0 <= i < at ==> keys@[i] < key,
                decreases keys@.len() - at,
            {
                at = at + 1;
            }
            proof {
                assert forall|i: int| 0 <= i < at implies urgency(#[trigger] sorted[i], now@)
                    < urgency(character, now@) by {
                    assert(keys@[i] < key);
                }
                if at < sorted.len() {
                    assert(keys@[at as int] == urgency(sorted[at as int], now@));
                }
                lemma_insert_keeps_order(sorted, at as int, character, now@);
                assert(waiting =~= rest@.push(character));
                lemma_insert_keeps_ties(before, sorted, rest@, at as int, character, now@);
                assert forall|i: int| 0 <= i < rest@.len() implies (
                #[trigger] rest@[i])@.birthday.has_next_occurrence(now@.date) by {
                    assert(rest@[i] == waiting[i]);
                }
            }
            self.insert(at, character);
            keys.insert(at, key);
        }
        proof {
            lemma_ties_at_end(before, self@, rest@, now@);
        }
    }

    fn into_birthday_categories(self, now: &DateTime) -> (categories: BirthdayCategories) {
        let ghost all = self@;
        let mut rest = reversed(self);
        let mut today: Vec<Character> = Vec::new();
        let mut soon: Vec<Character> = Vec::new();
        let mut later: Vec<Character> = Vec::new();
        proof {
            lemma_filter_none(today@, in_category(now@.date, Category::Today));
            lemma_filter_none(soon@, in_category(now@.date, Category::WithinThirtyDays));
            lemma_filter_none(later@, in_category(now@.date, Category::Future));
        }
        let ghost mut taken: int = 0;
        while rest.len() > 0
            invariant
                0 <= taken,
                taken + rest@.len() == all.len(),
                all_have_next_occurrence(all, now@.date),
                forall|i: int| 0 <= i < rest@.len() ==> rest@[i] == all[all.len() - 1 - i],
                today@ == all.subrange(0, taken).filter(
                    in_category(now@.date, Category::Today),
                ),
                soon@ == all.subrange(0, taken).filter(
                    in_category(now@.date, Category::WithinThirtyDays),
                ),
                later@ == all.subrange(0, taken).filter(
                    in_category(now@.date, Category::Future),
                ),
            decreases rest@.len(),
        {
            let character = rest.pop().unwrap();
            proof {
                assert(character == all[taken]);
                assert(all.subrange(0, taken + 1) =~= all.subrange(0, taken).push(character));
                lemma_filter_push(
                    all.subrange(0, taken),
                    character,
                    in_category(now@.date, Category::Today),
                );
                lemma_filter_push(
                    all.subrange(0, taken),
                    character,
                    in_category(now@.date, Category::WithinThirtyDays),
                );
                lemma_filter_push(
                    all.subrange(0, taken),
                    character,
                    in_category(now@.date, Category::Future),
                );
            }
            match character.category(now) {
                Category::Today => today.push(character),
                Category::WithinThirtyDays => soon.push(character),
                Category::Future => later.push(character),
            }
            proof {
                taken = taken + 1;
            }
        }
        proof {
            assert(all.subrange(0, taken) =~= all);
        }
        BirthdayCategories { today, within_thirty_days: soon, future: later }
    }
}

} // verus!
