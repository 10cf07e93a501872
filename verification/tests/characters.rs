use waifu_calendar::{Birthday, Category, Character, Characters, Date, DateTime, Month};

fn character(name: &str, month: Month, day: u8) -> Character {
    Character::new(name, "https://example.org", Birthday::new(month, day).unwrap())
}

fn names(list: &[Character]) -> Vec<&str> {
    list.iter().map(|c| c.name()).collect()
}

fn noon(year: i32, month: Month, day: u8) -> DateTime {
    DateTime::new(Date::from_calendar_date(year, month, day).unwrap(), 12, 0, 0, 0).unwrap()
}

fn sample() -> Vec<Character> {
    vec![
        character("december", Month::December, 24),
        character("soon-b", Month::January, 20),
        character("today-a", Month::January, 13),
        character("yesterday", Month::January, 12),
        character("soon-a", Month::January, 20),
        character("edge-in", Month::February, 12),
        character("edge-out", Month::February, 13),
        character("today-b", Month::January, 13),
        character("leap", Month::February, 29),
    ]
}

#[test]
fn character_keeps_what_it_was_given() {
    let c = Character::new("Frieren", "https://anilist.co/character/1", Birthday::new(Month::May, 2).unwrap());
    assert_eq!(c.name(), "Frieren");
    assert_eq!(c.url(), "https://anilist.co/character/1");
    assert_eq!(c.birthday(), Birthday::new(Month::May, 2).unwrap());
}

#[test]
fn sort_by_upcoming_orders_by_time_left_and_keeps_ties() {
    let now = noon(2024, Month::January, 13);
    let mut list = sample();
    list.sort_by_upcoming(&now);
    assert_eq!(
        names(&list),
        vec![
            "today-a",
            "today-b",
            "soon-b",
            "soon-a",
            "edge-in",
            "edge-out",
            "leap",
            "december",
            "yesterday"
        ]
    );
    for pair in list.windows(2) {
        assert!(pair[0].birthday().til_next(&now) <= pair[1].birthday().til_next(&now));
    }
}

#[test]
fn sort_by_upcoming_of_nothing_and_of_one() {
    let now = noon(2024, Month::January, 13);
    let mut none: Vec<Character> = vec![];
    none.sort_by_upcoming(&now);
    assert!(none.is_empty());
    let mut one = vec![character("only", Month::March, 3)];
    one.sort_by_upcoming(&now);
    assert_eq!(names(&one), vec!["only"]);
}

#[test]
fn categories_split_today_thirty_days_and_later() {
    let now = noon(2024, Month::January, 13);
    let categories = sample().into_birthday_categories(&now);
    assert_eq!(names(&categories.today), vec!["today-a", "today-b"]);
    assert_eq!(
        names(&categories.within_thirty_days),
        vec!["soon-b", "soon-a", "edge-in"]
    );
    assert_eq!(
        names(&categories.future),
        vec!["december", "yesterday", "edge-out", "leap"]
    );
}

#[test]
fn categories_hold_every_character_once() {
    let now = noon(2024, Month::January, 13);
    let all = sample();
    let categories = all.clone().into_birthday_categories(&now);
    assert_eq!(
        categories.today.len() + categories.within_thirty_days.len() + categories.future.len(),
        all.len()
    );
    for c in &all {
        let hits = categories.today.iter().filter(|x| *x == c).count()
            + categories.within_thirty_days.iter().filter(|x| *x == c).count()
            + categories.future.iter().filter(|x| *x == c).count();
        assert_eq!(hits, 1);
        let expected = match c.category(&now) {
            Category::Today => &categories.today,
            Category::WithinThirtyDays => &categories.within_thirty_days,
            Category::Future => &categories.future,
        };
        assert!(expected.contains(c));
    }
}

#[test]
fn sorted_then_split_gives_sorted_groups() {
    let now = noon(2024, Month::January, 13);
    let mut all = sample();
    all.sort_by_upcoming(&now);
    let categories = all.into_birthday_categories(&now);
    for group in [&categories.today, &categories.within_thirty_days, &categories.future] {
        for pair in group.windows(2) {
            assert!(pair[0].birthday().til_next(&now) <= pair[1].birthday().til_next(&now));
        }
    }
    assert_eq!(names(&categories.today), vec!["today-a", "today-b"]);
    assert_eq!(
        names(&categories.within_thirty_days),
        vec!["soon-b", "soon-a", "edge-in"]
    );
    assert_eq!(
        names(&categories.future),
        vec!["edge-out", "leap", "december", "yesterday"]
    );
}

#[test]
fn the_thirtieth_day_counts_as_within_the_window() {
    let now = DateTime::midnight(Date::from_calendar_date(2024, Month::January, 13).unwrap());
    assert_eq!(
        character("in", Month::February, 12).category(&now),
        Category::WithinThirtyDays
    );
    assert_eq!(character("out", Month::February, 13).category(&now), Category::Future);
    assert_eq!(character("now", Month::January, 13).category(&now), Category::Today);
    assert_eq!(character("past", Month::January, 12).category(&now), Category::Future);
    let new_year = noon(2023, Month::December, 20);
    assert_eq!(
        character("across", Month::January, 19).category(&new_year),
        Category::WithinThirtyDays
    );
    assert_eq!(character("across", Month::January, 20).category(&new_year), Category::Future);
}
