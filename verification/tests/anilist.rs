use waifu_calendar::anilist::{
    birthday_of, character_of, characters_of, check_status, read_page, CharacterConnection,
    CharacterName, CharacterNode, Favourites, FavouritesPage, FuzzyDate, Gathering, PageInfo,
    ResponseData, Step, User,
};
use waifu_calendar::{Birthday, Character, Error, Month};

fn node(name: &str, month: i64, day: i64) -> Option<CharacterNode> {
    Some(CharacterNode {
        name: Some(CharacterName { full: Some(name.to_string()) }),
        site_url: Some(format!("https://anilist.co/character/{}", name)),
        date_of_birth: Some(FuzzyDate { month: Some(month), day: Some(day) }),
    })
}

fn known(name: &str, month: Month, day: u8) -> Character {
    Character::new(
        name,
        &format!("https://anilist.co/character/{}", name),
        Birthday::new(month, day).unwrap(),
    )
}

fn answer(nodes: Vec<Option<CharacterNode>>, more: bool) -> Option<ResponseData> {
    Some(ResponseData {
        user: Some(User {
            favourites: Some(Favourites {
                characters: Some(CharacterConnection {
                    nodes: Some(nodes),
                    page_info: Some(PageInfo { has_next_page: Some(more) }),
                }),
            }),
        }),
    })
}

#[test]
fn birthdays_need_both_parts_and_a_day_the_month_has() {
    let date = |month, day| FuzzyDate { month, day };
    assert_eq!(
        birthday_of(&date(Some(2), Some(29))),
        Birthday::new(Month::February, 29)
    );
    assert_eq!(birthday_of(&date(Some(2), Some(30))), None);
    assert_eq!(birthday_of(&date(Some(13), Some(1))), None);
    assert_eq!(birthday_of(&date(Some(0), Some(1))), None);
    assert_eq!(birthday_of(&date(Some(1), Some(0))), None);
    assert_eq!(birthday_of(&date(Some(-1), Some(5))), None);
    assert_eq!(birthday_of(&date(Some(257), Some(5))), None);
    assert_eq!(birthday_of(&date(Some(1), Some(256 + 13))), None);
    assert_eq!(birthday_of(&date(None, Some(5))), None);
    assert_eq!(birthday_of(&date(Some(5), None)), None);
    assert_eq!(birthday_of(&date(None, None)), None);
    assert_eq!(
        birthday_of(&date(Some(12), Some(31))),
        Birthday::new(Month::December, 31)
    );
}

#[test]
fn nodes_without_name_address_or_birthday_are_no_characters() {
    assert_eq!(
        character_of(&node("Frieren", 5, 2)),
        Some(known("Frieren", Month::May, 2))
    );
    assert_eq!(character_of(&None), None);
    let mut n = node("Frieren", 5, 2).unwrap();
    n.site_url = None;
    assert_eq!(character_of(&Some(n)), None);
    let mut n = node("Frieren", 5, 2).unwrap();
    n.name = None;
    assert_eq!(character_of(&Some(n)), None);
    let mut n = node("Frieren", 5, 2).unwrap();
    n.name = Some(CharacterName { full: None });
    assert_eq!(character_of(&Some(n)), None);
    let mut n = node("Frieren", 5, 2).unwrap();
    n.date_of_birth = None;
    assert_eq!(character_of(&Some(n)), None);
}

#[test]
fn pages_keep_their_order_and_drop_what_is_no_character() {
    let nodes = vec![
        node("a", 1, 1),
        None,
        node("bad", 2, 31),
        node("b", 12, 31),
        node("c", 2, 29),
    ];
    assert_eq!(
        characters_of(&nodes),
        vec![
            known("a", Month::January, 1),
            known("b", Month::December, 31),
            known("c", Month::February, 29)
        ]
    );
    assert_eq!(characters_of(&vec![]), vec![]);
}

#[test]
fn answers_that_lack_something_are_bad_and_a_missing_user_is_unknown() {
    assert_eq!(
        read_page("alice", answer(vec![node("a", 1, 1)], true)),
        Ok(FavouritesPage {
            characters: vec![known("a", Month::January, 1)],
            has_next_page: true
        })
    );
    assert_eq!(read_page("alice", None), Err(Error::BadResponse));
    assert_eq!(
        read_page("alice", Some(ResponseData { user: None })),
        Err(Error::UserNotFound("alice".to_string()))
    );
    assert_eq!(
        read_page("alice", Some(ResponseData { user: Some(User { favourites: None }) })),
        Err(Error::BadResponse)
    );
    assert_eq!(
        read_page(
            "alice",
            Some(ResponseData {
                user: Some(User { favourites: Some(Favourites { characters: None }) })
            })
        ),
        Err(Error::BadResponse)
    );
    let connection = |nodes, page_info| {
        Some(ResponseData {
            user: Some(User {
                favourites: Some(Favourites {
                    characters: Some(CharacterConnection { nodes, page_info }),
                }),
            }),
        })
    };
    assert_eq!(
        read_page("alice", connection(None, Some(PageInfo { has_next_page: Some(false) }))),
        Err(Error::BadResponse)
    );
    assert_eq!(
        read_page("alice", connection(Some(vec![]), None)),
        Err(Error::BadResponse)
    );
    assert_eq!(
        read_page("alice", connection(Some(vec![]), Some(PageInfo { has_next_page: None }))),
        Err(Error::BadResponse)
    );
}

#[test]
fn only_too_many_requests_is_a_failure_by_status() {
    assert_eq!(check_status(429), Err(Error::RateLimited));
    assert_eq!(check_status(200), Ok(()));
    assert_eq!(check_status(500), Ok(()));
}

#[test]
fn gathering_goes_from_page_to_page() {
    let start = Gathering::start();
    assert_eq!(start.page(), 1);
    let second = match start.absorb("alice", 200, answer(vec![node("a", 1, 1)], true)) {
        Step::Continue(next) => next,
        other => panic!("unexpected {:?}", other),
    };
    assert_eq!(second.page(), 2);
    let done = second
        .clone()
        .absorb("alice", 200, answer(vec![node("b", 2, 2), None], false));
    assert_eq!(
        done,
        Step::Done(Ok(vec![
            known("a", Month::January, 1),
            known("b", Month::February, 2)
        ]))
    );
    assert_eq!(
        second.clone().absorb("alice", 429, answer(vec![], false)),
        Step::Done(Err(Error::RateLimited))
    );
    assert_eq!(
        second.clone().absorb("alice", 200, None),
        Step::Done(Err(Error::BadResponse))
    );
    assert_eq!(
        second.absorb("alice", 200, Some(ResponseData { user: None })),
        Step::Done(Err(Error::UserNotFound("alice".to_string())))
    );
}
