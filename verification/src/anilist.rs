//! Reading what the upstream service answers: which characters a page of
//! favourites holds, whether another page follows, and which failure an
//! answer stands for.
//!
//! The answer arrives as nested optional values, any of which the service
//! may leave out. The types here hold them as they arrive.

use crate::birthday::{Birthday, MonthDay};
use crate::calendar::Month;
use crate::character::{Character, CharacterModel};
use crate::error::Error;
use vstd::prelude::*;

verus! {

/// The HTTP status with which the service refuses a request because too
/// many were made.
pub const TOO_MANY_REQUESTS: u16 = 429;

/// A date of which the service may know only parts.
#[derive(Debug, Clone, Copy, PartialEq, Eq, Structural)]
pub struct FuzzyDate {
    pub month: Option<i64>,
    pub day: Option<i64>,
}

/// The names of a character.
#[derive(Debug, Clone, PartialEq, Eq)]
pub struct CharacterName {
    pub full: Option<String>,
}

/// A character as the service describes it.
#[derive(Debug, Clone, PartialEq, Eq)]
pub struct CharacterNode {
    pub name: Option<CharacterName>,
    pub site_url: Option<String>,
    pub date_of_birth: Option<FuzzyDate>,
}

/// Where a page stands among the pages of an answer.
#[derive(Debug, Clone, Copy, PartialEq, Eq, Structural)]
pub struct PageInfo {
    pub has_next_page: Option<bool>,
}

/// A page of characters.
#[derive(Debug, Clone, PartialEq, Eq)]
pub struct CharacterConnection {
    pub nodes: Option<Vec<Option<CharacterNode>>>,
    pub page_info: Option<PageInfo>,
}

/// A user's favourites.
#[derive(Debug, Clone, PartialEq, Eq)]
pub struct Favourites {
    pub characters: Option<CharacterConnection>,
}

/// A user.
#[derive(Debug, Clone, PartialEq, Eq)]
pub struct User {
    pub favourites: Option<Favourites>,
}

/// The data of an answer.
#[derive(Debug, Clone, PartialEq, Eq)]
pub struct ResponseData {
    pub user: Option<User>,
}

/// The birthday that the parts of a date name, if both are there and name a
/// day that a month can have.
pub open spec fn date_birthday(date: FuzzyDate) -> Option<MonthDay> {
    match (date.month, date.day) {
        (Some(month), Some(day)) => {
            let birthday = MonthDay { month: month as int, day: day as int };
            if birthday.is_valid() {
                Some(birthday)
            } else {
                None
            }
        },
        _ => None,
    }
}

/// The character that a node describes, if it gives a birthday, a full name
/// and an address.
pub open spec fn node_character(node: Option<CharacterNode>) -> Option<CharacterModel> {
    match node {
        Some(CharacterNode {
            name: Some(CharacterName { full: Some(full) }),
            site_url: Some(url),
            date_of_birth: Some(date),
        }) => match date_birthday(date) {
            Some(birthday) => Some(CharacterModel { name: full@, url: url@, birthday }),
            None => None,
        },
        _ => None,
    }
}

/// The characters that the nodes of a page describe, in the page's order.
/// Nodes that describe no character are left out.
pub open spec fn page_characters(nodes: Seq<Option<CharacterNode>>) -> Seq<CharacterModel>
    decreases nodes.len(),
{
    if nodes.len() == 0 {
        Seq::empty()
    } else {
        let front = page_characters(nodes.drop_last());
        match node_character(nodes.last()) {
            Some(character) => front.push(character),
            None => front,
        }
    }
}

/// The characters of a list as mathematical values.
pub open spec fn character_models(characters: Seq<Character>) -> Seq<CharacterModel> {
    characters.map_values(|character: Character| character@)
}

/// Why a page of an answer cannot be read.
pub enum PageFailure {
    /// The answer has no user: the service does not know the one asked for.
    UnknownUser,
    /// The answer lacks something else.
    Incomplete,
}

/// What a page of an answer holds, the characters and whether another page
/// follows, or why it cannot be read.
pub open spec fn page_of(data: Option<ResponseData>) -> Result<
    (Seq<CharacterModel>, bool),
    PageFailure,
> {
    match data {
        None => Err(PageFailure::Incomplete),
        Some(ResponseData { user: None }) => Err(PageFailure::UnknownUser),
        Some(
            ResponseData {
                user: Some(
                    User {
                        favourites: Some(
                            Favourites {
                                characters: Some(
                                    CharacterConnection {
                                        nodes: Some(nodes),
                                        page_info: Some(PageInfo { has_next_page: Some(more) }),
                                    },
                                ),
                            },
                        ),
                    },
                ),
            },
        ) => Ok((page_characters(nodes@), more)),
        _ => Err(PageFailure::Incomplete),
    }
}

/// Whether `result` is what reading a page gives for the user `username`:
/// the page's characters and whether another follows, `UserNotFound` with
/// the user's name for an answer without a user, and `BadResponse` for an
/// answer that lacks anything else.
pub open spec fn reads_as(
    username: Seq<char>,
    data: Option<ResponseData>,
    result: Result<FavouritesPage, Error>,
) -> bool {
    match page_of(data) {
        Ok((characters, more)) => result matches Ok(page) && character_models(page.characters@)
            == characters && page.has_next_page == more,
        Err(PageFailure::UnknownUser) => result matches Err(Error::UserNotFound(name)) && name@
            == username,
        Err(PageFailure::Incomplete) => result == Err::<FavouritesPage, Error>(Error::BadResponse),
    }
}

/// The characters of one page of a user's favourites, and whether another
/// page follows.
#[derive(Debug, Clone, PartialEq, Eq)]
pub struct FavouritesPage {
    pub characters: Vec<Character>,
    pub has_next_page: bool,
}

/// The birthday that the parts of a date name, if both are there and name a
/// day that a month can have.
pub fn birthday_of(date: &FuzzyDate) -> (birthday: Option<Birthday>)
    ensures
        birthday is Some <==> date_birthday(*date) is Some,
        birthday matches Some(b) ==> Some(b@) == date_birthday(*date),
{
    match (date.month, date.day) {
        (Some(month), Some(day)) => {
            if month < 1 || month > 12 || day < 1 || day > 31 {
                return None;
            }
            match Month::from_number(month as u8) {
                Some(month) => Birthday::new(month, day as u8),
                None => None,
            }
        },
        _ => None,
    }
}

/// The character that a node describes, if it gives a birthday, a full name
/// and an address.
pub fn character_of(node: &Option<CharacterNode>) -> (character: Option<Character>)
    ensures
        character is Some <==> node_character(*node) is Some,
        character matches Some(c) ==> Some(c@) == node_character(*node),
{
    let node = match node {
        Some(node) => node,
        None => {
            return None;
        },
    };
    let date = match &node.date_of_birth {
        Some(date) => date,
        None => {
            return None;
        },
    };
    let birthday = match birthday_of(date) {
        Some(birthday) => birthday,
        None => {
            return None;
        },
    };
    let full = match &node.name {
        Some(CharacterName { full: Some(full) }) => full,
        _ => {
            return None;
        },
    };
    let url = match &node.site_url {
        Some(url) => url,
        None => {
            return None;
        },
    };
    Some(Character::new(full.as_str(), url.as_str(), birthday))
}

/// The characters that the nodes of a page describe, in the page's order.
pub fn characters_of(nodes: &Vec<Option<CharacterNode>>) -> (characters: Vec<Character>)
    ensures
        character_models(characters@) == page_characters(nodes@),
{
    let mut characters: Vec<Character> = Vec::new();
    let mut done: usize = 0;
    proof {
        assert(character_models(characters@) =~= page_characters(nodes@.subrange(0, 0)));
    }
    while done < nodes.len()
        invariant
            done <= nodes@.len(),
            character_models(characters@) == page_characters(nodes@.subrange(0, done as int)),
        decreases nodes@.len() - done,
    {
        let ghost before = characters@;
        proof {
            assert(nodes@.subrange(0, done + 1).drop_last() =~= nodes@.subrange(0, done as int));
            assert(nodes@.subrange(0, done + 1).last() == nodes@[done as int]);
        }
        match character_of(&nodes[done]) {
            Some(character) => {
                characters.push(character);
                proof {
                    assert(character_models(characters@) =~= character_models(before).push(
                        character@,
                    ));
                }
            },
            None => {},
        }
        done = done + 1;
    }
    proof {
        assert(nodes@.subrange(0, done as int) =~= nodes@);
    }
    characters
}

/// The failure that an HTTP status stands for by itself, before the answer
/// is read: only the status of too many requests is one.
pub fn check_status(status: u16) -> (checked: Result<(), Error>)
    ensures
        checked == (if status == TOO_MANY_REQUESTS {
            Err::<(), Error>(Error::RateLimited)
        } else {
            Ok::<(), Error>(())
        }),
{
    if status == TOO_MANY_REQUESTS {
        Err(Error::RateLimited)
    } else {
        Ok(())
    }
}

/// Reads one page of the favourites of the user `username` out of the data
/// of an answer.
pub fn read_page(username: &str, data: Option<ResponseData>) -> (page: Result<
    FavouritesPage,
    Error,
>)
    ensures
        reads_as(username@, data, page),
{
    let user = match data {
        Some(ResponseData { user }) => user,
        None => {
            return Err(Error::BadResponse);
        },
    };
    let favourites = match user {
        Some(User { favourites }) => favourites,
        None => {
            return Err(Error::UserNotFound(username.to_owned()));
        },
    };
    let connection = match favourites {
        Some(Favourites { characters: Some(connection) }) => connection,
        _ => {
            return Err(Error::BadResponse);
        },
    };
    match connection {
        CharacterConnection {
            nodes: Some(nodes),
            page_info: Some(PageInfo { has_next_page: Some(has_next_page) }),
        } => Ok(FavouritesPage { characters: characters_of(&nodes), has_next_page }),
        _ => Err(Error::BadResponse),
    }
}

/// The favourites gathered so far while a user's pages are being fetched,
/// and the number of the page to ask for next.
#[derive(Debug, Clone, PartialEq, Eq)]
pub struct Gathering {
    page: i64,
    characters: Vec<Character>,
}

/// What to do after an answer was taken in.
#[derive(Debug, PartialEq, Eq)]
pub enum Step {
    /// Ask for the next page.
    Continue(Gathering),
    /// All pages are in: these are the user's favourites, in the order of
    /// the pages. Or the fetch failed.
    Done(Result<Vec<Character>, Error>),
}

impl Gathering {
    /// The number of the page to ask for next.
    pub closed spec fn spec_page(&self) -> int {
        self.page as int
    }

    /// The characters gathered so far.
    pub closed spec fn gathered(&self) -> Seq<Character> {
        self.characters@
    }

    /// Nothing gathered yet, and the first page to ask for.
    pub fn start() -> (gathering: Gathering)
        ensures
            gathering.spec_page() == 1,
            gathering.gathered().len() == 0,
    {
        Gathering { page: 1, characters: Vec::new() }
    }

    /// The number of the page to ask for next.
    pub fn page(&self) -> (page: i64)
        ensures
            page == self.spec_page(),
    {
        self.page
    }

    /// Takes in the answer to the request for the next page, which came with
    /// the HTTP status `status` and, where it could be read at all, the data
    /// `data`.
    ///
    /// A status of too many requests ends the fetch with `RateLimited`, and
    /// an answer that cannot be read ends it as [`reads_as`] says. Else the
    /// characters of the page are added to those gathered, and the fetch
    /// goes on with the next page if the answer says that there is one, and
    /// is done if not. A service that claims more pages than can be counted
    /// is taken to answer badly.
    pub fn absorb(self, username: &str, status: u16, data: Option<ResponseData>) -> (step: Step)
        ensures
            status == TOO_MANY_REQUESTS ==> step == Step::Done(Err(Error::RateLimited)),
            status != TOO_MANY_REQUESTS ==> match page_of(data) {
                Ok((characters, more)) => if !more {
                    step matches Step::Done(Ok(all)) && character_models(all@) == character_models(
                        self.gathered(),
                    ) + characters
                } else if self.spec_page() < i64::MAX {
                    step matches Step::Continue(next) && next.spec_page() == self.spec_page() + 1
                        && character_models(next.gathered()) == character_models(self.gathered())
                        + characters
                } else {
                    step == Step::Done(Err(Error::BadResponse))
                },
                Err(PageFailure::UnknownUser) => step matches Step::Done(
                    Err(Error::UserNotFound(name)),
                ) && name@ == username@,
                Err(PageFailure::Incomplete) => step == Step::Done(Err(Error::BadResponse)),
            },
    {
        match check_status(status) {
            Ok(()) => {},
            Err(err) => {
                return Step::Done(Err(err));
            },
        }
        let mut page = match read_page(username, data) {
            Ok(page) => page,
            Err(err) => {
                return Step::Done(Err(err));
            },
        };
        let mut characters = self.characters;
        let ghost before = characters@;
        let ghost added = page.characters@;
        characters.append(&mut page.characters);
        proof {
            assert(character_models(characters@) =~= character_models(before) + character_models(
                added,
            ));
        }
        if !page.has_next_page {
            Step::Done(Ok(characters))
        } else if self.page < i64::MAX {
            Step::Continue(Gathering { page: self.page + 1, characters })
        } else {
            Step::Done(Err(Error::BadResponse))
        }
    }
}

} // verus!
