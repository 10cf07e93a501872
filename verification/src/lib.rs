//! Remember your favorite anime characters' birthdays.
//!
//! The crate keeps a month/day rule per character, works out when the rule
//! next falls relative to a reference instant, orders and groups characters by
//! how soon that is, and looks collections up through a bounded cache that a
//! circuit breaker guards.

pub mod anilist;
pub mod birthday;
pub mod calendar;
pub mod character;
pub mod error;
pub mod http;
pub mod ics;
pub mod instant;
pub mod report;
pub mod resilient;
pub mod text;

pub use crate::birthday::Birthday;
pub use crate::character::{BirthdayCategories, Category, Character, Characters};
pub use crate::calendar::{Date, InvalidCalendarDate, Month};
pub use crate::error::Error;
pub use crate::instant::{DateTime, Duration};
pub use crate::resilient::{
    should_melt, FetchError, Fetched, Guarded, Policy, ResilientCache, UpstreamFailure,
};
