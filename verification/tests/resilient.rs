use std::cell::Cell;
use std::time::{Duration as StdDuration, Instant};

use waifu_calendar::resilient::{entry_weight, settle, to_store};
use waifu_calendar::{
    should_melt, Birthday, Character, Error, FetchError, Fetched, Guarded, Month, Policy,
    ResilientCache, UpstreamFailure,
};

fn favourites() -> Vec<Character> {
    vec![
        Character::new("Frieren", "https://example.org/1", Birthday::new(Month::May, 2).unwrap()),
        Character::new("Fern", "https://example.org/2", Birthday::new(Month::June, 9).unwrap()),
    ]
}

fn quick(closed_window: usize, time_to_live_millis: u64, cool_down_millis: u64) -> ResilientCache {
    ResilientCache::with_policy(Policy {
        max_weight: 1000,
        time_to_live_millis,
        closed_window,
        half_open_window: 1,
        cool_down_millis,
    })
    .unwrap()
}

fn wait(millis: u64) {
    let start = Instant::now();
    while start.elapsed() < StdDuration::from_millis(millis) {
        std::hint::spin_loop();
    }
}

#[test]
fn should_melt_spares_only_the_unknown_user() {
    assert!(!should_melt(&Error::UserNotFound("alice".to_string())));
    assert!(should_melt(&Error::BadResponse));
    assert!(should_melt(&Error::RateLimited));
}

#[test]
fn settle_names_each_outcome() {
    assert_eq!(settle(Guarded::Passed(Ok(favourites()))), Ok(favourites()));
    assert_eq!(
        settle(Guarded::Passed(Err(Error::UserNotFound("alice".to_string())))),
        Err(FetchError::NotFound("alice".to_string()))
    );
    assert_eq!(
        settle(Guarded::Passed(Err(Error::BadResponse))),
        Err(FetchError::Upstream(UpstreamFailure::BadUpstreamResponse))
    );
    assert_eq!(
        settle(Guarded::Passed(Err(Error::RateLimited))),
        Err(FetchError::Upstream(UpstreamFailure::RateLimited))
    );
    assert_eq!(settle(Guarded::Rejected), Err(FetchError::BreakerRejected));
    assert_eq!(
        FetchError::from_fetch(Error::UserNotFound("bob".to_string())),
        FetchError::NotFound("bob".to_string())
    );
}

#[test]
fn entry_weight_counts_characters() {
    assert_eq!(entry_weight(&vec![]), 0);
    assert_eq!(entry_weight(&favourites()), 2);
}

#[test]
fn policy_is_checked() {
    assert!(ResilientCache::with_policy(Policy::standard()).is_some());
    let standard = Policy::standard();
    assert_eq!(standard.max_weight, 1024 * 1024);
    assert_eq!(standard.time_to_live_millis, 15 * 60 * 1000);
    assert!(ResilientCache::with_policy(Policy { closed_window: 0, ..standard }).is_none());
    assert!(ResilientCache::with_policy(Policy { half_open_window: 0, ..standard }).is_none());
    assert!(ResilientCache::with_policy(Policy {
        time_to_live_millis: 31_536_000_000_001,
        ..standard
    })
    .is_none());
    assert!(ResilientCache::with_policy(Policy {
        time_to_live_millis: 31_536_000_000_000,
        ..standard
    })
    .is_some());
    assert!(ResilientCache::with_policy(Policy { cool_down_millis: u64::MAX, ..standard }).is_none());
}

#[test]
fn a_miss_fetches_for_the_key_and_a_hit_does_not_fetch() {
    let cache = ResilientCache::new();
    let calls = Cell::new(0);
    let first = cache.get_or_fetch("alice", |key| {
        calls.set(calls.get() + 1);
        assert_eq!(key, "alice");
        Ok(favourites())
    });
    assert_eq!(first, Ok(Fetched { characters: favourites(), cache_hit: false }));
    let second = cache.get_or_fetch("alice", |_| {
        calls.set(calls.get() + 1);
        Err(Error::BadResponse)
    });
    assert_eq!(second, Ok(Fetched { characters: favourites(), cache_hit: true }));
    assert_eq!(calls.get(), 1);
    let other = cache.get_or_fetch("bob", |key| {
        calls.set(calls.get() + 1);
        Err(Error::UserNotFound(key.to_string()))
    });
    assert_eq!(other, Err(FetchError::NotFound("bob".to_string())));
    assert_eq!(calls.get(), 2);
}

#[test]
fn an_unknown_user_leaves_the_breaker_closed_and_the_cache_empty() {
    let cache = quick(2, 60_000, 60_000);
    let calls = Cell::new(0);
    for _ in 0..10 {
        let answer = cache.get_or_fetch("alice", |key| {
            calls.set(calls.get() + 1);
            Err(Error::UserNotFound(key.to_string()))
        });
        assert_eq!(answer, Err(FetchError::NotFound("alice".to_string())));
    }
    assert_eq!(calls.get(), 10);
    let answer = cache.get_or_fetch("alice", |_| Ok(favourites()));
    assert_eq!(answer, Ok(Fetched { characters: favourites(), cache_hit: false }));
}

#[test]
fn three_systemic_failures_open_the_breaker() {
    let cache = quick(2, 60_000, 60_000);
    let calls = Cell::new(0);
    for _ in 0..3 {
        let answer = cache.get_or_fetch("alice", |_| {
            calls.set(calls.get() + 1);
            Err(Error::BadResponse)
        });
        assert_eq!(
            answer,
            Err(FetchError::Upstream(UpstreamFailure::BadUpstreamResponse))
        );
    }
    assert_eq!(calls.get(), 3);
    let answer = cache.get_or_fetch("alice", |_| {
        calls.set(calls.get() + 1);
        Ok(favourites())
    });
    assert_eq!(answer, Err(FetchError::BreakerRejected));
    assert_eq!(calls.get(), 3);
}

#[test]
fn rate_limiting_counts_against_the_service_too() {
    let cache = quick(1, 60_000, 60_000);
    for _ in 0..2 {
        let answer = cache.get_or_fetch("alice", |_| Err(Error::RateLimited));
        assert_eq!(answer, Err(FetchError::Upstream(UpstreamFailure::RateLimited)));
    }
    assert_eq!(
        cache.get_or_fetch("alice", |_| Ok(favourites())),
        Err(FetchError::BreakerRejected)
    );
}

#[test]
fn a_hit_is_answered_while_the_breaker_is_open() {
    let cache = quick(1, 60_000, 60_000);
    assert!(cache.get_or_fetch("alice", |_| Ok(favourites())).is_ok());
    for _ in 0..3 {
        let _ = cache.get_or_fetch("bob", |_| Err(Error::BadResponse));
    }
    assert_eq!(
        cache.get_or_fetch("bob", |_| Ok(favourites())),
        Err(FetchError::BreakerRejected)
    );
    assert_eq!(
        cache.get_or_fetch("alice", |_| Err(Error::BadResponse)),
        Ok(Fetched { characters: favourites(), cache_hit: true })
    );
}

#[test]
fn an_entry_older_than_its_time_to_live_is_a_miss() {
    let cache = quick(100, 40, 60_000);
    let calls = Cell::new(0);
    let fetch = |_: &str| {
        calls.set(calls.get() + 1);
        Ok(favourites())
    };
    assert_eq!(cache.get_or_fetch("alice", fetch).unwrap().cache_hit, false);
    assert_eq!(cache.get_or_fetch("alice", fetch).unwrap().cache_hit, true);
    assert_eq!(calls.get(), 1);
    wait(120);
    assert_eq!(
        cache.get_or_fetch("alice", fetch),
        Ok(Fetched { characters: favourites(), cache_hit: false })
    );
    assert_eq!(calls.get(), 2);
}

#[test]
fn the_breaker_tries_again_after_its_cool_down() {
    let cache = quick(1, 60_000, 30);
    for _ in 0..2 {
        let _ = cache.get_or_fetch("alice", |_| Err(Error::BadResponse));
    }
    assert_eq!(
        cache.get_or_fetch("alice", |_| Ok(favourites())),
        Err(FetchError::BreakerRejected)
    );
    wait(100);
    assert_eq!(
        cache.get_or_fetch("alice", |_| Ok(favourites())),
        Ok(Fetched { characters: favourites(), cache_hit: false })
    );
}

#[test]
fn only_fetched_characters_are_stored() {
    assert_eq!(
        to_store(&Guarded::Passed(Ok(favourites()))),
        Some(&favourites())
    );
    assert_eq!(to_store(&Guarded::Passed(Ok(vec![]))), Some(&vec![]));
    assert_eq!(
        to_store(&Guarded::Passed(Err(Error::UserNotFound("alice".to_string())))),
        None
    );
    assert_eq!(to_store(&Guarded::Passed(Err(Error::BadResponse))), None);
    assert_eq!(to_store(&Guarded::Passed(Err(Error::RateLimited))), None);
    assert_eq!(to_store(&Guarded::Rejected), None);
}

#[test]
fn a_hit_is_the_answer_and_asks_nobody() {
    let cache = quick(1, 60_000, 60_000);
    let calls = Cell::new(0);
    let answer = cache.answer_after_lookup(Some(favourites()), "alice", |_| {
        calls.set(calls.get() + 1);
        Err(Error::BadResponse)
    });
    assert_eq!(answer, Ok(Fetched { characters: favourites(), cache_hit: true }));
    assert_eq!(calls.get(), 0);
    let answer = cache.answer_after_lookup(Some(vec![]), "bob", |_| {
        calls.set(calls.get() + 1);
        Ok(favourites())
    });
    assert_eq!(answer, Ok(Fetched { characters: vec![], cache_hit: true }));
    assert_eq!(calls.get(), 0);
    let stored = cache.get_or_fetch("bob", |_| {
        calls.set(calls.get() + 1);
        Err(Error::UserNotFound("bob".to_string()))
    });
    assert_eq!(stored, Err(FetchError::NotFound("bob".to_string())));
    assert_eq!(calls.get(), 1);
}

#[test]
fn a_miss_goes_on_to_the_fetch_and_stores_what_it_gave() {
    let cache = quick(100, 60_000, 60_000);
    let calls = Cell::new(0);
    let answer = cache.answer_after_lookup(None, "alice", |key| {
        calls.set(calls.get() + 1);
        assert_eq!(key, "alice");
        Ok(favourites())
    });
    assert_eq!(answer, Ok(Fetched { characters: favourites(), cache_hit: false }));
    assert_eq!(calls.get(), 1);
    let again = cache.get_or_fetch("alice", |_| {
        calls.set(calls.get() + 1);
        Err(Error::BadResponse)
    });
    assert_eq!(again, Ok(Fetched { characters: favourites(), cache_hit: true }));
    assert_eq!(calls.get(), 1);
}

#[test]
fn failures_and_rejections_store_nothing() {
    let cache = quick(2, 60_000, 60_000);
    let calls = Cell::new(0);
    for _ in 0..3 {
        let answer = cache.answer_after_lookup(None, "alice", |_| {
            calls.set(calls.get() + 1);
            Err(Error::BadResponse)
        });
        assert_eq!(
            answer,
            Err(FetchError::Upstream(UpstreamFailure::BadUpstreamResponse))
        );
    }
    let rejected = cache.answer_after_lookup(None, "alice", |_| {
        calls.set(calls.get() + 1);
        Ok(favourites())
    });
    assert_eq!(rejected, Err(FetchError::BreakerRejected));
    assert_eq!(calls.get(), 3);
    for failure in [
        Error::UserNotFound("alice".to_string()),
        Error::BadResponse,
        Error::RateLimited,
    ] {
        let fresh = quick(100, 60_000, 60_000);
        let expected = FetchError::from_fetch(failure.clone());
        assert_eq!(fresh.get_or_fetch("alice", |_| Err(failure)), Err(expected));
        assert_eq!(
            fresh.get_or_fetch("alice", |_| Ok(favourites())),
            Ok(Fetched { characters: favourites(), cache_hit: false })
        );
    }
}
