//! Fetching through a cache and a circuit breaker.
//!
//! A [`ResilientCache`] answers from its cache where it can. Where it cannot,
//! it asks the upstream service through a circuit breaker, which stops
//! asking for a while once the service keeps failing. The cache is a
//! `moka::sync::Cache` and the breaker a `recloser::Recloser`; what either
//! holds at a given moment depends on the clock and on other callers, so the
//! contracts here say what is done with whatever they answer.

use crate::character::Character;
use crate::error::Error;
use vstd::prelude::*;

verus! {

/// The weight of the cache at which it starts to give entries up: the
/// number of characters it holds, over all users.
pub const MAX_CACHE_WEIGHT: u64 = 1_048_576;

/// The time an entry stays in the cache: a quarter of an hour, in
/// milliseconds.
pub const TIME_TO_LIVE_MILLIS: u64 = 900_000;

/// The longest time to live the cache accepts: a thousand years of 365 days,
/// in milliseconds.
pub const MAX_TIME_TO_LIVE_MILLIS: u64 = 31_536_000_000_000;

/// The longest cool-down the breaker accepts, in milliseconds.
pub const MAX_COOL_DOWN_MILLIS: u64 = 31_536_000_000_000;

/// `moka::sync::Cache`, a concurrent cache that bounds its weight and the age
/// of its entries. Nothing is read from it but through the wrappers below.
#[verifier::external_type_specification]
#[verifier::external_body]
#[verifier::reject_recursive_types(K)]
#[verifier::reject_recursive_types(V)]
#[verifier::reject_recursive_types(S)]
pub struct ExCache<K, V, S>(moka::sync::Cache<K, V, S>);

/// `recloser::Recloser`, a concurrent circuit breaker. Nothing is read from
/// it but through the wrappers below.
#[verifier::external_type_specification]
#[verifier::external_body]
pub struct ExRecloser(recloser::Recloser);

/// The weight that a cache was made to hold: the `max_capacity` handed to
/// its builder.
pub uninterp spec fn cache_max_weight(cache: moka::sync::Cache<String, Vec<Character>>) -> u64;

/// The time to live that a cache was made with, in milliseconds: the
/// `time_to_live` handed to its builder.
pub uninterp spec fn cache_time_to_live_millis(
    cache: moka::sync::Cache<String, Vec<Character>>,
) -> u64;

/// The number of calls that a breaker was made to look back on while closed:
/// the `closed_len` handed to its builder.
pub uninterp spec fn breaker_closed_window(breaker: recloser::Recloser) -> usize;

/// The number of trial calls that a breaker was made to look back on while
/// half open: the `half_open_len` handed to its builder.
pub uninterp spec fn breaker_half_open_window(breaker: recloser::Recloser) -> usize;

/// The time that a breaker was made to stay open, in milliseconds: the
/// `open_wait` handed to its builder.
pub uninterp spec fn breaker_cool_down_millis(breaker: recloser::Recloser) -> u64;

/// A systemic failure of the upstream service.
#[derive(Debug, Clone, Copy, PartialEq, Eq, Structural)]
pub enum UpstreamFailure {
    /// The service answered with something other than the data asked for.
    BadUpstreamResponse,
    /// The service refused the request because too many were made.
    RateLimited,
}

/// Why a lookup gave no characters.
#[derive(Debug, Clone, PartialEq, Eq)]
pub enum FetchError {
    /// The upstream service knows no user of that name.
    NotFound(String),
    /// The breaker is open: the service was not asked.
    BreakerRejected,
    /// The upstream service failed.
    Upstream(UpstreamFailure),
}

/// The failure a caller of the cache sees for a failure of the fetch.
pub open spec fn surfaced(err: Error) -> FetchError {
    match err {
        Error::UserNotFound(name) => FetchError::NotFound(name),
        Error::BadResponse => FetchError::Upstream(UpstreamFailure::BadUpstreamResponse),
        Error::RateLimited => FetchError::Upstream(UpstreamFailure::RateLimited),
    }
}

impl FetchError {
    /// The failure a caller of the cache sees for a failure of the fetch: the
    /// same kind, with the same user name.
    pub fn from_fetch(err: Error) -> (seen: FetchError)
        ensures
            seen == surfaced(err),
    {
        match err {
            Error::UserNotFound(name) => FetchError::NotFound(name),
            Error::BadResponse => FetchError::Upstream(UpstreamFailure::BadUpstreamResponse),
            Error::RateLimited => FetchError::Upstream(UpstreamFailure::RateLimited),
        }
    }
}

/// What came of asking upstream through the breaker.
#[derive(Debug, PartialEq, Eq)]
pub enum Guarded {
    /// The breaker let the call through, and this is what the fetch returned.
    Passed(Result<Vec<Character>, Error>),
    /// The breaker is open and the fetch was not called.
    Rejected,
}

/// What a lookup answers for each outcome of asking upstream.
pub open spec fn settled(outcome: Guarded) -> Result<Vec<Character>, FetchError> {
    match outcome {
        Guarded::Passed(Ok(characters)) => Ok(characters),
        Guarded::Passed(Err(err)) => Err(surfaced(err)),
        Guarded::Rejected => Err(FetchError::BreakerRejected),
    }
}

/// What a lookup hands to the cache for each outcome of asking upstream: the
/// characters where the fetch gave some, and nothing where it failed or the
/// breaker did not let the call through.
pub open spec fn stored(outcome: Guarded) -> Option<Vec<Character>> {
    match outcome {
        Guarded::Passed(Ok(characters)) => Some(characters),
        _ => None,
    }
}

/// What a lookup that had to ask upstream hands to the cache: the characters
/// that the fetch gave. A failed fetch and a call that the breaker rejected
/// leave the cache as it was.
pub fn to_store(outcome: &Guarded) -> (entry: Option<&Vec<Character>>)
    ensures
        entry is Some <==> stored(*outcome) is Some,
        entry matches Some(characters) ==> stored(*outcome) == Some(*characters),
{
    match outcome {
        Guarded::Passed(Ok(characters)) => Some(characters),
        _ => None,
    }
}

/// The answer to a lookup that had to ask upstream: the characters where the
/// fetch gave some, the fetch's failure where it failed, and
/// `BreakerRejected` where the breaker did not let the call through.
pub fn settle(outcome: Guarded) -> (answer: Result<Vec<Character>, FetchError>)
    ensures
        answer == settled(outcome),
{
    match outcome {
        Guarded::Passed(Ok(characters)) => Ok(characters),
        Guarded::Passed(Err(err)) => Err(FetchError::from_fetch(err)),
        Guarded::Rejected => Err(FetchError::BreakerRejected),
    }
}

/// Whether a failed fetch counts against the upstream service in the circuit
/// breaker. An unknown user does not: the service answered properly.
pub fn should_melt(err: &Error) -> (melt: bool)
    ensures
        melt == err.is_systemic(),
{
    match err {
        Error::UserNotFound(_) => false,
        _ => true,
    }
}

/// The weight of a cache entry: the number of its characters, or the largest
/// weight there is where they are more.
pub fn entry_weight(characters: &Vec<Character>) -> (weight: u32)
    ensures
        weight == (if characters@.len() <= u32::MAX {
            characters@.len() as int
        } else {
            u32::MAX as int
        }),
{
    let count = characters.len();
    if count <= 4_294_967_295 {
        count as u32
    } else {
        4_294_967_295
    }
}

/// How a [`ResilientCache`] bounds its cache and trips its breaker.
#[derive(Debug, Clone, Copy, PartialEq, Eq, Structural)]
pub struct Policy {
    /// The number of characters the cache may hold before it gives entries
    /// up, least recently used first.
    pub max_weight: u64,
    /// The age at which an entry is no longer answered from, in milliseconds.
    pub time_to_live_millis: u64,
    /// The number of calls the breaker looks back on while closed. It trips
    /// once that many calls were made and half of the last that many failed.
    pub closed_window: usize,
    /// The number of trial calls the breaker looks back on while half open.
    pub half_open_window: usize,
    /// The time the breaker stays open before it lets a trial call through,
    /// in milliseconds.
    pub cool_down_millis: u64,
}

impl Policy {
    /// The cache and the breaker accept the policy: the windows are not
    /// empty and the times not beyond what they can count.
    pub open spec fn is_usable(self) -> bool {
        &&& self.time_to_live_millis <= MAX_TIME_TO_LIVE_MILLIS
        &&& self.cool_down_millis <= MAX_COOL_DOWN_MILLIS
        &&& self.closed_window >= 1
        &&& self.half_open_window >= 1
    }

    /// The policy of the service: room for 1 048 576 characters, entries that
    /// live a quarter of an hour, and a breaker that looks back on 100 calls,
    /// tries 10 and cools down for half a minute.
    pub open spec fn standard_policy() -> Policy {
        Policy {
            max_weight: MAX_CACHE_WEIGHT,
            time_to_live_millis: TIME_TO_LIVE_MILLIS,
            closed_window: 100,
            half_open_window: 10,
            cool_down_millis: 30_000,
        }
    }

    /// The policy of the service: room for 1 048 576 characters, entries that
    /// live a quarter of an hour, and a breaker that looks back on 100 calls,
    /// tries 10 and cools down for half a minute.
    pub fn standard() -> (policy: Policy)
        ensures
            policy.is_usable(),
            policy == Policy::standard_policy(),
    {
        Policy {
            max_weight: MAX_CACHE_WEIGHT,
            time_to_live_millis: TIME_TO_LIVE_MILLIS,
            closed_window: 100,
            half_open_window: 10,
            cool_down_millis: 30_000,
        }
    }
}

/// The characters a lookup found, and where.
#[derive(Debug, Clone, PartialEq, Eq)]
pub struct Fetched {
    /// The user's favourite characters.
    pub characters: Vec<Character>,
    /// Whether they came from the cache, without asking upstream.
    pub cache_hit: bool,
}

/// A cache of users' favourite characters in front of an upstream service
/// that a circuit breaker guards.
pub struct ResilientCache {
    cache: moka::sync::Cache<String, Vec<Character>>,
    breaker: recloser::Recloser,
}

impl ResilientCache {
    #[verifier::type_invariant]
    spec fn made_usable(&self) -> bool {
        self.policy().is_usable()
    }

    /// The policy that the cache and the breaker were made with.
    pub closed spec fn policy(&self) -> Policy {
        Policy {
            max_weight: cache_max_weight(self.cache),
            time_to_live_millis: cache_time_to_live_millis(self.cache),
            closed_window: breaker_closed_window(self.breaker),
            half_open_window: breaker_half_open_window(self.breaker),
            cool_down_millis: breaker_cool_down_millis(self.breaker),
        }
    }

    /// A cache with the standard policy.
    pub fn new() -> (cache: ResilientCache)
        ensures
            cache.policy() == Policy::standard_policy(),
    {
        let policy = Policy::standard();
        ResilientCache {
            cache: bounded_cache(policy.max_weight, policy.time_to_live_millis),
            breaker: breaker_with(
                policy.closed_window,
                policy.half_open_window,
                policy.cool_down_millis,
            ),
        }
    }

    /// A cache with the given policy, if the policy is usable.
    pub fn with_policy(policy: Policy) -> (cache: Option<ResilientCache>)
        ensures
            cache is Some <==> policy.is_usable(),
            cache matches Some(made) ==> made.policy() == policy,
    {
        if policy.time_to_live_millis <= MAX_TIME_TO_LIVE_MILLIS && policy.cool_down_millis
            <= MAX_COOL_DOWN_MILLIS && policy.closed_window >= 1 && policy.half_open_window >= 1 {
            Some(
                ResilientCache {
                    cache: bounded_cache(policy.max_weight, policy.time_to_live_millis),
                    breaker: breaker_with(
                        policy.closed_window,
                        policy.half_open_window,
                        policy.cool_down_millis,
                    ),
                },
            )
        } else {
            None
        }
    }

    /// The answer to a lookup for the user `key`, once the cache has answered
    /// with `hit`.
    ///
    /// A hit is the answer as it is: neither the breaker nor `fetch` is
    /// asked, and nothing is stored. On a miss `fetch` is called for `key`
    /// through the breaker; what [`to_store`] makes of the outcome is stored
    /// under `key`, and what [`settle`] makes of it is the answer. So
    /// characters that `fetch` returns are stored and returned, a failure of
    /// `fetch` is handed on as it is and stores nothing, and while the
    /// breaker is open the answer is `BreakerRejected` and nothing is stored.
    pub fn answer_after_lookup<F>(&self, hit: Option<Vec<Character>>, key: &str, fetch: F) -> (answer:
        Result<Fetched, FetchError>)
        where
            F: FnOnce(&str) -> Result<Vec<Character>, Error>,
        requires
            fetch.requires((key,)),
        ensures
            hit matches Some(characters) ==> answer == Ok::<Fetched, FetchError>(
                (Fetched { characters, cache_hit: true }),
            ),
            hit is None ==> match answer {
                Ok(fetched) => !fetched.cache_hit && fetch.ensures((key,), Ok(fetched.characters)),
                Err(seen) => seen == FetchError::BreakerRejected || exists|err: Error|
                    #[trigger] fetch.ensures((key,), Err(err)) && seen == surfaced(err),
            },
    {
        match hit {
            Some(characters) => Ok(Fetched { characters, cache_hit: true }),
            None => {
                proof {
                    use_type_invariant(self);
                }
                let outcome = call_guarded(&self.breaker, key, fetch);
                match to_store(&outcome) {
                    Some(characters) => {
                        store(&self.cache, key, characters);
                    },
                    None => {},
                }
                match settle(outcome) {
                    Ok(characters) => Ok(Fetched { characters, cache_hit: false }),
                    Err(seen) => Err(seen),
                }
            },
        }
    }

    /// The characters of the user `key`: the cache is asked for `key`, and
    /// [`ResilientCache::answer_after_lookup`] makes the answer of what it
    /// holds.
    ///
    /// Whether the cache holds a live entry and whether the breaker lets the
    /// call through is theirs to decide. Whatever they decide, an answer
    /// that is not a cache hit comes from `fetch`, asked for `key` and
    /// nothing else.
    pub fn get_or_fetch<F>(&self, key: &str, fetch: F) -> (answer: Result<Fetched, FetchError>)
        where
            F: FnOnce(&str) -> Result<Vec<Character>, Error>,
        requires
            fetch.requires((key,)),
        ensures
            answer matches Ok(fetched) ==> fetched.cache_hit || fetch.ensures(
                (key,),
                Ok(fetched.characters),
            ),
            answer matches Err(seen) ==> seen == FetchError::BreakerRejected || exists|err: Error|
                #[trigger] fetch.ensures((key,), Err(err)) && seen == surfaced(err),
    {
        let hit = cached(&self.cache, key);
        self.answer_after_lookup(hit, key, fetch)
    }
}

/// Builds a `moka::sync::Cache` with `moka::sync::CacheBuilder`: weighed by
/// [`entry_weight`], bounded by `max_weight`, with `time_to_live_millis` as
/// the time to live. `build` panics on a time to live beyond a thousand
/// years, which the precondition leaves out.
///
/// Claimed, not proved: the cache keeps the two limits it was made with.
/// Nothing is claimed of what it holds or gives up.
#[verifier::external_body]
fn bounded_cache(max_weight: u64, time_to_live_millis: u64) -> (cache: moka::sync::Cache<
    String,
    Vec<Character>,
>)
    requires
        time_to_live_millis <= MAX_TIME_TO_LIVE_MILLIS,
    ensures
        cache_max_weight(cache) == max_weight,
        cache_time_to_live_millis(cache) == time_to_live_millis,
{
    moka::sync::Cache::builder()
        .weigher(|_key: &String, characters: &Vec<Character>| entry_weight(characters))
        .max_capacity(max_weight)
        .time_to_live(std::time::Duration::from_millis(time_to_live_millis))
        .build()
}

/// Builds a `recloser::Recloser` with `recloser::RecloserBuilder`, with the
/// given window lengths and cool-down and the builder's error rate of one
/// half. The windows are not empty: a breaker with an empty window panics
/// when it records a call.
///
/// Claimed, not proved: the breaker keeps the windows and the cool-down it
/// was made with. Nothing is claimed of the state it is in.
#[verifier::external_body]
fn breaker_with(closed_window: usize, half_open_window: usize, cool_down_millis: u64) -> (breaker:
    recloser::Recloser)
    requires
        closed_window >= 1,
        half_open_window >= 1,
        cool_down_millis <= MAX_COOL_DOWN_MILLIS,
    ensures
        breaker_closed_window(breaker) == closed_window,
        breaker_half_open_window(breaker) == half_open_window,
        breaker_cool_down_millis(breaker) == cool_down_millis,
{
    recloser::Recloser::custom()
        .closed_len(closed_window)
        .half_open_len(half_open_window)
        .open_wait(std::time::Duration::from_millis(cool_down_millis))
        .build()
}

/// Calls `moka::sync::Cache::get`. What comes back depends on what was
/// stored, on the clock and on the cache's evictions: nothing is claimed.
#[verifier::external_body]
fn cached(cache: &moka::sync::Cache<String, Vec<Character>>, key: &str) -> (hit: Option<
    Vec<Character>,
>) {
    cache.get(key)
}

/// Calls `moka::sync::Cache::insert` with copies of the key and the
/// characters.
#[verifier::external_body]
fn store(cache: &moka::sync::Cache<String, Vec<Character>>, key: &str, characters: &Vec<Character>) {
    cache.insert(key.to_string(), characters.clone())
}

/// Calls `recloser::Recloser::call_with` with [`should_melt`] as the
/// predicate and `fetch`, asked for `key`, as the call.
///
/// Claimed, not proved: where the breaker reports a result of the call, it
/// is one that `fetch` returned for `key`. Whether it lets the call through
/// is the breaker's to decide. A breaker with a window of length zero
/// panics when it records the call, which the precondition leaves out.
#[verifier::external_body]
fn call_guarded<F>(breaker: &recloser::Recloser, key: &str, fetch: F) -> (outcome: Guarded)
    where
        F: FnOnce(&str) -> Result<Vec<Character>, Error>,
    requires
        fetch.requires((key,)),
        breaker_closed_window(*breaker) >= 1,
        breaker_half_open_window(*breaker) >= 1,
    ensures
        outcome matches Guarded::Passed(result) ==> fetch.ensures((key,), result),
{
    match breaker.call_with(|err: &Error| should_melt(err), || fetch(key)) {
        Ok(characters) => Guarded::Passed(Ok(characters)),
        Err(recloser::Error::Inner(err)) => Guarded::Passed(Err(err)),
        Err(recloser::Error::Rejected) => Guarded::Rejected,
    }
}

} // verus!
