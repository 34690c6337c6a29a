//! The decisions of one history request: admission, cache lookup, and what
//! the outcome of a fetch does to the cache and the limiter.
//!
//! Fetching itself is the caller's business. It happens between
//! [`decide_at`] answering [`Admission::Fetch`] and [`settle_at`].

use vstd::prelude::*;
use vstd::string::*;

use crate::cache::{fresh, key_of, stored, AppCache, CacheEntry, HISTORY_TTL};
use crate::clock::elapsed;
use crate::login::{well_formed, LoginRequest};
use crate::models::{
    clone_history, records, ErrorResponse, HistoryEntry, HistoryRecord, HistoryResponse,
};
use crate::rate_limit::{after_failure, blocked, Origin, RateLimiter, Windows};

verus! {

/// Status of an answer to a blocked origin.
pub const STATUS_TOO_MANY_REQUESTS: u16 = 429;

/// Status of an answer to a malformed request.
pub const STATUS_BAD_REQUEST: u16 = 400;

/// Status of an answer after a failed fetch.
pub const STATUS_INTERNAL_ERROR: u16 = 500;

/// What is decided before any fetch.
#[derive(Debug)]
pub enum Admission {
    /// The origin is blocked; nothing else was looked at.
    Blocked,
    /// The credentials are malformed.
    Invalid,
    /// The cache holds a fresh history list: no fetch is needed.
    Cached(Vec<HistoryEntry>),
    /// The history has to be fetched and then stored under this key.
    Fetch(String),
}

/// Mathematical content of an [`Admission`].
pub enum Verdict {
    Blocked,
    Invalid,
    Cached(Seq<HistoryRecord>),
    Fetch(Seq<char>),
}

impl View for Admission {
    type V = Verdict;

    open spec fn view(&self) -> Verdict {
        match self {
            Admission::Blocked => Verdict::Blocked,
            Admission::Invalid => Verdict::Invalid,
            Admission::Cached(data) => Verdict::Cached(records(data@)),
            Admission::Fetch(key) => Verdict::Fetch(key@),
        }
    }
}

/// The admission rule: a blocked origin is turned away first; then malformed
/// credentials are refused; then the cache is asked under the digest of the
/// account identifier; only a miss leads to a fetch.
pub open spec fn verdict(
    windows: Windows,
    history: Map<Seq<char>, CacheEntry<Seq<HistoryRecord>>>,
    origin: Origin,
    email: Seq<char>,
    password: Seq<char>,
    limiter_now: u128,
    cache_now: u128,
) -> Verdict {
    if blocked(windows, origin, limiter_now) {
        Verdict::Blocked
    } else if !well_formed(email, password) {
        Verdict::Invalid
    } else {
        match fresh(history, key_of(email), cache_now) {
            Some(data) => Verdict::Cached(data),
            None => Verdict::Fetch(key_of(email)),
        }
    }
}

/// Decides what to do with a request of `origin` that carries `login`, at the
/// moment `limiter_now` of the limiter's clock and `cache_now` of the cache's.
/// Unless a fetch is needed, the credentials are wiped before returning.
pub fn decide_at(
    limiter: &RateLimiter,
    cache: &AppCache,
    origin: Origin,
    login: &mut LoginRequest,
    limiter_now: u128,
    cache_now: u128,
) -> (r: Admission)
    ensures
        r@ == verdict(
            limiter@,
            cache.history(),
            origin,
            old(login).email@,
            old(login).password@,
            limiter_now,
            cache_now,
        ),
        r is Fetch ==> *final(login) == *old(login),
        !(r is Fetch) ==> final(login).email@.len() == 0 && final(login).password@.len() == 0,
{
    if limiter.is_blocked_at(origin, limiter_now) {
        login.zeroize();
        return Admission::Blocked;
    }
    if login.validate().is_err() {
        login.zeroize();
        return Admission::Invalid;
    }
    let key = AppCache::cache_key(login.email.as_str());
    match cache.get_history_at(key.as_str(), cache_now) {
        Some(data) => {
            login.zeroize();
            Admission::Cached(data)
        },
        None => Admission::Fetch(key),
    }
}

/// Decides what to do with a request of `origin` that carries `login`, now.
/// Whatever the clocks say, the decision is the admission rule at some pair
/// of moments.
pub fn decide(limiter: &RateLimiter, cache: &AppCache, origin: Origin, login: &mut LoginRequest) -> (r:
    Admission)
    ensures
        exists|limiter_now: u128, cache_now: u128|
            r@ == #[trigger] verdict(
                limiter@,
                cache.history(),
                origin,
                old(login).email@,
                old(login).password@,
                limiter_now,
                cache_now,
            ),
        r is Fetch ==> *final(login) == *old(login),
        !(r is Fetch) ==> final(login).email@.len() == 0 && final(login).password@.len() == 0,
{
    let limiter_now = limiter.now();
    let cache_now = cache.now();
    decide_at(limiter, cache, origin, login, limiter_now, cache_now)
}

/// What is sent back to the caller.
#[derive(Debug)]
pub enum Answer {
    History(HistoryResponse),
    Failure { status: u16, body: ErrorResponse },
}

/// The answer that refuses a blocked origin.
pub fn too_many_attempts() -> (r: Answer)
    ensures
        r matches Answer::Failure { status, body } && status == STATUS_TOO_MANY_REQUESTS
            && body.error@ == "Too many failed attempts. Try again later."@,
{
    Answer::Failure {
        status: STATUS_TOO_MANY_REQUESTS,
        body: ErrorResponse {
            error: String::from_str("Too many failed attempts. Try again later."),
        },
    }
}

/// The answer that refuses malformed credentials.
pub fn invalid_request() -> (r: Answer)
    ensures
        r matches Answer::Failure { status, body } && status == STATUS_BAD_REQUEST && body.error@
            == "Invalid request"@,
{
    Answer::Failure {
        status: STATUS_BAD_REQUEST,
        body: ErrorResponse { error: String::from_str("Invalid request") },
    }
}

/// The answer after a failed fetch. It says nothing of the cause.
pub fn fetch_failed() -> (r: Answer)
    ensures
        r matches Answer::Failure { status, body } && status == STATUS_INTERNAL_ERROR
            && body.error@ == "Failed to fetch watch history"@,
{
    Answer::Failure {
        status: STATUS_INTERNAL_ERROR,
        body: ErrorResponse { error: String::from_str("Failed to fetch watch history") },
    }
}

/// Records the outcome of the fetch that [`decide_at`] asked for and builds
/// the answer. A fetched list clears the origin's failures and is stored under
/// `key`; a failure counts against the origin and leaves the cache as it is.
pub fn settle_at(
    limiter: &mut RateLimiter,
    cache: &mut AppCache,
    origin: Origin,
    key: String,
    outcome: Result<Vec<HistoryEntry>, String>,
    limiter_now: u128,
    cache_now: u128,
) -> (r: Answer)
    ensures
        final(cache).profiles() == old(cache).profiles(),
        match outcome {
            Ok(data) => {
                &&& final(limiter)@ == old(limiter)@.remove(origin)
                &&& final(cache).history() == old(cache).history().insert(
                    key@,
                    stored(records(data@), cache_now, HISTORY_TTL),
                )
                &&& r matches Answer::History(response) && records(response.data@) == records(
                    data@,
                )
            },
            Err(_) => {
                &&& final(limiter)@ == after_failure(old(limiter)@, origin, limiter_now)
                &&& final(cache).history() == old(cache).history()
                &&& r matches Answer::Failure { status, body } && status == STATUS_INTERNAL_ERROR
                    && body.error@ == "Failed to fetch watch history"@
            },
        },
{
    match outcome {
        Ok(data) => {
            limiter.record_success(origin);
            cache.set_history_at(key, clone_history(&data), cache_now);
            Answer::History(HistoryResponse { data })
        },
        Err(_) => {
            limiter.record_failure_at(origin, limiter_now);
            fetch_failed()
        },
    }
}

/// Records the outcome of a fetch as of now; see [`settle_at`].
pub fn settle(
    limiter: &mut RateLimiter,
    cache: &mut AppCache,
    origin: Origin,
    key: String,
    outcome: Result<Vec<HistoryEntry>, String>,
) -> (r: Answer)
    ensures
        final(cache).profiles() == old(cache).profiles(),
        match outcome {
            Ok(data) => {
                &&& final(limiter)@ == old(limiter)@.remove(origin)
                &&& exists|cache_now: u128|
                    final(cache).history() == old(cache).history().insert(
                        key@,
                        #[trigger] stored(records(data@), cache_now, HISTORY_TTL),
                    )
                &&& r matches Answer::History(response) && records(response.data@) == records(
                    data@,
                )
            },
            Err(_) => {
                &&& exists|limiter_now: u128|
                    final(limiter)@ == #[trigger] after_failure(old(limiter)@, origin, limiter_now)
                &&& final(cache).history() == old(cache).history()
                &&& r matches Answer::Failure { status, body } && status == STATUS_INTERNAL_ERROR
                    && body.error@ == "Failed to fetch watch history"@
            },
        },
{
    let limiter_now = limiter.now();
    let cache_now = cache.now();
    settle_at(limiter, cache, origin, key, outcome, limiter_now, cache_now)
}

/// After a fetched list was stored for an account, the next well-formed
/// request for that account from an origin that is not blocked is answered
/// from the cache, with that list, for as long as no more than the time to
/// live has passed: no second fetch is made.
pub proof fn lemma_second_request_hits_cache(
    windows: Windows,
    history: Map<Seq<char>, CacheEntry<Seq<HistoryRecord>>>,
    origin: Origin,
    email: Seq<char>,
    password: Seq<char>,
    data: Seq<HistoryRecord>,
    stored_at: u128,
    limiter_now: u128,
    cache_now: u128,
)
    requires
        well_formed(email, password),
        !blocked(windows, origin, limiter_now),
        elapsed(cache_now, stored_at) <= HISTORY_TTL,
    ensures
        verdict(
            windows,
            history.insert(key_of(email), stored(data, stored_at, HISTORY_TTL)),
            origin,
            email,
            password,
            limiter_now,
            cache_now,
        ) == Verdict::Cached(data),
{
}

} // verus!
