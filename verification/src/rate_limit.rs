//! Failure tracking per origin address in a rolling time window.
//!
//! An origin is a network address in numeric form. Times are nanoseconds on
//! the limiter's own monotonic clock.

use std::collections::HashMap;
use std::time::Instant;
use vstd::prelude::*;
use vstd::std_specs::hash::*;

use crate::clock::{elapsed, elapsed_between, nanos_since, start};

verus! {

/// Failures within one window that block an origin.
pub const MAX_FAILURES: u32 = 5;

/// Length of the window: fifteen minutes.
pub const WINDOW: u128 = 900_000_000_000;

/// Time between two purges of expired windows: five minutes.
pub const CLEANUP_INTERVAL: u128 = 300_000_000_000;

/// The network address that a request is attributed to.
#[derive(Clone, Copy, Debug, PartialEq, Eq, Structural)]
pub enum Origin {
    /// An IPv4 address, as its 32 bits.
    V4(u32),
    /// An IPv6 address, as its 128 bits.
    V6(u128),
}

/// The failures of one origin and the start of the window they fall in.
#[derive(Clone, Copy, Debug)]
pub struct FailureWindow {
    pub failures: u32,
    pub window_start: u128,
}

impl FailureWindow {
    /// Whether the window is still open at `now`.
    pub open spec fn live(&self, now: u128) -> bool {
        elapsed(now, self.window_start) < WINDOW
    }

    /// Computes [`FailureWindow::live`].
    pub fn is_live(&self, now: u128) -> (r: bool)
        ensures
            r == self.live(now),
    {
        elapsed_between(now, self.window_start) < WINDOW
    }
}

/// The windows of all origins.
pub type Windows = Map<Origin, FailureWindow>;

/// Whether `origin` is blocked at `now`: it has a window that is still open
/// and holds at least [`MAX_FAILURES`] failures.
pub open spec fn blocked<K>(m: Map<K, FailureWindow>, origin: K, now: u128) -> bool {
    m.contains_key(origin) && m[origin].live(now) && m[origin].failures >= MAX_FAILURES
}

/// `n + 1`, or `n` where that does not fit.
pub open spec fn bumped(n: u32) -> u32 {
    if n < u32::MAX {
        (n + 1) as u32
    } else {
        n
    }
}

/// The windows after a failure of `origin` at `now`: a missing or expired
/// window starts anew at `now` with no failures, then the failure is counted.
pub open spec fn after_failure<K>(m: Map<K, FailureWindow>, origin: K, now: u128) -> Map<
    K,
    FailureWindow,
> {
    if m.contains_key(origin) && m[origin].live(now) {
        m.insert(
            origin,
            FailureWindow {
                failures: bumped(m[origin].failures),
                window_start: m[origin].window_start,
            },
        )
    } else {
        m.insert(origin, FailureWindow { failures: 1, window_start: now })
    }
}

/// The windows that are still open at `now`.
pub open spec fn unexpired<K>(m: Map<K, FailureWindow>, now: u128) -> Map<K, FailureWindow> {
    Map::new(|k: K| m.contains_key(k) && m[k].live(now), |k: K| m[k])
}

/// The windows after one failure of `origin` at each of `times`, in order.
pub open spec fn after_failures(m: Windows, origin: Origin, times: Seq<u128>) -> Windows
    decreases times.len(),
{
    if times.len() == 0 {
        m
    } else {
        after_failure(after_failures(m, origin, times.drop_last()), origin, times.last())
    }
}

/// Calls `HashMap::retain` with the test [`FailureWindow::is_live`]: the map
/// keeps exactly the entries whose window is still open at `now`.
#[verifier::external_body]
fn retain_live(entries: &mut HashMap<u128, FailureWindow>, now: u128)
    ensures
        final(entries)@ == unexpired(old(entries)@, now),
{
    entries.retain(|_, e| e.is_live(now));
}

/// Looks `key` up in one table and applies the blocking rule.
fn table_blocked(table: &HashMap<u128, FailureWindow>, key: u128, now: u128) -> (r: bool)
    ensures
        r == blocked(table@, key, now),
{
    broadcast use group_hash_axioms;

    match table.get(&key) {
        Some(entry) => entry.is_live(now) && entry.failures >= MAX_FAILURES,
        None => false,
    }
}

/// Counts a failure of `key` at `now` in one table.
fn table_record(table: &mut HashMap<u128, FailureWindow>, key: u128, now: u128)
    ensures
        final(table)@ == after_failure(old(table)@, key, now),
{
    broadcast use group_hash_axioms;

    let next = match table.get(&key) {
        Some(entry) => {
            if entry.is_live(now) {
                FailureWindow {
                    failures: if entry.failures < u32::MAX {
                        entry.failures + 1
                    } else {
                        entry.failures
                    },
                    window_start: entry.window_start,
                }
            } else {
                FailureWindow { failures: 1, window_start: now }
            }
        },
        None => FailureWindow { failures: 1, window_start: now },
    };
    table.insert(key, next);
}

/// The windows of two tables as one map: the first holds the IPv4 origins,
/// the second the IPv6 origins.
pub open spec fn merged(v4: Map<u128, FailureWindow>, v6: Map<u128, FailureWindow>) -> Windows {
    Map::new(
        |o: Origin|
            match o {
                Origin::V4(a) => v4.contains_key(a as u128),
                Origin::V6(a) => v6.contains_key(a),
            },
        |o: Origin|
            match o {
                Origin::V4(a) => v4[a as u128],
                Origin::V6(a) => v6[a],
            },
    )
}

/// Tracks failed authentications per origin and decides admission.
pub struct RateLimiter {
    v4: HashMap<u128, FailureWindow>,
    v6: HashMap<u128, FailureWindow>,
    epoch: Instant,
}

impl View for RateLimiter {
    type V = Windows;

    closed spec fn view(&self) -> Windows {
        merged(self.v4@, self.v6@)
    }
}

impl RateLimiter {
    /// A limiter that has seen no failure. Its clock starts now.
    pub fn new() -> (r: Self)
        ensures
            r@ == Map::<Origin, FailureWindow>::empty(),
    {
        let r = RateLimiter { v4: HashMap::new(), v6: HashMap::new(), epoch: start() };
        proof {
            assert(r@ =~= Map::<Origin, FailureWindow>::empty());
        }
        r
    }

    /// The window of `origin`, if it has one.
    pub fn window_of(&self, origin: Origin) -> (r: Option<FailureWindow>)
        ensures
            r == (if self@.contains_key(origin) {
                Some(self@[origin])
            } else {
                None
            }),
    {
        broadcast use group_hash_axioms;

        let found = match origin {
            Origin::V4(a) => self.v4.get(&(a as u128)),
            Origin::V6(a) => self.v6.get(&a),
        };
        match found {
            Some(entry) => Some(*entry),
            None => None,
        }
    }

    /// The present moment on this limiter's clock: the nanoseconds that have
    /// passed since the limiter was made. The number depends on when the call
    /// is made, so nothing is promised of it; what is done with it is stated
    /// for every moment by the functions that take the moment as an argument.
    pub(crate) fn now(&self) -> (now: u128) {
        nanos_since(&self.epoch)
    }

    /// Whether a request of `origin` at `now` is to be turned away.
    pub fn is_blocked_at(&self, origin: Origin, now: u128) -> (r: bool)
        ensures
            r == blocked(self@, origin, now),
    {
        match origin {
            Origin::V4(a) => table_blocked(&self.v4, a as u128, now),
            Origin::V6(a) => table_blocked(&self.v6, a, now),
        }
    }

    /// Whether a request of `origin` is to be turned away now. Whatever the
    /// clock says, the answer is the blocking rule at some moment.
    pub fn is_blocked(&self, origin: Origin) -> (r: bool)
        ensures
            exists|now: u128| r == #[trigger] blocked(self@, origin, now),
    {
        let now = self.now();
        self.is_blocked_at(origin, now)
    }

    /// Counts a failed authentication of `origin` at `now`.
    pub fn record_failure_at(&mut self, origin: Origin, now: u128)
        ensures
            final(self)@ == after_failure(old(self)@, origin, now),
    {
        match origin {
            Origin::V4(a) => table_record(&mut self.v4, a as u128, now),
            Origin::V6(a) => table_record(&mut self.v6, a, now),
        }
        proof {
            assert(final(self)@ =~= after_failure(old(self)@, origin, now));
        }
    }

    /// Counts a failed authentication of `origin` now.
    pub fn record_failure(&mut self, origin: Origin)
        ensures
            exists|now: u128| final(self)@ == #[trigger] after_failure(old(self)@, origin, now),
    {
        let now = self.now();
        self.record_failure_at(origin, now);
    }

    /// Forgets every failure of `origin` after a successful authentication.
    pub fn record_success(&mut self, origin: Origin)
        ensures
            final(self)@ == old(self)@.remove(origin),
    {
        broadcast use group_hash_axioms;

        match origin {
            Origin::V4(a) => {
                self.v4.remove(&(a as u128));
            },
            Origin::V6(a) => {
                self.v6.remove(&a);
            },
        }
        proof {
            assert(final(self)@ =~= old(self)@.remove(origin));
        }
    }

    /// Drops the windows that have expired at `now`. Admission never depends
    /// on this having run.
    pub fn purge_expired_at(&mut self, now: u128)
        ensures
            final(self)@ == unexpired(old(self)@, now),
    {
        retain_live(&mut self.v4, now);
        retain_live(&mut self.v6, now);
        proof {
            assert(final(self)@ =~= unexpired(old(self)@, now));
        }
    }

    /// Drops the windows that have expired by now.
    pub fn purge_expired(&mut self)
        ensures
            exists|now: u128| final(self)@ == #[trigger] unexpired(old(self)@, now),
    {
        let now = self.now();
        self.purge_expired_at(now);
    }
}

/// A success clears the origin: right after it the origin is not blocked,
/// whatever the time.
pub proof fn lemma_success_unblocks(m: Windows, origin: Origin, now: u128)
    ensures
        !blocked(m.remove(origin), origin, now),
{
}

/// A failure after the window has fully elapsed starts a fresh window with a
/// count of one.
pub proof fn lemma_failure_after_window_restarts(m: Windows, origin: Origin, now: u128)
    requires
        m.contains_key(origin),
        elapsed(now, m[origin].window_start) >= WINDOW,
    ensures
        after_failure(m, origin, now)[origin] == (FailureWindow { failures: 1, window_start: now }),
{
}

/// Whether `times` is a run of moments, in order, that all fall into the
/// window opened by the first of them.
pub open spec fn within_one_window(times: Seq<u128>) -> bool {
    forall|i: int| 0 <= i < times.len() ==> times[0] <= #[trigger] times[i] && times[i] - times[0]
        < WINDOW
}

/// Consecutive failures of an origin that starts clean, all within one window,
/// are counted one by one from the first: after `n` of them the count is `n`.
pub proof fn lemma_failures_accumulate(m: Windows, origin: Origin, times: Seq<u128>)
    requires
        times.len() > 0,
        times.len() < u32::MAX,
        within_one_window(times),
        !m.contains_key(origin) || !m[origin].live(times[0]),
    ensures
        after_failures(m, origin, times).contains_key(origin),
        after_failures(m, origin, times)[origin] == (FailureWindow {
            failures: times.len() as u32,
            window_start: times[0],
        }),
    decreases times.len(),
{
    if times.len() > 1 {
        let init = times.drop_last();
        assert(within_one_window(init)) by {
            assert forall|i: int| 0 <= i < init.len() implies init[0] <= #[trigger] init[i]
                && init[i] - init[0] < WINDOW by {
                assert(init[i] == times[i]);
                assert(init[0] == times[0]);
            }
        }
        lemma_failures_accumulate(m, origin, init);
        let last = times[times.len() - 1];
        assert(times[0] <= last && last - times[0] < WINDOW);
        assert(init[0] == times[0]);
        assert(after_failures(m, origin, init)[origin].live(last));
    } else {
        assert(times.drop_last().len() == 0);
        assert(after_failures(m, origin, times.drop_last()) == m);
        assert(times.last() == times[0]);
    }
}

/// Consecutive failures of an origin that starts clean, all within one window,
/// block it exactly from the [`MAX_FAILURES`]-th on, not before, for as long as
/// the window is open.
pub proof fn lemma_blocked_exactly_at_max(
    m: Windows,
    origin: Origin,
    times: Seq<u128>,
    now: u128,
)
    requires
        times.len() > 0,
        times.len() < u32::MAX,
        within_one_window(times),
        !m.contains_key(origin) || !m[origin].live(times[0]),
        elapsed(now, times[0]) < WINDOW,
    ensures
        blocked(after_failures(m, origin, times), origin, now) == (times.len() >= MAX_FAILURES),
{
    lemma_failures_accumulate(m, origin, times);
}

} // verus!
