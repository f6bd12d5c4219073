//! Per-caller request counting against a fixed threshold.

use crate::client::ClientKey;
use std::collections::HashMap;
use vstd::prelude::*;

verus! {

broadcast use vstd::std_specs::hash::group_hash_axioms;

/// The number of requests a caller may make when nothing else is configured.
pub const DEFAULT_THRESHOLD: u64 = 50;

/// The requests counted so far for `key`: nothing for a key never seen.
pub open spec fn count_of(table: Map<ClientKey, u64>, key: ClientKey) -> u64 {
    if table.contains_key(key) {
        table[key]
    } else {
        0
    }
}

/// A count of `n` requests as the table can hold it: the counter stops at
/// the largest 64-bit number instead of starting over.
pub open spec fn capped(n: int) -> u64 {
    if n <= 0 {
        0
    } else if n < u64::MAX {
        n as u64
    } else {
        u64::MAX
    }
}

/// The count that the next request of `key` receives.
pub open spec fn next_count(table: Map<ClientKey, u64>, key: ClientKey) -> u64 {
    capped(count_of(table, key) + 1)
}

/// The table after one more request of `key`.
pub open spec fn recorded(table: Map<ClientKey, u64>, key: ClientKey) -> Map<ClientKey, u64> {
    table.insert(key, next_count(table, key))
}

/// Whether a request that received `count` is still served.
pub open spec fn within(count: u64, threshold: u64) -> bool {
    count <= threshold
}

/// The table after the requests of `callers`, in their order.
pub open spec fn replayed(table: Map<ClientKey, u64>, callers: Seq<ClientKey>) -> Map<
    ClientKey,
    u64,
>
    decreases callers.len(),
{
    if callers.len() == 0 {
        table
    } else {
        recorded(replayed(table, callers.drop_last()), callers.last())
    }
}

/// How many of `callers` are `key`.
pub open spec fn occurrences(callers: Seq<ClientKey>, key: ClientKey) -> nat
    decreases callers.len(),
{
    if callers.len() == 0 {
        0
    } else if callers.last() == key {
        occurrences(callers.drop_last(), key) + 1
    } else {
        occurrences(callers.drop_last(), key)
    }
}

/// The request counters of all callers seen since the process started.
/// Nothing is ever removed or reset.
pub struct RateLimiter {
    threshold: u64,
    v4: HashMap<u32, u64>,
    v6: HashMap<u128, u64>,
}

impl View for RateLimiter {
    type V = Map<ClientKey, u64>;

    /// The counter of every caller seen so far.
    closed spec fn view(&self) -> Map<ClientKey, u64> {
        Map::new(
            |key: ClientKey|
                match key {
                    ClientKey::V4(a) => self.v4@.contains_key(a),
                    ClientKey::V6(a) => self.v6@.contains_key(a),
                },
            |key: ClientKey|
                match key {
                    ClientKey::V4(a) => self.v4@[a],
                    ClientKey::V6(a) => self.v6@[a],
                },
        )
    }
}

impl RateLimiter {
    /// The largest count that is still served.
    pub closed spec fn threshold(&self) -> u64 {
        self.threshold
    }

    /// A limiter that has seen no caller yet.
    pub fn new(threshold: u64) -> (limiter: RateLimiter)
        ensures
            limiter@ == Map::<ClientKey, u64>::empty(),
            limiter.threshold() == threshold,
    {
        let limiter = RateLimiter { threshold, v4: HashMap::new(), v6: HashMap::new() };
        assert(limiter@ =~= Map::<ClientKey, u64>::empty());
        limiter
    }

    /// The configured threshold.
    pub fn limit(&self) -> (threshold: u64)
        ensures
            threshold == self.threshold(),
    {
        self.threshold
    }

    /// The requests counted so far for `key`.
    pub fn count(&self, key: ClientKey) -> (count: u64)
        ensures
            count == count_of(self@, key),
    {
        let found = match key {
            ClientKey::V4(a) => self.v4.get(&a),
            ClientKey::V6(a) => self.v6.get(&a),
        };
        match found {
            Some(count) => *count,
            None => 0,
        }
    }

    /// Counts one more request of `key` and says whether it is still served:
    /// the new count, and whether it is within the threshold.
    pub fn record_and_check(&mut self, key: ClientKey) -> (verdict: (u64, bool))
        ensures
            final(self).threshold() == old(self).threshold(),
            final(self)@ == recorded(old(self)@, key),
            verdict.0 == next_count(old(self)@, key),
            verdict.1 == within(verdict.0, old(self).threshold()),
    {
        let prior: u64 = self.count(key);
        let count: u64 = if prior < u64::MAX {
            prior + 1
        } else {
            u64::MAX
        };
        match key {
            ClientKey::V4(a) => {
                self.v4.insert(a, count);
            },
            ClientKey::V6(a) => {
                self.v6.insert(a, count);
            },
        }
        assert(self@ =~= recorded(old(self)@, key));
        (count, count <= self.threshold)
    }
}

impl Default for RateLimiter {
    /// A limiter with the default threshold of 50 requests.
    fn default() -> (limiter: RateLimiter)
        ensures
            limiter@ == Map::<ClientKey, u64>::empty(),
            limiter.threshold() == DEFAULT_THRESHOLD,
    {
        RateLimiter::new(DEFAULT_THRESHOLD)
    }
}

/// The table never shrinks and no counter ever goes down: after a request,
/// every caller seen before is still there with at least its old count, and
/// the caller of the request is there with at least one.
pub proof fn lemma_counters_never_decrease(
    table: Map<ClientKey, u64>,
    key: ClientKey,
    other: ClientKey,
)
    ensures
        table.contains_key(other) ==> recorded(table, key).contains_key(other),
        count_of(recorded(table, key), other) >= count_of(table, other),
        recorded(table, key).contains_key(key),
        count_of(recorded(table, key), key) >= 1,
        recorded(table, key).dom() == table.dom().insert(key),
{
}

/// Once refused, always refused: a caller whose count has passed the
/// threshold is over it after every later request, its own or another's.
pub proof fn lemma_refusal_is_final(
    table: Map<ClientKey, u64>,
    callers: Seq<ClientKey>,
    key: ClientKey,
    threshold: u64,
)
    requires
        !within(count_of(table, key), threshold),
    ensures
        !within(count_of(replayed(table, callers), key), threshold),
        !within(next_count(replayed(table, callers), key), threshold),
    decreases callers.len(),
{
    if callers.len() > 0 {
        lemma_refusal_is_final(table, callers.drop_last(), key, threshold);
    }
}

/// Isolation, one request at a time: a request of one caller leaves the
/// counter of every other caller as it was.
pub proof fn lemma_request_leaves_others(
    table: Map<ClientKey, u64>,
    key: ClientKey,
    other: ClientKey,
)
    requires
        key != other,
    ensures
        recorded(table, key).contains_key(other) == table.contains_key(other),
        count_of(recorded(table, key), other) == count_of(table, other),
{
}

/// Isolation over any traffic: after any sequence of requests, the counter of
/// a caller is what it was before plus the number of its own requests (held at
/// the largest 64-bit number), whatever the other callers did in between.
pub proof fn lemma_counts_are_independent(
    table: Map<ClientKey, u64>,
    callers: Seq<ClientKey>,
    key: ClientKey,
)
    ensures
        count_of(replayed(table, callers), key) == capped(
            count_of(table, key) + occurrences(callers, key),
        ),
    decreases callers.len(),
{
    if callers.len() > 0 {
        lemma_counts_are_independent(table, callers.drop_last(), key);
    }
}

/// The threshold: in any traffic, the request at position `i` receives as its
/// count the requests its caller has made up to and including it, on top of
/// what the table held for that caller at the start. Below the largest 64-bit
/// number as threshold, it is served exactly when that count does not exceed
/// the threshold: with a threshold of 50 and a fresh table, a caller's first
/// 50 requests are served and its 51st and every later one are not.
pub proof fn lemma_served_up_to_threshold(
    table: Map<ClientKey, u64>,
    callers: Seq<ClientKey>,
    i: int,
    threshold: u64,
)
    requires
        0 <= i < callers.len(),
    ensures
        occurrences(callers.take(i + 1), callers[i]) >= 1,
        next_count(replayed(table, callers.take(i)), callers[i]) == capped(
            count_of(table, callers[i]) + occurrences(callers.take(i + 1), callers[i]),
        ),
        threshold < u64::MAX ==> (within(
            next_count(replayed(table, callers.take(i)), callers[i]),
            threshold,
        ) <==> count_of(table, callers[i]) + occurrences(callers.take(i + 1), callers[i])
            <= threshold),
{
    let key = callers[i];
    lemma_counts_are_independent(table, callers.take(i), key);
    assert(callers.take(i + 1).drop_last() =~= callers.take(i));
    assert(callers.take(i + 1).last() == key);
}

} // verus!
