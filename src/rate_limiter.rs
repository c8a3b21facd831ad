//! A per-key GCRA rate limiter over a concurrent map of theoretical arrival times.
use crate::clock::{Clock, SystemClock};
use crate::gcra::{gcra_of, Gcra};
use dashmap::DashMap;
use std::collections::hash_map::RandomState;
use std::hash::Hash;
use vstd::prelude::*;

verus! {

/// dashmap's sharded concurrent map, carried as an opaque value.
#[verifier::external_type_specification]
#[verifier::external_body]
#[verifier::reject_recursive_types(K)]
#[verifier::reject_recursive_types(V)]
#[verifier::reject_recursive_types(S)]
pub struct ExDashMap<K, V, S>(DashMap<K, V, S>);

/// Relies on DashMap::new: an empty map with the default hasher.
pub assume_specification<K: Eq + Hash, V>[ DashMap::<K, V, RandomState>::new ]() -> DashMap<K, V, RandomState>;

/// Why a limiter could not be built.
#[derive(Debug, Clone, Copy, PartialEq, Eq, Structural)]
pub enum RateLimiterError {
    /// The rate was not strictly positive.
    InvalidRate,
    /// The burst was negative.
    InvalidBurst,
}

impl RateLimiterError {
    /// A sentence that describes the error.
    pub fn message(&self) -> (r: &'static str)
        ensures
            *self == RateLimiterError::InvalidRate ==> r@ == "Rate must be positive"@,
            *self == RateLimiterError::InvalidBurst ==> r@ == "Burst must be non-negative"@,
    {
        match self {
            RateLimiterError::InvalidRate => "Rate must be positive",
            RateLimiterError::InvalidBurst => "Burst must be non-negative",
        }
    }
}

/// Admits or denies requests per key: a steady `rate` of requests per second,
/// with `burst` further requests allowed at once before throttling begins.
#[derive(Debug)]
#[verifier::reject_recursive_types(T)]
pub struct RateLimiter<T, C = SystemClock> where T: Hash + Eq + Clone, C: Clock {
    rate: i64,
    burst: i64,
    gcra: Gcra,
    client_state: DashMap<T, u64>,
    clock: C,
}

/// Relies on DashMap::entry, which keeps the shard that holds `key` write-locked
/// until the entry is dropped, with Entry::and_modify and Entry::or_insert_with
/// run under that lock, so that the TAT of `key` is read and replaced in one step
/// that no other caller on that key can interleave with. An entry that is found
/// is handed to `Gcra::settle`; for a missing one `Gcra::first_tat` gives the
/// value inserted. Returns the entry as it was found. What other callers wrote
/// before decides it, so nothing is promised of it.
#[verifier::external_body]
fn settle_entry<T: Hash + Eq>(store: &DashMap<T, u64>, key: T, gcra: &Gcra, now: u64) -> Option<u64> {
    let mut seen = None;
    store.entry(key).and_modify(|tat| gcra.settle(tat, now, &mut seen)).or_insert_with(
        || gcra.first_tat(now),
    );
    seen
}

impl<T, C> RateLimiter<T, C> where T: Hash + Eq + Clone, C: Clock {
    pub closed spec fn rate_spec(&self) -> int {
        self.rate as int
    }

    pub closed spec fn burst_spec(&self) -> int {
        self.burst as int
    }

    pub closed spec fn gcra_spec(&self) -> Gcra {
        self.gcra
    }

    /// The configuration is valid and the timing constants derive from it.
    pub open spec fn wf(&self) -> bool {
        &&& self.rate_spec() > 0
        &&& self.burst_spec() >= 0
        &&& self.gcra_spec() == gcra_of(self.rate_spec(), self.burst_spec())
    }

    /// A limiter for `rate_per_second` requests per second with a burst of
    /// `burst_capacity`, reading time from `clock`.
    pub fn new(rate_per_second: i64, burst_capacity: i64, clock: C) -> (r: Result<Self, RateLimiterError>)
        ensures
            rate_per_second <= 0 ==> r == Err::<Self, _>(RateLimiterError::InvalidRate),
            rate_per_second > 0 && burst_capacity < 0 ==> r == Err::<Self, _>(RateLimiterError::InvalidBurst),
            rate_per_second > 0 && burst_capacity >= 0 ==> (r matches Ok(l)
                && l.wf() && l.rate_spec() == rate_per_second && l.burst_spec() == burst_capacity
                && l.gcra_spec() == gcra_of(rate_per_second as int, burst_capacity as int)),
    {
        if rate_per_second <= 0 {
            return Err(RateLimiterError::InvalidRate);
        }
        if burst_capacity < 0 {
            return Err(RateLimiterError::InvalidBurst);
        }
        let gcra = Gcra::new(rate_per_second as u64, burst_capacity as u64);
        Ok(RateLimiter {
            rate: rate_per_second,
            burst: burst_capacity,
            gcra,
            client_state: DashMap::new(),
            clock,
        })
    }

    /// A limiter that reads time from a default-built clock.
    pub fn with_system_clock(rate: i64, burst: i64) -> (r: Result<Self, RateLimiterError>)
        where C: Default,
        ensures
            rate <= 0 ==> r == Err::<Self, _>(RateLimiterError::InvalidRate),
            rate > 0 && burst < 0 ==> r == Err::<Self, _>(RateLimiterError::InvalidBurst),
            rate > 0 && burst >= 0 ==> (r matches Ok(l)
                && l.wf() && l.rate_spec() == rate && l.burst_spec() == burst
                && l.gcra_spec() == gcra_of(rate as int, burst as int)),
    {
        Self::new(rate, burst, C::default())
    }

    /// The rate the limiter was built with, in requests per second.
    pub fn rate(&self) -> (r: i64)
        ensures
            r == self.rate_spec(),
    {
        self.rate
    }

    /// The burst the limiter was built with.
    pub fn burst(&self) -> (r: i64)
        ensures
            r == self.burst_spec(),
    {
        self.burst
    }

    /// Nanoseconds between two conforming requests of one key.
    pub fn increment_nanos(&self) -> (r: u64)
        ensures
            r == self.gcra_spec().increment,
    {
        self.gcra.increment
    }

    /// Nanoseconds by which the current time may lag behind a key's TAT.
    pub fn tolerance_nanos(&self) -> (r: u64)
        ensures
            r == self.gcra_spec().tolerance,
    {
        self.gcra.tolerance
    }

    /// Decides whether a request for `client_id` may proceed now, and records an
    /// admitted one.
    ///
    /// The read of the key's TAT and the write of its new TAT happen as one step,
    /// so concurrent callers on one key are decided as if one after the other. The
    /// decision is `Gcra::check` on the clock's reading and on the entry that step
    /// found, and the TAT written there is the one `Gcra::check` gives for the same
    /// inputs (through `Gcra::settle` or `Gcra::first_tat`). Never fails.
    pub fn is_allowed(&self, client_id: T) -> (r: Result<bool, RateLimiterError>)
        ensures
            r is Ok,
            self.gcra_spec().tolerance == u64::MAX ==> r == Ok::<bool, RateLimiterError>(true),
    {
        let now = self.clock.now();
        let seen = settle_entry(&self.client_state, client_id, &self.gcra, now);
        let (allowed, _) = self.gcra.check(now, seen);
        Ok(allowed)
    }
}

} // verus!
