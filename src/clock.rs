//! Time sources: a single operation that reads the current time in nanoseconds.
use std::sync::atomic::{AtomicU64, Ordering};
use std::sync::Arc;
use vstd::prelude::*;

verus! {

/// A source of the current time, as an integer count of nanoseconds.
///
/// A limiter reads it once per decision; the unit and epoch must stay the same
/// for the lifetime of the limiter.
pub trait Clock: Send + Sync {
    fn now(&self) -> u64;
}

/// The wall clock: nanoseconds since the Unix epoch.
#[derive(Debug, Clone, Copy)]
pub struct SystemClock;

impl Default for SystemClock {
    fn default() -> (r: Self)
        ensures
            r == SystemClock,
    {
        SystemClock
    }
}

/// Relies on std::time::SystemTime::elapsed, read from the Unix epoch; a wall
/// clock set before the epoch reads as zero.
#[verifier::external_body]
fn nanos_since_epoch() -> u64 {
    std::time::UNIX_EPOCH.elapsed().map_or(0, |d| d.as_nanos() as u64)
}

impl Clock for SystemClock {
    fn now(&self) -> u64 {
        nanos_since_epoch()
    }
}

/// A clock that moves only when told to. Clones share one time value, so a test
/// keeps a clone and drives the clock that a limiter reads.
#[derive(Debug, Clone)]
pub struct TestClock {
    time: Arc<AtomicU64>,
}

impl TestClock {
    /// A clock that reads `initial` nanoseconds.
    pub fn new(initial: u64) -> (r: Self) {
        TestClock { time: Arc::new(AtomicU64::new(initial)) }
    }

    /// Moves the shared time forward by `nanos`, wrapping past `u64::MAX`.
    pub fn advance(&self, nanos: u64) {
        self.time.fetch_add(nanos, Ordering::Relaxed);
    }

    /// Sets the shared time to `nanos`.
    pub fn set(&self, nanos: u64) {
        self.time.store(nanos, Ordering::Relaxed);
    }
}

impl Clock for TestClock {
    fn now(&self) -> u64 {
        self.time.load(Ordering::Relaxed)
    }
}

} // verus!
