//! The Generic Cell Rate Algorithm as a pure function of the current time and
//! the theoretical arrival time (TAT) recorded for one key.
use vstd::prelude::*;

verus! {

/// `a - b`, held at zero instead of wrapping.
pub open spec fn sat_sub(a: int, b: int) -> int {
    if a >= b { a - b } else { 0 }
}

/// `a + b`, held at `u64::MAX` instead of wrapping.
pub open spec fn sat_add(a: int, b: int) -> int {
    if a + b <= u64::MAX { a + b } else { u64::MAX as int }
}

pub open spec fn max_of(a: int, b: int) -> int {
    if a >= b { a } else { b }
}

pub const NANOS_PER_SECOND: u64 = 1_000_000_000;

/// Nanoseconds between two conforming requests at `rate` requests per second,
/// rounded down.
pub open spec fn increment_of(rate: int) -> int {
    NANOS_PER_SECOND as int / rate
}

/// The burst allowance in nanoseconds, held at `u64::MAX`.
pub open spec fn tolerance_of(burst: int, increment: int) -> int {
    if burst * increment <= u64::MAX { burst * increment } else { u64::MAX as int }
}

/// The timing constants for `rate` requests per second and a burst of `burst`.
pub open spec fn gcra_of(rate: int, burst: int) -> Gcra {
    Gcra {
        increment: increment_of(rate) as u64,
        tolerance: tolerance_of(burst, increment_of(rate)) as u64,
    }
}

/// The timing constants of one limiter, in nanoseconds.
#[derive(Debug, Clone, Copy, PartialEq, Eq, Structural)]
pub struct Gcra {
    /// Spacing between two conforming requests of one key.
    pub increment: u64,
    /// How far the current time may lag behind the TAT and still conform.
    pub tolerance: u64,
}

impl Gcra {
    /// The timing constants for `rate_per_second` requests per second and a burst
    /// of `burst` requests, computed once in integer nanoseconds.
    pub fn new(rate_per_second: u64, burst: u64) -> (r: Gcra)
        requires
            rate_per_second > 0,
        ensures
            r == gcra_of(rate_per_second as int, burst as int),
    {
        let increment = NANOS_PER_SECOND / rate_per_second;
        assert((burst as u128) * (increment as u128) <= (u64::MAX as u128) * (
        NANOS_PER_SECOND as u128)) by (nonlinear_arith)
            requires
                increment <= NANOS_PER_SECOND,
        ;
        let product = (burst as u128) * (increment as u128);
        let tolerance = if product <= u64::MAX as u128 { product as u64 } else { u64::MAX };
        Gcra { increment, tolerance }
    }

    /// A request at `now` against the recorded `tat` conforms.
    pub open spec fn conforms_spec(self, now: u64, tat: u64) -> bool {
        now as int >= sat_sub(tat as int, self.tolerance as int)
    }

    /// The TAT recorded after a conforming request at `now` against `tat`.
    pub open spec fn next_tat_spec(self, now: u64, tat: u64) -> u64 {
        sat_add(max_of(now as int, tat as int), self.increment as int) as u64
    }

    /// The TAT recorded after a request at `now` against `tat`: advanced when the
    /// request conforms, left as it was when it is denied.
    pub open spec fn after_spec(self, now: u64, tat: u64) -> u64 {
        if self.conforms_spec(now, tat) { self.next_tat_spec(now, tat) } else { tat }
    }

    /// The TAT a request is judged against: the recorded one, or `now` for a key
    /// with no history.
    pub open spec fn effective_tat(now: u64, recorded: Option<u64>) -> u64 {
        match recorded {
            Some(t) => t,
            None => now,
        }
    }

    /// What a store records for `key`, if anything.
    pub open spec fn recorded_in<K>(store: Map<K, u64>, key: K) -> Option<u64> {
        if store.contains_key(key) { Some(store[key]) } else { None }
    }

    /// One decision at `now` for a key whose recorded TAT is `recorded`: whether
    /// the request is admitted, and the TAT to record for the key afterwards.
    pub open spec fn check_spec(self, now: u64, recorded: Option<u64>) -> (bool, u64) {
        let tat = Self::effective_tat(now, recorded);
        (self.conforms_spec(now, tat), self.after_spec(now, tat))
    }

    /// One request for `key` at `now` against a store of recorded TATs: whether it
    /// is admitted, and the store afterwards. A key with no entry is judged
    /// against `now`; only an admitted request writes to the store.
    pub open spec fn request<K>(self, store: Map<K, u64>, key: K, now: u64) -> (bool, Map<K, u64>) {
        let tat = if store.contains_key(key) { store[key] } else { now };
        let ok = self.conforms_spec(now, tat);
        (ok, if ok { store.insert(key, self.next_tat_spec(now, tat)) } else { store })
    }

    /// The store after `n` requests for `key`, all at the instant `now`, one after
    /// the other.
    pub open spec fn store_after<K>(self, store: Map<K, u64>, key: K, now: u64, n: nat) -> Map<K, u64>
        decreases n,
    {
        if n == 0 {
            store
        } else {
            self.store_after(self.request(store, key, now).1, key, now, (n - 1) as nat)
        }
    }

    /// The outcomes of `n` requests for `key`, all at the instant `now`, one after
    /// the other.
    pub open spec fn outcomes_at<K>(self, store: Map<K, u64>, key: K, now: u64, n: nat) -> Seq<bool>
        decreases n,
    {
        if n == 0 {
            Seq::empty()
        } else {
            let (ok, next) = self.request(store, key, now);
            seq![ok] + self.outcomes_at(next, key, now, (n - 1) as nat)
        }
    }

    pub fn conforms(&self, now: u64, tat: u64) -> (r: bool)
        ensures
            r == self.conforms_spec(now, tat),
    {
        now >= tat.saturating_sub(self.tolerance)
    }

    pub fn next_tat(&self, now: u64, tat: u64) -> (r: u64)
        ensures
            r == self.next_tat_spec(now, tat),
    {
        let base = if now >= tat { now } else { tat };
        base.saturating_add(self.increment)
    }

    /// Judges a request at `now` against the TAT recorded in `tat` and records the
    /// outcome there; `seen` receives the TAT as it was found.
    pub fn settle(&self, tat: &mut u64, now: u64, seen: &mut Option<u64>)
        ensures
            *final(seen) == Some(*old(tat)),
            *final(tat) == self.check_spec(now, Some(*old(tat))).1,
    {
        *seen = Some(*tat);
        let (_, next) = self.check(now, Some(*tat));
        *tat = next;
    }

    /// The TAT to record for a key with no history after a request at `now`.
    pub fn first_tat(&self, now: u64) -> (r: u64)
        ensures
            r == self.check_spec(now, None).1,
    {
        let (_, next) = self.check(now, None);
        next
    }

    /// One decision: whether a request at `now` is admitted, given what is
    /// recorded for its key, and the TAT to record afterwards.
    pub fn check(&self, now: u64, recorded: Option<u64>) -> (r: (bool, u64))
        ensures
            r.0 == self.conforms_spec(now, Self::effective_tat(now, recorded)),
            r.1 == self.after_spec(now, Self::effective_tat(now, recorded)),
            r == self.check_spec(now, recorded),
    {
        let tat = match recorded {
            Some(t) => t,
            None => now,
        };
        let ok = self.conforms(now, tat);
        if ok {
            (true, self.next_tat(now, tat))
        } else {
            (false, tat)
        }
    }
}

/// The first request for a key that the store has never admitted is admitted,
/// at any time.
pub proof fn lemma_first_use<K>(g: Gcra, store: Map<K, u64>, key: K, now: u64)
    requires
        !store.contains_key(key),
    ensures
        g.request(store, key, now).0,
{
}

/// A request against a store is decided by `check` on what the store records for
/// its key, and the store afterwards holds the TAT that `check` gives whenever the
/// request was admitted or the key already had an entry; otherwise it is unchanged.
pub proof fn lemma_check_matches_request<K>(g: Gcra, store: Map<K, u64>, key: K, now: u64)
    ensures
        ({
            let c = g.check_spec(now, Gcra::recorded_in(store, key));
            let (ok, after) = g.request(store, key, now);
            &&& ok == c.0
            &&& (ok || store.contains_key(key)) ==> after == store.insert(key, c.1)
            &&& !ok ==> after == store
        }),
{
    let c = g.check_spec(now, Gcra::recorded_in(store, key));
    if store.contains_key(key) && !c.0 {
        assert(store.insert(key, c.1) =~= store);
    }
}

/// A denied request leaves the store as it was; an admitted one records for its
/// key a TAT no earlier than the one it was judged against, nor than `now`.
pub proof fn lemma_store_update<K>(g: Gcra, store: Map<K, u64>, key: K, now: u64)
    ensures
        !g.request(store, key, now).0 ==> g.request(store, key, now).1 == store,
        g.request(store, key, now).0 ==> ({
            let after = g.request(store, key, now).1;
            &&& after.contains_key(key)
            &&& after[key] >= now
            &&& store.contains_key(key) ==> after[key] >= store[key]
        }),
{
}

/// A request for one key, at any time and whatever its outcome, does not change
/// the outcome of a request for another key, nor what is recorded for any other key.
pub proof fn lemma_key_independence<K>(g: Gcra, store: Map<K, u64>, a: K, ta: u64, b: K, tb: u64)
    requires
        a != b,
    ensures
        g.request(g.request(store, a, ta).1, b, tb).0 == g.request(store, b, tb).0,
        g.request(store, a, ta).1.remove(a) == store.remove(a),
{
    let s1 = g.request(store, a, ta).1;
    assert(s1.contains_key(b) == store.contains_key(b));
    assert(s1.contains_key(b) ==> s1[b] == store[b]);
    assert(s1.remove(a) =~= store.remove(a));
}

/// With no burst, after a request admitted at `t` the same key is denied until
/// one increment (the inverse of the rate) has passed, and admitted again from
/// then on, the boundary included. The key's entry before the request may be
/// anything, or missing.
pub proof fn lemma_steady_spacing(rate: int, recorded: Option<u64>, t: u64, later: u64)
    requires
        rate > 0,
        gcra_of(rate, 0).check_spec(t, recorded).0,
        t + increment_of(rate) <= u64::MAX,
    ensures
        ({
            let g = gcra_of(rate, 0);
            let tat = g.check_spec(t, recorded).1;
            &&& tat == t + increment_of(rate)
            &&& g.check_spec(later, Some(tat)).0 == (later >= t + increment_of(rate))
        }),
{
    let g = gcra_of(rate, 0);
    assert(0 <= increment_of(rate) <= NANOS_PER_SECOND) by (nonlinear_arith)
        requires
            rate > 0,
    {
        assert(NANOS_PER_SECOND as int / rate <= NANOS_PER_SECOND as int / 1);
    }
    assert(g.tolerance == 0);
}

/// Requests at one instant for a key whose TAT lies `k` increments ahead: the
/// first `burst + 1 - k` are admitted and every later one is denied.
proof fn lemma_burst_from<K>(g: Gcra, burst: int, store: Map<K, u64>, key: K, now: u64, k: int, n: nat)
    requires
        g.increment > 0,
        burst >= 0,
        g.tolerance == burst * g.increment,
        1 <= k <= burst + 1,
        store.contains_key(key),
        store[key] == now + k * g.increment,
        now + (burst + 1) * g.increment <= u64::MAX,
    ensures
        g.outcomes_at(store, key, now, n) =~= Seq::new(n, |i: int| i + k <= burst),
        g.store_after(store, key, now, n).contains_key(key),
        g.store_after(store, key, now, n)[key] == now + (if k + n <= burst + 1 {
            k + n
        } else {
            burst + 1
        }) * g.increment,
    decreases n,
{
    if n > 0 {
        let inc = g.increment as int;
        let (ok, next) = g.request(store, key, now);
        assert(k * inc - burst * inc == (k - burst) * inc) by (nonlinear_arith);
        if k <= burst {
            assert((k - burst) * inc <= 0) by (nonlinear_arith)
                requires
                    k <= burst,
                    inc > 0,
            ;
            assert((k + 1) * inc == k * inc + inc) by (nonlinear_arith);
            assert((k + 1) * inc <= (burst + 1) * inc) by (nonlinear_arith)
                requires
                    k <= burst,
                    inc > 0,
            ;
            assert(ok);
            assert(next[key] == now + (k + 1) * inc);
            lemma_burst_from(g, burst, next, key, now, k + 1, (n - 1) as nat);
        } else {
            assert((k - burst) * inc == inc) by (nonlinear_arith)
                requires
                    k == burst + 1,
            ;
            assert(!ok);
            lemma_burst_from(g, burst, next, key, now, k, (n - 1) as nat);
        }
        let rest = g.outcomes_at(next, key, now, (n - 1) as nat);
        assert(g.outcomes_at(store, key, now, n) == seq![ok] + rest);
    }
}

/// With a rate of `rate` and a burst of `burst`, of `n` requests issued at one
/// instant for a key with no history, or whose TAT is not later than that
/// instant, exactly the first `burst + 1` are admitted and every later one is
/// denied; the key's TAT then lies `burst + 1` increments past the instant.
pub proof fn lemma_burst_capacity<K>(rate: int, burst: int, store: Map<K, u64>, key: K, now: u64, n: nat)
    requires
        0 < rate <= NANOS_PER_SECOND,
        burst >= 0,
        !store.contains_key(key) || store[key] <= now,
        now + (burst + 1) * increment_of(rate) <= u64::MAX,
    ensures
        gcra_of(rate, burst).outcomes_at(store, key, now, n) =~= Seq::new(n, |i: int| i <= burst),
        n >= burst + 1 ==> gcra_of(rate, burst).store_after(store, key, now, n)[key] == now + (burst
            + 1) * increment_of(rate),
{
    let g = gcra_of(rate, burst);
    let inc = increment_of(rate);
    assert(1 <= inc <= NANOS_PER_SECOND) by (nonlinear_arith)
        requires
            0 < rate <= NANOS_PER_SECOND,
            inc == NANOS_PER_SECOND as int / rate,
    {
        assert(NANOS_PER_SECOND as int / rate >= NANOS_PER_SECOND as int / (NANOS_PER_SECOND as int));
        assert(NANOS_PER_SECOND as int / rate <= NANOS_PER_SECOND as int / 1);
    }
    assert(burst * inc <= (burst + 1) * inc && inc <= (burst + 1) * inc) by (nonlinear_arith)
        requires
            inc > 0,
            burst >= 0,
    ;
    assert(g.tolerance == burst * inc);
    if n > 0 {
        let (ok, next) = g.request(store, key, now);
        assert(ok);
        assert(1 * inc == inc);
        assert(next[key] == now + 1 * inc);
        lemma_burst_from(g, burst, next, key, now, 1, (n - 1) as nat);
        let rest = g.outcomes_at(next, key, now, (n - 1) as nat);
        assert(g.outcomes_at(store, key, now, n) == seq![ok] + rest);
    }
}

} // verus!
