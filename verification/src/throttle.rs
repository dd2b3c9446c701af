//! Token-bucket rate limits: per username for logins, process-wide for
//! the external barcode lookup.
//!
//! A bucket holds at most `capacity` and refills continuously at a fixed
//! rate; each attempt takes one token or is refused. Quantities are
//! integers: one token is `TOKEN_UNITS` units and time is counted in
//! milliseconds, so a rate of `r` milli-tokens per minute adds exactly
//! `r` units per millisecond. Settings (rates per minute and bursts) are
//! kept in thousandths of a token; reading them from their (floating
//! point) text is the caller's job.

use vstd::hash_map::StringHashMap;
use vstd::prelude::*;

verus! {

/// Units in one token.
pub const TOKEN_UNITS: u64 = 60_000_000;

/// Units in one thousandth of a token.
pub const MILLI_UNITS: u64 = 60_000;

/// Largest burst, in thousandths of a token, a bucket can be given (the
/// most whose units fit in a `u64`).
pub const MAX_BURST: u64 = 300_000_000_000_000;

/// Largest refill rate, in thousandths of a token per minute.
pub const MAX_RATE_PER_MIN: u64 = 18_446_744_073_709_551_615;

/// `std::time::Instant`, a reading of the monotonic clock.
#[verifier::external_type_specification]
#[verifier::external_body]
pub struct ExInstant(std::time::Instant);

/// `Instant::now`: the current reading of the monotonic clock. Nothing is
/// stated of the value: it depends on the time.
#[verifier::external_body]
fn instant_now() -> std::time::Instant {
    std::time::Instant::now()
}

/// `Instant::elapsed`, in whole milliseconds (`Duration::as_millis`).
/// Nothing is stated of the value: it depends on the time.
#[verifier::external_body]
fn elapsed_millis(origin: &std::time::Instant) -> u128 {
    origin.elapsed().as_millis()
}

/// Milliseconds since `origin`, saturating at `u64::MAX`.
fn millis_since(origin: &std::time::Instant) -> u64 {
    let ms = elapsed_millis(origin);
    if ms > u64::MAX as u128 {
        u64::MAX
    } else {
        ms as u64
    }
}

/// A token bucket. `tokens` and `capacity` are in units, `rate` in units
/// per millisecond, `last_ms` the time of the last refill.
#[derive(Debug, Clone, Copy, PartialEq, Eq, Structural)]
pub struct TokenBucket {
    pub tokens: u64,
    pub capacity: u64,
    pub rate: u64,
    pub last_ms: u64,
}

impl TokenBucket {
    /// Well-formed: never more tokens than the capacity, which stays
    /// within `MAX_BURST` thousandths of a token.
    pub open spec fn wf(self) -> bool {
        self.tokens <= self.capacity && self.capacity <= MAX_BURST * MILLI_UNITS
    }

    /// The bucket refilled up to time `now`: the time elapsed since the
    /// last refill (none if the clock reads earlier) times the rate is
    /// added, up to the capacity.
    pub open spec fn refilled(self, now: u64) -> TokenBucket {
        let elapsed: int = if now >= self.last_ms {
            now - self.last_ms
        } else {
            0
        };
        let t = self.tokens + elapsed * self.rate;
        TokenBucket {
            tokens: if t < self.capacity {
                t as u64
            } else {
                self.capacity
            },
            capacity: self.capacity,
            rate: self.rate,
            last_ms: now,
        }
    }

    /// One attempt at time `now`: refill, then take a token if there is
    /// one. The new bucket and whether the attempt is allowed.
    pub open spec fn attempt(self, now: u64) -> (TokenBucket, bool) {
        let r = self.refilled(now);
        if r.tokens >= TOKEN_UNITS {
            (TokenBucket { tokens: (r.tokens - TOKEN_UNITS) as u64, ..r }, true)
        } else {
            (r, false)
        }
    }

    /// A full bucket of `burst` thousandths of a token refilling at
    /// `milli_per_min` thousandths of a token per minute, last refilled at
    /// `now`.
    pub open spec fn spec_full(burst: u64, milli_per_min: u64, now: u64) -> TokenBucket {
        TokenBucket {
            tokens: (burst * MILLI_UNITS) as u64,
            capacity: (burst * MILLI_UNITS) as u64,
            rate: milli_per_min,
            last_ms: now,
        }
    }

    pub fn full(burst: u64, milli_per_min: u64, now: u64) -> (b: TokenBucket)
        requires
            burst <= MAX_BURST,
        ensures
            b == TokenBucket::spec_full(burst, milli_per_min, now),
            b.wf(),
    {
        let cap = burst * MILLI_UNITS;
        TokenBucket { tokens: cap, capacity: cap, rate: milli_per_min, last_ms: now }
    }

    /// A bucket with `tokens` of `burst` whole tokens left.
    pub fn with_tokens(tokens: u64, burst: u64, milli_per_min: u64, now: u64) -> (b: TokenBucket)
        requires
            tokens <= burst <= MAX_BURST / 1000,
        ensures
            b.tokens == tokens * TOKEN_UNITS,
            b.capacity == burst * TOKEN_UNITS,
            b.rate == milli_per_min,
            b.last_ms == now,
            b.wf(),
    {
        TokenBucket {
            tokens: tokens * TOKEN_UNITS,
            capacity: burst * TOKEN_UNITS,
            rate: milli_per_min,
            last_ms: now,
        }
    }

    fn refill_at(&mut self, now: u64)
        requires
            old(self).wf(),
        ensures
            *final(self) == old(self).refilled(now),
            final(self).wf(),
    {
        let elapsed = now.saturating_sub(self.last_ms);
        let t = match elapsed.checked_mul(self.rate) {
            Some(add) => self.tokens.saturating_add(add),
            None => u64::MAX,
        };
        self.tokens = if t < self.capacity {
            t
        } else {
            self.capacity
        };
        self.last_ms = now;
    }

    /// Take one token at time `now`, after refilling; false when the
    /// bucket holds less than one token.
    pub fn try_take_at(&mut self, now: u64) -> (ok: bool)
        requires
            old(self).wf(),
        ensures
            (*final(self), ok) == old(self).attempt(now),
            final(self).wf(),
    {
        self.refill_at(now);
        if self.tokens >= TOKEN_UNITS {
            self.tokens = self.tokens - TOKEN_UNITS;
            true
        } else {
            false
        }
    }

    /// Fill the bucket back to capacity at time `now`.
    pub fn restore_at(&mut self, now: u64)
        requires
            old(self).wf(),
        ensures
            *final(self) == (TokenBucket { tokens: old(self).capacity, last_ms: now, ..*old(self) }),
            final(self).wf(),
    {
        self.tokens = self.capacity;
        self.last_ms = now;
    }
}

/// A limit setting in thousandths: the value given, else `default`; then
/// at least one whole unit (1000) and at most `max`.
pub open spec fn setting_value(raw: Option<u64>, default: u64, max: u64) -> u64 {
    let v = match raw {
        Some(n) => n,
        None => default,
    };
    if v < 1000 {
        1000
    } else if v > max {
        max
    } else {
        v
    }
}

/// Apply one limit setting, in thousandths.
pub fn limit_setting(raw: Option<u64>, default: u64, max: u64) -> (v: u64)
    requires
        1000 <= max,
    ensures
        v == setting_value(raw, default, max),
        1000 <= v <= max,
{
    let n = match raw {
        Some(n) => n,
        None => default,
    };
    if n < 1000 {
        1000
    } else if n > max {
        max
    } else {
        n
    }
}

/// Default login attempts refilled per minute (5), in thousandths.
pub const LOGIN_PER_MIN: u64 = 5000;

/// Default login burst (10), in thousandths.
pub const LOGIN_BURST: u64 = 10000;

/// The per-username login throttle.
pub struct LoginThrottle {
    pub per_min: u64,
    pub burst: u64,
    pub buckets: StringHashMap<TokenBucket>,
    pub origin: std::time::Instant,
}

impl LoginThrottle {
    pub open spec fn wf(self) -> bool {
        &&& 1000 <= self.per_min <= MAX_RATE_PER_MIN
        &&& 1000 <= self.burst <= MAX_BURST
        &&& forall|k: Seq<char>| #[trigger]
            self.buckets@.contains_key(k) ==> self.buckets@[k].wf() && self.buckets@[k].capacity
                == self.burst * MILLI_UNITS && self.buckets@[k].rate == self.per_min
    }

    /// The bucket a user starts with at time `now`: full.
    pub open spec fn fresh(self, now: u64) -> TokenBucket {
        TokenBucket::spec_full(self.burst, self.per_min, now)
    }

    /// The bucket `name` has at time `now`: its own, or a fresh one.
    pub open spec fn bucket_at(self, name: Seq<char>, now: u64) -> TokenBucket {
        if self.buckets@.contains_key(name) {
            self.buckets@[name]
        } else {
            self.fresh(now)
        }
    }

    /// A throttle refilling `per_min` attempts a minute, up to `burst`.
    pub fn new(per_min: u64, burst: u64) -> (t: LoginThrottle)
        requires
            1000 <= per_min <= MAX_RATE_PER_MIN,
            1000 <= burst <= MAX_BURST,
        ensures
            t.wf(),
            t.per_min == per_min,
            t.burst == burst,
            t.buckets@ == Map::<Seq<char>, TokenBucket>::empty(),
    {
        LoginThrottle { per_min, burst, buckets: StringHashMap::new(), origin: instant_now() }
    }

    /// A throttle configured from the `RACKLOG_LOGIN_ATTEMPTS_PER_MIN` and
    /// `RACKLOG_LOGIN_BURST` values as read, in thousandths (defaults 5 and
    /// 10, at least 1).
    pub fn from_settings(per_min: Option<u64>, burst: Option<u64>) -> (t: LoginThrottle)
        ensures
            t.wf(),
            t.per_min == setting_value(per_min, LOGIN_PER_MIN, MAX_RATE_PER_MIN),
            t.burst == setting_value(burst, LOGIN_BURST, MAX_BURST),
            t.buckets@ == Map::<Seq<char>, TokenBucket>::empty(),
    {
        let p = limit_setting(per_min, LOGIN_PER_MIN, MAX_RATE_PER_MIN);
        let b = limit_setting(burst, LOGIN_BURST, MAX_BURST);
        LoginThrottle::new(p, b)
    }

    /// Charge a login attempt against `username`'s bucket at time `now`
    /// (milliseconds). True when the attempt may proceed. Only that
    /// user's bucket changes.
    pub fn allow_attempt_at(&mut self, username: &str, now: u64) -> (ok: bool)
        requires
            old(self).wf(),
        ensures
            final(self).wf(),
            final(self).per_min == old(self).per_min,
            final(self).burst == old(self).burst,
            ok == old(self).bucket_at(username@, now).attempt(now).1,
            final(self).buckets@ == old(self).buckets@.insert(
                username@,
                old(self).bucket_at(username@, now).attempt(now).0,
            ),
    {
        let mut b = match self.buckets.get(username) {
            Some(b) => *b,
            None => TokenBucket::full(self.burst, self.per_min, now),
        };
        let ok = b.try_take_at(now);
        self.buckets.insert(username.to_owned(), b);
        ok
    }

    /// Charge a login attempt now.
    pub fn allow_attempt(&mut self, username: &str) -> (ok: bool)
        requires
            old(self).wf(),
        ensures
            final(self).wf(),
            final(self).per_min == old(self).per_min,
            final(self).burst == old(self).burst,
            exists|now: u64|
                #![trigger old(self).bucket_at(username@, now)]
                ok == old(self).bucket_at(username@, now).attempt(now).1 && final(self).buckets@
                    == old(self).buckets@.insert(
                    username@,
                    old(self).bucket_at(username@, now).attempt(now).0,
                ),
    {
        let now = millis_since(&self.origin);
        self.allow_attempt_at(username, now)
    }

    /// Refill `username`'s bucket at time `now` after a successful login,
    /// so a user is not punished for an earlier typo.
    pub fn note_success_at(&mut self, username: &str, now: u64)
        requires
            old(self).wf(),
        ensures
            final(self).wf(),
            final(self).per_min == old(self).per_min,
            final(self).burst == old(self).burst,
            final(self).buckets@ == old(self).buckets@.insert(
                username@,
                TokenBucket {
                    tokens: old(self).bucket_at(username@, now).capacity,
                    last_ms: now,
                    ..old(self).bucket_at(username@, now)
                },
            ),
    {
        let mut b = match self.buckets.get(username) {
            Some(b) => *b,
            None => TokenBucket::full(self.burst, self.per_min, now),
        };
        b.restore_at(now);
        self.buckets.insert(username.to_owned(), b);
    }

    /// Refill `username`'s bucket now.
    pub fn note_success(&mut self, username: &str)
        requires
            old(self).wf(),
        ensures
            final(self).wf(),
            final(self).per_min == old(self).per_min,
            final(self).burst == old(self).burst,
            exists|now: u64|
                #![trigger old(self).bucket_at(username@, now)]
                final(self).buckets@ == old(self).buckets@.insert(
                    username@,
                    TokenBucket {
                        tokens: old(self).bucket_at(username@, now).capacity,
                        last_ms: now,
                        ..old(self).bucket_at(username@, now)
                    },
                ),
    {
        let now = millis_since(&self.origin);
        self.note_success_at(username, now);
    }

    /// Drop every bucket, so each user starts with a fresh quota.
    pub fn reset_for_tests(&mut self)
        requires
            old(self).wf(),
        ensures
            final(self).wf(),
            final(self).per_min == old(self).per_min,
            final(self).burst == old(self).burst,
            final(self).buckets@ == Map::<Seq<char>, TokenBucket>::empty(),
    {
        self.buckets.clear();
    }
}

/// Default lookups refilled per minute (30), in thousandths.
pub const LOOKUP_PER_MIN: u64 = 30000;

/// The process-wide limit on external barcode lookups.
pub struct LookupLimiter {
    pub bucket: TokenBucket,
    pub origin: std::time::Instant,
}

impl LookupLimiter {
    pub open spec fn wf(self) -> bool {
        self.bucket.wf()
    }

    /// A limiter configured from the `RACKLOG_LOOKUP_RATE_PER_MIN` and
    /// `RACKLOG_LOOKUP_BURST` values as read, in thousandths: 30 a minute by
    /// default, the burst defaulting to the rate, each at least 1. It
    /// starts full.
    pub fn from_settings(per_min: Option<u64>, burst: Option<u64>) -> (l: LookupLimiter)
        ensures
            l.wf(),
            ({
                let p = setting_value(per_min, LOOKUP_PER_MIN, MAX_RATE_PER_MIN);
                let b = setting_value(burst, p, MAX_BURST);
                l.bucket == TokenBucket::spec_full(b, p, 0)
            }),
    {
        let p = limit_setting(per_min, LOOKUP_PER_MIN, MAX_RATE_PER_MIN);
        let b = limit_setting(burst, p, MAX_BURST);
        LookupLimiter { bucket: TokenBucket::full(b, p, 0), origin: instant_now() }
    }

    /// Take one lookup token now; false when the limit is exhausted.
    pub fn allow(&mut self) -> (ok: bool)
        requires
            old(self).wf(),
        ensures
            final(self).wf(),
            exists|now: u64| (final(self).bucket, ok) == old(self).bucket.attempt(now),
    {
        let now = millis_since(&self.origin);
        self.bucket.try_take_at(now)
    }
}

/// Burst then block: a bucket holding `k` whole tokens, asked again at the
/// instant of its last refill, allows the attempt exactly when `k >= 1`,
/// and is then left with `k - 1` tokens at the same instant.
pub proof fn lemma_burst_then_block(b: TokenBucket, k: nat)
    requires
        b.wf(),
        b.tokens == k * TOKEN_UNITS,
    ensures
        b.attempt(b.last_ms).1 == (k >= 1),
        k >= 1 ==> b.attempt(b.last_ms).0.tokens == (k - 1) * TOKEN_UNITS,
        b.attempt(b.last_ms).0.last_ms == b.last_ms,
        b.attempt(b.last_ms).0.capacity == b.capacity,
{
    let r = b.refilled(b.last_ms);
    assert(0 * b.rate == 0);
    assert(r.tokens == b.tokens);
    assert(k >= 1 <==> b.tokens >= TOKEN_UNITS) by (nonlinear_arith)
        requires
            b.tokens == k * TOKEN_UNITS,
    ;
    assert(k >= 1 ==> b.tokens - TOKEN_UNITS == (k - 1) * TOKEN_UNITS) by (nonlinear_arith)
        requires
            b.tokens == k * TOKEN_UNITS,
    ;
}

/// A fresh login bucket allows exactly its whole tokens at one instant:
/// after `j` allowed attempts, the next one is allowed exactly when
/// `j + 1` whole tokens fit in the burst, and then leaves `j + 1` fewer.
pub proof fn lemma_fresh_bucket_allows_burst(t: LoginThrottle, now: u64, j: nat)
    requires
        t.wf(),
        j * 1000 <= t.burst,
    ensures
        ({
            let f = t.fresh(now);
            let b = TokenBucket { tokens: (f.tokens - j * TOKEN_UNITS) as u64, ..f };
            &&& b.attempt(now).1 == ((j + 1) * 1000 <= t.burst)
            &&& (j + 1) * 1000 <= t.burst ==> b.attempt(now).0.tokens == t.burst * MILLI_UNITS
                - (j + 1) * TOKEN_UNITS
        }),
{
    let f = t.fresh(now);
    let b = TokenBucket { tokens: (f.tokens - j * TOKEN_UNITS) as u64, ..f };
    assert(f.tokens == t.burst * MILLI_UNITS);
    assert(j * TOKEN_UNITS <= f.tokens) by (nonlinear_arith)
        requires
            j * 1000 <= t.burst,
            f.tokens == t.burst * 60000,
    ;
    let r = b.refilled(now);
    assert(0 * b.rate == 0);
    assert(r.tokens == b.tokens);
    assert((b.tokens >= TOKEN_UNITS) == ((j + 1) * 1000 <= t.burst)) by (nonlinear_arith)
        requires
            b.tokens == t.burst * 60000 - j * 60000000,
    ;
}

/// After a success is noted, the user's next attempt at the same instant
/// is allowed.
pub proof fn lemma_note_success_then_allowed(t: LoginThrottle, name: Seq<char>, now: u64)
    requires
        t.wf(),
    ensures
        ({
            let b = t.bucket_at(name, now);
            let r = TokenBucket { tokens: b.capacity, last_ms: now, ..b };
            r.attempt(now).1
        }),
{
    let b = t.bucket_at(name, now);
    assert(b.capacity == t.burst * MILLI_UNITS);
}

/// Attempts at the times `times`, one after the other, starting from
/// bucket `b` (as successive `allow_attempt_at` calls for one username,
/// or `try_take_at` calls on one bucket, go): how many are allowed.
pub open spec fn granted_count(b: TokenBucket, times: Seq<u64>) -> nat
    decreases times.len(),
{
    if times.len() == 0 {
        0
    } else {
        let (b1, ok) = b.attempt(times[0]);
        (if ok {
            1nat
        } else {
            0nat
        }) + granted_count(b1, times.drop_first())
    }
}

/// Times that never go back, none before `start`.
pub open spec fn ordered_from(start: u64, times: Seq<u64>) -> bool {
    &&& forall|i: int, j: int| 0 <= i <= j < times.len() ==> times[i] <= times[j]
    &&& times.len() > 0 ==> start <= times[0]
}

proof fn lemma_attempt_wf(b: TokenBucket, now: u64)
    requires
        b.wf(),
    ensures
        b.attempt(now).0.wf(),
        b.attempt(now).0.capacity == b.capacity,
        b.attempt(now).0.rate == b.rate,
        b.attempt(now).0.last_ms == now,
        b.refilled(now).tokens >= b.tokens,
{
    let elapsed: int = if now >= b.last_ms {
        now - b.last_ms
    } else {
        0
    };
    assert(elapsed * b.rate >= 0) by (nonlinear_arith)
        requires
            elapsed >= 0,
            b.rate >= 0,
    ;
}

/// A bucket holding at least `n` whole tokens allows the next `n`
/// attempts, whenever they come: refilling never takes tokens away.
pub proof fn lemma_stocked_bucket_grants(b: TokenBucket, times: Seq<u64>)
    requires
        b.wf(),
        times.len() * TOKEN_UNITS <= b.tokens,
    ensures
        granted_count(b, times) == times.len(),
    decreases times.len(),
{
    if times.len() > 0 {
        lemma_attempt_wf(b, times[0]);
        let b1 = b.attempt(times[0]).0;
        assert(b.attempt(times[0]).1);
        assert(times.drop_first().len() * TOKEN_UNITS <= b1.tokens);
        lemma_stocked_bucket_grants(b1, times.drop_first());
    }
}

/// Rate limit over a run: from bucket `b`, attempts at times that never go
/// back are allowed at most `tokens + elapsed * rate` worth of tokens,
/// where `elapsed` runs from the bucket's last refill to the last attempt.
pub proof fn lemma_run_bounded(b: TokenBucket, times: Seq<u64>)
    requires
        b.wf(),
        times.len() > 0,
        ordered_from(b.last_ms, times),
    ensures
        granted_count(b, times) * TOKEN_UNITS <= b.tokens + (times.last() - b.last_ms) * b.rate,
    decreases times.len(),
{
    let t0 = times[0];
    lemma_attempt_wf(b, t0);
    let (b1, ok) = b.attempt(t0);
    let r = b.refilled(t0);
    assert(r.tokens <= b.tokens + (t0 - b.last_ms) * b.rate);
    let g0: int = if ok {
        1
    } else {
        0
    };
    assert(b1.tokens + g0 * TOKEN_UNITS <= b.tokens + (t0 - b.last_ms) * b.rate);
    let rest = times.drop_first();
    if rest.len() == 0 {
        assert(times.last() == t0);
        assert(granted_count(b1, rest) == 0);
    } else {
        assert(rest.last() == times.last());
        assert forall|i: int, j: int| 0 <= i <= j < rest.len() implies rest[i] <= rest[j] by {
            assert(rest[i] == times[i + 1] && rest[j] == times[j + 1]);
        }
        assert(times[0] <= times[1]);
        lemma_run_bounded(b1, rest);
        let d1: int = t0 - b.last_ms;
        let d2: int = times.last() - t0;
        assert(d2 >= 0) by {
            assert(times[0] <= times[times.len() - 1]);
        }
        assert(d1 * b.rate + d2 * b.rate == (d1 + d2) * b.rate) by (nonlinear_arith);
    }
}

/// The login throttle's rate limit: for one username, attempts at times
/// that never go back, between which that user's bucket is not otherwise
/// touched, are allowed at most `burst + T * per_min / 60` times, with
/// the settings in tokens and `T` the seconds from the bucket's last
/// refill to the last attempt (here in thousandths of a token and in
/// milliseconds).
pub proof fn lemma_login_attempts_bounded(t: LoginThrottle, name: Seq<char>, times: Seq<u64>)
    requires
        t.wf(),
        times.len() > 0,
        ordered_from(t.bucket_at(name, times[0]).last_ms, times),
    ensures
        granted_count(t.bucket_at(name, times[0]), times) * TOKEN_UNITS <= t.burst * MILLI_UNITS + (
        times.last() - t.bucket_at(name, times[0]).last_ms) * t.per_min,
{
    let b = t.bucket_at(name, times[0]);
    assert(b.wf() && b.capacity == t.burst * MILLI_UNITS && b.rate == t.per_min);
    lemma_run_bounded(b, times);
}

/// After a success is noted for a user at `now`, that user's next attempts,
/// as many as the burst holds whole tokens, are all allowed, whenever they
/// come.
pub proof fn lemma_note_success_then_burst_granted(
    t: LoginThrottle,
    name: Seq<char>,
    now: u64,
    times: Seq<u64>,
)
    requires
        t.wf(),
        times.len() * 1000 <= t.burst,
    ensures
        ({
            let b = t.bucket_at(name, now);
            granted_count(TokenBucket { tokens: b.capacity, last_ms: now, ..b }, times)
                == times.len()
        }),
{
    let b = t.bucket_at(name, now);
    let r = TokenBucket { tokens: b.capacity, last_ms: now, ..b };
    assert(b.capacity == t.burst * MILLI_UNITS);
    assert(times.len() * TOKEN_UNITS <= t.burst * MILLI_UNITS) by (nonlinear_arith)
        requires
            times.len() * 1000 <= t.burst,
    ;
    lemma_stocked_bucket_grants(r, times);
}

/// After the buckets are dropped, every user's next attempts, as many as
/// the burst holds whole tokens, are allowed, as in a fresh process.
pub proof fn lemma_reset_then_burst_granted(t: LoginThrottle, name: Seq<char>, times: Seq<u64>)
    requires
        t.wf(),
        t.buckets@ == Map::<Seq<char>, TokenBucket>::empty(),
        0 < times.len(),
        times.len() * 1000 <= t.burst,
    ensures
        granted_count(t.bucket_at(name, times[0]), times) == times.len(),
{
    let b = t.bucket_at(name, times[0]);
    assert(b == t.fresh(times[0]));
    assert(times.len() * TOKEN_UNITS <= t.burst * MILLI_UNITS) by (nonlinear_arith)
        requires
            times.len() * 1000 <= t.burst,
    ;
    lemma_stocked_bucket_grants(b, times);
}

} // verus!
