//! Per-key token-bucket rate limiting. Tokens are counted exactly, in units
//! of 1/60000 of a token and time in milliseconds: a limit of `R` requests a
//! minute refills exactly `R` units a millisecond.
use vstd::prelude::*;
use vstd::string::*;
use crate::auth::ValidatedApiKey;
use crate::keyed::{find_key, keys_unique, lemma_lookup, lemma_push, lemma_update, to_map};

verus! {

/// The units that make one token.
pub const UNITS_PER_TOKEN: u128 = 60000;

/// A token bucket: `tokens` and `capacity` in units, `refill_rate` in units
/// per millisecond, `last_updated` in milliseconds of a monotonic clock.
#[derive(Clone, Copy, Debug)]
pub struct TokenBucket {
    pub tokens: u128,
    pub last_updated: u64,
    pub capacity: u128,
    pub refill_rate: u128,
}

/// The milliseconds from `last` to `now`; none where the clock seems to
/// have gone back.
pub open spec fn elapsed(last: u64, now: u64) -> int {
    if now >= last {
        now - last
    } else {
        0
    }
}

impl TokenBucket {
    /// The bucket holds no more than its capacity, and refills at a rate
    /// that fits in 64 bits.
    pub open spec fn wf(&self) -> bool {
        &&& self.tokens <= self.capacity
        &&& self.refill_rate <= u64::MAX
    }

    /// The tokens after refilling up to time `now`, capped at the capacity.
    pub open spec fn refilled(&self, now: u64) -> int {
        let t = self.tokens + elapsed(self.last_updated, now) * self.refill_rate;
        if t > self.capacity {
            self.capacity as int
        } else {
            t
        }
    }

    /// Whether a request at time `now` is admitted: at least one whole
    /// token after refilling.
    pub open spec fn admits(&self, now: u64) -> bool {
        self.refilled(now) >= UNITS_PER_TOKEN
    }

    /// The bucket after a request at time `now`, admitted or not.
    pub open spec fn consumed(&self, now: u64) -> TokenBucket {
        TokenBucket {
            tokens: (if self.admits(now) {
                self.refilled(now) - UNITS_PER_TOKEN
            } else {
                self.refilled(now)
            }) as u128,
            last_updated: now,
            ..*self
        }
    }

    /// A full bucket for `requests_per_minute`, at time `now`: capacity of
    /// that many tokens, refilled at that many tokens a minute.
    pub fn new(requests_per_minute: u64, now: u64) -> (r: TokenBucket)
        ensures
            r.wf(),
            r == fresh_bucket(requests_per_minute, now),
    {
        let cap = (requests_per_minute as u128) * UNITS_PER_TOKEN;
        TokenBucket {
            tokens: cap,
            last_updated: now,
            capacity: cap,
            refill_rate: requests_per_minute as u128,
        }
    }

    /// Refills the bucket up to time `now`, then takes one token if there
    /// is a whole one; the time is updated either way.
    pub fn try_consume(&mut self, now: u64) -> (r: bool)
        requires
            old(self).wf(),
        ensures
            r == old(self).admits(now),
            *final(self) == old(self).consumed(now),
            final(self).wf(),
    {
        let dt: u64 = if now >= self.last_updated {
            now - self.last_updated
        } else {
            0
        };
        let rate = self.refill_rate;
        proof {
            assert((dt as int) * (rate as int) <= (u64::MAX as int) * (u64::MAX as int))
                by (nonlinear_arith)
                requires
                    0 <= dt <= u64::MAX,
                    0 <= rate <= u64::MAX,
            ;
        }
        let gain: u128 = (dt as u128) * rate;
        let room: u128 = self.capacity - self.tokens;
        if gain >= room {
            self.tokens = self.capacity;
        } else {
            self.tokens = self.tokens + gain;
        }
        self.last_updated = now;
        if self.tokens >= UNITS_PER_TOKEN {
            self.tokens = self.tokens - UNITS_PER_TOKEN;
            true
        } else {
            false
        }
    }
}

/// The full bucket that a key gets on its first request at time `now`.
pub open spec fn fresh_bucket(requests_per_minute: u64, now: u64) -> TokenBucket {
    TokenBucket {
        tokens: (requests_per_minute * UNITS_PER_TOKEN) as u128,
        last_updated: now,
        capacity: (requests_per_minute * UNITS_PER_TOKEN) as u128,
        refill_rate: requests_per_minute as u128,
    }
}

/// Requests at non-decreasing times.
pub open spec fn non_decreasing(times: Seq<u64>) -> bool {
    forall|i: int, j: int| 0 <= i <= j < times.len() ==> times[i] <= times[j]
}

/// A bucket after requests at the given times, and how many were admitted.
pub open spec fn run(b: TokenBucket, times: Seq<u64>) -> (TokenBucket, nat)
    decreases times.len(),
{
    if times.len() == 0 {
        (b, 0)
    } else {
        let prev = run(b, times.drop_last());
        let t = times.last();
        (prev.0.consumed(t), prev.1 + if prev.0.admits(t) {
            1nat
        } else {
            0nat
        })
    }
}

proof fn lemma_run_bound(b: TokenBucket, times: Seq<u64>)
    requires
        b.wf(),
        times.len() >= 1,
        non_decreasing(times),
        times[0] >= b.last_updated,
    ensures
        run(b, times).0.wf(),
        run(b, times).0.last_updated == times.last(),
        run(b, times).0.capacity == b.capacity,
        run(b, times).0.refill_rate == b.refill_rate,
        run(b, times).0.tokens + run(b, times).1 * UNITS_PER_TOKEN <= b.capacity + (times.last()
            - times[0]) * b.refill_rate,
    decreases times.len(),
{
    let prev = run(b, times.drop_last());
    let t = times.last();
    if times.len() == 1 {
        assert(times.drop_last().len() == 0);
        assert(prev.0 == b);
        assert(t == times[0]);
        assert(b.refilled(t) <= b.capacity);
    } else {
        let s = times.drop_last();
        assert(non_decreasing(s));
        assert(s[0] == times[0]);
        lemma_run_bound(b, s);
        let p = prev.0;
        let last = s.last();
        assert(last <= t);
        assert(p.refilled(t) <= p.tokens + (t - last) * b.refill_rate);
        assert((t - last) * b.refill_rate + (last - times[0]) * b.refill_rate == (t - times[0])
            * b.refill_rate) by (nonlinear_arith);
    }
}

/// However requests come, a bucket admits no more than its capacity and
/// what it refills over the time between the first and the last of them:
/// `n` admitted requests at times `t0 <= ... <= tk` need
/// `n * UNITS_PER_TOKEN <= capacity + (tk - t0) * refill_rate`.
pub proof fn lemma_admissions_bounded(b: TokenBucket, times: Seq<u64>)
    requires
        b.wf(),
        times.len() >= 1,
        non_decreasing(times),
        times[0] >= b.last_updated,
    ensures
        run(b, times).1 * UNITS_PER_TOKEN <= b.capacity + (times.last() - times[0]) * b.refill_rate,
{
    lemma_run_bound(b, times);
}

/// Whatever requests come, and in whatever order of times, a bucket never
/// holds more than its capacity (nor less than nothing).
pub proof fn lemma_tokens_within_capacity(b: TokenBucket, times: Seq<u64>)
    requires
        b.wf(),
    ensures
        0 <= run(b, times).0.tokens <= run(b, times).0.capacity,
        run(b, times).0.wf(),
    decreases times.len(),
{
    if times.len() > 0 {
        lemma_tokens_within_capacity(b, times.drop_last());
    }
}

/// The per-key buckets, created full on a key's first request.
pub struct RateLimiter {
    buckets: Vec<(String, TokenBucket)>,
    requests_per_minute: u64,
}

impl View for RateLimiter {
    type V = Map<Seq<char>, TokenBucket>;

    closed spec fn view(&self) -> Map<Seq<char>, TokenBucket> {
        to_map(self.buckets@, |b: TokenBucket| b)
    }
}

impl RateLimiter {
    pub closed spec fn wf(&self) -> bool {
        &&& keys_unique(self.buckets@)
        &&& forall|i: int| 0 <= i < self.buckets@.len() ==> (#[trigger] self.buckets@[i]).1.wf()
    }

    /// The limit each key gets, in requests a minute.
    pub closed spec fn limit(&self) -> u64 {
        self.requests_per_minute
    }

    pub fn new(requests_per_minute: u64) -> (r: RateLimiter)
        ensures
            r.wf(),
            r.limit() == requests_per_minute,
            r@ == Map::<Seq<char>, TokenBucket>::empty(),
    {
        let r = RateLimiter { buckets: Vec::new(), requests_per_minute };
        proof {
            assert(r@ =~= Map::<Seq<char>, TokenBucket>::empty());
        }
        r
    }

    /// Whether a request of `api_key` at time `now` (milliseconds of a
    /// monotonic clock) is admitted, consuming from its bucket; a key's
    /// first request finds a full bucket.
    pub fn check_key(&mut self, api_key: &str, now: u64) -> (r: bool)
        requires
            old(self).wf(),
        ensures
            final(self).wf(),
            final(self).limit() == old(self).limit(),
            ({
                let b = if old(self)@.contains_key(api_key@) {
                    old(self)@[api_key@]
                } else {
                    fresh_bucket(old(self).limit(), now)
                };
                &&& r == b.admits(now)
                &&& final(self)@ == old(self)@.insert(api_key@, b.consumed(now))
            }),
    {
        let k = api_key.to_owned();
        let ghost before = self.buckets@;
        let i = match find_key(&self.buckets, &k) {
            Some(i) => {
                proof {
                    lemma_lookup(before, |b: TokenBucket| b, i as int);
                }
                i
            },
            None => {
                let fresh = TokenBucket::new(self.requests_per_minute, now);
                let ghost e = (k, fresh);
                self.buckets.push((k, fresh));
                proof {
                    lemma_push(before, |b: TokenBucket| b, e);
                    lemma_lookup(self.buckets@, |b: TokenBucket| b, before.len() as int);
                }
                self.buckets.len() - 1
            },
        };
        let ghost mid = self.buckets@;
        let mut b = self.buckets[i].1;
        let ok = b.try_consume(now);
        let key = self.buckets[i].0.clone();
        self.buckets.set(i, (key, b));
        proof {
            lemma_lookup(mid, |b: TokenBucket| b, i as int);
            lemma_update(mid, |b: TokenBucket| b, i as int, (key, b));
        }
        ok
    }

    /// The rate-limit step of a request: requests without an authenticated
    /// caller pass; others are admitted or refused by their key's bucket.
    pub fn allow_request(&mut self, caller: Option<&ValidatedApiKey>, now: u64) -> (r: bool)
        requires
            old(self).wf(),
        ensures
            final(self).wf(),
            final(self).limit() == old(self).limit(),
            caller is None ==> r && final(self)@ == old(self)@,
            caller is Some ==> {
                let k = caller->0.key@;
                let b = if old(self)@.contains_key(k) {
                    old(self)@[k]
                } else {
                    fresh_bucket(old(self).limit(), now)
                };
                &&& r == b.admits(now)
                &&& final(self)@ == old(self)@.insert(k, b.consumed(now))
            },
    {
        match caller {
            Some(c) => self.check_key(c.key.as_str(), now),
            None => true,
        }
    }
}

/// The rate-limit step of the pipeline, holding the shared limiter handle
/// (`L`, such as a lock around a `RateLimiter`); each request goes to
/// `RateLimiter::allow_request`.
pub struct RateLimitMiddleware<L> {
    pub limiter: L,
}

impl<L> RateLimitMiddleware<L> {
    pub fn new(limiter: L) -> (r: RateLimitMiddleware<L>)
        ensures
            r.limiter == limiter,
    {
        RateLimitMiddleware { limiter }
    }
}

/// An inner service reached only by the requests that the limiter allows.
pub struct RateLimitMiddlewareService<S, L> {
    pub service: S,
    pub limiter: L,
}

impl<S, L> RateLimitMiddlewareService<S, L> {
    pub fn new(service: S, limiter: L) -> (r: RateLimitMiddlewareService<S, L>)
        ensures
            r.service == service,
            r.limiter == limiter,
    {
        RateLimitMiddlewareService { service, limiter }
    }
}

} // verus!
