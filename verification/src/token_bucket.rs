//! Token bucket rate limiter.

use core::time::Duration;
use vstd::prelude::*;

use crate::clock::{duration_as_nanos, duration_nanos, unix_time_now};
use crate::{CantConsume, LimiterResult};

verus! {

/// Build a token bucket limiter that reads the system clock.
///
/// * `rate_per_s` - how many consumes should be allowed per second on average
/// * `capacity` - bucket capacity, which dictates the burstiness of the limiter
pub fn token_bucket(rate_per_s: u64, capacity: u64) -> (b: TokenBucket<impl Fn() -> Duration>)
    ensures
        b.rate_per_s() == rate_per_s,
        b.capacity() == capacity,
        b.tokens() == capacity,
        forall|d: Duration| #[trigger] call_ensures(b.clock(), (), d) <==> call_ensures(unix_time_now, (), d),
        exists|d: Duration| call_ensures(unix_time_now, (), d) && b.last_update_ns() == duration_as_nanos(d),
{
    TokenBucket::new_with_time_provider(rate_per_s, capacity, unix_time_now)
}

/// Configuration of a token bucket.
struct TokenBucketConfig<T> where T: Fn() -> Duration {
    capacity: u64,
    rate_per_s: u64,
    time_provider: T,
}

impl<T> TokenBucketConfig<T> where T: Fn() -> Duration {
    fn new(capacity: u64, rate_per_s: u64, time_provider: T) -> (c: Self)
        ensures
            c.capacity == capacity,
            c.rate_per_s == rate_per_s,
            c.time_provider == time_provider,
    {
        TokenBucketConfig { capacity, rate_per_s, time_provider }
    }
}

/// Token bucket rate limiter.
///
/// The bucket is filled with tokens at a constant rate up to its capacity,
/// and consumes take tokens out of it.  Occasional bursts are allowed as long
/// as the bucket holds tokens.
///
/// How many tokens a stretch of time is worth is floating-point arithmetic
/// on the caller's side: this type reads the clock, refills
/// ([`TokenBucket::refill`]) and takes tokens ([`TokenBucket::take`]).
pub struct TokenBucket<T> where T: Fn() -> Duration {
    config: TokenBucketConfig<T>,
    tokens: u64,
    last_update_t: u128,
}

impl<T> TokenBucket<T> where T: Fn() -> Duration {
    #[verifier::type_invariant]
    spec fn inv(self) -> bool {
        &&& self.tokens <= self.config.capacity
        &&& call_requires(self.config.time_provider, ())
    }

    /// Maximum number of tokens in the bucket.
    pub closed spec fn capacity(&self) -> u64 {
        self.config.capacity
    }

    /// Average number of tokens added per second.
    pub closed spec fn rate_per_s(&self) -> u64 {
        self.config.rate_per_s
    }

    /// Tokens in the bucket.
    pub closed spec fn tokens(&self) -> u64 {
        self.tokens
    }

    /// Clock reading, in nanoseconds, of the last refill.
    pub closed spec fn last_update_ns(&self) -> u128 {
        self.last_update_t
    }

    /// The clock of the limiter.
    pub closed spec fn clock(&self) -> T {
        self.config.time_provider
    }

    /// `next` has the same configuration as `self`.
    pub open spec fn same_config(self, next: Self) -> bool {
        &&& next.capacity() == self.capacity()
        &&& next.rate_per_s() == self.rate_per_s()
        &&& next.clock() == self.clock()
    }

    /// Initialize a new token bucket utilizing the given timer.
    ///
    /// * `rate_per_s` - how many consumes should be allowed per second on average
    /// * `capacity` - bucket capacity, which dictates the burstiness of the limiter
    /// * `time_provider` - closure that returns a monotonically nondecreasing
    ///   timestamp as a `Duration` from some fixed epoch in the past
    pub fn new_with_time_provider(rate_per_s: u64, capacity: u64, time_provider: T) -> (b: Self)
        requires
            call_requires(time_provider, ()),
        ensures
            b.rate_per_s() == rate_per_s,
            b.capacity() == capacity,
            b.tokens() == capacity,
            b.clock() == time_provider,
            exists|d: Duration| call_ensures(time_provider, (), d) && b.last_update_ns() == duration_as_nanos(d),
    {
        let time_now = time_provider();
        let last_update_t = duration_nanos(time_now);
        let config = TokenBucketConfig::new(capacity, rate_per_s, time_provider);
        TokenBucket { config, tokens: capacity, last_update_t }
    }

    /// Average number of tokens added per second.
    pub fn rate(&self) -> (r: u64)
        ensures
            r == self.rate_per_s(),
    {
        self.config.rate_per_s
    }

    /// Reads the limiter's clock, in nanoseconds from the clock's epoch.
    ///
    /// The reading is what the clock returns, in nanoseconds.
    pub fn read_clock_ns(&self) -> (r: u128)
        ensures
            exists|d: Duration| call_ensures(self.clock(), (), d) && r == duration_as_nanos(d),
    {
        proof {
            use_type_invariant(self);
        }
        let now = (self.config.time_provider)();
        duration_nanos(now)
    }

    /// Nanoseconds from the last refill to the reading `now_ns`, zero when the
    /// reading is earlier.
    pub fn elapsed_since_update_ns(&self, now_ns: u128) -> (d: u128)
        ensures
            d == (if now_ns >= self.last_update_ns() { now_ns - self.last_update_ns() } else { 0 }),
    {
        now_ns.saturating_sub(self.last_update_t)
    }

    /// Add `tokens_to_add` tokens, earned up to the reading `now_ns`.
    ///
    /// The bucket never holds more than its capacity.  When nothing is added
    /// the refill time stays as it was, so that fractions of a token are not
    /// lost to rounding.
    pub fn refill(&mut self, now_ns: u128, tokens_to_add: u64)
        ensures
            old(self).same_config(*final(self)),
            final(self).tokens() <= final(self).capacity(),
            tokens_to_add == 0 ==> *final(self) == *old(self),
            tokens_to_add != 0 ==> {
                &&& final(self).last_update_ns() == now_ns
                &&& final(self).tokens() == (if old(self).tokens() + tokens_to_add > old(self).capacity() {
                    old(self).capacity() as int
                } else {
                    old(self).tokens() + tokens_to_add
                })
            },
    {
        proof {
            use_type_invariant(&*self);
        }
        if tokens_to_add != 0 {
            self.last_update_t = now_ns;
            let filled = self.tokens.saturating_add(tokens_to_add);
            self.tokens = if filled < self.config.capacity { filled } else { self.config.capacity };
        }
    }

    /// Take `tokens` tokens out of the bucket, if it holds that many.
    pub fn take(&mut self, tokens: u64) -> (res: LimiterResult)
        ensures
            old(self).same_config(*final(self)),
            final(self).last_update_ns() == old(self).last_update_ns(),
            res is Ok <==> tokens <= old(self).tokens(),
            final(self).tokens() == (if tokens <= old(self).tokens() {
                old(self).tokens() - tokens
            } else {
                old(self).tokens() as int
            }),
            final(self).tokens() <= final(self).capacity(),
    {
        proof {
            use_type_invariant(&*self);
        }
        if self.tokens >= tokens {
            self.tokens = self.tokens - tokens;
            Ok(())
        } else {
            Err(CantConsume)
        }
    }
}

/// One step on a token bucket: a refill with the tokens earned up to a clock
/// reading, or a take.
pub enum BucketStep {
    Refill { now_ns: u128, added: u64 },
    Take { tokens: u64 },
}

/// `next` (and, for a take, `res`) is the outcome of `step` on `b`, as
/// [`TokenBucket::refill`] and [`TokenBucket::take`] state it.
pub open spec fn bucket_stepped<T: Fn() -> Duration>(b: TokenBucket<T>, step: BucketStep, next: TokenBucket<T>, res: LimiterResult) -> bool {
    &&& b.same_config(next)
    &&& next.tokens() <= next.capacity()
    &&& match step {
        BucketStep::Refill { now_ns, added } => {
            &&& added == 0 ==> next == b
            &&& added != 0 ==> next.tokens() == (if b.tokens() + added > b.capacity() {
                b.capacity() as int
            } else {
                b.tokens() + added
            })
        },
        BucketStep::Take { tokens } => {
            &&& res is Ok <==> tokens <= b.tokens()
            &&& next.tokens() == (if tokens <= b.tokens() { b.tokens() - tokens } else { b.tokens() as int })
        },
    }
}

/// `states[j + 1]` and `results[j]` are the outcome of `steps[j]` on `states[j]`.
pub open spec fn bucket_run<T: Fn() -> Duration>(
    states: Seq<TokenBucket<T>>,
    steps: Seq<BucketStep>,
    results: Seq<LimiterResult>,
) -> bool {
    &&& states.len() == steps.len() + 1
    &&& results.len() == steps.len()
    &&& forall|j: int| 0 <= j < steps.len() ==> #[trigger] bucket_stepped(states[j], steps[j], states[j + 1], results[j])
}

/// Tokens granted by the takes among `steps`.
pub open spec fn tokens_taken(steps: Seq<BucketStep>, results: Seq<LimiterResult>) -> int
    decreases steps.len(),
{
    if steps.len() == 0 || results.len() == 0 {
        0
    } else {
        tokens_taken(steps.drop_last(), results.drop_last()) + match steps.last() {
            BucketStep::Take { tokens } => if results.last() is Ok { tokens as int } else { 0 },
            BucketStep::Refill { .. } => 0,
        }
    }
}

/// Tokens offered by the refills among `steps`.
pub open spec fn tokens_added(steps: Seq<BucketStep>) -> int
    decreases steps.len(),
{
    if steps.len() == 0 {
        0
    } else {
        tokens_added(steps.drop_last()) + match steps.last() {
            BucketStep::Refill { added, .. } => added as int,
            BucketStep::Take { .. } => 0,
        }
    }
}

/// Over any run of refills and takes, the tokens granted never exceed what
/// the bucket held at the start (at most its capacity, the burst) plus the
/// tokens the refills offered; what the bucket holds stays within its capacity.
pub proof fn lemma_bucket_run_budget<T: Fn() -> Duration>(
    states: Seq<TokenBucket<T>>,
    steps: Seq<BucketStep>,
    results: Seq<LimiterResult>,
    n: int,
)
    requires
        bucket_run(states, steps, results),
        states[0].tokens() <= states[0].capacity(),
        0 <= n <= steps.len(),
    ensures
        tokens_taken(steps.take(n), results.take(n)) + states[n].tokens() <= states[0].tokens() + tokens_added(steps.take(n)),
        tokens_taken(steps.take(n), results.take(n)) <= states[0].capacity() + tokens_added(steps.take(n)),
        states[n].tokens() <= states[n].capacity(),
        states[n].capacity() == states[0].capacity(),
    decreases n,
{
    if n > 0 {
        lemma_bucket_run_budget(states, steps, results, n - 1);
        assert(bucket_stepped(states[n - 1], steps[n - 1], states[(n - 1) + 1], results[n - 1]));
        assert(steps.take(n).drop_last() =~= steps.take(n - 1));
        assert(results.take(n).drop_last() =~= results.take(n - 1));
        assert(steps.take(n).last() == steps[n - 1]);
        assert(results.take(n).last() == results[n - 1]);
    }
}

} // verus!
