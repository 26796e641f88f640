//! Sliding window rate limiters.

use core::time::Duration;
use vstd::prelude::*;

use crate::clock::{duration_as_nanos, duration_nanos, unix_time_now};
use crate::fixed_window::{elapsed_ms, elapsed_ms_between};
use crate::seq_sum::{
    lemma_elem_le_sum, lemma_sum_concat, lemma_sum_take_le, lemma_sum_take_step, lemma_sum_update,
    lemma_sum_zeros, sum,
};
use crate::{lemma_result_unique, CantConsume, Limiter, LimiterResult};

verus! {

/// `buf` with every slot moved `d` places towards the end; the first `d`
/// slots become zero and the last `d` slots fall off.
pub open spec fn shifted(buf: Seq<u64>, d: int) -> Seq<u64> {
    Seq::new(buf.len(), |i: int| if i < d { 0u64 } else { buf[i - d] })
}

/// A window of `w` slots holding `tokens` in the newest slot only.
pub open spec fn fresh_window(w: nat, tokens: u64) -> Seq<u64> {
    Seq::new(w, |i: int| if i == 0 { tokens } else { 0u64 })
}

/// Build a sliding window log limiter that reads the system clock.
///
/// The window width in milliseconds is the generic argument `W`.
///
/// * `capacity` - how many consumes are allowed during a single window
pub fn sliding_window_log<const W: usize>(capacity: u64) -> (w: SlidingWindowLog<impl Fn() -> Duration, W>)
    ensures
        w.capacity() == capacity,
        w.window() == Seq::new(W as nat, |i: int| 0u64),
        forall|d: Duration| #[trigger] call_ensures(w.clock(), (), d) <==> call_ensures(unix_time_now, (), d),
        exists|d: Duration| call_ensures(unix_time_now, (), d) && w.last_update_ns() == duration_as_nanos(d),
{
    SlidingWindowLog::<_, W>::new_with_time_provider(capacity, unix_time_now)
}

/// Build a sliding window counter limiter that reads the system clock.
///
/// * `capacity` - how many consumes are allowed during a single window
/// * `window_width_ms` - window width in milliseconds
pub fn sliding_window_counter(capacity: u64, window_width_ms: u64) -> (w: SlidingWindowCounter<impl Fn() -> Duration>)
    ensures
        w.capacity() == capacity,
        w.width_ms() == window_width_ms,
        w.window_index() == 0,
        w.tokens_prev() == 0,
        w.tokens_this() == 0,
        forall|d: Duration| #[trigger] call_ensures(w.clock(), (), d) <==> call_ensures(unix_time_now, (), d),
        exists|d: Duration| call_ensures(unix_time_now, (), d) && w.start_ns() == duration_as_nanos(d),
{
    SlidingWindowCounter::new_with_time_provider(capacity, window_width_ms, unix_time_now)
}

/// Configuration of a sliding window limiter.
struct SlidingWindowConfig<T> where T: Fn() -> Duration {
    capacity: u64,
    time_provider: T,
}

impl<T> SlidingWindowConfig<T> where T: Fn() -> Duration {
    fn new(capacity: u64, time_provider: T) -> (c: Self)
        ensures
            c.capacity == capacity,
            c.time_provider == time_provider,
    {
        SlidingWindowConfig { capacity, time_provider }
    }
}

/// Sliding window log rate limiter.
///
/// Keeps track of the tokens used during the last `W` milliseconds before
/// the most recent consume, one slot per millisecond, and limits usage when
/// that number would grow larger than the capacity.
pub struct SlidingWindowLog<T, const W: usize> where T: Fn() -> Duration {
    config: SlidingWindowConfig<T>,
    /// Slot `i` holds the tokens consumed `i` milliseconds before the last
    /// update.
    window_buffer: Vec<u64>,
    last_update_time: u128,
}

impl<T, const W: usize> SlidingWindowLog<T, W> where T: Fn() -> Duration {
    #[verifier::type_invariant]
    spec fn inv(self) -> bool {
        &&& self.window_buffer@.len() == W
        &&& sum(self.window_buffer@) <= self.config.capacity
        &&& call_requires(self.config.time_provider, ())
    }

    /// Tokens allowed in one window.
    pub closed spec fn capacity(&self) -> u64 {
        self.config.capacity
    }

    /// Tokens consumed per millisecond slot, newest first.
    pub closed spec fn window(&self) -> Seq<u64> {
        self.window_buffer@
    }

    /// Clock reading, in nanoseconds, of the last update of the window.
    pub closed spec fn last_update_ns(&self) -> u128 {
        self.last_update_time
    }

    /// The clock of the limiter.
    pub closed spec fn clock(&self) -> T {
        self.config.time_provider
    }

    /// `next` and `res` are the outcome of consuming `tokens` at the clock
    /// reading `now_ns`.
    ///
    /// When a whole window has passed since the last update, the window
    /// starts over and holds the consume if it is within the capacity.
    /// Otherwise the slots move on by the elapsed milliseconds and the consume
    /// is granted when it fits in what the window leaves of the capacity.
    pub open spec fn consumed_at(self, now_ns: u128, tokens: u64, next: Self, res: LimiterResult) -> bool {
        let d = elapsed_ms(self.last_update_ns(), now_ns) as u64;
        let buf = shifted(self.window(), d as int);
        &&& next.capacity() == self.capacity()
        &&& next.clock() == self.clock()
        &&& if d >= W {
            &&& next.last_update_ns() == now_ns
            &&& if tokens <= self.capacity() {
                next.window() == fresh_window(W as nat, tokens) && res is Ok
            } else {
                next.window() == fresh_window(W as nat, 0) && res is Err
            }
        } else {
            &&& next.last_update_ns() == (if d != 0 { now_ns } else { self.last_update_ns() })
            &&& if tokens <= self.capacity() - sum(buf) {
                next.window() == buf.update(0, (buf[0] + tokens) as u64) && res is Ok
            } else {
                next.window() == buf && res is Err
            }
        }
    }

    /// Initialize a new sliding window log limiter utilizing the given timer.
    ///
    /// * `capacity` - how many consumes are allowed during a single window
    /// * `time_provider` - closure that returns a monotonically nondecreasing
    ///   timestamp as a `Duration` from some fixed epoch in the past
    ///
    /// The window width in milliseconds is the generic argument `W`.
    pub fn new_with_time_provider(capacity: u64, time_provider: T) -> (w: Self)
        requires
            call_requires(time_provider, ()),
        ensures
            w.capacity() == capacity,
            w.window() == Seq::new(W as nat, |i: int| 0u64),
            w.clock() == time_provider,
            exists|d: Duration| call_ensures(time_provider, (), d) && w.last_update_ns() == duration_as_nanos(d),
    {
        let time_now = time_provider();
        let last_update_time = duration_nanos(time_now);
        let config = SlidingWindowConfig::new(capacity, time_provider);
        let mut window_buffer: Vec<u64> = Vec::new();
        for i in 0..W
            invariant
                window_buffer@ == Seq::new(i as nat, |j: int| 0u64),
        {
            window_buffer.push(0);
        }
        proof {
            lemma_sum_zeros(window_buffer@);
        }
        SlidingWindowLog { config, window_buffer, last_update_time }
    }

    /// Consume `tokens` tokens at the clock reading `now_ns` (nanoseconds from
    /// the clock's epoch).
    pub fn consume_at(&mut self, tokens: u64, now_ns: u128) -> (res: LimiterResult)
        requires
            W > 0,
        ensures
            old(self).consumed_at(now_ns, tokens, *final(self), res),
            final(self).window().len() == W,
            sum(final(self).window()) <= final(self).capacity(),
    {
        proof {
            use_type_invariant(&*self);
        }
        let ghost old_buf = self.window_buffer@;
        let delta_t: u64 = elapsed_ms_between(self.last_update_time, now_ns) as u64;

        if delta_t >= W as u64 {
            // The whole window has passed: start over.
            self.last_update_time = now_ns;
            let granted = tokens <= self.config.capacity;
            let newest: u64 = if granted { tokens } else { 0 };
            let mut fresh: Vec<u64> = Vec::new();
            for i in 0..W
                invariant
                    fresh@ == Seq::new(i as nat, |j: int| if j == 0 { newest } else { 0u64 }),
            {
                if i == 0 {
                    fresh.push(newest);
                } else {
                    fresh.push(0);
                }
            }
            proof {
                assert(fresh@ =~= fresh_window(W as nat, newest));
                lemma_sum_zeros(fresh_window(W as nat, newest).update(0, 0));
                lemma_sum_update(fresh_window(W as nat, newest).update(0, 0), 0, newest);
                assert(fresh_window(W as nat, newest).update(0, 0).update(0, newest) =~= fresh_window(W as nat, newest));
            }
            self.window_buffer = fresh;
            return if granted { Ok(()) } else { Err(CantConsume) };
        }

        // Time has moved on by `d` milliseconds: shift the slots `d` places.
        let d = delta_t as usize;
        if delta_t != 0 {
            self.last_update_time = now_ns;
        }
        let mut buf: Vec<u64> = Vec::new();
        for i in 0..W
            invariant
                d < W,
                self.window_buffer@ == old_buf,
                old_buf.len() == W,
                buf@ == shifted(old_buf, d as int).take(i as int),
        {
            if i < d {
                buf.push(0);
            } else {
                buf.push(self.window_buffer[i - d]);
            }
            assert(buf@ =~= shifted(old_buf, d as int).take(i + 1));
        }
        assert(buf@ =~= shifted(old_buf, d as int));
        let ghost moved = buf@;
        proof {
            // The shifted window keeps a prefix of the old one behind zeros.
            let zeros = Seq::new(d as nat, |j: int| 0u64);
            assert(moved =~= zeros + old_buf.take(W - d));
            lemma_sum_concat(zeros, old_buf.take(W - d));
            lemma_sum_zeros(zeros);
            lemma_sum_take_le(old_buf, W - d);
        }

        // Tokens used during the window.
        let mut used: u64 = 0;
        for i in 0..W
            invariant
                buf@ == moved,
                moved.len() == W,
                sum(moved) <= self.config.capacity,
                used == sum(moved.take(i as int)),
        {
            proof {
                lemma_sum_take_step(moved, i as int);
                lemma_sum_take_le(moved, i + 1);
            }
            used = used + buf[i];
        }
        assert(moved.take(W as int) =~= moved);

        let tokens_left = self.config.capacity - used;
        if tokens_left >= tokens {
            proof {
                lemma_elem_le_sum(moved, 0);
                lemma_sum_update(moved, 0, (moved[0] + tokens) as u64);
            }
            let newest = buf[0] + tokens;
            buf.set(0, newest);
            self.window_buffer = buf;
            Ok(())
        } else {
            self.window_buffer = buf;
            Err(CantConsume)
        }
    }
}

/// The tokens in the window never exceed the capacity: a granted consume adds
/// to what the window already holds only what still fits, and a fresh window
/// holds at most the capacity.
pub proof fn lemma_log_window_within_capacity<T: Fn() -> Duration, const W: usize>(
    w: SlidingWindowLog<T, W>,
    now_ns: u128,
    tokens: u64,
    next: SlidingWindowLog<T, W>,
    res: LimiterResult,
)
    requires
        w.window().len() == W,
        sum(w.window()) <= w.capacity(),
        w.consumed_at(now_ns, tokens, next, res),
    ensures
        sum(next.window()) <= next.capacity(),
{
    let d = elapsed_ms(w.last_update_ns(), now_ns) as u64;
    let old_buf = w.window();
    if d >= W {
        let newest: u64 = if tokens <= w.capacity() { tokens } else { 0 };
        let fresh = fresh_window(W as nat, newest);
        if W > 0 {
            lemma_sum_zeros(fresh.update(0, 0));
            lemma_sum_update(fresh.update(0, 0), 0, newest);
            assert(fresh.update(0, 0).update(0, newest) =~= fresh);
        } else {
            assert(fresh =~= Seq::<u64>::empty());
        }
    } else {
        let buf = shifted(old_buf, d as int);
        let zeros = Seq::new(d as nat, |j: int| 0u64);
        assert(buf =~= zeros + old_buf.take(W - d));
        lemma_sum_concat(zeros, old_buf.take(W - d));
        lemma_sum_zeros(zeros);
        lemma_sum_take_le(old_buf, W - d);
        if res is Ok {
            lemma_sum_update(buf, 0, (buf[0] + tokens) as u64);
            lemma_elem_le_sum(buf, 0);
        }
    }
}

/// A consume's outcome is a function of the limiter, the clock reading and
/// the tokens asked for: at one reading, `try_consume_one` and
/// `try_consume(1)` give the same result and leave the limiter with the same
/// capacity, clock, window and last update.
pub proof fn lemma_log_outcome_unique<T: Fn() -> Duration, const W: usize>(
    w: SlidingWindowLog<T, W>,
    now_ns: u128,
    tokens: u64,
    next1: SlidingWindowLog<T, W>,
    res1: LimiterResult,
    next2: SlidingWindowLog<T, W>,
    res2: LimiterResult,
)
    requires
        w.consumed_at(now_ns, tokens, next1, res1),
        w.consumed_at(now_ns, tokens, next2, res2),
    ensures
        res1 == res2,
        next1.capacity() == next2.capacity(),
        next1.clock() == next2.clock(),
        next1.window() == next2.window(),
        next1.last_update_ns() == next2.last_update_ns(),
{
    lemma_result_unique(res1, res2);
}

impl<T, const W: usize> Limiter for SlidingWindowLog<T, W> where T: Fn() -> Duration {
    open spec fn ready(&self) -> bool {
        W > 0
    }

    open spec fn consumes(&self, tokens: u64, next: Self, res: LimiterResult) -> bool {
        exists|now_ns: u128| #[trigger] self.consumed_at(now_ns, tokens, next, res)
    }

    fn try_consume(&mut self, tokens: u64) -> (res: LimiterResult)
        ensures
            exists|d: Duration| call_ensures(old(self).clock(), (), d) && old(self).consumed_at(
                duration_as_nanos(d),
                tokens,
                *final(self),
                res,
            ),
    {
        proof {
            use_type_invariant(&*self);
        }
        let now = (self.config.time_provider)();
        let now_ns = duration_nanos(now);
        let res = self.consume_at(tokens, now_ns);
        assert(old(self).consumed_at(now_ns, tokens, *self, res));
        res
    }

    fn try_consume_one(&mut self) -> (res: LimiterResult)
        ensures
            exists|d: Duration| call_ensures(old(self).clock(), (), d) && old(self).consumed_at(
                duration_as_nanos(d),
                1,
                *final(self),
                res,
            ),
    {
        self.try_consume(1)
    }
}

/// Sliding window counter rate limiter.
///
/// The timeline is split into fixed windows and the tokens of the current
/// window are added to those of the previous window, weighted by how much of
/// it a virtual window of the same width, ending now, still covers.
///
/// The weighting is floating-point arithmetic on the caller's side: this type
/// reads the clock, moves between windows ([`SlidingWindowCounter::advance_to`])
/// and accepts or refuses a consume given the weighted previous tokens
/// ([`SlidingWindowCounter::take_weighted`]).
pub struct SlidingWindowCounter<T> where T: Fn() -> Duration {
    config: SlidingWindowConfig<T>,
    tokens_prev: u64,
    tokens_this: u64,
    window_index: u64,
    window_width_ms: u64,
    start_time: u128,
}

impl<T> SlidingWindowCounter<T> where T: Fn() -> Duration {
    #[verifier::type_invariant]
    spec fn inv(self) -> bool {
        call_requires(self.config.time_provider, ())
    }

    /// Tokens allowed in one window.
    pub closed spec fn capacity(&self) -> u64 {
        self.config.capacity
    }

    /// Window width in milliseconds.
    pub closed spec fn width_ms(&self) -> u64 {
        self.window_width_ms
    }

    /// Tokens consumed in the previous window.
    pub closed spec fn tokens_prev(&self) -> u64 {
        self.tokens_prev
    }

    /// Tokens consumed in the current window.
    pub closed spec fn tokens_this(&self) -> u64 {
        self.tokens_this
    }

    /// Index of the current window.
    pub closed spec fn window_index(&self) -> u64 {
        self.window_index
    }

    /// Clock reading, in nanoseconds, at which the limiter was created.
    pub closed spec fn start_ns(&self) -> u128 {
        self.start_time
    }

    /// The clock of the limiter.
    pub closed spec fn clock(&self) -> T {
        self.config.time_provider
    }

    /// `next` has the same configuration as `self`.
    pub open spec fn same_config(self, next: Self) -> bool {
        &&& next.capacity() == self.capacity()
        &&& next.width_ms() == self.width_ms()
        &&& next.start_ns() == self.start_ns()
        &&& next.clock() == self.clock()
    }

    /// Initialize a new sliding window counter limiter utilizing the given timer.
    ///
    /// * `capacity` - how many consumes are allowed during a single window
    /// * `window_width_ms` - window width in milliseconds
    /// * `time_provider` - closure that returns a monotonically nondecreasing
    ///   timestamp as a `Duration` from some fixed epoch in the past
    pub fn new_with_time_provider(capacity: u64, window_width_ms: u64, time_provider: T) -> (w: Self)
        requires
            call_requires(time_provider, ()),
        ensures
            w.capacity() == capacity,
            w.width_ms() == window_width_ms,
            w.window_index() == 0,
            w.tokens_prev() == 0,
            w.tokens_this() == 0,
            w.clock() == time_provider,
            exists|d: Duration| call_ensures(time_provider, (), d) && w.start_ns() == duration_as_nanos(d),
    {
        let time_now = time_provider();
        let start_time = duration_nanos(time_now);
        let config = SlidingWindowConfig::new(capacity, time_provider);
        SlidingWindowCounter {
            config,
            window_index: 0,
            tokens_prev: 0,
            tokens_this: 0,
            window_width_ms,
            start_time,
        }
    }

    /// Reads the clock and returns the whole milliseconds elapsed since the
    /// limiter was created (zero if the clock reads earlier).
    pub fn elapsed_ms_now(&self) -> (ms: u128)
        ensures
            exists|d: Duration| call_ensures(self.clock(), (), d) && ms == elapsed_ms(self.start_ns(), duration_as_nanos(d)),
    {
        proof {
            use_type_invariant(self);
        }
        let now = (self.config.time_provider)();
        let now_ns = duration_nanos(now);
        elapsed_ms_between(self.start_time, now_ns)
    }

    /// Window width in milliseconds.
    pub fn window_width_ms(&self) -> (w: u64)
        ensures
            w == self.width_ms(),
    {
        self.window_width_ms
    }

    /// Tokens consumed in the previous window.
    pub fn previous_tokens(&self) -> (t: u64)
        ensures
            t == self.tokens_prev(),
    {
        self.tokens_prev
    }

    /// Tokens consumed in the current window.
    pub fn current_tokens(&self) -> (t: u64)
        ensures
            t == self.tokens_this(),
    {
        self.tokens_this
    }

    /// Index of the current window.
    pub fn current_window(&self) -> (i: u64)
        ensures
            i == self.window_index(),
    {
        self.window_index
    }

    /// Move to the window with index `index`.
    ///
    /// Moving to the next window makes the current tokens the previous ones;
    /// skipping at least one window clears both counters; any other index
    /// leaves the limiter as it is.
    pub fn advance_to(&mut self, index: u64)
        requires
            old(self).window_index() + 1 <= u64::MAX,
            index != old(self).window_index() + 1 ==> old(self).window_index() + 2 <= u64::MAX,
        ensures
            old(self).same_config(*final(self)),
            if index == old(self).window_index() + 1 {
                &&& final(self).tokens_prev() == old(self).tokens_this()
                &&& final(self).tokens_this() == 0
                &&& final(self).window_index() == index
            } else if index >= old(self).window_index() + 2 {
                &&& final(self).tokens_prev() == 0
                &&& final(self).tokens_this() == 0
                &&& final(self).window_index() == index
            } else {
                *final(self) == *old(self)
            },
    {
        proof {
            use_type_invariant(&*self);
        }
        if index == self.window_index + 1 {
            // Moved on to the next window.
            self.tokens_prev = self.tokens_this;
            self.tokens_this = 0;
            self.window_index = index;
        } else if index >= self.window_index + 2 {
            // At least one whole window was skipped.
            self.tokens_prev = 0;
            self.tokens_this = 0;
            self.window_index = index;
        }
    }

    /// Accept `tokens` tokens into the current window when, together with the
    /// tokens already consumed in it and `effective_prev` (the previous
    /// window's tokens weighted by its overlap with the sliding window), they
    /// stay within the capacity.
    pub fn take_weighted(&mut self, tokens: u64, effective_prev: u64) -> (res: LimiterResult)
        requires
            effective_prev + old(self).tokens_this() + tokens <= u64::MAX,
        ensures
            old(self).same_config(*final(self)),
            final(self).tokens_prev() == old(self).tokens_prev(),
            final(self).window_index() == old(self).window_index(),
            res is Ok <==> effective_prev + old(self).tokens_this() + tokens <= old(self).capacity(),
            final(self).tokens_this() == (if res is Ok {
                old(self).tokens_this() + tokens
            } else {
                old(self).tokens_this() as int
            }),
            res is Ok ==> effective_prev + final(self).tokens_this() <= final(self).capacity(),
    {
        proof {
            use_type_invariant(&*self);
        }
        if effective_prev + self.tokens_this + tokens > self.config.capacity {
            Err(CantConsume)
        } else {
            self.tokens_this = self.tokens_this + tokens;
            Ok(())
        }
    }
}

} // verus!
