//! Fixed window rate limiter.

use core::time::Duration;
use vstd::prelude::*;

use crate::clock::{duration_as_nanos, duration_nanos, unix_time_now};
use crate::{lemma_result_unique, CantConsume, Limiter, LimiterResult};

verus! {

/// Whole milliseconds elapsed from `start_ns` to `now_ns`, zero when the clock
/// reads earlier than `start_ns`.
pub open spec fn elapsed_ms(start_ns: u128, now_ns: u128) -> u128 {
    if now_ns >= start_ns {
        ((now_ns - start_ns) / 1_000_000) as u128
    } else {
        0
    }
}

/// Index of the window of width `width_ms` that holds the reading `now_ns`,
/// counted from `start_ns`.  The elapsed milliseconds are taken modulo 2^64,
/// as a `u64` holds them.
pub open spec fn window_index_at(start_ns: u128, now_ns: u128, width_ms: u64) -> u64 {
    ((elapsed_ms(start_ns, now_ns) as u64) / width_ms) as u64
}

/// Computes the elapsed whole milliseconds between two readings.
pub fn elapsed_ms_between(start_ns: u128, now_ns: u128) -> (ms: u128)
    ensures
        ms == elapsed_ms(start_ns, now_ns),
{
    now_ns.saturating_sub(start_ns) / 1_000_000
}

/// Build a fixed window limiter that reads the system clock.
///
/// * `capacity` - how many consumes are allowed during a single window
/// * `window_width_ms` - window width in milliseconds
pub fn fixed_window(capacity: u64, window_width_ms: u64) -> (w: FixedWindow<impl Fn() -> Duration>)
    ensures
        w.capacity() == capacity,
        w.width_ms() == window_width_ms,
        w.tokens() == capacity,
        w.window_index() == 0,
        forall|d: Duration| #[trigger] call_ensures(w.clock(), (), d) <==> call_ensures(unix_time_now, (), d),
        exists|d: Duration| call_ensures(unix_time_now, (), d) && w.start_ns() == duration_as_nanos(d),
{
    FixedWindow::new_with_time_provider(capacity, window_width_ms, unix_time_now)
}

/// Fixed window rate limiter.
///
/// The timeline is split into windows of a given width and each window gets
/// `capacity` tokens.  A consume succeeds while the current window still
/// holds enough tokens.
pub struct FixedWindow<T> where T: Fn() -> Duration {
    config: FixedWindowConfig<T>,
    tokens: u64,
    window_index: u64,
    start_time: u128,
}

/// Configuration of a fixed window limiter.
struct FixedWindowConfig<T> where T: Fn() -> Duration {
    capacity: u64,
    width_ms: u64,
    time_provider: T,
}

impl<T> FixedWindowConfig<T> where T: Fn() -> Duration {
    fn new(capacity: u64, width_ms: u64, time_provider: T) -> (c: Self)
        ensures
            c.capacity == capacity,
            c.width_ms == width_ms,
            c.time_provider == time_provider,
    {
        FixedWindowConfig { capacity, width_ms, time_provider }
    }
}

impl<T> FixedWindow<T> where T: Fn() -> Duration {
    #[verifier::type_invariant]
    spec fn inv(self) -> bool {
        &&& self.tokens <= self.config.capacity
        &&& call_requires(self.config.time_provider, ())
    }

    /// Tokens allowed in one window.
    pub closed spec fn capacity(&self) -> u64 {
        self.config.capacity
    }

    /// Window width in milliseconds.
    pub closed spec fn width_ms(&self) -> u64 {
        self.config.width_ms
    }

    /// Tokens left in the current window.
    pub closed spec fn tokens(&self) -> u64 {
        self.tokens
    }

    /// Index of the window that the last consume fell in.
    pub closed spec fn window_index(&self) -> u64 {
        self.window_index
    }

    /// Clock reading, in nanoseconds, at which the limiter was created.
    pub closed spec fn start_ns(&self) -> u128 {
        self.start_time
    }

    /// The clock of the limiter.
    pub closed spec fn clock(&self) -> T {
        self.config.time_provider
    }

    /// `next` and `res` are the outcome of consuming `tokens` at the clock
    /// reading `now_ns`.
    pub open spec fn consumed_at(self, now_ns: u128, tokens: u64, next: Self, res: LimiterResult) -> bool {
        let idx = window_index_at(self.start_ns(), now_ns, self.width_ms());
        let avail = if idx != self.window_index() { self.capacity() } else { self.tokens() };
        &&& next.capacity() == self.capacity()
        &&& next.width_ms() == self.width_ms()
        &&& next.start_ns() == self.start_ns()
        &&& next.clock() == self.clock()
        &&& next.window_index() == idx
        &&& if tokens <= avail {
            next.tokens() == avail - tokens && res is Ok
        } else {
            next.tokens() == avail && res is Err
        }
    }

    /// Initialize a new fixed window limiter utilizing the given timer.
    ///
    /// * `capacity` - how many consumes are allowed during a single window
    /// * `window_width_ms` - window width in milliseconds
    /// * `time_provider` - closure that returns a monotonically nondecreasing
    ///   timestamp as a `Duration` from some fixed epoch in the past
    pub fn new_with_time_provider(capacity: u64, window_width_ms: u64, time_provider: T) -> (w: Self)
        requires
            call_requires(time_provider, ()),
        ensures
            w.capacity() == capacity,
            w.width_ms() == window_width_ms,
            w.tokens() == capacity,
            w.window_index() == 0,
            w.clock() == time_provider,
            exists|d: Duration| call_ensures(time_provider, (), d) && w.start_ns() == duration_as_nanos(d),
    {
        let time_now = time_provider();
        let start_time = duration_nanos(time_now);
        let config = FixedWindowConfig::new(capacity, window_width_ms, time_provider);
        FixedWindow { config, tokens: capacity, window_index: 0, start_time }
    }

    /// Consume `tokens` tokens at the clock reading `now_ns` (nanoseconds from
    /// the clock's epoch).
    pub fn consume_at(&mut self, tokens: u64, now_ns: u128) -> (res: LimiterResult)
        requires
            old(self).width_ms() > 0,
        ensures
            old(self).consumed_at(now_ns, tokens, *final(self), res),
            final(self).tokens() <= final(self).capacity(),
    {
        proof {
            use_type_invariant(&*self);
        }
        let ms = elapsed_ms_between(self.start_time, now_ns);
        let index: u64 = (ms as u64) / self.config.width_ms;
        if index != self.window_index {
            // New window: replenish the tokens.
            self.tokens = self.config.capacity;
            self.window_index = index;
        }
        match self.tokens.checked_sub(tokens) {
            Some(left) => {
                self.tokens = left;
                Ok(())
            },
            None => Err(CantConsume),
        }
    }
}

/// Within one window the tokens consumed add up and never exceed the
/// capacity: a consume that stays in the limiter's current window succeeds
/// exactly when the tokens left cover it, and then uses them up.
pub proof fn lemma_fixed_window_budget<T: Fn() -> Duration>(
    w: FixedWindow<T>,
    now_ns: u128,
    tokens: u64,
    next: FixedWindow<T>,
    res: LimiterResult,
)
    requires
        w.tokens() <= w.capacity(),
        w.consumed_at(now_ns, tokens, next, res),
        window_index_at(w.start_ns(), now_ns, w.width_ms()) == w.window_index(),
    ensures
        res is Ok <==> tokens <= w.tokens(),
        res is Ok ==> w.capacity() - next.tokens() == (w.capacity() - w.tokens()) + tokens,
        res is Err ==> next.tokens() == w.tokens(),
        next.tokens() <= next.capacity(),
{
}

/// Tokens granted to the consumes of `steps` (each a clock reading and a
/// token count, with its result in `results`) whose reading falls in window
/// `i` of width `width_ms` counted from `start_ns`.
pub open spec fn granted_in_window(
    start_ns: u128,
    width_ms: u64,
    steps: Seq<(u128, u64)>,
    results: Seq<LimiterResult>,
    i: u64,
) -> int
    decreases steps.len(),
{
    if steps.len() == 0 || results.len() == 0 {
        0
    } else {
        granted_in_window(start_ns, width_ms, steps.drop_last(), results.drop_last(), i) + if results.last() is Ok
            && window_index_at(start_ns, steps.last().0, width_ms) == i {
            steps.last().1 as int
        } else {
            0
        }
    }
}

/// `states[j + 1]` and `results[j]` are the outcome of the `j`-th consume of
/// `steps` on `states[j]`.
pub open spec fn fixed_window_run<T: Fn() -> Duration>(
    states: Seq<FixedWindow<T>>,
    steps: Seq<(u128, u64)>,
    results: Seq<LimiterResult>,
) -> bool {
    &&& states.len() == steps.len() + 1
    &&& results.len() == steps.len()
    &&& forall|j: int|
        0 <= j < steps.len() ==> #[trigger] states[j].consumed_at(steps[j].0, steps[j].1, states[j + 1], results[j])
}

/// Clock readings that never go back and stay within 2^64 ms of `start_ns`.
pub open spec fn readings_in_order(start_ns: u128, steps: Seq<(u128, u64)>) -> bool {
    &&& forall|j: int, k: int| 0 <= j <= k < steps.len() ==> #[trigger] steps[j].0 <= #[trigger] steps[k].0
    &&& forall|j: int| 0 <= j < steps.len() ==> elapsed_ms(start_ns, #[trigger] steps[j].0) <= u64::MAX
}

/// A later reading never falls in an earlier window.
proof fn lemma_window_index_monotone(start_ns: u128, a: u128, b: u128, width_ms: u64)
    requires
        a <= b,
        width_ms > 0,
        elapsed_ms(start_ns, b) <= u64::MAX,
    ensures
        window_index_at(start_ns, a, width_ms) <= window_index_at(start_ns, b, width_ms),
{
    if a >= start_ns {
        vstd::arithmetic::div_mod::lemma_div_is_ordered((a - start_ns) as int, (b - start_ns) as int, 1_000_000);
    }
    let ea = elapsed_ms(start_ns, a);
    let eb = elapsed_ms(start_ns, b);
    assert(ea <= eb);
    vstd::arithmetic::div_mod::lemma_div_is_ordered(ea as int, eb as int, width_ms as int);
}

/// What a run of consumes keeps: the configuration, and for each window the
/// tokens granted in it, which together with the tokens left in the current
/// window stay within the capacity.
proof fn lemma_fixed_window_run_prefix<T: Fn() -> Duration>(
    states: Seq<FixedWindow<T>>,
    steps: Seq<(u128, u64)>,
    results: Seq<LimiterResult>,
    n: int,
)
    requires
        fixed_window_run(states, steps, results),
        states[0].tokens() <= states[0].capacity(),
        states[0].width_ms() > 0,
        readings_in_order(states[0].start_ns(), steps),
        steps.len() > 0 ==> states[0].window_index() <= window_index_at(
            states[0].start_ns(),
            steps[0].0,
            states[0].width_ms(),
        ),
        0 <= n <= steps.len(),
    ensures
        ({
            let s0 = states[0];
            let sn = states[n];
            &&& sn.capacity() == s0.capacity()
            &&& sn.width_ms() == s0.width_ms()
            &&& sn.start_ns() == s0.start_ns()
            &&& sn.tokens() <= sn.capacity()
            &&& n > 0 ==> sn.window_index() == window_index_at(s0.start_ns(), steps[n - 1].0, s0.width_ms())
            &&& forall|i: u64| {
                let g = #[trigger] granted_in_window(s0.start_ns(), s0.width_ms(), steps.take(n), results.take(n), i);
                &&& i == sn.window_index() ==> g + sn.tokens() <= s0.capacity()
                &&& i > sn.window_index() ==> g == 0
                &&& i < sn.window_index() ==> g <= s0.capacity()
            }
        }),
    decreases n,
{
    let s0 = states[0];
    if n == 0 {
        assert(steps.take(0).len() == 0);
        assert forall|i: u64| #[trigger] granted_in_window(s0.start_ns(), s0.width_ms(), steps.take(0), results.take(0), i) == 0 by {
        }
    } else {
        lemma_fixed_window_run_prefix(states, steps, results, n - 1);
        let prev = states[n - 1];
        let sn = states[n];
        let now = steps[n - 1].0;
        let k = steps[n - 1].1;
        assert(states[n - 1].consumed_at(steps[n - 1].0, steps[n - 1].1, states[(n - 1) + 1], results[n - 1]));
        let idx = window_index_at(s0.start_ns(), now, s0.width_ms());
        if n >= 2 {
            assert(steps[n - 2].0 <= steps[n - 1].0);
            lemma_window_index_monotone(s0.start_ns(), steps[n - 2].0, now, s0.width_ms());
        }
        assert(prev.window_index() <= idx);
        assert(steps.take(n).drop_last() =~= steps.take(n - 1));
        assert(results.take(n).drop_last() =~= results.take(n - 1));
        assert(steps.take(n).last() == steps[n - 1]);
        assert(results.take(n).last() == results[n - 1]);
        assert forall|i: u64| {
            let g = #[trigger] granted_in_window(s0.start_ns(), s0.width_ms(), steps.take(n), results.take(n), i);
            &&& i == sn.window_index() ==> g + sn.tokens() <= s0.capacity()
            &&& i > sn.window_index() ==> g == 0
            &&& i < sn.window_index() ==> g <= s0.capacity()
        } by {
            let gp = granted_in_window(s0.start_ns(), s0.width_ms(), steps.take(n - 1), results.take(n - 1), i);
            assert(granted_in_window(s0.start_ns(), s0.width_ms(), steps.take(n), results.take(n), i) == gp + if results[n - 1] is Ok && idx == i {
                k as int
            } else {
                0
            });
        }
    }
}

/// Over any run of consumes with a clock that never goes back, the tokens
/// granted in each window add up to at most the capacity.
pub proof fn lemma_fixed_window_run_budget<T: Fn() -> Duration>(
    states: Seq<FixedWindow<T>>,
    steps: Seq<(u128, u64)>,
    results: Seq<LimiterResult>,
    i: u64,
)
    requires
        fixed_window_run(states, steps, results),
        states[0].tokens() <= states[0].capacity(),
        states[0].width_ms() > 0,
        readings_in_order(states[0].start_ns(), steps),
        steps.len() > 0 ==> states[0].window_index() <= window_index_at(
            states[0].start_ns(),
            steps[0].0,
            states[0].width_ms(),
        ),
    ensures
        granted_in_window(states[0].start_ns(), states[0].width_ms(), steps, results, i) <= states[0].capacity(),
{
    let n = steps.len() as int;
    lemma_fixed_window_run_prefix(states, steps, results, n);
    assert(steps.take(n) =~= steps);
    assert(results.take(n) =~= results);
    let g = granted_in_window(states[0].start_ns(), states[0].width_ms(), steps.take(n), results.take(n), i);
    assert(g <= states[0].capacity());
}

/// Every window starts with the full capacity, however many windows were
/// skipped: a consume whose reading falls in a window other than the
/// limiter's current one is granted exactly when it asks for at most the
/// capacity, and leaves the rest of the capacity for that window.
pub proof fn lemma_fixed_window_new_window_full<T: Fn() -> Duration>(
    w: FixedWindow<T>,
    now_ns: u128,
    tokens: u64,
    next: FixedWindow<T>,
    res: LimiterResult,
)
    requires
        w.consumed_at(now_ns, tokens, next, res),
        window_index_at(w.start_ns(), now_ns, w.width_ms()) != w.window_index(),
    ensures
        res is Ok <==> tokens <= w.capacity(),
        next.window_index() == window_index_at(w.start_ns(), now_ns, w.width_ms()),
        res is Ok ==> next.tokens() == w.capacity() - tokens,
        res is Err ==> next.tokens() == w.capacity(),
{
}

/// A consume's outcome is a function of the limiter, the clock reading and
/// the tokens asked for: at one reading, `try_consume_one` and
/// `try_consume(1)` give the same result and leave the same limiter.
pub proof fn lemma_fixed_window_outcome_unique<T: Fn() -> Duration>(
    w: FixedWindow<T>,
    now_ns: u128,
    tokens: u64,
    next1: FixedWindow<T>,
    res1: LimiterResult,
    next2: FixedWindow<T>,
    res2: LimiterResult,
)
    requires
        w.consumed_at(now_ns, tokens, next1, res1),
        w.consumed_at(now_ns, tokens, next2, res2),
    ensures
        res1 == res2,
        next1 == next2,
{
    lemma_result_unique(res1, res2);
    assert(next1.config == next2.config);
}

impl<T> Limiter for FixedWindow<T> where T: Fn() -> Duration {
    open spec fn ready(&self) -> bool {
        self.width_ms() > 0
    }

    open spec fn consumes(&self, tokens: u64, next: Self, res: LimiterResult) -> bool {
        exists|now_ns: u128| #[trigger] self.consumed_at(now_ns, tokens, next, res)
    }

    fn try_consume(&mut self, tokens: u64) -> (res: LimiterResult)
        ensures
            exists|d: Duration| call_ensures(old(self).clock(), (), d) && old(self).consumed_at(
                duration_as_nanos(d),
                tokens,
                *final(self),
                res,
            ),
    {
        proof {
            use_type_invariant(&*self);
        }
        let now = (self.config.time_provider)();
        let now_ns = duration_nanos(now);
        let res = self.consume_at(tokens, now_ns);
        assert(old(self).consumed_at(now_ns, tokens, *self, res));
        res
    }

    fn try_consume_one(&mut self) -> (res: LimiterResult)
        ensures
            exists|d: Duration| call_ensures(old(self).clock(), (), d) && old(self).consumed_at(
                duration_as_nanos(d),
                1,
                *final(self),
                res,
            ),
    {
        self.try_consume(1)
    }
}

} // verus!
