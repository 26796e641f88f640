//! Runs of consumes on a sliding window log: what the window holds is
//! exactly the tokens granted in the last `W` milliseconds.

use core::time::Duration;
use vstd::prelude::*;

use crate::fixed_window::elapsed_ms;
use crate::seq_sum::{lemma_elem_le_sum, lemma_sum_update, lemma_sum_zeros, sum};
use crate::sliding_window::{fresh_window, shifted, SlidingWindowLog};
use crate::LimiterResult;

verus! {

/// Moving a window twice is moving it once by both distances.
proof fn lemma_shifted_twice(buf: Seq<u64>, a: int, b: int)
    requires
        a >= 0,
        b >= 0,
    ensures
        shifted(shifted(buf, a), b) =~= shifted(buf, a + b),
{
}

/// A window moved by at least its length is empty.
proof fn lemma_shifted_out(buf: Seq<u64>, a: int)
    requires
        a >= buf.len(),
    ensures
        sum(shifted(buf, a)) == 0,
{
    lemma_sum_zeros(shifted(buf, a));
}

/// Moving a window carries its newest slot along.
proof fn lemma_shifted_update(buf: Seq<u64>, v: u64, a: int)
    requires
        0 <= a < buf.len(),
    ensures
        shifted(buf.update(0, v), a) =~= shifted(buf, a).update(a, v),
{
}

/// A fresh window moved by less than its length still holds its tokens.
proof fn lemma_shifted_fresh(w: nat, tokens: u64, a: int)
    requires
        0 <= a < w,
    ensures
        sum(shifted(fresh_window(w, tokens), a)) == tokens,
{
    let zeros = Seq::new(w, |i: int| 0u64);
    assert(fresh_window(w, tokens) =~= zeros.update(0, tokens));
    lemma_shifted_update(zeros, tokens, a);
    lemma_sum_zeros(shifted(zeros, a));
    lemma_sum_update(shifted(zeros, a), a, tokens);
}

/// Tokens granted by the consumes of `steps` (each a clock reading and a
/// token count, with its result in `results`) whose reading lies in the `w`
/// milliseconds up to `t`: after `t - w` ms and not after `t`.
pub open spec fn log_used(steps: Seq<(u128, u64)>, results: Seq<LimiterResult>, t: u128, w: nat) -> int
    decreases steps.len(),
{
    if steps.len() == 0 || results.len() == 0 {
        0
    } else {
        log_used(steps.drop_last(), results.drop_last(), t, w) + if results.last() is Ok && steps.last().0 <= t && t
            < steps.last().0 + w * 1_000_000 {
            steps.last().1 as int
        } else {
            0
        }
    }
}

/// `states[j + 1]` and `results[j]` are the outcome of the `j`-th consume of
/// `steps` on `states[j]`.
pub open spec fn log_run<T: Fn() -> Duration, const W: usize>(
    states: Seq<SlidingWindowLog<T, W>>,
    steps: Seq<(u128, u64)>,
    results: Seq<LimiterResult>,
) -> bool {
    &&& states.len() == steps.len() + 1
    &&& results.len() == steps.len()
    &&& forall|j: int|
        0 <= j < steps.len() ==> #[trigger] states[j].consumed_at(steps[j].0, steps[j].1, states[j + 1], results[j])
}

/// Clock readings in whole milliseconds that never go back, start no earlier
/// than `start_ns` and stay within 2^64 ms of it.
pub open spec fn whole_ms_readings(start_ns: u128, steps: Seq<(u128, u64)>) -> bool {
    &&& start_ns % 1_000_000 == 0
    &&& forall|j: int| 0 <= j < steps.len() ==> #[trigger] steps[j].0 % 1_000_000 == 0
    &&& forall|j: int| 0 <= j < steps.len() ==> start_ns <= #[trigger] steps[j].0
    &&& forall|j: int, k: int| 0 <= j <= k < steps.len() ==> #[trigger] steps[j].0 <= #[trigger] steps[k].0
    &&& forall|j: int| 0 <= j < steps.len() ==> elapsed_ms(start_ns, #[trigger] steps[j].0) <= u64::MAX
}

/// Whole milliseconds between readings in whole milliseconds add up.
proof fn lemma_whole_ms_split(a: u128, b: u128, c: u128)
    requires
        a <= b <= c,
        a % 1_000_000 == 0,
        b % 1_000_000 == 0,
        c % 1_000_000 == 0,
    ensures
        (c - a) / 1_000_000 == (c - b) / 1_000_000 + (b - a) / 1_000_000,
        c - b == ((c - b) / 1_000_000) * 1_000_000,
{
    let m = 1_000_000int;
    vstd::arithmetic::div_mod::lemma_fundamental_div_mod(a as int, m);
    vstd::arithmetic::div_mod::lemma_fundamental_div_mod(b as int, m);
    vstd::arithmetic::div_mod::lemma_fundamental_div_mod(c as int, m);
    let qa = a as int / m;
    let qb = b as int / m;
    let qc = c as int / m;
    assert(c - a == m * (qc - qa)) by (nonlinear_arith)
        requires
            a == m * qa,
            c == m * qc;
    assert(c - b == m * (qc - qb)) by (nonlinear_arith)
        requires
            b == m * qb,
            c == m * qc;
    assert(b - a == m * (qb - qa)) by (nonlinear_arith)
        requires
            a == m * qa,
            b == m * qb;
    vstd::arithmetic::div_mod::lemma_div_multiples_vanish(qc - qa, m);
    vstd::arithmetic::div_mod::lemma_div_multiples_vanish(qc - qb, m);
    vstd::arithmetic::div_mod::lemma_div_multiples_vanish(qb - qa, m);
}

/// After `n` consumes, the window holds exactly the tokens granted in the
/// last `W` milliseconds before any later whole-millisecond reading `t`.
proof fn lemma_log_run_prefix<T: Fn() -> Duration, const W: usize>(
    states: Seq<SlidingWindowLog<T, W>>,
    steps: Seq<(u128, u64)>,
    results: Seq<LimiterResult>,
    n: int,
    t: u128,
)
    requires
        log_run(states, steps, results),
        W > 0,
        states[0].window() == Seq::new(W as nat, |i: int| 0u64),
        whole_ms_readings(states[0].last_update_ns(), steps),
        0 <= n <= steps.len(),
        t % 1_000_000 == 0,
        t >= (if n == 0 { states[0].last_update_ns() } else { steps[n - 1].0 }),
    ensures
        states[n].window().len() == W,
        states[n].capacity() == states[0].capacity(),
        states[n].last_update_ns() == (if n == 0 { states[0].last_update_ns() } else { steps[n - 1].0 }),
        ({
            let dd = (t - states[n].last_update_ns()) / 1_000_000;
            log_used(steps.take(n), results.take(n), t, W as nat) == if dd < W {
                sum(shifted(states[n].window(), dd))
            } else {
                0
            }
        }),
    decreases n,
{
    let start = states[0].last_update_ns();
    if n == 0 {
        let dd = (t - start) / 1_000_000;
        if dd < W {
            lemma_sum_zeros(shifted(states[0].window(), dd as int));
        }
        assert(steps.take(0).len() == 0);
    } else {
        let tn = steps[n - 1].0;
        let k = steps[n - 1].1;
        let res = results[n - 1];
        let s = states[n - 1];
        let s2 = states[n];
        if n >= 2 {
            assert(steps[n - 2].0 <= steps[n - 1].0);
        }
        lemma_log_run_prefix(states, steps, results, n - 1, t);
        lemma_log_run_prefix(states, steps, results, n - 1, tn);
        let last = s.last_update_ns();
        assert(s.consumed_at(tn, k, states[(n - 1) + 1], res));
        assert(start <= tn);
        assert(last <= tn);
        assert(last % 1_000_000 == 0);
        lemma_whole_ms_split(last, tn, t);
        // The milliseconds since the last update fit in the `u64` that the
        // limiter holds them in.
        vstd::arithmetic::div_mod::lemma_div_is_ordered((tn - last) as int, (tn - start) as int, 1_000_000);
        assert(elapsed_ms(start, tn) <= u64::MAX);
        let d = (tn - last) / 1_000_000;
        assert(elapsed_ms(last, tn) as u64 == d);
        let dp = (t - tn) / 1_000_000;
        assert(steps.take(n).drop_last() =~= steps.take(n - 1));
        assert(results.take(n).drop_last() =~= results.take(n - 1));
        assert(steps.take(n).last() == steps[n - 1]);
        assert(results.take(n).last() == results[n - 1]);
        let prev_used = log_used(steps.take(n - 1), results.take(n - 1), t, W as nat);
        assert(log_used(steps.take(n), results.take(n), t, W as nat) == prev_used + if res is Ok && tn <= t && t < tn
            + W * 1_000_000 {
            k as int
        } else {
            0
        });
        assert(t < tn + W * 1_000_000 <==> dp < W) by (nonlinear_arith)
            requires
                t - tn == dp * 1_000_000,
                dp >= 0;
        if d >= W {
            // The window started over at `tn`.
            lemma_shifted_out(s.window(), (d + dp) as int);
            if dp < W {
                lemma_shifted_fresh(W as nat, s2.window()[0], dp as int);
                assert(s2.window() =~= fresh_window(W as nat, s2.window()[0]));
            }
        } else {
            let buf = shifted(s.window(), d as int);
            assert(d != 0 ==> s2.last_update_ns() == tn);
            assert(d == 0 ==> tn == last);
            lemma_shifted_twice(s.window(), d as int, dp as int);
            if d + dp >= W {
                lemma_shifted_out(s.window(), (d + dp) as int);
            }
            if dp >= W {
                lemma_shifted_out(s2.window(), dp as int);
            } else if res is Ok {
                lemma_elem_le_sum(buf, 0);
                lemma_shifted_update(buf, (buf[0] + k) as u64, dp as int);
                lemma_sum_update(shifted(buf, dp as int), dp as int, (buf[0] + k) as u64);
            }
        }
    }
}

/// Over any run of consumes whose clock readings are whole milliseconds and
/// never go back, starting from an empty window: a consume is granted exactly
/// when the tokens granted in the `W` milliseconds up to its reading, and
/// the tokens it asks for, fit in the capacity.
pub proof fn lemma_sliding_log_run<T: Fn() -> Duration, const W: usize>(
    states: Seq<SlidingWindowLog<T, W>>,
    steps: Seq<(u128, u64)>,
    results: Seq<LimiterResult>,
    n: int,
)
    requires
        log_run(states, steps, results),
        W > 0,
        states[0].window() == Seq::new(W as nat, |i: int| 0u64),
        whole_ms_readings(states[0].last_update_ns(), steps),
        0 <= n < steps.len(),
    ensures
        results[n] is Ok <==> log_used(steps.take(n), results.take(n), steps[n].0, W as nat) + steps[n].1
            <= states[0].capacity(),
{
    let start = states[0].last_update_ns();
    let tn = steps[n].0;
    if n >= 1 {
        assert(steps[n - 1].0 <= steps[n].0);
    }
    lemma_log_run_prefix(states, steps, results, n, tn);
    let s = states[n];
    let last = s.last_update_ns();
    assert(s.consumed_at(tn, steps[n].1, states[n + 1], results[n]));
    vstd::arithmetic::div_mod::lemma_div_is_ordered((tn - last) as int, (tn - start) as int, 1_000_000);
    assert(elapsed_ms(start, tn) <= u64::MAX);
}

/// Elapsed time below one millisecond is never thrown away: the last-update
/// time moves only to the reading of a consume that is at least a whole
/// millisecond after it (when the slots move on), and otherwise stays.
pub proof fn lemma_log_reference_time<T: Fn() -> Duration, const W: usize>(
    w: SlidingWindowLog<T, W>,
    now_ns: u128,
    tokens: u64,
    next: SlidingWindowLog<T, W>,
    res: LimiterResult,
)
    requires
        W > 0,
        w.consumed_at(now_ns, tokens, next, res),
    ensures
        now_ns < w.last_update_ns() + 1_000_000 ==> next.last_update_ns() == w.last_update_ns(),
        next.last_update_ns() == w.last_update_ns() || next.last_update_ns() == now_ns,
        next.last_update_ns() != w.last_update_ns() ==> now_ns >= w.last_update_ns() + 1_000_000,
{
    let l = w.last_update_ns();
    if now_ns >= l {
        let q = (now_ns - l) / 1_000_000;
        assert(now_ns - l < 1_000_000 ==> q == 0) by (nonlinear_arith)
            requires
                q == (now_ns - l) / 1_000_000,
                now_ns - l >= 0;
        assert(q >= 1 ==> now_ns - l >= 1_000_000) by (nonlinear_arith)
            requires
                q == (now_ns - l) / 1_000_000,
                now_ns - l >= 0;
    }
}

/// Within a millisecond of the last update (or with a clock that reads
/// earlier), the slots do not move: a consume is granted exactly when the
/// window's tokens and the tokens asked for fit in the capacity; a granted
/// consume adds its tokens to the newest slot and a refused one changes
/// nothing.
pub proof fn lemma_log_same_millisecond<T: Fn() -> Duration, const W: usize>(
    w: SlidingWindowLog<T, W>,
    now_ns: u128,
    tokens: u64,
    next: SlidingWindowLog<T, W>,
    res: LimiterResult,
)
    requires
        W > 0,
        w.window().len() == W,
        w.consumed_at(now_ns, tokens, next, res),
        now_ns < w.last_update_ns() + 1_000_000,
    ensures
        res is Ok <==> sum(w.window()) + tokens <= w.capacity(),
        res is Ok ==> next.window() == w.window().update(0, (w.window()[0] + tokens) as u64),
        res is Err ==> next.window() == w.window(),
        next.last_update_ns() == w.last_update_ns(),
        next.capacity() == w.capacity(),
{
    lemma_log_reference_time(w, now_ns, tokens, next, res);
    let l = w.last_update_ns();
    if now_ns >= l {
        let q = (now_ns - l) / 1_000_000;
        assert(q == 0) by (nonlinear_arith)
            requires
                q == (now_ns - l) / 1_000_000,
                0 <= now_ns - l < 1_000_000;
    }
    assert(shifted(w.window(), 0) =~= w.window());
}

/// A consume less than a millisecond after the last update, then one at
/// least a whole window after that update: the second sees the whole window
/// passed and is granted exactly when it asks for at most the capacity.
pub proof fn lemma_log_sub_ms_then_window<T: Fn() -> Duration, const W: usize>(
    w: SlidingWindowLog<T, W>,
    t1: u128,
    k1: u64,
    n1: SlidingWindowLog<T, W>,
    r1: LimiterResult,
    t2: u128,
    k2: u64,
    n2: SlidingWindowLog<T, W>,
    r2: LimiterResult,
)
    requires
        W > 0,
        w.consumed_at(t1, k1, n1, r1),
        n1.consumed_at(t2, k2, n2, r2),
        w.last_update_ns() <= t1 < w.last_update_ns() + 1_000_000,
        t2 >= w.last_update_ns() + W * 1_000_000,
        (t2 - w.last_update_ns()) / 1_000_000 <= u64::MAX,
    ensures
        r2 is Ok <==> k2 <= w.capacity(),
        n2.window() == fresh_window(W as nat, if r2 is Ok { k2 } else { 0 }),
{
    lemma_log_reference_time(w, t1, k1, n1, r1);
    let l = w.last_update_ns();
    vstd::arithmetic::div_mod::lemma_div_is_ordered((W * 1_000_000) as int, (t2 - l) as int, 1_000_000);
    vstd::arithmetic::div_mod::lemma_div_multiples_vanish(W as int, 1_000_000);
}

} // verus!
