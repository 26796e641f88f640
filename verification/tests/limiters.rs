use core::sync::atomic::{AtomicU64, Ordering};
use core::time::Duration;

use ebpf_ldms::{FixedWindow, Limiter, LimiterResult, SlidingWindowCounter, SlidingWindowLog};

/// A clock that steps forward by a given number of microseconds on each read.
struct MockClock(AtomicU64);

impl MockClock {
    fn new() -> Self {
        Self(AtomicU64::new(0))
    }

    fn step(&self, step: u64) -> Duration {
        Duration::from_micros(self.0.fetch_add(step, Ordering::Relaxed))
    }
}

/// One consume on a sliding window counter, weighting the previous window's
/// tokens by the overlap of the sliding window, in floating point.
fn counter_consume<T: Fn() -> Duration>(w: &mut SlidingWindowCounter<T>, tokens: u64) -> LimiterResult {
    let delta_t = w.elapsed_ms_now() as f64;
    let index_float = delta_t / w.window_width_ms() as f64;
    let index = index_float.trunc() as u64;
    let overlap = index_float.fract();
    let current = w.current_window();
    if current.checked_add(2).is_none() && index != current.wrapping_add(1) {
        panic!("attempt to add with overflow");
    }
    w.advance_to(index);
    let effective_tokens_previous = (w.previous_tokens() as f64 * (1.0 - overlap)) as u64;
    if effective_tokens_previous
        .checked_add(w.current_tokens())
        .and_then(|t| t.checked_add(tokens))
        .is_none()
    {
        panic!("attempt to add with overflow");
    }
    w.take_weighted(tokens, effective_tokens_previous)
}

#[test]
fn fixed_window_impl_verify_rate() {
    let clock = MockClock::new();
    // Each call steps the clock 100us forward
    let mut w = FixedWindow::new_with_time_provider(1000, 1, || clock.step(100));

    // T = 100us, tokens left = 1000
    assert!(w.try_consume(500).is_ok());
    // T = 200us, tokens left = 500
    assert!(w.try_consume(500).is_ok());
    // T = 300us, tokens left = 0
    assert!(w.try_consume_one().is_err());
    // T = 400us, tokens left = 0
    assert!(w.try_consume_one().is_err());
    // T = 500us, tokens left = 0
    assert!(w.try_consume_one().is_err());
    // T = 600us, tokens left = 0
    assert!(w.try_consume_one().is_err());
    // T = 700us, tokens left = 0
    assert!(w.try_consume_one().is_err());
    // T = 800us, tokens left = 0
    assert!(w.try_consume_one().is_err());
    // T = 900us, tokens left = 0
    assert!(w.try_consume_one().is_err());
    // T = 1000us, tokens left = 1000
    assert!(w.try_consume_one().is_ok());
    // T = 1100us, tokens left = 999
    assert!(w.try_consume(998).is_ok());
    // T = 1100us, tokens left = 1
    assert!(w.try_consume(2).is_err());
}

#[test]
fn verify_rate_sliding() {
    let clock = MockClock::new();
    // Each call steps the clock 1ms forward
    let mut w = SlidingWindowLog::<_, 10>::new_with_time_provider(1000, || clock.step(1000));

    // T = 1ms, tokens left = 1000
    assert!(w.try_consume(500).is_ok());
    // T = 2ms, tokens left = 500
    assert!(w.try_consume(500).is_ok());
    // T = 3ms, tokens left = 0
    assert!(w.try_consume_one().is_err());
    // T = 4ms, tokens left = 0
    assert!(w.try_consume_one().is_err());
    // T = 5ms, tokens left = 0
    assert!(w.try_consume_one().is_err());
    // T = 6ms, tokens left = 0
    assert!(w.try_consume_one().is_err());
    // T = 7ms, tokens left = 0
    assert!(w.try_consume_one().is_err());
    // T = 8ms, tokens left = 0
    assert!(w.try_consume_one().is_err());
    // T = 9ms, tokens left = 0
    assert!(w.try_consume_one().is_err());
    // T = 10ms, tokens left = 0
    assert!(w.try_consume_one().is_err());
    // T = 11ms, tokens left = 500
    assert!(w.try_consume_one().is_ok());
    // T = 12ms, tokens left = 999
    assert!(w.try_consume(999).is_ok());
    // T = 13ms, tokens left = 0
    assert!(w.try_consume_one().is_err());
}

#[test]
fn verify_rate_sliding_counter() {
    let clock = MockClock::new();
    // Each call steps the clock 1ms forward
    let mut w = SlidingWindowCounter::new_with_time_provider(1000, 10, || clock.step(1000));

    // First window
    // T = 1ms, tokens left = 1000
    assert!(counter_consume(&mut w, 1000).is_ok());
    // T = 2ms, tokens left = 0
    assert!(counter_consume(&mut w, 1).is_err());
    // T = 3ms, tokens left = 0
    assert!(counter_consume(&mut w, 1).is_err());
    // T = 4ms, tokens left = 0
    assert!(counter_consume(&mut w, 1).is_err());
    // T = 5ms, tokens left = 0
    assert!(counter_consume(&mut w, 1).is_err());
    // T = 6ms, tokens left = 0
    assert!(counter_consume(&mut w, 1).is_err());
    // T = 7ms, tokens left = 0
    assert!(counter_consume(&mut w, 1).is_err());
    // T = 8ms, tokens left = 0
    assert!(counter_consume(&mut w, 1).is_err());
    // T = 9ms, tokens left = 0
    assert!(counter_consume(&mut w, 1).is_err());
    // T = 10ms, tokens left = 0
    assert!(counter_consume(&mut w, 1).is_err());
    // Second window
    // T = 11ms, effective tokens used by previous window = 0.10.. * 1000 = 899
    assert!(counter_consume(&mut w, 101).is_ok());
    // T = 12ms, effective tokens used by previous window = 0.199.. * 1000 = 800
    // tokens used by this window = 101
    // total left = 99
    assert!(counter_consume(&mut w, 99).is_ok());

    // T = 12ms, effective tokens used by previous window = 0.30.. * 1000 = 700
    // tokens used by this window = 200
    // total left = 100
    assert!(counter_consume(&mut w, 101).is_err());
}

/// One consume on a token bucket: the tokens earned since the last refill
/// are computed in floating point from the elapsed seconds and the rate.
fn bucket_consume<T: Fn() -> Duration>(b: &mut ebpf_ldms::TokenBucket<T>, tokens: u64) -> LimiterResult {
    let now = b.read_clock_ns();
    let delta = b.elapsed_since_update_ns(now);
    let delta_t = Duration::new((delta / 1_000_000_000) as u64, (delta % 1_000_000_000) as u32);
    let tokens_to_add = (delta_t.as_secs_f64() * b.rate() as f64) as u64;
    b.refill(now, tokens_to_add);
    b.take(tokens)
}

#[test]
fn token_bucket_impl_verify_rate() {
    let clock = MockClock::new();
    // Each call steps the clock 100us forward
    let mut b = ebpf_ldms::TokenBucket::new_with_time_provider(1000, 100, || clock.step(100));

    // Can consume at rate of 100 tokens / 100 us because the bucket is full
    // T = 100us, tokens = 100
    assert!(bucket_consume(&mut b, 100).is_ok());

    // T = 200us, tokens = 0
    assert!(bucket_consume(&mut b, 1).is_err());
    // T = 300us, tokens = 0
    assert!(bucket_consume(&mut b, 1).is_err());
    // T = 400us, tokens = 0
    assert!(bucket_consume(&mut b, 1).is_err());
    // T = 500us, tokens = 0
    assert!(bucket_consume(&mut b, 1).is_err());
    // T = 600us, tokens = 0
    assert!(bucket_consume(&mut b, 1).is_err());
    // T = 700us, tokens = 0
    assert!(bucket_consume(&mut b, 1).is_err());
    // T = 800us, tokens = 0
    assert!(bucket_consume(&mut b, 1).is_err());
    // T = 900us, tokens = 0
    assert!(bucket_consume(&mut b, 1).is_err());
    // T = 1ms, tokens = 1
    assert!(bucket_consume(&mut b, 1).is_ok());
    // T = 1100us, tokens = 0
    assert!(bucket_consume(&mut b, 1).is_err());
}

#[test]
fn fixed_window_consume_at_exact_values() {
    let clock = MockClock::new();
    let mut w = FixedWindow::new_with_time_provider(10, 5, || clock.step(0));
    // Same window (elapsed 4 ms): 10 tokens available.
    assert_eq!(w.consume_at(7, 4_000_000), Ok(()));
    assert_eq!(w.consume_at(4, 4_999_999), Err(ebpf_ldms::CantConsume));
    assert_eq!(w.consume_at(3, 4_999_999), Ok(()));
    assert_eq!(w.consume_at(1, 4_999_999), Err(ebpf_ldms::CantConsume));
    // Next window at 5 ms replenishes.
    assert_eq!(w.consume_at(10, 5_000_000), Ok(()));
    assert_eq!(w.consume_at(1, 9_000_000), Err(ebpf_ldms::CantConsume));
    // A refused request in a new window still replenishes the window.
    assert_eq!(w.consume_at(11, 10_000_000), Err(ebpf_ldms::CantConsume));
    assert_eq!(w.consume_at(10, 10_000_000), Ok(()));
}

#[test]
fn fixed_window_clock_before_start_is_window_zero() {
    let clock = MockClock::new();
    clock.step(1_000_000); // the limiter starts at 1 s
    let mut w = FixedWindow::new_with_time_provider(2, 1, || clock.step(0));
    assert_eq!(w.consume_at(2, 0), Ok(()));
    assert_eq!(w.consume_at(1, 0), Err(ebpf_ldms::CantConsume));
}

#[test]
fn fixed_window_on_system_clock() {
    let mut w = ebpf_ldms::fixed_window(3, 60_000);
    assert!(w.try_consume(3).is_ok());
    assert!(w.try_consume_one().is_err());
}

#[test]
fn sliding_window_log_consume_at_exact_values() {
    let clock = MockClock::new();
    let mut w = SlidingWindowLog::<_, 4>::new_with_time_provider(10, || clock.step(0));
    assert_eq!(w.consume_at(6, 0), Ok(()));
    // 1 ms later the 6 tokens are still in the window.
    assert_eq!(w.consume_at(5, 1_000_000), Err(ebpf_ldms::CantConsume));
    assert_eq!(w.consume_at(4, 1_000_000), Ok(()));
    // At 4 ms the first 6 tokens dropped out; the 4 from 1 ms remain.
    assert_eq!(w.consume_at(7, 4_000_000), Err(ebpf_ldms::CantConsume));
    assert_eq!(w.consume_at(6, 4_000_000), Ok(()));
    // 4 ms after the last update the whole window is reset: the full
    // capacity is available again.
    assert_eq!(w.consume_at(10, 8_000_000), Ok(()));
    assert_eq!(w.consume_at(1, 8_500_000), Err(ebpf_ldms::CantConsume));
}

#[test]
fn sliding_window_log_reset_refuses_more_than_capacity() {
    let clock = MockClock::new();
    // Each read steps 20 ms: construction at 0 ms, the consume at 20 ms.
    let mut w = SlidingWindowLog::<_, 10>::new_with_time_provider(5, || clock.step(20_000));
    assert_eq!(w.try_consume(6), Err(ebpf_ldms::CantConsume));
    // 20 ms later: the capacity itself is granted.
    assert_eq!(w.try_consume(5), Ok(()));
}

#[test]
fn sliding_window_log_reset_grants_within_capacity() {
    let clock = MockClock::new();
    let mut w = SlidingWindowLog::<_, 10>::new_with_time_provider(5, || clock.step(0));
    assert_eq!(w.consume_at(5, 0), Ok(()));
    assert_eq!(w.consume_at(6, 30_000_000), Err(ebpf_ldms::CantConsume));
    assert_eq!(w.consume_at(5, 30_000_000), Ok(()));
    assert_eq!(w.consume_at(1, 30_000_000), Err(ebpf_ldms::CantConsume));
}

#[test]
fn sliding_window_log_on_system_clock() {
    let mut w = ebpf_ldms::sliding_window_log::<60000>(2);
    assert!(w.try_consume(2).is_ok());
    assert!(w.try_consume_one().is_err());
}

#[test]
fn sliding_window_counter_steps() {
    let clock = MockClock::new();
    let mut w = SlidingWindowCounter::new_with_time_provider(100, 10, || clock.step(0));
    assert_eq!(w.take_weighted(60, 0), Ok(()));
    assert_eq!(w.current_tokens(), 60);
    // Next window: the 60 tokens become the previous window's.
    w.advance_to(1);
    assert_eq!(w.previous_tokens(), 60);
    assert_eq!(w.current_tokens(), 0);
    assert_eq!(w.current_window(), 1);
    // With 50 of them still weighing, 51 more are too many.
    assert_eq!(w.take_weighted(51, 50), Err(ebpf_ldms::CantConsume));
    assert_eq!(w.take_weighted(50, 50), Ok(()));
    // Going back in time changes nothing.
    w.advance_to(0);
    assert_eq!(w.current_window(), 1);
    assert_eq!(w.current_tokens(), 50);
    // Skipping a window clears both counters.
    w.advance_to(3);
    assert_eq!(w.previous_tokens(), 0);
    assert_eq!(w.current_tokens(), 0);
    assert_eq!(w.current_window(), 3);
}

#[test]
fn sliding_window_counter_on_system_clock() {
    let w = ebpf_ldms::sliding_window_counter(5, 1000);
    assert_eq!(w.window_width_ms(), 1000);
    assert!(w.elapsed_ms_now() < 1000 * 60);
}

#[test]
fn token_bucket_steps() {
    let clock = MockClock::new();
    let mut b = ebpf_ldms::TokenBucket::new_with_time_provider(10, 5, || clock.step(0));
    assert_eq!(b.take(5), Ok(()));
    assert_eq!(b.take(1), Err(ebpf_ldms::CantConsume));
    // Nothing added: the refill time stays.
    b.refill(2_000_000_000, 0);
    assert_eq!(b.elapsed_since_update_ns(2_000_000_000), 2_000_000_000);
    // Refills saturate at the capacity.
    b.refill(2_000_000_000, 20);
    assert_eq!(b.elapsed_since_update_ns(2_000_000_000), 0);
    assert_eq!(b.take(6), Err(ebpf_ldms::CantConsume));
    assert_eq!(b.take(5), Ok(()));
    assert_eq!(b.elapsed_since_update_ns(1_000_000_000), 0);
}

#[test]
fn token_bucket_reads_its_clock() {
    let clock = MockClock::new();
    let b = ebpf_ldms::TokenBucket::new_with_time_provider(10, 5, || clock.step(3));
    // Construction read 0 us; the next read gives 3 us.
    assert_eq!(b.read_clock_ns(), 3_000);
    assert_eq!(b.elapsed_since_update_ns(3_000), 3_000);
}

#[test]
fn fixed_window_sequence_stays_within_budget() {
    let clock = MockClock::new();
    // Each read steps 1 ms; a window is 10 ms wide.
    let mut w = FixedWindow::new_with_time_provider(7, 10, || clock.step(1_000));
    let mut granted = 0;
    for _ in 0..9 {
        if w.try_consume(2).is_ok() {
            granted += 2;
        }
    }
    // Reads at 1..=9 ms all fall in window 0: three grants of 2.
    assert_eq!(granted, 6);
}

#[test]
fn token_bucket_on_system_clock() {
    let mut b = ebpf_ldms::token_bucket(100, 10);
    assert_eq!(b.rate(), 100);
    assert_eq!(b.take(10), Ok(()));
    assert_eq!(b.take(1), Err(ebpf_ldms::CantConsume));
}

#[test]
fn elapsed_ms_rounds_down_and_saturates() {
    assert_eq!(ebpf_ldms::elapsed_ms_between(1_000, 2_000_999), 1);
    assert_eq!(ebpf_ldms::elapsed_ms_between(5_000_000, 1), 0);
}

#[test]
fn cant_consume_message() {
    assert_eq!(ebpf_ldms::CantConsume.message(), "Can't consume from limiter");
}

#[test]
fn unix_time_is_after_2020() {
    assert!(ebpf_ldms::unix_time_now().as_secs() > 1_577_836_800);
}

#[test]
fn token_bucket_grants_at_most_capacity_plus_refills() {
    let clock = MockClock::new();
    let mut b = ebpf_ldms::TokenBucket::new_with_time_provider(1, 4, || clock.step(0));
    let mut taken = 0;
    let mut added = 0;
    for step in 0..12u64 {
        if step % 3 == 2 {
            b.refill(step as u128 * 1_000_000_000, 2);
            added += 2;
        }
        if b.take(3).is_ok() {
            taken += 3;
        }
    }
    assert!(taken <= 4 + added);
    assert_eq!((taken, added), (12, 8));
}

#[test]
fn sliding_window_log_counts_grants_of_the_last_window() {
    let clock = MockClock::new();
    let mut w = SlidingWindowLog::<_, 3>::new_with_time_provider(5, || clock.step(0));
    let ms = 1_000_000u128;
    assert_eq!(w.consume_at(3, 0), Ok(()));
    // 3 granted at 0 ms are within the last 3 ms: 3 more would make 6.
    assert_eq!(w.consume_at(3, ms), Err(ebpf_ldms::CantConsume));
    assert_eq!(w.consume_at(2, 2 * ms), Ok(()));
    // At 3 ms the grant at 0 ms has left the window; 2 remain.
    assert_eq!(w.consume_at(3, 3 * ms), Ok(()));
    assert_eq!(w.consume_at(1, 4 * ms), Err(ebpf_ldms::CantConsume));
    // At 6 ms only grants after 3 ms count: none.
    assert_eq!(w.consume_at(5, 6 * ms), Ok(()));
}
