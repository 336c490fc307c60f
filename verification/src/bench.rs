//! Small helpers for timing operations and reporting progress.
//!
//! Readings of the monotonic clock are opaque: nothing is promised about
//! any single observation, so the counters here carry no contracts beyond
//! freedom from panics.  The counters are shared atomics, safe to bump
//! from many threads at once.

use vstd::prelude::*;

use std::sync::atomic::AtomicU64;
use std::sync::atomic::Ordering;
use std::time::Duration;
use std::time::Instant;

verus! {

#[verifier::external_type_specification]
#[verifier::external_body]
pub struct ExInstant(Instant);

/// Relies on `std::time::Instant::now`: an opaque reading of the
/// monotonic clock, about which nothing can be promised.
pub assume_specification[ Instant::now ]() -> Instant;

/// Relies on `std::time::Instant::elapsed`: the time since the reading,
/// as an opaque duration.
pub assume_specification[ Instant::elapsed ](this: &Instant) -> Duration;

/// Relies on `std::time::Duration::as_nanos`: the duration in whole
/// nanoseconds.
pub assume_specification[ Duration::as_nanos ](this: &Duration) -> u128;

/// A duration in nanoseconds that fits the accumulators here: wider
/// readings clamp to the maximum.
fn duration_nanos_u64(d: &Duration) -> u64 {
    let n = d.as_nanos();
    if n > u64::MAX as u128 {
        u64::MAX
    } else {
        n as u64
    }
}

/// An accumulator of elapsed time over repeated uses.
pub struct BenchMark {
    duration: AtomicU64,
    usages: AtomicU64,
}

impl BenchMark {
    /// A fresh accumulator with no recorded time.
    pub fn new() -> BenchMark {
        BenchMark { duration: AtomicU64::new(0), usages: AtomicU64::new(0) }
    }

    /// Runs `func` and records how long it took.
    #[inline]
    pub fn on<F: FnOnce() -> R, R>(&self, func: F) -> (result: R)
        requires
            call_requires(func, ()),
        ensures
            call_ensures(func, (), result),
    {
        let start = Instant::now();
        let result = func();
        self.append_time(start.elapsed());
        result
    }

    /// Adds one use of `elapsed` duration to the totals (nanoseconds
    /// beyond the counter's range clamp to its maximum).
    pub fn append_time(&self, elapsed: Duration) {
        let nanos = duration_nanos_u64(&elapsed);
        self.duration.fetch_add(nanos, Ordering::SeqCst);
        self.usages.fetch_add(1, Ordering::SeqCst);
    }
}

/// How often a progress counter fires its callback.
enum ProgressWriteStrategy {
    /// Every `0` counts — never — or every n-th count.
    Count(u64),
    /// Whenever at least the period has passed since the last firing.
    Elapsed { last_print: AtomicU64, period_nanos: u64 },
}

/// A shared counter that fires a callback every so many counts, or every
/// so often.
pub struct ProgressCounter {
    count: AtomicU64,
    start_time: Instant,
    strategy: ProgressWriteStrategy,
}

impl ProgressCounter {
    /// Fires every `print_period` counts.
    pub fn new(print_period: u64) -> ProgressCounter {
        ProgressCounter {
            count: AtomicU64::new(0),
            start_time: Instant::now(),
            strategy: ProgressWriteStrategy::Count(print_period),
        }
    }

    /// Fires whenever at least `period` has passed since the last firing.
    pub fn every(period: Duration) -> ProgressCounter {
        ProgressCounter {
            count: AtomicU64::new(0),
            start_time: Instant::now(),
            strategy: ProgressWriteStrategy::Elapsed {
                last_print: AtomicU64::new(0),
                period_nanos: duration_nanos_u64(&period),
            },
        }
    }

    /// Time since the counter was created.
    pub fn elapsed(&self) -> Duration {
        self.start_time.elapsed()
    }

    /// The counts so far, as last observed.
    pub fn count(&self) -> u64 {
        self.count.load(Ordering::SeqCst)
    }

    /// Counts one event and fires `func` with the new total when the
    /// strategy says it is due.
    pub fn periodic<F: FnOnce(u64)>(&self, func: F)
        requires
            forall|c: u64| #[trigger] call_requires(func, (c,)),
    {
        let count = self.count.fetch_add(1, Ordering::SeqCst).wrapping_add(1);
        match &self.strategy {
            ProgressWriteStrategy::Count(period) => {
                if *period != 0 && count % *period == 0 {
                    func(count);
                }
            },
            ProgressWriteStrategy::Elapsed { last_print, period_nanos } => {
                let prev = last_print.load(Ordering::SeqCst);
                let now_offset = duration_nanos_u64(&self.start_time.elapsed());
                let deadline = if *period_nanos > u64::MAX - prev {
                    u64::MAX
                } else {
                    prev + *period_nanos
                };
                if now_offset > deadline {
                    if last_print.compare_exchange(
                        prev,
                        now_offset,
                        Ordering::SeqCst,
                        Ordering::SeqCst,
                    ).is_ok() {
                        func(count);
                    }
                }
            },
        }
    }
}

} // verus!
