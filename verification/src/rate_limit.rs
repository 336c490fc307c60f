//! A usage limiter: at most `usage_limit` operations per period.
//!
//! The state machine is kept here and verified; a driver supplies the
//! clock (milliseconds since some epoch) and performs the waiting.  One
//! acquires a slot with [`UsageLimiter::try_acquire`], reports completion
//! with [`UsageLimiter::complete`], and rolls the period over with
//! [`UsageLimiter::update_period_end`] once the old period has passed.

use vstd::prelude::*;

verus! {

/// A value guarded by a per-period usage budget.
pub struct UsageLimiter<T> {
    inner: T,
    usage_limit: u64,
    limit_period_ms: u64,
    period_usage: u64,
    period_completed: u64,
    period_end_ms: u64,
}

impl<T> UsageLimiter<T> {
    /// The per-period budget.
    pub closed spec fn spec_limit(&self) -> u64 {
        self.usage_limit
    }

    /// The period length in milliseconds.
    pub closed spec fn spec_period_ms(&self) -> u64 {
        self.limit_period_ms
    }

    /// Slots taken in the current period.
    pub closed spec fn spec_usage(&self) -> u64 {
        self.period_usage
    }

    /// Operations finished in the current period.
    pub closed spec fn spec_completed(&self) -> u64 {
        self.period_completed
    }

    /// When the current period ends, in milliseconds.
    pub closed spec fn spec_period_end(&self) -> u64 {
        self.period_end_ms
    }

    /// Wraps `data` with a budget of `limit` operations per period.  The
    /// period must be at least the limiter's one-millisecond resolution.
    pub fn new(data: T, limit: u64, period_ms: u64) -> (r: UsageLimiter<T>)
        requires
            period_ms >= 1,
        ensures
            r.spec_limit() == limit,
            r.spec_period_ms() == period_ms,
            r.spec_usage() == 0,
            r.spec_completed() == 0,
            r.spec_period_end() == 0,
    {
        UsageLimiter {
            inner: data,
            usage_limit: limit,
            limit_period_ms: period_ms,
            period_usage: 0,
            period_completed: 0,
            period_end_ms: 0,
        }
    }

    /// A shared view of the guarded value.
    pub fn inner(&self) -> &T {
        &self.inner
    }

    /// Takes one slot of the current period's budget; fails exactly when
    /// the budget is spent.
    pub fn try_acquire(&mut self) -> (ok: bool)
        ensures
            ok == (old(self).spec_usage() < old(self).spec_limit()),
            ok ==> final(self).spec_usage() == old(self).spec_usage() + 1,
            !ok ==> final(self).spec_usage() == old(self).spec_usage(),
            final(self).spec_limit() == old(self).spec_limit(),
            final(self).spec_period_ms() == old(self).spec_period_ms(),
            final(self).spec_completed() == old(self).spec_completed(),
            final(self).spec_period_end() == old(self).spec_period_end(),
    {
        if self.period_usage < self.usage_limit {
            self.period_usage = self.period_usage + 1;
            true
        } else {
            false
        }
    }

    /// Records one finished operation (saturating at the counter's range).
    pub fn complete(&mut self)
        ensures
            final(self).spec_completed() == if old(self).spec_completed() < u64::MAX {
                (old(self).spec_completed() + 1) as u64
            } else {
                old(self).spec_completed()
            },
            final(self).spec_usage() == old(self).spec_usage(),
            final(self).spec_limit() == old(self).spec_limit(),
            final(self).spec_period_ms() == old(self).spec_period_ms(),
            final(self).spec_period_end() == old(self).spec_period_end(),
    {
        if self.period_completed < u64::MAX {
            self.period_completed = self.period_completed + 1;
        }
    }

    /// The end of the current period, in milliseconds.
    pub fn period_end(&self) -> (r: u64)
        ensures
            r == self.spec_period_end(),
    {
        self.period_end_ms
    }

    /// Rolls the period over, given the clock's current reading.
    ///
    /// Before the current period has ended nothing changes.  Otherwise a
    /// new period starts one period length from now (saturating at the
    /// clock's range), the finished operations are given back to the
    /// budget, and the completion count resets.  Returns the period end
    /// now in force.
    pub fn update_period_end(&mut self, now_ms: u64) -> (r: u64)
        ensures
            r == final(self).spec_period_end(),
            final(self).spec_limit() == old(self).spec_limit(),
            final(self).spec_period_ms() == old(self).spec_period_ms(),
            now_ms < old(self).spec_period_end() ==> *final(self) == *old(self),
            now_ms >= old(self).spec_period_end() ==> {
                &&& final(self).spec_period_end() == if old(self).spec_period_ms() <= u64::MAX
                    - now_ms {
                    (now_ms + old(self).spec_period_ms()) as u64
                } else {
                    u64::MAX
                }
                &&& final(self).spec_usage() == if old(self).spec_completed() <= old(
                    self,
                ).spec_usage() {
                    (old(self).spec_usage() - old(self).spec_completed()) as u64
                } else {
                    0u64
                }
                &&& final(self).spec_completed() == 0
            },
    {
        if now_ms < self.period_end_ms {
            return self.period_end_ms;
        }
        self.period_end_ms = if self.limit_period_ms <= u64::MAX - now_ms {
            now_ms + self.limit_period_ms
        } else {
            u64::MAX
        };
        self.period_usage = if self.period_completed <= self.period_usage {
            self.period_usage - self.period_completed
        } else {
            0
        };
        self.period_completed = 0;
        self.period_end_ms
    }
}

} // verus!
