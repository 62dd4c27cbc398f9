//! Retry and backoff policy of the score source.
//!
//! The score source pulls snapshots from an upstream collaborator that can
//! fail; the policy here decides how long to wait before the next attempt:
//! exponential backoff from a configured base interval up to a configured
//! maximum, reset to the base after any success. The fetch itself is a
//! collaborator outside the library; only its outcomes flow through here.

use vstd::prelude::*;

verus! {

/// Exponential-backoff retry policy: the interval doubles on failure, is
/// capped at `max`, and resets to `base` on success.
#[derive(Clone, Copy, PartialEq, Eq, Structural, Debug)]
pub struct RetryPolicy {
    /// Interval used after a success, in milliseconds.
    pub base: u64,
    /// Largest interval the backoff may reach.
    pub max: u64,
    /// Interval to wait before the next attempt.
    pub current: u64,
}

impl RetryPolicy {
    /// The intervals are positive, ordered, and the current one lies between
    /// the base and the maximum.
    pub open spec fn wf(self) -> bool {
        1 <= self.base <= self.max && self.base <= self.current <= self.max
    }

    /// The interval after one more failure: doubled, capped at the maximum.
    pub open spec fn spec_next_after_failure(self) -> int {
        if 2 * self.current > self.max {
            self.max as int
        } else {
            2 * self.current
        }
    }

    /// Builds a policy starting at its base interval; rejects a zero base or
    /// a maximum below the base.
    pub fn new(base: u64, max: u64) -> (r: Option<RetryPolicy>)
        ensures
            1 <= base <= max ==> r == Some(RetryPolicy { base, max, current: base }),
            !(1 <= base <= max) ==> r is None,
            r is Some ==> r->0.wf(),
    {
        if 1 <= base && base <= max {
            Some(RetryPolicy { base, max, current: base })
        } else {
            None
        }
    }

    /// A success resets the interval to the base.
    pub fn on_success(&mut self)
        requires
            old(self).wf(),
        ensures
            final(self).wf(),
            final(self).base == old(self).base,
            final(self).max == old(self).max,
            final(self).current == old(self).base,
    {
        self.current = self.base;
    }

    /// A failure doubles the interval, capping it at the maximum.
    pub fn on_failure(&mut self)
        requires
            old(self).wf(),
        ensures
            final(self).wf(),
            final(self).base == old(self).base,
            final(self).max == old(self).max,
            final(self).current == old(self).spec_next_after_failure(),
    {
        if self.current > self.max / 2 {
            self.current = self.max;
        } else {
            self.current = 2 * self.current;
        }
    }
}

/// When the next fetch attempt is due. The loop asks `due` each tick; the
/// driver reports each attempt's outcome through `record`, which schedules
/// the following attempt one (possibly backed-off) interval later.
#[derive(Clone, Copy, PartialEq, Eq, Structural, Debug)]
pub struct FetchSchedule {
    pub policy: RetryPolicy,
    /// Clock reading, in milliseconds, at which the next attempt is due.
    pub next_due: u64,
}

impl FetchSchedule {
    pub open spec fn wf(self) -> bool {
        self.policy.wf()
    }

    /// A fresh schedule: the first attempt is due at once.
    pub fn new(policy: RetryPolicy) -> (r: FetchSchedule)
        requires
            policy.wf(),
        ensures
            r.wf(),
            r.policy == policy,
            r.next_due == 0,
    {
        FetchSchedule { policy, next_due: 0 }
    }

    /// An attempt is due exactly when the clock has reached the next-due time.
    pub fn due(&self, now: u64) -> (r: bool)
        ensures
            r == (now >= self.next_due),
    {
        now >= self.next_due
    }

    /// Records the outcome of an attempt made at `now`: a success resets the
    /// interval to the base, a failure backs off; either way the next attempt
    /// is due one current interval after `now`.
    pub fn record(&mut self, now: u64, success: bool)
        requires
            old(self).wf(),
            now + old(self).policy.max <= u64::MAX,
        ensures
            final(self).wf(),
            final(self).policy.base == old(self).policy.base,
            final(self).policy.max == old(self).policy.max,
            final(self).policy.current == if success {
                old(self).policy.base as int
            } else {
                old(self).policy.spec_next_after_failure()
            },
            final(self).next_due == now + final(self).policy.current,
    {
        if success {
            self.policy.on_success();
        } else {
            self.policy.on_failure();
        }
        self.next_due = now + self.policy.current;
    }
}

} // verus!
