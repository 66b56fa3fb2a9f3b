//! Bounded retry with exponential backoff.
//!
//! The retrier is a small state machine: the driver invokes the operation,
//! and after every failure asks the retrier whether to wait and try again or
//! to give up. All waiting is done by the driver; the retrier only decides.

use vstd::prelude::*;

verus! {

/// Largest number of times a retried operation may be invoked.
pub const MAX_ATTEMPTS: u32 = 3;

/// Delay before the first retry, in milliseconds.
pub const INITIAL_DELAY_MS: u64 = 100;

/// Factor by which the delay grows after each failed attempt.
pub const BACKOFF_MULTIPLIER: u64 = 2;

/// The delay, in milliseconds, that the retrier proposes after `n` recorded
/// failures: the initial delay doubled `n` times.
pub open spec fn delay_after(n: nat) -> nat
    decreases n,
{
    if n == 0 {
        INITIAL_DELAY_MS as nat
    } else {
        (BACKOFF_MULTIPLIER as nat) * delay_after((n - 1) as nat)
    }
}

/// What the retrier asks the driver to do after a failed attempt.
pub enum RetryDecision {
    /// Wait for `delay_ms` milliseconds, then invoke the operation again.
    Retry { delay_ms: u64 },
    /// The attempt budget is exhausted: surface the last failure unchanged.
    GiveUp,
}

/// State of one retried operation: how many invocations have failed so far
/// and how long the next wait would be. Created fresh for each operation and
/// discarded when the operation ends.
pub struct BackoffRetrier {
    pub attempts_failed: u32,
    pub delay_ms: u64,
}

impl BackoffRetrier {
    /// The counter never reaches the budget (the retrier gives up first) and
    /// the delay always equals the initial delay doubled once per failure.
    pub open spec fn wf(self) -> bool {
        &&& self.attempts_failed < MAX_ATTEMPTS
        &&& self.delay_ms == delay_after(self.attempts_failed as nat)
    }

    /// A fresh retrier: no failures recorded, the first retry would wait for
    /// the initial delay.
    pub fn new() -> (retrier: Self)
        ensures
            retrier.attempts_failed == 0,
            retrier.delay_ms == INITIAL_DELAY_MS,
            retrier.wf(),
    {
        BackoffRetrier { attempts_failed: 0, delay_ms: INITIAL_DELAY_MS }
    }

    /// Record one failed invocation. While the budget allows another
    /// invocation the decision is to wait for the current delay and retry,
    /// and the delay doubles; once invocations up to the budget have failed,
    /// the decision is to give up and the state no longer changes.
    pub fn on_failure(&mut self) -> (decision: RetryDecision)
        requires
            old(self).wf(),
        ensures
            final(self).wf(),
            old(self).attempts_failed + 1 < MAX_ATTEMPTS ==> {
                &&& decision == (RetryDecision::Retry { delay_ms: old(self).delay_ms })
                &&& final(self).attempts_failed == old(self).attempts_failed + 1
                &&& final(self).delay_ms == old(self).delay_ms * BACKOFF_MULTIPLIER
            },
            old(self).attempts_failed + 1 >= MAX_ATTEMPTS ==> {
                &&& decision == RetryDecision::GiveUp
                &&& *final(self) == *old(self)
            },
    {
        proof {
            reveal_with_fuel(delay_after, 4);
        }
        if self.attempts_failed + 1 < MAX_ATTEMPTS {
            let current: u64 = self.delay_ms;
            self.attempts_failed = self.attempts_failed + 1;
            self.delay_ms = current * BACKOFF_MULTIPLIER;
            RetryDecision::Retry { delay_ms: current }
        } else {
            RetryDecision::GiveUp
        }
    }
}

} // verus!
