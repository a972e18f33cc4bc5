//! Backoff policy: how long to wait before the next poll attempt after a
//! failed cycle.
//!
//! The policy is a pure function of whether the previous attempt had already
//! failed: a failure that follows a success waits the long interval, a failure
//! that immediately follows another failure waits the short interval.

use vstd::prelude::*;

verus! {

/// Seconds slept after a failure that immediately follows another failure.
pub const SHORT_INTERVAL_SECS: u64 = 15;

/// Seconds slept after the first failure since the last successful cycle.
pub const LONG_INTERVAL_SECS: u64 = 300;

/// The sleep the policy picks when a cycle fails while the previous attempt
/// had (`true`) or had not (`false`) failed.
pub open spec fn backoff_secs(last_attempt_failed: bool) -> u64 {
    if last_attempt_failed {
        SHORT_INTERVAL_SECS
    } else {
        LONG_INTERVAL_SECS
    }
}

/// The attempt flag after a cycle fails, whatever it was before.
pub open spec fn state_after_failure(last_attempt_failed: bool) -> bool {
    true
}

/// The attempt flag after a cycle succeeds, whatever it was before.
pub open spec fn state_after_success(last_attempt_failed: bool) -> bool {
    false
}

/// Whether the last poll attempt failed. Lives for the process lifetime,
/// reset by every successful cycle, set by every failure.
pub struct AttemptState {
    pub last_attempt_failed: bool,
}

impl AttemptState {
    /// A fresh process starts with no failed attempt on record.
    pub fn new() -> (s: AttemptState)
        ensures
            !s.last_attempt_failed,
    {
        AttemptState { last_attempt_failed: false }
    }

    /// Record a failed cycle and return how long to sleep before the next
    /// attempt.
    pub fn on_failure(&mut self) -> (secs: u64)
        ensures
            secs == backoff_secs(old(self).last_attempt_failed),
            final(self).last_attempt_failed == state_after_failure(
                old(self).last_attempt_failed,
            ),
    {
        let secs = if self.last_attempt_failed {
            SHORT_INTERVAL_SECS
        } else {
            LONG_INTERVAL_SECS
        };
        self.last_attempt_failed = true;
        secs
    }

    /// Record a successful cycle.
    pub fn on_success(&mut self)
        ensures
            final(self).last_attempt_failed == state_after_success(
                old(self).last_attempt_failed,
            ),
    {
        self.last_attempt_failed = false;
    }
}

/// Whatever the state before, the second of two consecutive failed cycles
/// sleeps the short interval, and a failure right after a successful cycle
/// sleeps the long interval.
pub proof fn lemma_backoff_policy(initial: bool)
    ensures
        backoff_secs(state_after_failure(initial)) == SHORT_INTERVAL_SECS,
        backoff_secs(state_after_success(state_after_failure(initial))) == LONG_INTERVAL_SECS,
{
}

} // verus!
