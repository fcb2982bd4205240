//! Retry and backoff policy for one probe attempt.
//!
//! Sending a request and sleeping are left to the caller. After each try the
//! caller reports what happened and is told what to do next: sleep and try
//! again, or stop with the attempt's outcome.

use crate::common::utils::{round_div, round_div_exec};
use vstd::prelude::*;

verus! {

/// Nanoseconds in a hundredth of a second.
pub const NANOS_PER_HUNDREDTH: u128 = 10_000_000;

/// The latency recorded for a request that took `nanos` nanoseconds: the
/// time in seconds rounded to two decimal places, counted in hundredths, and
/// held at `u64::MAX` where it would not fit.
pub open spec fn spec_latency(nanos: u128) -> u64 {
    if round_div(nanos as nat, 10_000_000) <= u64::MAX {
        round_div(nanos as nat, 10_000_000) as u64
    } else {
        u64::MAX
    }
}

/// Rounds the time that a request took to hundredths of a second.
pub fn latency_hundredths(nanos: u128) -> (latency: u64)
    ensures
        latency == spec_latency(nanos),
{
    let rounded: u128 = round_div_exec(nanos, NANOS_PER_HUNDREDTH);
    if rounded <= u64::MAX as u128 {
        rounded as u64
    } else {
        u64::MAX
    }
}

/// Delay before the first retry, in milliseconds.
pub const INITIAL_BACKOFF_MS: u64 = 500;

/// What became of one request, or of one attempt once its retries are spent.
#[derive(Clone, Copy, Debug, PartialEq, Eq, Structural)]
pub enum ProbeAttempt {
    /// A response in the success range arrived; the payload is the time that
    /// this one request took, in hundredths of a second.
    Success(u64),
    /// Connection error, timeout, or a response outside the success range.
    Failure,
}

/// What the caller does after reporting a try.
#[derive(Clone, Copy, Debug, PartialEq, Eq, Structural)]
pub enum RetryStep {
    /// Sleep this many milliseconds, then send the request again.
    RetryAfter(u64),
    /// Stop: the attempt is recorded with this outcome.
    Finished(ProbeAttempt),
}

/// The delay after the `k`-th failed try (counting from 0), without any
/// machine limit: 500 ms doubled `k` times.
pub open spec fn backoff_delay(k: nat) -> nat
    decreases k,
{
    if k == 0 {
        500
    } else {
        2 * backoff_delay((k - 1) as nat)
    }
}

/// The delay that is actually handed out: [`backoff_delay`], held at
/// `u64::MAX` once it no longer fits.
pub open spec fn delay_ms(k: nat) -> u64 {
    if backoff_delay(k) <= u64::MAX {
        backoff_delay(k) as u64
    } else {
        u64::MAX
    }
}

/// Progress of one attempt: how many tries have failed and how long to sleep
/// before the next one.
#[derive(Clone, Copy, Debug)]
pub struct RetryState {
    pub max_retries: u8,
    pub failed: u8,
    pub backoff_ms: u64,
}

impl RetryState {
    /// At most `max_retries` tries have failed, and the stored delay is the
    /// one that belongs to that count.
    pub open spec fn wf(&self) -> bool {
        &&& self.failed <= self.max_retries
        &&& self.backoff_ms == delay_ms(self.failed as nat)
    }

    /// The state before the first try.
    pub open spec fn initial(max_retries: u8) -> RetryState {
        RetryState { max_retries, failed: 0, backoff_ms: 500 }
    }

    /// The transition: a success ends the attempt at once; a failure asks for
    /// a retry while retries are left, and ends the attempt otherwise.
    pub open spec fn spec_step(self, outcome: ProbeAttempt) -> (RetryState, RetryStep) {
        match outcome {
            ProbeAttempt::Success(latency) => (
                self,
                RetryStep::Finished(ProbeAttempt::Success(latency)),
            ),
            ProbeAttempt::Failure => if self.failed < self.max_retries {
                (
                    RetryState {
                        max_retries: self.max_retries,
                        failed: (self.failed + 1) as u8,
                        backoff_ms: delay_ms((self.failed + 1) as nat),
                    },
                    RetryStep::RetryAfter(delay_ms(self.failed as nat)),
                )
            } else {
                (self, RetryStep::Finished(ProbeAttempt::Failure))
            },
        }
    }

    /// The state after `k` tries in a row have failed.
    pub open spec fn after_failures(max_retries: u8, k: nat) -> RetryState
        decreases k,
    {
        if k == 0 {
            Self::initial(max_retries)
        } else {
            Self::after_failures(max_retries, (k - 1) as nat).spec_step(ProbeAttempt::Failure).0
        }
    }

    pub fn new(max_retries: u8) -> (r: Self)
        ensures
            r == Self::initial(max_retries),
            r.wf(),
    {
        assert(backoff_delay(0) == 500);
        RetryState { max_retries, failed: 0, backoff_ms: INITIAL_BACKOFF_MS }
    }

    /// Reports the outcome of the try that was just made.
    pub fn on_outcome(&mut self, outcome: ProbeAttempt) -> (step: RetryStep)
        requires
            old(self).wf(),
        ensures
            (*final(self), step) == old(self).spec_step(outcome),
            final(self).wf(),
    {
        match outcome {
            ProbeAttempt::Success(latency) => RetryStep::Finished(ProbeAttempt::Success(latency)),
            ProbeAttempt::Failure => {
                if self.failed < self.max_retries {
                    let delay: u64 = self.backoff_ms;
                    proof {
                        lemma_delay_doubles(self.failed as nat);
                    }
                    self.backoff_ms = if delay > u64::MAX / 2 {
                        u64::MAX
                    } else {
                        delay * 2
                    };
                    self.failed = self.failed + 1;
                    RetryStep::RetryAfter(delay)
                } else {
                    RetryStep::Finished(ProbeAttempt::Failure)
                }
            },
        }
    }
}

/// Doubling with a ceiling: the next delay is twice this one while that fits
/// in a `u64`, and `u64::MAX` from then on.
pub proof fn lemma_delay_doubles(k: nat)
    ensures
        delay_ms(k) <= u64::MAX / 2 ==> delay_ms(k + 1) == 2 * delay_ms(k),
        delay_ms(k) > u64::MAX / 2 ==> delay_ms(k + 1) == u64::MAX,
        backoff_delay(k) >= 500,
    decreases k,
{
    if k > 0 {
        lemma_delay_doubles((k - 1) as nat);
    }
    assert(backoff_delay(k + 1) == 2 * backoff_delay(k));
}

/// A target that never answers is tried exactly `max_retries + 1` times: each
/// of the first `max_retries` failures is followed by a retry, whose delay
/// starts at 500 ms and doubles every time, and the failure after that ends
/// the attempt as a failure.
pub proof fn lemma_failing_target(max_retries: u8, k: nat)
    requires
        k <= max_retries,
    ensures
        RetryState::after_failures(max_retries, k).wf(),
        RetryState::after_failures(max_retries, k).failed == k,
        RetryState::after_failures(max_retries, k).max_retries == max_retries,
        k < max_retries ==> RetryState::after_failures(max_retries, k).spec_step(
            ProbeAttempt::Failure,
        ).1 == RetryStep::RetryAfter(delay_ms(k)),
        k == max_retries ==> RetryState::after_failures(max_retries, k).spec_step(
            ProbeAttempt::Failure,
        ).1 == RetryStep::Finished(ProbeAttempt::Failure),
        delay_ms(0) == 500,
        backoff_delay(k + 1) == 2 * backoff_delay(k),
    decreases k,
{
    assert(backoff_delay(0) == 500);
    assert(backoff_delay(k + 1) == 2 * backoff_delay(k));
    if k > 0 {
        lemma_failing_target(max_retries, (k - 1) as nat);
    }
}

} // verus!
