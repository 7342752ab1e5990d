//! Transaction arbitration policy: the underlying replicated-document
//! primitive exposes only non-blocking try-acquisition, so callers poll it
//! under a configurable deadline (default 2 s) and poll interval (default
//! 50 ms). This state machine makes every polling decision; the caller
//! performs the try-acquire and the sleep and reports back. Every poll
//! failure before the deadline is transient and silently retried. On
//! deadline, the guaranteed-progress form falls back to one blocking
//! acquisition — it never fails the caller, only delays it — while the
//! bounded form gives up instead, the only caller-visible failure.

use vstd::prelude::*;

verus! {

/// The default acquisition deadline, in milliseconds.
pub const DEFAULT_TIMEOUT_MS: u64 = 2000;

/// The default poll interval, in milliseconds.
pub const DEFAULT_RETRY_INTERVAL_MS: u64 = 50;

/// What the caller must do next while acquiring a transaction.
pub enum RetryStep {
    /// The try-acquisition succeeded: use the transaction.
    Granted,
    /// Sleep one poll interval, try again, and report back.
    Wait,
    /// The deadline passed on a guaranteed-progress acquisition: perform one
    /// blocking acquisition as a fallback, and warn that it came to that.
    FallbackBlocking,
    /// The deadline passed on a bounded acquisition: give up and surface the
    /// failure to the caller.
    TimedOut,
}

/// The polling state of one transaction acquisition: its deadline, its poll
/// interval, and how long it has been polling.
pub struct TransactionRetry {
    pub timeout_ms: u64,
    pub retry_interval_ms: u64,
    pub elapsed_ms: u64,
}

impl TransactionRetry {
    /// Whether the acquisition deadline has passed.
    pub open spec fn deadline_reached(&self) -> bool {
        self.elapsed_ms >= self.timeout_ms
    }

    /// The elapsed time after sleeping one more poll interval.
    pub open spec fn advanced_ms(&self) -> int {
        if self.elapsed_ms + self.retry_interval_ms <= u64::MAX {
            self.elapsed_ms + self.retry_interval_ms
        } else {
            u64::MAX as int
        }
    }

    /// A fresh acquisition under the default deadline and poll interval.
    pub fn new() -> (r: Self)
        ensures
            r.timeout_ms == DEFAULT_TIMEOUT_MS,
            r.retry_interval_ms == DEFAULT_RETRY_INTERVAL_MS,
            r.elapsed_ms == 0,
    {
        TransactionRetry {
            timeout_ms: DEFAULT_TIMEOUT_MS,
            retry_interval_ms: DEFAULT_RETRY_INTERVAL_MS,
            elapsed_ms: 0,
        }
    }

    /// A fresh acquisition under a caller-chosen deadline and poll interval.
    pub fn with_policy(timeout_ms: u64, retry_interval_ms: u64) -> (r: Self)
        ensures
            r.timeout_ms == timeout_ms,
            r.retry_interval_ms == retry_interval_ms,
            r.elapsed_ms == 0,
    {
        TransactionRetry { timeout_ms, retry_interval_ms, elapsed_ms: 0 }
    }

    /// One decision of a guaranteed-progress acquisition, given whether the
    /// last try-acquire succeeded. It never times the caller out: before the
    /// deadline a failed try is waited out, and on deadline the caller falls
    /// back to one blocking acquisition.
    pub fn step_blocking(&mut self, acquired: bool) -> (r: RetryStep)
        ensures
            !(r is TimedOut),
            acquired ==> r is Granted && *final(self) == *old(self),
            !acquired && !old(self).deadline_reached() ==> {
                &&& r is Wait
                &&& final(self).elapsed_ms == old(self).advanced_ms()
            },
            !acquired && old(self).deadline_reached() ==> r is FallbackBlocking && *final(self)
                == *old(self),
            final(self).timeout_ms == old(self).timeout_ms,
            final(self).retry_interval_ms == old(self).retry_interval_ms,
    {
        if acquired {
            RetryStep::Granted
        } else if self.elapsed_ms < self.timeout_ms {
            self.advance();
            RetryStep::Wait
        } else {
            RetryStep::FallbackBlocking
        }
    }

    /// One decision of a bounded acquisition, given whether the last
    /// try-acquire succeeded. It never blocks the caller: before the
    /// deadline a failed try is waited out, and on deadline the acquisition
    /// gives up — the one caller-visible failure of arbitration.
    pub fn step_bounded(&mut self, acquired: bool) -> (r: RetryStep)
        ensures
            !(r is FallbackBlocking),
            acquired ==> r is Granted && *final(self) == *old(self),
            !acquired && !old(self).deadline_reached() ==> {
                &&& r is Wait
                &&& final(self).elapsed_ms == old(self).advanced_ms()
            },
            !acquired && old(self).deadline_reached() ==> r is TimedOut && *final(self) == *old(
                self,
            ),
            final(self).timeout_ms == old(self).timeout_ms,
            final(self).retry_interval_ms == old(self).retry_interval_ms,
    {
        if acquired {
            RetryStep::Granted
        } else if self.elapsed_ms < self.timeout_ms {
            self.advance();
            RetryStep::Wait
        } else {
            RetryStep::TimedOut
        }
    }

    /// Account for one more poll interval of waiting.
    fn advance(&mut self)
        ensures
            final(self).elapsed_ms == old(self).advanced_ms(),
            final(self).timeout_ms == old(self).timeout_ms,
            final(self).retry_interval_ms == old(self).retry_interval_ms,
    {
        if self.elapsed_ms <= u64::MAX - self.retry_interval_ms {
            self.elapsed_ms = self.elapsed_ms + self.retry_interval_ms;
        } else {
            self.elapsed_ms = u64::MAX;
        }
    }
}

} // verus!
