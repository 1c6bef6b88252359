//! A circuit breaker: after too many failures a provider is left alone for a while.
use vstd::prelude::*;

verus! {

/// The failures of a provider since its last success.
#[derive(Debug, Clone, Copy, PartialEq, Eq, Structural)]
pub struct CircuitBreaker {
    pub failure_count: u32,
    pub last_failure_ms: u64,
    pub threshold: u32,
    pub reset_timeout_ms: u64,
}

#[derive(Debug, Clone, PartialEq, Eq, Structural)]
pub struct CircuitBreakerSnapshot {
    pub failure_count: u32,
    pub last_failure_ms: u64,
    pub circuit_open: bool,
}

/// The breaker holds calls back at this time.
pub open spec fn breaker_open(b: CircuitBreaker, now_ms: u64) -> bool {
    &&& b.failure_count >= b.threshold
    &&& b.reset_timeout_ms > 0
    &&& now_ms - b.last_failure_ms < b.reset_timeout_ms
}

/// The breaker after one more failure; the count goes round at its largest value.
pub open spec fn breaker_failed(b: CircuitBreaker, now_ms: u64) -> CircuitBreaker {
    CircuitBreaker {
        failure_count: if b.failure_count == u32::MAX {
            0
        } else {
            (b.failure_count + 1) as u32
        },
        last_failure_ms: now_ms,
        ..b
    }
}

pub open spec fn breaker_succeeded(b: CircuitBreaker) -> CircuitBreaker {
    CircuitBreaker { failure_count: 0, ..b }
}

impl CircuitBreaker {
    pub fn new(threshold: u32, reset_timeout_ms: u64) -> (b: Self)
        ensures
            b == (CircuitBreaker {
                failure_count: 0,
                last_failure_ms: 0,
                threshold,
                reset_timeout_ms,
            }),
    {
        CircuitBreaker { failure_count: 0, last_failure_ms: 0, threshold, reset_timeout_ms }
    }

    pub fn is_open(&self, now_ms: u64) -> (b: bool)
        ensures
            b == breaker_open(*self, now_ms),
    {
        if self.failure_count < self.threshold {
            return false;
        }
        now_ms.saturating_sub(self.last_failure_ms) < self.reset_timeout_ms
    }

    pub fn record_success(&mut self)
        ensures
            *final(self) == breaker_succeeded(*old(self)),
    {
        self.failure_count = 0;
    }

    pub fn record_failure(&mut self, now_ms: u64)
        ensures
            *final(self) == breaker_failed(*old(self), now_ms),
    {
        self.failure_count = self.failure_count.wrapping_add(1);
        self.last_failure_ms = now_ms;
    }

    pub fn reset(&mut self)
        ensures
            *final(self) == (CircuitBreaker {
                failure_count: 0,
                last_failure_ms: 0,
                ..*old(self)
            }),
    {
        self.failure_count = 0;
        self.last_failure_ms = 0;
    }

    pub fn snapshot(&self, now_ms: u64) -> (s: CircuitBreakerSnapshot)
        ensures
            s == (CircuitBreakerSnapshot {
                failure_count: self.failure_count,
                last_failure_ms: self.last_failure_ms,
                circuit_open: breaker_open(*self, now_ms),
            }),
    {
        CircuitBreakerSnapshot {
            failure_count: self.failure_count,
            last_failure_ms: self.last_failure_ms,
            circuit_open: self.is_open(now_ms),
        }
    }
}

/// The breaker after `n` failures in a row, all at the same time.
pub open spec fn breaker_failed_times(b: CircuitBreaker, now_ms: u64, n: nat) -> CircuitBreaker
    decreases n,
{
    if n == 0 {
        b
    } else {
        breaker_failed(breaker_failed_times(b, now_ms, (n - 1) as nat), now_ms)
    }
}

/// A breaker that has seen no failure opens with the failure that reaches the
/// threshold, stays open for the time set, and then lets calls through again.
pub proof fn law_breaker_opens_and_closes(b: CircuitBreaker, at_ms: u64, n: nat, now_ms: u64)
    requires
        b.failure_count == 0,
        0 < n <= u32::MAX,
        at_ms <= now_ms,
    ensures
        breaker_failed_times(b, at_ms, n).failure_count == n,
        breaker_open(breaker_failed_times(b, at_ms, n), now_ms) <==> n >= b.threshold && now_ms
            - at_ms < b.reset_timeout_ms,
    decreases n,
{
    lemma_failures_keep_settings(b, at_ms, n);
    if n > 1 {
        law_breaker_opens_and_closes(b, at_ms, (n - 1) as nat, now_ms);
    } else {
        assert(breaker_failed_times(b, at_ms, 0) == b);
    }
}

proof fn lemma_failures_keep_settings(b: CircuitBreaker, at_ms: u64, n: nat)
    ensures
        breaker_failed_times(b, at_ms, n).threshold == b.threshold,
        breaker_failed_times(b, at_ms, n).reset_timeout_ms == b.reset_timeout_ms,
    decreases n,
{
    if n > 0 {
        lemma_failures_keep_settings(b, at_ms, (n - 1) as nat);
    }
}

/// A success closes the breaker at once.
pub proof fn law_success_closes(b: CircuitBreaker, now_ms: u64)
    requires
        b.threshold > 0,
    ensures
        !breaker_open(breaker_succeeded(b), now_ms),
{
}

} // verus!
