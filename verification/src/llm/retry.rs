//! Whether a failed call is tried again, and how long to wait before.
use vstd::prelude::*;

verus! {

#[derive(Debug, Clone, Copy, PartialEq, Eq, Structural)]
pub struct RetryConfig {
    pub max_retries: u32,
    pub base_delay_ms: u64,
    pub max_delay_ms: u64,
}

impl Default for RetryConfig {
    fn default() -> (c: Self)
        ensures
            c == (RetryConfig { max_retries: 3, base_delay_ms: 500, max_delay_ms: 8000 }),
    {
        RetryConfig { max_retries: 3, base_delay_ms: 500, max_delay_ms: 8000 }
    }
}

/// What to do after a failed attempt.
#[derive(Debug, Clone, Copy, PartialEq, Eq, Structural)]
pub enum RetryDecision {
    /// The failure stands.
    GiveUp,
    /// Wait for a random time of at most this length, then try again.
    Wait { at_most_ms: u64 },
}

/// Two to the power `n`.
pub open spec fn power_of_two(n: nat) -> nat
    decreases n,
{
    if n == 0 {
        1
    } else {
        2 * power_of_two((n - 1) as nat)
    }
}

/// The longest time to wait after attempt number `attempt`: the delay doubles with
/// each attempt, up to the limit.
pub open spec fn backoff_ms(c: RetryConfig, attempt: nat) -> nat {
    if c.base_delay_ms * power_of_two(attempt) <= c.max_delay_ms {
        c.base_delay_ms as nat * power_of_two(attempt)
    } else {
        c.max_delay_ms as nat
    }
}

proof fn lemma_power_of_two_grows(a: nat, b: nat)
    requires
        a <= b,
    ensures
        1 <= power_of_two(a) <= power_of_two(b),
    decreases b,
{
    if a < b {
        lemma_power_of_two_grows(a, (b - 1) as nat);
    } else if a > 0 {
        lemma_power_of_two_grows((a - 1) as nat, (a - 1) as nat);
    }
}

impl RetryConfig {
    /// The longest time to wait after attempt number `attempt`.
    pub fn backoff(&self, attempt: u32) -> (ms: u64)
        ensures
            ms == backoff_ms(*self, attempt as nat),
    {
        if self.base_delay_ms == 0 {
            assert(0 * power_of_two(attempt as nat) == 0);
            return 0;
        }
        let mut delay: u64 = self.base_delay_ms;
        assert(power_of_two(0) == 1);
        assert(self.base_delay_ms * power_of_two(0) == self.base_delay_ms);
        let mut i: u32 = 0;
        while i < attempt && delay <= self.max_delay_ms
            invariant
                i <= attempt,
                self.base_delay_ms > 0,
                delay == self.base_delay_ms * power_of_two(i as nat),
            decreases attempt - i,
        {
            let ghost doubled = self.base_delay_ms * power_of_two((i + 1) as nat);
            proof {
                assert(doubled == 2 * delay) by (nonlinear_arith)
                    requires
                        doubled == self.base_delay_ms * (2 * power_of_two(i as nat)),
                        delay == self.base_delay_ms * power_of_two(i as nat),
                ;
            }
            if delay > self.max_delay_ms / 2 {
                proof {
                    lemma_power_of_two_grows((i + 1) as nat, attempt as nat);
                    assert(self.base_delay_ms * power_of_two(attempt as nat) >= doubled)
                        by (nonlinear_arith)
                        requires
                            doubled == self.base_delay_ms * power_of_two((i + 1) as nat),
                            power_of_two((i + 1) as nat) <= power_of_two(attempt as nat),
                    ;
                }
                return self.max_delay_ms;
            }
            delay = delay * 2;
            i += 1;
        }
        if delay > self.max_delay_ms {
            proof {
                lemma_power_of_two_grows(i as nat, attempt as nat);
                assert(self.base_delay_ms * power_of_two(attempt as nat) >= delay)
                    by (nonlinear_arith)
                    requires
                        delay == self.base_delay_ms * power_of_two(i as nat),
                        power_of_two(i as nat) <= power_of_two(attempt as nat),
                ;
            }
            self.max_delay_ms
        } else {
            delay
        }
    }

    /// What to do after attempt number `attempt`, counted from 0, has failed.
    pub fn after_failure(&self, attempt: u32, retryable: bool) -> (d: RetryDecision)
        ensures
            d == retry_decision(*self, attempt as nat, retryable),
    {
        if !retryable || attempt >= self.max_retries {
            RetryDecision::GiveUp
        } else {
            RetryDecision::Wait { at_most_ms: self.backoff(attempt) }
        }
    }
}

pub open spec fn retry_decision(c: RetryConfig, attempt: nat, retryable: bool) -> RetryDecision {
    if !retryable || attempt >= c.max_retries {
        RetryDecision::GiveUp
    } else {
        RetryDecision::Wait { at_most_ms: backoff_ms(c, attempt) as u64 }
    }
}

/// No wait is longer than the limit, and waits do not get shorter.
pub proof fn law_backoff_grows_to_the_limit(c: RetryConfig, a: nat, b: nat)
    requires
        a <= b,
    ensures
        backoff_ms(c, a) <= backoff_ms(c, b) <= c.max_delay_ms,
{
    lemma_power_of_two_grows(a, b);
    assert(c.base_delay_ms * power_of_two(a) <= c.base_delay_ms * power_of_two(b))
        by (nonlinear_arith)
        requires
            power_of_two(a) <= power_of_two(b),
            c.base_delay_ms >= 0,
    ;
}

} // verus!
