//! Reconnection policy: how often a failed worker is restarted and how long
//! to wait before each attempt. Delays are in milliseconds.

use vstd::prelude::*;

verus! {

/// When to restart a failed worker, and after how long.
pub trait RestartPolicy {
    /// Whether attempt number `attempt` (counted from 0) should be made.
    fn should_restart(&self, attempt: u32) -> bool;

    /// How long to wait, in milliseconds, before attempt number `attempt`.
    fn next_delay(&self, attempt: u32) -> u64;
}

/// Exponential backoff: the delay doubles with each attempt, from an
/// initial delay, up to a maximum.
pub struct ExponentialBackoff {
    /// How many attempts are made.
    pub max_retries: u32,
    /// Delay before the first attempt, in milliseconds.
    pub initial_delay_ms: u64,
    /// Longest delay, in milliseconds.
    pub max_delay_ms: u64,
}

/// `2^e`.
pub open spec fn pow2(e: nat) -> nat
    decreases e,
{
    if e == 0 {
        1
    } else {
        2 * pow2((e - 1) as nat)
    }
}

/// The delay before attempt `attempt`: the initial delay times two to the
/// power of the attempt (at most 10), but never more than the maximum.
pub open spec fn backoff_delay(initial: u64, max: u64, attempt: u32) -> int {
    let e: nat = if attempt < 10 {
        attempt as nat
    } else {
        10
    };
    let d = initial as int * pow2(e) as int;
    if d < max as int {
        d
    } else {
        max as int
    }
}

impl Default for ExponentialBackoff {
    /// Ten attempts, waiting one second at first and at most thirty.
    fn default() -> (r: Self)
        ensures
            r.max_retries == 10,
            r.initial_delay_ms == 1000,
            r.max_delay_ms == 30000,
    {
        ExponentialBackoff { max_retries: 10, initial_delay_ms: 1000, max_delay_ms: 30000 }
    }
}

impl RestartPolicy for ExponentialBackoff {
    fn should_restart(&self, attempt: u32) -> (r: bool)
        ensures
            r == (attempt < self.max_retries),
    {
        attempt < self.max_retries
    }

    fn next_delay(&self, attempt: u32) -> (r: u64)
        ensures
            r == backoff_delay(self.initial_delay_ms, self.max_delay_ms, attempt),
    {
        let e: u32 = if attempt < 10 {
            attempt
        } else {
            10
        };
        let mut factor: u128 = 1;
        let mut i: u32 = 0;
        while i < e
            invariant
                i <= e <= 10,
                factor == pow2(i as nat),
                factor <= 1024,
            decreases e - i,
        {
            proof {
                lemma_pow2_bound(i as nat + 1);
            }
            factor = factor * 2;
            i = i + 1;
        }
        proof {
            let x = self.initial_delay_ms as u128;
            assert(x * factor <= 18446744073709551615u128 * 1024) by (nonlinear_arith)
                requires
                    x <= 18446744073709551615u128,
                    factor <= 1024,
            ;
        }
        let d: u128 = (self.initial_delay_ms as u128) * factor;
        if d < self.max_delay_ms as u128 {
            d as u64
        } else {
            self.max_delay_ms
        }
    }
}

proof fn lemma_pow2_bound(e: nat)
    requires
        e <= 10,
    ensures
        pow2(e) <= 1024,
        pow2(e) >= 1,
    decreases e,
{
    lemma_pow2_monotone(e, 10);
    lemma_pow2_monotone(0, e);
    assert(pow2(10) == 1024) by {
        reveal_with_fuel(pow2, 11);
    }
}

/// The backoff delays never shrink from one attempt to the next, and never
/// exceed the maximum.
pub proof fn law_backoff_monotone(initial: u64, max: u64, a: u32, b: u32)
    requires
        a <= b,
    ensures
        backoff_delay(initial, max, a) <= backoff_delay(initial, max, b),
        backoff_delay(initial, max, b) <= max,
{
    let ea: nat = if a < 10 { a as nat } else { 10 };
    let eb: nat = if b < 10 { b as nat } else { 10 };
    lemma_pow2_monotone(ea, eb);
    assert(initial as int * pow2(ea) as int <= initial as int * pow2(eb) as int) by (nonlinear_arith)
        requires
            pow2(ea) <= pow2(eb),
            initial >= 0,
    ;
}

proof fn lemma_pow2_monotone(a: nat, b: nat)
    requires
        a <= b,
    ensures
        pow2(a) <= pow2(b),
    decreases b,
{
    if a < b {
        lemma_pow2_monotone(a, (b - 1) as nat);
    }
}

} // verus!
