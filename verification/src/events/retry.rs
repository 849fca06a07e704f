//! Repeated delivery of events.
use vstd::prelude::*;
use vstd::arithmetic::power;

verus! {

/// How delivery to a subscriber is repeated.
#[derive(Debug, Clone, Copy, PartialEq, Eq, Structural)]
pub struct EventRetryConfig {
    /// Number of deliveries in all; one means no repetition.
    pub max_attempts: u32,
    /// Delay before the first repetition.
    pub initial_backoff_ms: u64,
    /// Longest delay.
    pub max_backoff_ms: u64,
    /// Whole factor by which the delay grows from one repetition to the next.
    pub backoff_multiplier: u64,
}

/// The delay before a repetition, the first of which has index zero.
pub open spec fn backoff_delay(c: EventRetryConfig, attempt: nat) -> int {
    let raw = c.initial_backoff_ms * power::pow(c.backoff_multiplier as int, attempt);
    if raw < c.max_backoff_ms {
        raw
    } else {
        c.max_backoff_ms as int
    }
}

impl Default for EventRetryConfig {
    /// One delivery, without repetition.
    fn default() -> (r: Self)
        ensures
            r == (EventRetryConfig {
                max_attempts: 1,
                initial_backoff_ms: 100,
                max_backoff_ms: 30_000,
                backoff_multiplier: 2,
            }),
    {
        EventRetryConfig {
            max_attempts: 1,
            initial_backoff_ms: 100,
            max_backoff_ms: 30_000,
            backoff_multiplier: 2,
        }
    }
}

impl EventRetryConfig {
    /// The delay before a repetition, the first of which has index zero.
    pub fn compute_delay_ms(&self, attempt: u32) -> (r: u64)
        ensures
            r == backoff_delay(*self, attempt as nat),
    {
        let m: u64 = self.backoff_multiplier;
        let max: u64 = self.max_backoff_ms;
        let start: u64 = self.initial_backoff_ms;
        proof {
            power::lemma_pow0(m as int);
        }
        if m == 0 {
            if attempt == 0 {
                return min_u64(start, max);
            }
            proof {
                power::lemma0_pow(attempt as nat);
            }
            return 0;
        }
        if m == 1 || start == 0 {
            proof {
                power::lemma1_pow(attempt as nat);
                assert(0 * power::pow(m as int, attempt as nat) == 0);
            }
            return min_u64(start, max);
        }
        let mut delay: u64 = start;
        let mut k: u32 = 0;
        while k < attempt
            invariant
                k <= attempt,
                m >= 2,
                m == self.backoff_multiplier,
                max == self.max_backoff_ms,
                start == self.initial_backoff_ms,
                delay == start * power::pow(m as int, k as nat),
            decreases attempt - k,
        {
            if delay >= max {
                proof {
                    lemma_growth(start as int, m as int, k as nat, attempt as nat);
                }
                return max;
            }
            proof {
                lemma_next_power(start as int, m as int, k as nat);
            }
            let wide: u128 = product(delay, m);
            if wide >= max as u128 {
                proof {
                    lemma_growth(start as int, m as int, (k + 1) as nat, attempt as nat);
                }
                return max;
            }
            delay = wide as u64;
            k = k + 1;
        }
        min_u64(delay, max)
    }
}

fn min_u64(a: u64, b: u64) -> (r: u64)
    ensures
        r == (if a < b { a } else { b }),
{
    if a < b {
        a
    } else {
        b
    }
}

fn product(a: u64, b: u64) -> (r: u128)
    ensures
        r == a * b,
{
    assert(0 <= a * b <= 0xffff_ffff_ffff_ffff * 0xffff_ffff_ffff_ffff) by (nonlinear_arith)
        requires
            0 <= a <= 0xffff_ffff_ffff_ffff,
            0 <= b <= 0xffff_ffff_ffff_ffff,
    ;
    a as u128 * b as u128
}

proof fn lemma_next_power(start: int, m: int, k: nat)
    ensures
        start * power::pow(m, k + 1) == (start * power::pow(m, k)) * m,
{
    power::lemma_pow1(m);
    power::lemma_pow_adds(m, k, 1);
    let p = power::pow(m, k);
    assert(start * (p * m) == (start * p) * m) by (nonlinear_arith);
}

proof fn lemma_growth(start: int, m: int, a: nat, b: nat)
    requires
        start >= 0,
        m >= 1,
        a <= b,
    ensures
        start * power::pow(m, a) <= start * power::pow(m, b),
    decreases b - a,
{
    if a < b {
        lemma_growth(start, m, a, (b - 1) as nat);
        lemma_next_power(start, m, (b - 1) as nat);
        power::lemma_pow_positive(m, (b - 1) as nat);
        let x = start * power::pow(m, (b - 1) as nat);
        let q = power::pow(m, (b - 1) as nat);
        assert(x >= 0) by (nonlinear_arith)
            requires
                start >= 0,
                q > 0,
                x == start * q,
        ;
        assert(x <= x * m) by (nonlinear_arith)
            requires
                x >= 0,
                m >= 1,
        ;
    }
}

/// No delay exceeds the longest.
pub proof fn no_delay_exceeds_the_longest(c: EventRetryConfig, attempt: nat)
    ensures
        backoff_delay(c, attempt) <= c.max_backoff_ms,
{
}

/// Where the factor is at least one, a later repetition waits at least as long.
pub proof fn delays_do_not_shrink(c: EventRetryConfig, a: nat, b: nat)
    requires
        c.backoff_multiplier >= 1,
        a <= b,
    ensures
        backoff_delay(c, a) <= backoff_delay(c, b),
{
    lemma_growth(c.initial_backoff_ms as int, c.backoff_multiplier as int, a, b);
}

/// The first delay is the initial one, and each is the one before it times the
/// multiplier, up to the longest.
pub proof fn each_delay_is_a_multiple(c: EventRetryConfig, attempt: nat)
    requires
        c.backoff_multiplier >= 1,
    ensures
        c.initial_backoff_ms <= c.max_backoff_ms ==> backoff_delay(c, 0) == c.initial_backoff_ms,
        c.initial_backoff_ms > c.max_backoff_ms ==> backoff_delay(c, 0) == c.max_backoff_ms,
        ({
            let now = backoff_delay(c, attempt);
            let then = backoff_delay(c, attempt + 1);
            &&& now * c.backoff_multiplier < c.max_backoff_ms ==> then == now * c.backoff_multiplier
            &&& now * c.backoff_multiplier >= c.max_backoff_ms ==> then == c.max_backoff_ms
        }),
{
    let m = c.backoff_multiplier as int;
    let x = power::pow(m, attempt);
    power::lemma_pow0(m);
    power::lemma_pow1(m);
    power::lemma_pow_adds(m, attempt, 1);
    let raw = c.initial_backoff_ms * x;
    assert(power::pow(m, attempt + 1) == x * m);
    assert(c.initial_backoff_ms * (x * m) == raw * m) by (nonlinear_arith)
        requires
            raw == c.initial_backoff_ms * x,
    ;
    let longest = c.max_backoff_ms as int;
    assert(raw >= longest ==> raw * m >= longest && longest * m >= longest) by (nonlinear_arith)
        requires
            m >= 1,
            longest >= 0,
    ;
    assert(c.initial_backoff_ms * 1 == c.initial_backoff_ms);
}

} // verus!
