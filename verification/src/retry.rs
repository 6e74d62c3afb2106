use vstd::prelude::*;
use vstd::arithmetic::power2::{pow2, lemma_pow2_unfold, lemma_pow2_pos, lemma2_to64_rest};
use core::time::Duration;

verus! {

/// The duration of a whole number of milliseconds, as `Duration::from_millis` builds it.
pub uninterp spec fn millis_duration(ms: u64) -> Duration;

/// Calls `Duration::from_millis`; the contract claims only that the result is the
/// duration that function gives for `ms`, which never panics.
#[verifier::external_body]
fn duration_from_millis(ms: u64) -> (d: Duration)
    ensures
        d == millis_duration(ms),
{
    Duration::from_millis(ms)
}

/// The delay, in milliseconds, before retry number `attempt`: 100 ms doubled per attempt.
pub open spec fn delay_millis(attempt: nat) -> int {
    100 * (pow2(attempt) as int)
}

/// Wait a little longer after each unsuccessful attempt.
pub fn retry_delay(attempt: u32) -> (d: Duration)
    requires
        delay_millis(attempt as nat) <= u64::MAX,
    ensures
        d == millis_duration(delay_millis(attempt as nat) as u64),
{
    let mut factor: u64 = 1;
    let mut i: u32 = 0;
    proof {
        vstd::arithmetic::power::lemma_pow0(2);
    }
    while i < attempt
        invariant
            i <= attempt,
            factor == pow2(i as nat),
            delay_millis(attempt as nat) <= u64::MAX,
        decreases attempt - i,
    {
        proof {
            lemma_pow2_unfold((i + 1) as nat);
            lemma_pow2_mono(i as nat + 1, attempt as nat);
        }
        factor = factor * 2;
        i = i + 1;
    }
    duration_from_millis(100 * factor)
}

proof fn lemma_pow2_mono(a: nat, b: nat)
    requires
        a <= b,
    ensures
        pow2(a) <= pow2(b),
    decreases b - a,
{
    if a < b {
        lemma_pow2_mono(a + 1, b);
        lemma_pow2_unfold(a + 1);
        lemma_pow2_pos(a);
    }
}

/// Each retry waits twice as long as the one before.
pub proof fn law_delay_doubles(attempt: nat)
    ensures
        delay_millis(attempt + 1) == 2 * delay_millis(attempt),
{
    lemma_pow2_unfold(attempt + 1);
}


/// The delay fits in a `u64` count of milliseconds exactly for the first 58 attempts,
/// numbers 0 to 57.
pub proof fn law_delay_fits(attempt: nat)
    ensures
        delay_millis(attempt) <= u64::MAX <==> attempt <= 57,
{
    lemma2_to64_rest();
    if attempt <= 57 {
        lemma_pow2_mono(attempt, 57);
    } else {
        lemma_pow2_mono(58, attempt);
    }
}

} // verus!
