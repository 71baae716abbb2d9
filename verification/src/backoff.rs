use vstd::prelude::*;

use crate::interval::Interval;

verus! {

/// The smaller of two naturals.
pub open spec fn min_nat(a: nat, b: nat) -> nat {
    if a <= b {
        a
    } else {
        b
    }
}

/// Error backoff that doubles per step and is capped at `maximum`:
/// `initial` after no failures, then `min(2 * previous, maximum)`.
pub open spec fn capped_backoff(initial: nat, maximum: nat, exponent: nat) -> nat
    decreases exponent,
{
    if exponent == 0 {
        initial
    } else {
        min_nat(2 * capped_backoff(initial, maximum, (exponent - 1) as nat), maximum)
    }
}

/// Error backoff that doubles while it is below `maximum`, capped at
/// `maximum`; a delay that already reaches `maximum` is kept as it is.
pub open spec fn doubling_backoff(delay: nat, maximum: nat, remaining: nat) -> nat
    decreases remaining,
{
    if remaining == 0 || delay >= maximum {
        delay
    } else {
        doubling_backoff(min_nat(2 * delay, maximum), maximum, (remaining - 1) as nat)
    }
}

/// Once the capped backoff reaches the ceiling it stays there.
pub proof fn lemma_capped_backoff_stays(initial: nat, maximum: nat, i: nat, j: nat)
    requires
        i <= j,
        capped_backoff(initial, maximum, i) == maximum,
    ensures
        capped_backoff(initial, maximum, j) == maximum,
    decreases j - i,
{
    if i < j {
        lemma_capped_backoff_stays(initial, maximum, i, (j - 1) as nat);
    }
}

/// Law: after at least one failure the capped backoff never exceeds its
/// ceiling, and it never exceeds the ceiling at all when the first delay
/// does not.
pub proof fn lemma_capped_backoff_bounded(initial: nat, maximum: nat, exponent: nat)
    requires
        exponent > 0 || initial <= maximum,
    ensures
        capped_backoff(initial, maximum, exponent) <= maximum,
    decreases exponent,
{
}

/// Law: the capped backoff never shrinks as failures accumulate, provided
/// the first delay is within the ceiling.
pub proof fn lemma_capped_backoff_monotone(initial: nat, maximum: nat, i: nat, j: nat)
    requires
        i <= j,
        initial <= maximum,
    ensures
        capped_backoff(initial, maximum, i) <= capped_backoff(initial, maximum, j),
    decreases j - i,
{
    if i < j {
        lemma_capped_backoff_monotone(initial, maximum, i, (j - 1) as nat);
        lemma_capped_backoff_bounded(initial, maximum, (j - 1) as nat);
    }
}

/// Law: the doubling backoff starting at a delay within the ceiling stays
/// within the ceiling and never falls below its start.
pub proof fn lemma_doubling_backoff_bounded(delay: nat, maximum: nat, remaining: nat)
    requires
        delay <= maximum,
    ensures
        delay <= doubling_backoff(delay, maximum, remaining) <= maximum,
    decreases remaining,
{
    if remaining > 0 && delay < maximum {
        lemma_doubling_backoff_bounded(min_nat(2 * delay, maximum), maximum, (remaining - 1) as nat);
    }
}

/// Law: with a first delay within the ceiling, both backoff rules give the
/// same delay for every number of failures.
pub proof fn lemma_backoffs_agree(initial: nat, maximum: nat, exponent: nat)
    requires
        initial <= maximum,
    ensures
        doubling_backoff(initial, maximum, exponent) == capped_backoff(initial, maximum, exponent),
    decreases exponent,
{
    lemma_backoff_shift(initial, maximum, exponent);
}

proof fn lemma_backoff_shift(initial: nat, maximum: nat, exponent: nat)
    requires
        initial <= maximum,
    ensures
        doubling_backoff(initial, maximum, exponent) == capped_backoff(initial, maximum, exponent),
    decreases exponent,
{
    if exponent > 0 {
        if initial >= maximum {
            lemma_capped_backoff_stays(initial, maximum, 0, exponent);
        } else {
            let next = min_nat(2 * initial, maximum);
            lemma_backoff_shift(next, maximum, (exponent - 1) as nat);
            lemma_capped_shift(initial, maximum, (exponent - 1) as nat);
        }
    }
}

/// Starting one step later is the same as taking one more step.
proof fn lemma_capped_shift(initial: nat, maximum: nat, k: nat)
    ensures
        capped_backoff(min_nat(2 * initial, maximum), maximum, k) == capped_backoff(
            initial,
            maximum,
            k + 1,
        ),
    decreases k,
{
    if k > 0 {
        lemma_capped_shift(initial, maximum, (k - 1) as nat);
        assert(capped_backoff(min_nat(2 * initial, maximum), maximum, k) == min_nat(
            2 * capped_backoff(min_nat(2 * initial, maximum), maximum, (k - 1) as nat),
            maximum,
        ));
        assert(capped_backoff(initial, maximum, k + 1) == min_nat(
            2 * capped_backoff(initial, maximum, k),
            maximum,
        ));
    } else {
        assert(capped_backoff(initial, maximum, 1) == min_nat(
            2 * capped_backoff(initial, maximum, 0),
            maximum,
        ));
    }
}

/// One doubling step, capped at `maximum` (an overflowing sum counts as
/// `maximum`).
pub fn double_capped(delay: Interval, maximum: Interval) -> (r: Interval)
    ensures
        r.spec_nanos() == min_nat(2 * delay.spec_nanos(), maximum.spec_nanos()),
{
    match delay.checked_add(delay) {
        Some(sum) => sum.min(maximum),
        None => maximum.min(maximum),
    }
}

} // verus!
