//! Priority scores: the numbers by which the pending queue and the tips are
//! ordered. Fractions are fixed-point numbers in millionths.

use vstd::prelude::*;
use crate::dag::PriorityWeights;
use crate::transaction::{Transaction, TransactionView};

verus! {

/// Number of decimal digits of `n` after the first: the integer part of its
/// decimal logarithm, and 0 for 0.
pub open spec fn decimal_magnitude(n: nat) -> nat
    decreases n,
{
    if n < 10 {
        0
    } else {
        1 + decimal_magnitude(n / 10)
    }
}

/// Whole seconds that have passed between a timestamp and `now`, both in
/// milliseconds; 0 for a timestamp that lies ahead.
pub open spec fn age_seconds(timestamp: u64, now: u64) -> nat {
    if now >= timestamp {
        ((now - timestamp) / 1000) as nat
    } else {
        0
    }
}

/// Estimated chance, in millionths, that a transaction meets a conflict: a
/// tenth, divided by fee and age, each counted from one.
pub open spec fn conflict_probability(fee: u64, age: nat) -> nat {
    (100_000int / ((fee + 1) * (age + 1))) as nat
}

/// Recency in millionths: one for a transaction of this second, falling with
/// the reciprocal of its age.
pub open spec fn recency(age: nat) -> nat {
    1_000_000nat / (age + 1)
}

/// The priority score of a transaction at time `now`, in millionths: the
/// weighted sum of its fee, of the chance that it meets no conflict, of its
/// recency and of the decimal magnitude of its amount.
pub open spec fn priority_score(t: TransactionView, w: PriorityWeights, now: u64) -> nat {
    let age = age_seconds(t.timestamp, now);
    (w.fee * t.fee * 1_000_000 + w.certainty * (1_000_000 - conflict_probability(t.fee, age))
        + w.recency * recency(age) + w.amount * decimal_magnitude(t.amount as nat)
        * 1_000_000) as nat
}

/// The magnitude of a 64-bit number is below 20.
pub proof fn lemma_magnitude_bound(n: nat)
    ensures
        n < 10 ==> decimal_magnitude(n) == 0,
        n <= u64::MAX ==> decimal_magnitude(n) <= 19,
        decimal_magnitude(n) <= n,
    decreases n,
{
    if n >= 10 {
        lemma_magnitude_bound(n / 10);
        if n <= u64::MAX {
            assert(pow10(20) == 100_000_000_000_000_000_000nat) by {
                reveal_with_fuel(pow10, 21);
            }
            lemma_magnitude_step(n, 19);
        }
    }
}

proof fn lemma_magnitude_step(n: nat, k: nat)
    ensures
        n < pow10(k + 1) ==> decimal_magnitude(n) <= k,
    decreases k,
{
    reveal_with_fuel(pow10, 2);
    if n >= 10 && k > 0 {
        lemma_magnitude_step(n / 10, (k - 1) as nat);
        assert(n < pow10(k + 1) ==> n / 10 < pow10(k)) by {
            assert(pow10(k + 1) == 10 * pow10(k));
        }
    } else if n >= 10 {
        assert(pow10(1) == 10);
    }
}

/// Ten to the power `k`.
pub open spec fn pow10(k: nat) -> nat
    decreases k,
{
    if k == 0 {
        1
    } else {
        10 * pow10((k - 1) as nat)
    }
}

/// Computes the decimal magnitude of a number.
pub fn magnitude(n: u64) -> (m: u64)
    ensures
        m == decimal_magnitude(n as nat),
        m <= 19,
{
    let mut rest: u64 = n;
    let mut m: u64 = 0;
    proof {
        lemma_magnitude_bound(n as nat);
    }
    while rest >= 10
        invariant
            m + decimal_magnitude(rest as nat) == decimal_magnitude(n as nat),
            decimal_magnitude(n as nat) <= 19,
        decreases rest,
    {
        rest = rest / 10;
        m = m + 1;
    }
    m
}

/// Computes the age of a timestamp in whole seconds.
pub fn age_in_seconds(timestamp: u64, now: u64) -> (age: u64)
    ensures
        age == age_seconds(timestamp, now),
{
    if now >= timestamp {
        (now - timestamp) / 1000
    } else {
        0
    }
}

/// Computes the estimated chance of a conflict, in millionths.
pub fn conflict_probability_of(fee: u64, age: u64) -> (p: u64)
    ensures
        p == conflict_probability(fee, age as nat),
        p <= 100_000,
{
    if fee >= 100_000 || age >= 100_000 {
        assert(100_000int / ((fee + 1) * (age + 1)) == 0) by (nonlinear_arith)
            requires
                fee >= 100_000 || age >= 100_000,
                fee >= 0,
                age >= 0,
        ;
        return 0;
    }
    let fee_factor: u64 = fee + 1;
    let age_factor: u64 = age + 1;
    assert(1 <= fee_factor * age_factor <= 100_000 * 100_000) by (nonlinear_arith)
        requires
            1 <= fee_factor <= 100_000,
            1 <= age_factor <= 100_000,
    ;
    let divisor: u64 = fee_factor * age_factor;
    let p: u64 = 100_000u64 / divisor;
    assert(p <= 100_000) by (nonlinear_arith)
        requires
            p == 100_000int / (divisor as int),
            divisor >= 1,
    ;
    p
}

proof fn lemma_product_bound(a: int, b: int, x: int, y: int)
    requires
        0 <= a <= x,
        0 <= b <= y,
    ensures
        0 <= a * b <= x * y,
{
    assert(0 <= a * b <= x * y) by (nonlinear_arith)
        requires
            0 <= a <= x,
            0 <= b <= y,
    ;
}

/// Computes the priority score of a transaction at time `now`.
pub fn calculate_priority_score(
    transaction: &Transaction,
    weights: &PriorityWeights,
    now: u64,
) -> (score: u128)
    ensures
        score == priority_score(transaction@, *weights, now),
{
    let age: u64 = age_in_seconds(transaction.timestamp, now);
    let p: u64 = conflict_probability_of(transaction.fee, age);
    let size: u64 = magnitude(transaction.amount);
    let fresh: u64 = 1_000_000u64 / (age + 1);
    proof {
        lemma_product_bound(
            weights.fee as int,
            transaction.fee as int,
            0xffff_ffff,
            0xffff_ffff_ffff_ffff,
        );
        lemma_product_bound(
            weights.fee * transaction.fee,
            1_000_000,
            0xffff_ffffint * 0xffff_ffff_ffff_ffffint,
            1_000_000,
        );
        lemma_product_bound(weights.certainty as int, 1_000_000 - p, 0xffff_ffff, 1_000_000);
        lemma_product_bound(weights.recency as int, fresh as int, 0xffff_ffff, 1_000_000);
        lemma_product_bound(weights.amount as int, size as int, 0xffff_ffff, 19);
        lemma_product_bound(weights.amount * size, 1_000_000, 0xffff_ffffint * 19int, 1_000_000);
    }
    let fee_term: u128 = weights.fee as u128 * transaction.fee as u128 * 1_000_000u128;
    let certainty_term: u128 = weights.certainty as u128 * (1_000_000u128 - p as u128);
    let recency_term: u128 = weights.recency as u128 * fresh as u128;
    let amount_term: u128 = weights.amount as u128 * size as u128 * 1_000_000u128;
    fee_term + certainty_term + recency_term + amount_term
}

} // verus!
