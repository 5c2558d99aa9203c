//! Arithmetic of the voting score ledger: the accumulation step that folds
//! the current deposit totals into the running score, and the percentage
//! reduction that decays stale voting pressure.

use vstd::prelude::*;
use vstd::arithmetic::div_mod::lemma_div_by_multiple;
use vstd::arithmetic::div_mod::lemma_div_is_ordered;
use vstd::arithmetic::mul::lemma_mul_basics;
use vstd::arithmetic::mul::lemma_mul_inequality;
use vstd::arithmetic::mul::lemma_mul_nonnegative;
use vstd::arithmetic::mul::lemma_mul_unary_negation;

verus! {

/// The score after one accumulation: the prior total plus the difference of
/// the current upvote and downvote deposit totals.
pub open spec fn accumulated_score(score: int, upvote: int, downvote: int) -> int {
    score + upvote - downvote
}

/// The magnitude of a (possibly negative) score.
pub open spec fn score_magnitude(score: int) -> int {
    if score >= 0 {
        score
    } else {
        -score
    }
}

/// Division by 100 truncating toward zero, the rounding the reduction uses.
pub open spec fn trunc_div_100(x: int) -> int {
    if x >= 0 {
        x / 100
    } else {
        -((-x) / 100)
    }
}

/// The score after reducing it by `percent`, with the reduction truncated
/// toward zero: `score - score * percent / 100`.
pub open spec fn reduced_score(score: int, percent: int) -> int {
    score - trunc_div_100(score * percent)
}

/// Accumulating changes the score by exactly `upvote - downvote`, so
/// accumulating with zero deposit totals leaves the score as it is, no
/// matter how often it is repeated.
pub proof fn lemma_accumulate_zero_is_idempotent(score: int)
    ensures
        accumulated_score(score, 0, 0) == score,
        accumulated_score(accumulated_score(score, 0, 0), 0, 0) == score,
{
}

/// Reducing by zero percent leaves the score unchanged; reducing by one
/// hundred percent zeroes it.
pub proof fn lemma_reduce_score_bounds(score: int)
    ensures
        reduced_score(score, 0) == score,
        reduced_score(score, 100) == 0,
{
    lemma_mul_basics(score);
    if score >= 0 {
        lemma_div_by_multiple(score, 100);
    } else {
        lemma_mul_unary_negation(score, 100);
        lemma_div_by_multiple(-score, 100);
    }
}

/// The truncated reduction never exceeds the score's own magnitude when the
/// percentage is at most one hundred.
pub proof fn lemma_reduction_within_magnitude(score: int, percent: int)
    requires
        0 <= percent <= 100,
    ensures
        0 <= (score_magnitude(score) * percent) / 100 <= score_magnitude(score),
{
    let mag = score_magnitude(score);
    lemma_mul_nonnegative(mag, percent);
    lemma_div_is_ordered(0, mag * percent, 100);
    lemma_mul_inequality(percent, 100, mag);
    assert(mag * percent == percent * mag) by {
        vstd::arithmetic::mul::lemma_mul_is_commutative(mag, percent);
    }
    lemma_div_is_ordered(mag * percent, mag * 100, 100);
    lemma_div_by_multiple(mag, 100);
}

/// The reduction computed on the magnitude, re-signed, is exactly the
/// truncated-toward-zero reduction of the signed product.
pub proof fn lemma_reduce_score_via_magnitude(score: int, percent: int)
    requires
        0 <= percent <= 100,
    ensures
        score >= 0 ==> reduced_score(score, percent) == score - (score_magnitude(score) * percent)
            / 100,
        score < 0 ==> reduced_score(score, percent) == score + (score_magnitude(score) * percent)
            / 100,
{
    if score >= 0 {
        lemma_mul_nonnegative(score, percent);
    } else {
        lemma_mul_unary_negation(score, percent);
        lemma_mul_nonnegative(-score, percent);
    }
}

} // verus!
