//! The progress policy: the trim stage is scaled linearly onto `0..=50`
//! percent, computed as `round(completed / (total + 1) * 50)`, so the final
//! mux always has headroom to reach exactly `100` on completion.

use vstd::arithmetic::div_mod::lemma_div_is_ordered;
use vstd::arithmetic::div_mod::lemma_fundamental_div_mod;
use vstd::prelude::*;

verus! {

/// `completed / (total + 1) * 50`, rounded half-up: the percentage reported
/// after `completed` of `total` clips have been trimmed.
pub open spec fn trim_progress_spec(completed: int, total: int) -> int {
    (100 * completed + total + 1) / (2 * total + 2)
}

/// The trim-stage percentage never exceeds 50.
pub proof fn lemma_trim_progress_le_50(completed: int, total: int)
    requires
        1 <= completed <= total,
    ensures
        trim_progress_spec(completed, total) <= 50,
{
    let num = 100 * completed + total + 1;
    let den = 2 * total + 2;
    lemma_fundamental_div_mod(num, den);
    let q = num / den;
    let r = num % den;
    assert(q <= 50) by (nonlinear_arith)
        requires
            num == den * q + r,
            0 <= r < den,
            num < 51 * den,
            den > 0,
    ;
}

/// The trim-stage percentage is never negative.
pub proof fn lemma_trim_progress_nonneg(completed: int, total: int)
    requires
        1 <= completed <= total,
    ensures
        trim_progress_spec(completed, total) >= 0,
{
    let num = 100 * completed + total + 1;
    let den = 2 * total + 2;
    lemma_fundamental_div_mod(num, den);
    let q = num / den;
    let r = num % den;
    assert(q >= 0) by (nonlinear_arith)
        requires
            num == den * q + r,
            0 <= r < den,
            num > 0,
            den > 0,
    ;
}

/// For at most 99 clips every trim-stage percentage is strictly positive.
/// (With 100 clips or more, the first percentage rounds to zero.)
pub proof fn lemma_trim_progress_positive(completed: int, total: int)
    requires
        1 <= completed <= total <= 99,
    ensures
        trim_progress_spec(completed, total) >= 1,
{
    let num = 100 * completed + total + 1;
    let den = 2 * total + 2;
    lemma_fundamental_div_mod(num, den);
    let q = num / den;
    let r = num % den;
    assert(q >= 1) by (nonlinear_arith)
        requires
            num == den * q + r,
            0 <= r < den,
            num >= den,
            den > 0,
    ;
}

/// Progress is non-decreasing in the number of completed clips.
pub proof fn lemma_trim_progress_monotone(c1: int, c2: int, total: int)
    requires
        1 <= c1 <= c2 <= total,
    ensures
        trim_progress_spec(c1, total) <= trim_progress_spec(c2, total),
{
    lemma_div_is_ordered(100 * c1 + total + 1, 100 * c2 + total + 1, 2 * total + 2);
}

/// The percentage reported after `completed` of `total` clips are trimmed.
pub fn trim_progress(completed: usize, total: usize) -> (p: u8)
    requires
        1 <= completed <= total,
    ensures
        p == trim_progress_spec(completed as int, total as int),
        p <= 50,
{
    let num: u128 = 100u128 * (completed as u128) + (total as u128) + 1;
    let den: u128 = 2u128 * (total as u128) + 2;
    let q: u128 = num / den;
    proof {
        lemma_trim_progress_nonneg(completed as int, total as int);
        lemma_trim_progress_le_50(completed as int, total as int);
    }
    q as u8
}

} // verus!
