//! Error counts derived from error-correction decoding.

use vstd::prelude::*;
use crate::frame::Errors;

verus! {

/// Sum of the first n error counts.
pub open spec fn errors_sum(errors: Errors, n: int) -> int
    decreases n,
{
    if n <= 0 {
        0
    } else {
        errors_sum(errors, n - 1) + errors[n - 1]
    }
}

/// Compute the total number of errors corrected in the current frame,
/// ϵ<sub>T</sub> = Σ ϵ<sub>i</sub>.
pub fn error_total(errors: &Errors) -> (r: usize)
    requires
        errors_sum(*errors, 7) <= usize::MAX,
    ensures
        r == errors_sum(*errors, 7),
{
    let mut total: usize = 0;
    let mut i: usize = 0;
    while i < 7
        invariant
            0 <= i <= 7,
            total == errors_sum(*errors, i as int),
            errors_sum(*errors, 7) <= usize::MAX,
        decreases 7 - i,
    {
        proof {
            lemma_errors_sum_mono(*errors, i as int + 1, 7);
        }
        total = total + errors[i];
        i = i + 1;
    }
    total
}

/// Prefix sums of the error counts never shrink.
proof fn lemma_errors_sum_mono(errors: Errors, i: int, j: int)
    requires
        0 <= i <= j,
    ensures
        errors_sum(errors, i) <= errors_sum(errors, j),
    decreases j,
{
    if i < j {
        lemma_errors_sum_mono(errors, i, j - 1);
    }
}

/// Errors corrected in the first Golay-coded chunk, ϵ<sub>0</sub>.
pub fn golay_errors(errors: &Errors) -> (r: usize)
    ensures
        r == errors[0],
{
    errors[0]
}

/// Errors corrected in the first Hamming-coded chunk, ϵ<sub>4</sub>.
pub fn hamming_errors(errors: &Errors) -> (r: usize)
    ensures
        r == errors[4],
{
    errors[4]
}

} // verus!
