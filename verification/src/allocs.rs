//! Bit-allocation bookkeeping: the per-frame division of the scanned bits
//! among the quantized amplitudes, and the sizes of the six coefficient
//! blocks.

use vstd::prelude::*;
use crate::params::BaseParams;

verus! {

/// Size J<sub>i</sub> of coefficient block i (0-indexed here, so i ∈ [0, 5])
/// for harmonic count L: the six sizes split L as evenly as possible, with the
/// later blocks taking the remainder, so
/// J<sub>i</sub> = ⌊L/6⌋ + (1 if i ≥ 6 − (L mod 6), else 0).
pub open spec fn block_size(l: int, i: int) -> int {
    l / 6 + if i >= 6 - (l % 6) {
        1int
    } else {
        0int
    }
}

/// Number of quantized amplitudes used by each of the six coefficient blocks,
/// J<sub>i</sub> − 1 for i = 1..6 (every block also holds one gain value).
pub fn amps_used(harmonics: u32) -> (r: [u32; 6])
    requires
        9 <= harmonics <= 56,
    ensures
        forall|i: int| 0 <= i < 6 ==> r[i] + 1 == block_size(harmonics as int, i),
{
    let base: u32 = harmonics / 6;
    let rem: u32 = harmonics % 6;
    let j0: u32 = if rem >= 6 { base } else { base - 1 };
    let j1: u32 = if 1 + rem >= 6 { base } else { base - 1 };
    let j2: u32 = if 2 + rem >= 6 { base } else { base - 1 };
    let j3: u32 = if 3 + rem >= 6 { base } else { base - 1 };
    let j4: u32 = if 4 + rem >= 6 { base } else { base - 1 };
    let j5: u32 = if 5 + rem >= 6 { base } else { base - 1 };
    [j0, j1, j2, j3, j4, j5]
}

/// The six block sizes J<sub>1</sub> ≤ … ≤ J<sub>6</sub> for every harmonic
/// count L partition L exactly, are non-decreasing, and are pinned between
/// ⌊L/6⌋ and ⌈L/6⌉: J<sub>1</sub> = ⌊L/6⌋ and J<sub>6</sub> = ⌈L/6⌉.
pub proof fn lemma_block_sizes(l: int)
    requires
        9 <= l <= 56,
    ensures
        block_size(l, 0) + block_size(l, 1) + block_size(l, 2) + block_size(l, 3) + block_size(
            l,
            4,
        ) + block_size(l, 5) == l,
        forall|i: int, j: int| 0 <= i <= j < 6 ==> block_size(l, i) <= block_size(l, j),
        block_size(l, 0) == l / 6,
        block_size(l, 5) == (l + 5) / 6,
        block_size(l, 5) * 6 >= l,
        block_size(l, 0) * 6 <= l,
{
    assert(l == 6 * (l / 6) + l % 6);
    assert((l + 5) / 6 == l / 6 + if l % 6 == 0 { 0int } else { 1int });
}

/// Per-frame bit allocation for the quantized amplitudes b<sub>m</sub>,
/// 3 ≤ m ≤ L + 1: a width B<sub>m</sub> (possibly 0) for each amplitude, and
/// the maximum width over all of them.
///
/// Its well-formedness ties the widths to the frame parameters: there are
/// L − 1 of them, none exceeds `max` ≤ 10, and together they claim exactly the
/// 73 − K bits that the bit scan yields, so that the scan is consumed in full.
pub struct BitAlloc {
    /// Bit width B<sub>m</sub> of amplitude b<sub>m</sub> at index m − 3.
    pub widths: Vec<u32>,
    /// Maximum width, bounding the number of bit levels visited.
    pub max: u32,
}

/// Sum of the first `n` widths.
pub open spec fn sum_widths(widths: Seq<u32>, n: int) -> int
    decreases n,
{
    if n <= 0 {
        0
    } else {
        sum_widths(widths, n - 1) + widths[n - 1]
    }
}

/// Total number of bits yielded by the bit scan for band count K:
/// 3 + 3·12 + (20 − K) + 11 + 3 = 73 − K.
pub open spec fn scan_total(bands: int) -> int {
    73 - bands
}

impl BitAlloc {
    /// Well-formedness with respect to the frame parameters.
    pub open spec fn wf(self, params: BaseParams) -> bool {
        &&& self.widths.len() == params.harmonics - 1
        &&& forall|i: int| 0 <= i < self.widths.len() ==> self.widths[i] <= self.max
        &&& self.max <= 10
        &&& sum_widths(self.widths@, self.widths.len() as int) == scan_total(params.bands as int)
    }

    /// Check a candidate allocation against the given frame parameters and
    /// accept it only if it is well formed: the length, the width bound, and
    /// the exact total are each tested, so `Some` is returned if and only if
    /// the widths form a valid allocation row for these parameters.
    pub fn new(widths: Vec<u32>, max: u32, params: &BaseParams) -> (r: Option<BitAlloc>)
        requires
            params.wf(),
        ensures
            match r {
                Some(a) => a.wf(*params) && a.widths@ == widths@ && a.max == max,
                None => !(BitAlloc { widths, max }).wf(*params),
            },
    {
        if widths.len() != (params.harmonics - 1) as usize {
            return None;
        }
        if max > 10 {
            return None;
        }
        let mut total: u64 = 0;
        let mut i: usize = 0;
        while i < widths.len()
            invariant
                0 <= i <= widths.len(),
                widths.len() <= 55,
                total == sum_widths(widths@, i as int),
                forall|j: int| 0 <= j < i ==> widths[j] <= max,
                max <= 10,
                total <= 10 * i,
            decreases widths.len() - i,
        {
            if widths[i] > max {
                return None;
            }
            total = total + widths[i] as u64;
            i = i + 1;
        }
        if total != 73 - params.bands as u64 {
            return None;
        }
        Some(BitAlloc { widths, max })
    }
}

} // verus!
