//! Basic parameters of the current frame.

use vstd::prelude::*;

verus! {

/// Rounded intermediate term ⌊π/ω₀ + 0.25⌋ = ⌊(2·b₀ + 81) / 8⌋ for period b₀.
pub open spec fn width_term(period: int) -> int {
    (2 * period + 81) / 8
}

/// Harmonic count L = ⌊0.9254 · ⌊π/ω₀ + 0.25⌋⌋ for period b₀.
pub open spec fn harmonics_of(period: int) -> int {
    9254 * width_term(period) / 10000
}

/// Band count K = min(⌈L/3⌉, 12) for period b₀.
pub open spec fn bands_of(period: int) -> int {
    let k = (harmonics_of(period) + 2) / 3;
    if k <= 12 {
        k
    } else {
        12
    }
}

/// Basic parameters of the current frame.
///
/// The fundamental frequency ω₀ is carried exactly as the rational multiple
/// (`fund_num` / `fund_den`)·π, so that every quantity derived from it here is
/// integer-exact; a sample-synthesis stage converts it to its own numeric type.
#[derive(Clone, Copy)]
pub struct BaseParams {
    /// Number of harmonics L of the fundamental frequency present in the frame.
    pub harmonics: u32,
    /// Number of frequency bands K in the frame, each of which is classified as
    /// either voiced or unvoiced.
    pub bands: u32,
    /// Numerator of the fundamental frequency ω₀, in units of π.
    pub fund_num: u32,
    /// Denominator of the fundamental frequency ω₀, in units of π.
    pub fund_den: u32,
}

impl BaseParams {
    /// The parameter ranges every frame must satisfy: L ∈ [9, 56], K ∈ [3, 12]
    /// with K = min(⌈L/3⌉, 12), and 0 < fund_num < fund_den (so ω₀ ∈ (0, π)).
    pub open spec fn wf(self) -> bool {
        &&& 9 <= self.harmonics <= 56
        &&& self.bands == if (self.harmonics + 2) / 3 <= 12 {
            (self.harmonics + 2) / 3 as int
        } else {
            12
        }
        &&& 3 <= self.bands <= 12
        &&& 0 < self.fund_num < self.fund_den
        &&& 79 <= self.fund_den <= 20000
    }

    /// Create a new `BaseParams` from the given period b₀, with
    /// ω₀ = 4π/(b₀ + 39.5) = (8/(2·b₀ + 79))·π.
    pub fn new(period: u8) -> (r: BaseParams)
        requires
            period <= 207,
        ensures
            r.wf(),
            r.harmonics == harmonics_of(period as int),
            r.bands == bands_of(period as int),
            r.fund_num == 8,
            r.fund_den == 2 * period + 79,
    {
        let w: u32 = (2 * (period as u32) + 81) / 8;
        let h: u32 = 9254 * w / 10000;
        proof {
            assert(10 <= w <= 61);
            assert(h == harmonics_of(period as int));
            assert(9254 * 10 <= 9254 * w <= 9254 * 61) by (nonlinear_arith)
                requires 10 <= w <= 61;
            assert(9 <= h <= 56);
        }
        let k: u32 = (h + 2) / 3;
        let b: u32 = if k <= 12 { k } else { 12 };

        BaseParams { harmonics: h, bands: b, fund_num: 8, fund_den: 2 * (period as u32) + 79 }
    }
}

impl Default for BaseParams {
    /// Create a new `BaseParams` with initial default values:
    /// ω₀ = 0.02985π, L = 30, K = 10.
    fn default() -> (r: BaseParams)
        ensures
            r.wf(),
            r.harmonics == 30,
            r.bands == 10,
            r.fund_num == 597,
            r.fund_den == 20000,
    {
        BaseParams { harmonics: 30, bands: 10, fund_num: 597, fund_den: 20000 }
    }
}

/// For every valid period b₀ ∈ [0, 207], the derived parameters lie in range:
/// L ∈ [9, 56] and K ∈ [3, 12]; and since ω₀ = (8/(2·b₀ + 79))·π with
/// 0 < 8 < 2·b₀ + 79, the fundamental frequency lies in (0, π).
pub proof fn lemma_base_params_ranges(period: int)
    requires
        0 <= period <= 207,
    ensures
        9 <= harmonics_of(period) <= 56,
        3 <= bands_of(period) <= 12,
        0 < 8 < 2 * period + 79,
{
    assert(10 <= width_term(period) <= 61);
    assert(9254 * 10 <= 9254 * width_term(period) <= 9254 * 61) by (nonlinear_arith)
        requires 10 <= width_term(period) <= 61;
    assert(9 <= harmonics_of(period) <= 56);
}

} // verus!
