//! Frequency-band edges of the harmonics within the unvoiced-synthesis DFT.

use vstd::prelude::*;
use crate::params::BaseParams;

verus! {

/// ⌈a / b⌉ for positive b.
pub open spec fn ceil_div(a: int, b: int) -> int {
    (a + b - 1) / b
}

/// Lower band edge a<sub>l</sub> = ⌈c·(l − 0.5)⌉ where c = 256·ω₀/(2π).
/// With ω₀ = (fund_num/fund_den)·π this is ⌈64·fund_num·(2l − 1) / fund_den⌉.
pub open spec fn lower_edge(p: BaseParams, l: int) -> int {
    ceil_div(64 * p.fund_num * (2 * l - 1), p.fund_den as int)
}

/// Upper band edge b<sub>l</sub> = ⌈c·(l + 0.5)⌉ where c = 256·ω₀/(2π).
pub open spec fn upper_edge(p: BaseParams, l: int) -> int {
    ceil_div(64 * p.fund_num * (2 * l + 1), p.fund_den as int)
}

/// Determine the lower and upper band edges (a<sub>l</sub>, b<sub>l</sub>) for
/// the given harmonic l of the fundamental frequency.
pub fn edges(l: usize, params: &BaseParams) -> (r: (usize, usize))
    requires
        params.wf(),
        1 <= l <= 56,
    ensures
        r.0 == lower_edge(*params, l as int),
        r.1 == upper_edge(*params, l as int),
        r.0 <= r.1,
{
    let num = params.fund_num as u64;
    let den = params.fund_den as u64;
    proof {
        assert(64 * num * (2 * l - 1) <= 64 * 20000 * 113 && 64 * num * (2 * l + 1) <= 64
            * 20000 * 113) by (nonlinear_arith)
            requires num <= 20000, 1 <= l <= 56;
        assert(64 * num * (2 * l - 1) <= 64 * num * (2 * l + 1)) by (nonlinear_arith)
            requires num >= 1, l >= 1;
    }
    let lo64: u64 = (64 * num * (2 * l as u64 - 1) + den - 1) / den;
    let hi64: u64 = (64 * num * (2 * l as u64 + 1) + den - 1) / den;
    proof {
        vstd::arithmetic::div_mod::lemma_div_is_ordered(
            64 * num * (2 * l - 1) + den - 1,
            64 * num * (2 * l + 1) + den - 1,
            den as int,
        );
        assert(lo64 <= u32::MAX && hi64 <= u32::MAX) by {
            vstd::arithmetic::div_mod::lemma_div_is_ordered(
                64 * num * (2 * l - 1) + den - 1,
                (64 * 20000 * 113 + 20000) as int,
                den as int,
            );
            vstd::arithmetic::div_mod::lemma_div_is_ordered_by_denominator(
                (64 * 20000 * 113 + 20000) as int,
                79,
                den as int,
            );
        }
    }
    (lo64 as usize, hi64 as usize)
}

/// The bands tile: the upper edge of harmonic l is the lower edge of
/// harmonic l + 1, so consecutive noise bands share exactly one boundary.
pub proof fn lemma_bands_tile(p: BaseParams, l: int)
    ensures
        upper_edge(p, l) == lower_edge(p, l + 1),
{
    assert(2 * l + 1 == 2 * (l + 1) - 1);
}

/// For parameters derived from any valid period, every harmonic's noise band
/// lies inside the positive half of the DFT spectrum: the first lower edge is
/// at least 2 and the last upper edge at most 125.
pub proof fn lemma_edges_in_range(period: int, l: int)
    requires
        0 <= period <= 207,
        1 <= l <= crate::params::harmonics_of(period),
    ensures
        ({
            let p = BaseParams {
                harmonics: crate::params::harmonics_of(period) as u32,
                bands: crate::params::bands_of(period) as u32,
                fund_num: 8,
                fund_den: (2 * period + 79) as u32,
            };
            2 <= lower_edge(p, l) && upper_edge(p, l) <= 125
        }),
{
    crate::params::lemma_base_params_ranges(period);
    let den = 2 * period + 79;
    let harm = crate::params::harmonics_of(period);
    let p = BaseParams {
        harmonics: harm as u32,
        bands: crate::params::bands_of(period) as u32,
        fund_num: 8,
        fund_den: den as u32,
    };

    // Lower bound: the numerator of the first band's lower edge already
    // exceeds the denominator once over, since den <= 493 < 512.
    assert(lower_edge(p, l) >= 2) by {
        assert(64 * (p.fund_num as int) * (2 * l - 1) >= 512) by (nonlinear_arith)
            requires p.fund_num == 8, l >= 1;
        assert((512 + den - 1) / den >= 2) by {
            vstd::arithmetic::div_mod::lemma_div_multiples_vanish(2, den);
            vstd::arithmetic::div_mod::lemma_div_is_ordered(den * 2, 512 + den - 1, den);
        }
        vstd::arithmetic::div_mod::lemma_div_is_ordered(
            512 + den - 1,
            64 * (p.fund_num as int) * (2 * l - 1) + den - 1,
            den,
        );
    }

    // Upper bound: enough to bound the last band, b_L = ceil(512(2L+1)/den),
    // by showing 512(2L+1) <= 125*den. The harmonic count satisfies
    // 10000*L <= 9254*w for w = (2*period+81)/8, and den = 8w - 1 or more
    // because 2*period+81 is odd; for w >= 13 the linear bound closes the
    // inequality, and the three smaller w each pin L exactly.
    let w = crate::params::width_term(period);
    assert(upper_edge(p, l) <= 125) by {
        assert(64 * (p.fund_num as int) * (2 * l + 1) <= 512 * (2 * harm + 1)) by (nonlinear_arith)
            requires p.fund_num == 8, l <= harm;
        assert(8 * w <= 2 * period + 81) by {
            vstd::arithmetic::div_mod::lemma_fundamental_div_mod(2 * period + 81, 8);
        }
        // 2*period + 81 is odd, so it is not 8w, and den = 2*period + 79 >= 8w - 1.
        assert(2 * period + 81 != 8 * w) by {
            if 2 * period + 81 == 8 * w {
                assert((2 * period + 81) % 2 == 1) by {
                    vstd::arithmetic::div_mod::lemma_mod_multiples_vanish(period, 81, 2);
                }
                assert((8 * w) % 2 == 0) by {
                    vstd::arithmetic::div_mod::lemma_mod_multiples_basic(4 * w, 2);
                    vstd::arithmetic::mul::lemma_mul_is_commutative(4 * w, 2);
                }
            }
        }
        assert(den >= 8 * w - 1);
        assert(10000 * harm <= 9254 * w) by {
            vstd::arithmetic::div_mod::lemma_fundamental_div_mod(9254 * w, 10000);
            assert(10000 * harm == 9254 * w - (9254 * w) % 10000);
            vstd::arithmetic::div_mod::lemma_mod_bound(9254 * w, 10000);
        }
        if w >= 13 {
            // 512(2L+1) = 1024L + 512 and 10240000*L <= 9476096*w, while
            // 125*den >= 1000w - 125; the gap 523904*w - 6370000 is
            // nonnegative from w = 13 on.
            assert(10240000 * harm <= 9476096 * w) by (nonlinear_arith)
                requires 10000 * harm <= 9254 * w;
            assert(9476096 * w + 6370000 <= 10000000 * w) by (nonlinear_arith)
                requires w >= 13;
            assert(10000 * (512 * (2 * harm + 1)) == 10240000 * harm + 5120000) by (nonlinear_arith);
            assert(10000 * (125 * den) >= 10000000 * w - 1250000) by (nonlinear_arith)
                requires den >= 8 * w - 1;
            assert(512 * (2 * harm + 1) <= 125 * den);
        } else {
            // w in {10, 11, 12} pins L = 9, 10, 11 respectively.
            assert(10 <= w <= 12);
            assert(harm == 9254 * w / 10000);
            if w == 10 {
                assert(harm == 9);
            } else if w == 11 {
                assert(harm == 10);
            } else {
                assert(harm == 11);
            }
            assert(512 * (2 * harm + 1) <= 125 * den);
        }
        // ceil(x/den) <= 125 once x <= 125*den.
        assert((512 * (2 * harm + 1) + den - 1) / den <= 125) by {
            vstd::arithmetic::div_mod::lemma_div_multiples_vanish_fancy(125, den - 1, den);
            vstd::arithmetic::div_mod::lemma_div_is_ordered(
                512 * (2 * harm + 1) + den - 1,
                125 * den + den - 1,
                den,
            );
        }
        vstd::arithmetic::div_mod::lemma_div_is_ordered(
            64 * (p.fund_num as int) * (2 * l + 1) + den - 1,
            512 * (2 * harm + 1) + den - 1,
            den,
        );
    }
}

} // verus!
