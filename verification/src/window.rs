//! Speech synthesis window w<sub>s</sub>(n).
//!
//! The window is supported on n ∈ [-105, 105]: a linear ramp 0 → 1 over 50
//! samples, a plateau at 1.0 for 111 samples, and a linear ramp 1 → 0 over 50
//! samples. Every value is an exact multiple of 0.02 = 1/50, so the window is
//! carried here in fiftieths: w<sub>s</sub>(n) = `window_fiftieths(n)` / 50.

use vstd::prelude::*;

verus! {

/// Value of the synthesis window at point n, scaled by 50:
/// 50·w<sub>s</sub>(n) = min(n + 105, 50, 105 − n) inside the support,
/// 0 outside it.
pub open spec fn window_fiftieths(n: int) -> int {
    if n < -105 || n > 105 {
        0
    } else {
        let up = n + 105;
        let down = 105 - n;
        let ramp = if up <= down {
            up
        } else {
            down
        };
        if ramp <= 50 {
            ramp
        } else {
            50
        }
    }
}

/// Synthesis window w<sub>s</sub>, queried at integer points.
pub struct Window {}

impl Window {
    /// Retrieve 50·w<sub>s</sub>(n) for the given point n.
    pub fn get(&self, n: i32) -> (r: u8)
        ensures
            r == window_fiftieths(n as int),
            r <= 50,
    {
        if n < -105 || n > 105 {
            return 0;
        }
        let up: i32 = n + 105;
        let down: i32 = 105 - n;
        let ramp: i32 = if up <= down { up } else { down };
        if ramp <= 50 {
            ramp as u8
        } else {
            50
        }
    }
}

/// Create the full synthesis window w<sub>s</sub>.
pub fn synthesis_full() -> Window {
    Window {  }
}

/// The synthesis window is symmetric: w<sub>s</sub>(n) = w<sub>s</sub>(−n).
pub proof fn lemma_window_symmetric(n: int)
    ensures
        window_fiftieths(n) == window_fiftieths(-n),
{
}

/// The synthesis window table matches the ramp/plateau shape point by point:
/// zero at and beyond ±105, 0.02 (one fiftieth) at ±104, and 1.0 at the center.
pub proof fn lemma_window_edge_values()
    ensures
        window_fiftieths(-106) == 0,
        window_fiftieths(-105) == 0,
        window_fiftieths(-104) == 1,
        window_fiftieths(0) == 50,
        window_fiftieths(104) == 1,
        window_fiftieths(105) == 0,
        window_fiftieths(106) == 0,
        forall|n: int| n > 105 || n < -105 ==> window_fiftieths(n) == 0,
{
}

/// Sum of 50²·w<sub>s</sub>(n)² over n < bound (starting at the left edge of
/// the support): the running total behind the window energy E<sub>w</sub>.
pub open spec fn window_energy_part(bound: int) -> int
    decreases bound + 105,
{
    if bound <= -105 {
        0
    } else {
        window_energy_part(bound - 1) + window_fiftieths(bound - 1) * window_fiftieths(bound - 1)
    }
}

/// Sum of the squared window fiftieths over the support, computed at run time;
/// the window energy E<sub>w</sub> = Σ w<sub>s</sub>(n)² is this value divided
/// by 50² = 2500.
pub fn window_energy_fiftieths_squared() -> (r: u64)
    ensures
        r == window_energy_part(106),
{
    let w = synthesis_full();
    let mut total: u64 = 0;
    let mut n: i32 = -105;
    while n <= 105
        invariant
            -105 <= n <= 106,
            total == window_energy_part(n as int),
            total <= 2500 * (n + 105),
        decreases 106 - n,
    {
        let v = w.get(n);
        proof {
            assert((v as u64) * (v as u64) <= 2500) by (nonlinear_arith)
                requires v <= 50;
        }
        total = total + (v as u64) * (v as u64);
        n = n + 1;
    }
    total
}

} // verus!
