//! Parts-per-million ratios, used to express proportional vote thresholds
//! that are resolved into absolute weights when a vote opens.

use vstd::prelude::*;
use vstd::arithmetic::div_mod::{
    lemma_div_is_ordered, lemma_div_multiples_vanish, lemma_fundamental_div_mod,
    lemma_hoist_over_denominator,
};
use vstd::arithmetic::mul::lemma_mul_inequality;

verus! {

/// Number of parts that make up the whole: one million.
pub const RATIO_ACCURACY: u32 = 1_000_000;

/// A ratio in the closed interval [0, 1], stored as parts per million.
#[derive(Clone, Copy, Debug)]
pub struct Ratio {
    parts: u32,
}

impl Ratio {
    /// The stored parts per million.
    pub closed spec fn spec_parts(self) -> u32 {
        self.parts
    }

    /// Every constructor clamps, so a ratio never exceeds the whole.
    pub open spec fn wf(self) -> bool {
        self.spec_parts() <= RATIO_ACCURACY
    }

    /// The mathematical product `x * self`, rounded down.
    pub open spec fn spec_mul(self, x: u64) -> int {
        (x as int * self.spec_parts() as int) / (RATIO_ACCURACY as int)
    }

    /// Build a ratio from parts per million, clamping at the whole.
    pub fn from_parts(parts: u32) -> (r: Ratio)
        ensures
            r.wf(),
            r.spec_parts() == if parts <= RATIO_ACCURACY {
                parts as int
            } else {
                RATIO_ACCURACY as int
            },
    {
        if parts <= RATIO_ACCURACY {
            Ratio { parts }
        } else {
            Ratio { parts: RATIO_ACCURACY }
        }
    }

    /// Build a ratio from a percentage, clamping at one hundred percent.
    pub fn from_percent(percent: u32) -> (r: Ratio)
        ensures
            r.wf(),
            r.spec_parts() == if percent <= 100 {
                percent as int * 10_000
            } else {
                RATIO_ACCURACY as int
            },
    {
        if percent <= 100 {
            Ratio { parts: percent * 10_000 }
        } else {
            Ratio { parts: RATIO_ACCURACY }
        }
    }

    /// Multiply a weight by this ratio, rounding down.  The result never
    /// exceeds the weight itself.
    pub fn mul_floor(self, x: u64) -> (r: u64)
        requires
            self.wf(),
        ensures
            r as int == self.spec_mul(x),
            r <= x,
    {
        let m: u64 = RATIO_ACCURACY as u64;
        let p: u64 = self.parts as u64;
        let q: u64 = x / m;
        let rem: u64 = x % m;
        proof {
            let xi = x as int;
            let pi = p as int;
            let mi = m as int;
            let qi = q as int;
            let ri = rem as int;
            lemma_fundamental_div_mod(xi, mi);
            assert(xi == mi * qi + ri);
            assert(xi * pi == (qi * pi) * mi + ri * pi) by (nonlinear_arith)
                requires xi == mi * qi + ri;
            lemma_hoist_over_denominator(ri * pi, qi * pi, m as nat);
            assert((ri * pi) / mi + qi * pi == (ri * pi + qi * pi * mi) / mi);
            assert(ri * pi + (qi * pi) * mi == xi * pi) by (nonlinear_arith)
                requires xi * pi == (qi * pi) * mi + ri * pi;
            // Bound the pieces so the executable arithmetic cannot overflow.
            assert(ri * pi <= mi * mi) by (nonlinear_arith)
                requires 0 <= ri < mi, 0 <= pi <= mi;
            lemma_mul_inequality(pi, mi, xi);
            assert(xi * pi == pi * xi) by (nonlinear_arith);
            assert(mi * xi == xi * mi) by (nonlinear_arith);
            lemma_div_is_ordered(xi * pi, xi * mi, mi);
            lemma_div_multiples_vanish(xi, mi);
            assert(mi * xi / mi == xi);
            assert((xi * pi) / mi <= xi);
            assert(qi * pi >= 0) by (nonlinear_arith)
                requires qi >= 0, pi >= 0;
            assert((ri * pi) / mi >= 0);
            assert(qi * pi <= (xi * pi) / mi);
        }
        let high: u64 = q * p;
        let low: u64 = (rem * p) / m;
        high + low
    }
}

} // verus!
