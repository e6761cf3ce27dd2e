//! Non-negative rational numbers with bounded terms.
//!
//! Physical parameters (contrast thresholds, exclusion radii, the
//! micrometers-per-pixel scale factor) are real numbers in the problem
//! domain. They are carried here as exact fractions so that every
//! comparison in the pipeline is an integer comparison, free of rounding.

use vstd::prelude::*;

verus! {

/// Upper bound on the numerator and denominator of a fraction. Keeping both
/// terms at or below 2^20 guarantees that every cross-multiplied comparison
/// in the pipeline fits comfortably in 128-bit intermediates.
pub const FRAC_TERM_LIMIT: u64 = 1048576;

/// A non-negative rational number `num / den`.
#[derive(Clone, Copy, Debug, PartialEq, Eq, Structural)]
pub struct UFrac {
    pub num: u64,
    pub den: u64,
}

impl UFrac {
    /// Well-formedness: a positive denominator and bounded terms.
    pub open spec fn wf(self) -> bool {
        0 < self.den <= FRAC_TERM_LIMIT && self.num <= FRAC_TERM_LIMIT
    }

    /// Whether the fraction is strictly positive.
    pub open spec fn is_positive(self) -> bool {
        self.num > 0
    }

    /// `self < other`, by cross multiplication.
    pub open spec fn spec_lt(self, other: UFrac) -> bool {
        self.num * other.den < other.num * self.den
    }

    pub fn new(num: u64, den: u64) -> (r: UFrac)
        requires
            0 < den <= FRAC_TERM_LIMIT,
            num <= FRAC_TERM_LIMIT,
        ensures
            r.wf(),
            r.num == num,
            r.den == den,
    {
        UFrac { num, den }
    }

    /// Exact comparison `self < other`.
    pub fn lt(&self, other: &UFrac) -> (r: bool)
        requires
            self.wf(),
            other.wf(),
        ensures
            r == self.spec_lt(*other),
    {
        proof {
            lemma_frac_product_bounded(self.num as int, other.den as int);
            lemma_frac_product_bounded(other.num as int, self.den as int);
        }
        self.num * other.den < other.num * self.den
    }
}

/// Products of bounded fraction terms stay far below `u64::MAX`.
pub proof fn lemma_frac_product_bounded(a: int, b: int)
    requires
        0 <= a <= FRAC_TERM_LIMIT,
        0 <= b <= FRAC_TERM_LIMIT,
    ensures
        0 <= a * b <= 0x10000000000,
{
    assert(0 <= a * b <= 0x100000 * 0x100000) by (nonlinear_arith)
        requires 0 <= a <= 0x100000, 0 <= b <= 0x100000;
}

} // verus!
