//! Integer plane geometry: points, squared distances, cross products and
//! rounded Euclidean distances.

use vstd::prelude::*;
use crate::img::DIM_LIMIT;

verus! {

/// An integer pixel position, column `x` and row `y`, origin top left.
#[derive(Clone, Copy, Debug, PartialEq, Eq, Structural)]
pub struct Pt {
    pub x: u32,
    pub y: u32,
}

impl Pt {
    /// The point as a pair of mathematical integers.
    pub open spec fn view(self) -> (int, int) {
        (self.x as int, self.y as int)
    }

    pub open spec fn in_bounds(self, w: int, h: int) -> bool {
        self.x < w && self.y < h
    }
}

/// Squared Euclidean distance between two points.
pub open spec fn sq_dist(a: (int, int), b: (int, int)) -> int {
    (a.0 - b.0) * (a.0 - b.0) + (a.1 - b.1) * (a.1 - b.1)
}

/// The z component of the cross product of `u` and `v`.
pub open spec fn cross(u: (int, int), v: (int, int)) -> int {
    u.0 * v.1 - u.1 * v.0
}

/// Squared distances of in-range points are non-negative and bounded.
pub proof fn lemma_sq_dist_bound(a: (int, int), b: (int, int))
    requires
        0 <= a.0 < DIM_LIMIT,
        0 <= a.1 < DIM_LIMIT,
        0 <= b.0 < DIM_LIMIT,
        0 <= b.1 < DIM_LIMIT,
    ensures
        0 <= sq_dist(a, b) < 0x80000000,
{
    assert(0 <= (a.0 - b.0) * (a.0 - b.0) < 0x40000000) by (nonlinear_arith)
        requires 0 <= a.0 < 32768, 0 <= b.0 < 32768;
    assert(0 <= (a.1 - b.1) * (a.1 - b.1) < 0x40000000) by (nonlinear_arith)
        requires 0 <= a.1 < 32768, 0 <= b.1 < 32768;
}

/// Compute the squared distance between two in-range points.
pub fn sq_dist_exec(a: Pt, b: Pt) -> (r: u64)
    requires
        a.x < DIM_LIMIT,
        a.y < DIM_LIMIT,
        b.x < DIM_LIMIT,
        b.y < DIM_LIMIT,
    ensures
        r == sq_dist(a@, b@),
        r < 0x80000000,
{
    proof {
        lemma_sq_dist_bound(a@, b@);
    }
    let dx = if a.x >= b.x { (a.x - b.x) as u64 } else { (b.x - a.x) as u64 };
    let dy = if a.y >= b.y { (a.y - b.y) as u64 } else { (b.y - a.y) as u64 };
    proof {
        assert(dx * dx == (a@.0 - b@.0) * (a@.0 - b@.0)
            && dy * dy == (a@.1 - b@.1) * (a@.1 - b@.1)) by (nonlinear_arith)
            requires
                dx == if a@.0 >= b@.0 { a@.0 - b@.0 } else { b@.0 - a@.0 },
                dy == if a@.1 >= b@.1 { a@.1 - b@.1 } else { b@.1 - a@.1 };
    }
    dx * dx + dy * dy
}

/// Compute the cross product of `b - a` and `c - a` for in-range points.
pub fn cross_at_exec(a: Pt, b: Pt, c: Pt) -> (r: i64)
    requires
        a.x < DIM_LIMIT,
        a.y < DIM_LIMIT,
        b.x < DIM_LIMIT,
        b.y < DIM_LIMIT,
        c.x < DIM_LIMIT,
        c.y < DIM_LIMIT,
    ensures
        r == cross((b@.0 - a@.0, b@.1 - a@.1), (c@.0 - a@.0, c@.1 - a@.1)),
        -0x80000000000 <= r <= 0x80000000000,
{
    let ux = b.x as i64 - a.x as i64;
    let uy = b.y as i64 - a.y as i64;
    let vx = c.x as i64 - a.x as i64;
    let vy = c.y as i64 - a.y as i64;
    proof {
        assert(-0x40000000000 <= ux * vy <= 0x40000000000
            && -0x40000000000 <= uy * vx <= 0x40000000000) by (nonlinear_arith)
            requires
                -32768 < ux < 32768,
                -32768 < uy < 32768,
                -32768 < vx < 32768,
                -32768 < vy < 32768;
    }
    ux * vy - uy * vx
}

/// The integer square root: the largest `s` with `s * s <= n`.
pub fn isqrt(n: u64) -> (s: u64)
    requires
        n < 0x80000000,
    ensures
        s * s <= n,
        n < (s + 1) * (s + 1),
        s <= 0x10000,
{
    let mut lo: u64 = 0;
    let mut hi: u64 = 0x10000;
    proof {
        assert((0x10000u64 + 1) * (0x10000u64 + 1) > 0x80000000) by (nonlinear_arith);
    }
    while lo < hi
        invariant
            lo <= hi <= 0x10000,
            lo * lo <= n,
            n < (hi + 1) * (hi + 1),
        decreases hi - lo,
    {
        let mid = lo + (hi - lo + 1) / 2;
        proof {
            assert(mid * mid <= 0x10000 * 0x10000) by (nonlinear_arith)
                requires 0 <= mid <= 0x10000;
        }
        if mid * mid <= n {
            lo = mid;
        } else {
            proof {
                assert(n < mid * mid ==> n < ((mid - 1) + 1) * ((mid - 1) + 1));
            }
            hi = mid - 1;
        }
    }
    lo
}

/// `d` is the Euclidean distance `sqrt(n)` rounded to the nearest integer
/// (halves rounding up): `d - 1/2 <= sqrt(n) < d + 1/2`.
pub open spec fn is_rounded_sqrt(n: int, d: int) -> bool {
    &&& d >= 0
    &&& d * d - d < n || (n == 0 && d == 0)
    &&& n <= d * d + d
}

/// At most one integer is the rounded square root of `n`.
pub proof fn lemma_rounded_sqrt_unique(n: int, d1: int, d2: int)
    requires
        is_rounded_sqrt(n, d1),
        is_rounded_sqrt(n, d2),
    ensures
        d1 == d2,
{
    assert(d1 == d2) by (nonlinear_arith)
        requires
            d1 >= 0 && d2 >= 0,
            (d1 * d1 - d1 < n || (n == 0 && d1 == 0)),
            n <= d1 * d1 + d1,
            (d2 * d2 - d2 < n || (n == 0 && d2 == 0)),
            n <= d2 * d2 + d2;
}

/// Round `sqrt(n)` to the nearest integer.
pub fn rounded_sqrt(n: u64) -> (d: u64)
    requires
        n < 0x80000000,
    ensures
        is_rounded_sqrt(n as int, d as int),
        d <= 0x10001,
{
    let s = isqrt(n);
    if n <= s * s + s {
        proof {
            assert(s * s - s < n || (n == 0 && s == 0)) by (nonlinear_arith)
                requires s * s <= n, s >= 0;
        }
        s
    } else {
        proof {
            assert((s + 1) * (s + 1) - (s + 1) < n && n <= (s + 1) * (s + 1) + (s + 1))
                by (nonlinear_arith)
                requires s * s + s < n, n < (s + 1) * (s + 1), s >= 0;
        }
        s + 1
    }
}

} // verus!
