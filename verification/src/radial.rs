//! Radial field-of-view normalization.
//!
//! Stitched panoramic micrographs have a circular valid field of view with
//! the optical center assumed at (width, height / 2): the right edge,
//! vertically centered. Exclusion-mask pixels strictly inside the convex
//! hull of the raw image's contours are bucketed by their rounded pixel
//! distance from that center; distances at or beyond the table length are
//! dropped, not clamped. Each bucket's mean exclusion value, weighted by
//! the area of its annulus, yields a distortion-corrected exclusion ratio.

use vstd::prelude::*;
use vstd::arithmetic::div_mod::{lemma_div_is_ordered_by_denominator, lemma_div_basics};
use crate::geom::{is_rounded_sqrt, rounded_sqrt, lemma_rounded_sqrt_unique, Pt};
use crate::img::{GrayImg, DIM_LIMIT};
use crate::hull::{strictly_inside, pts_below, point_strictly_inside};
use crate::contours::points_view;

verus! {

/// Fixed-point scale for bucket means: a mean is stored as
/// `white * MEAN_SCALE / count`, rounded down.
pub const MEAN_SCALE: u64 = 1000000;

/// One radial bucket: how many pixels fell at this rounded distance, and
/// how many of them were white (excluded).
#[derive(Clone, Copy, Debug, PartialEq, Eq, Structural)]
pub struct RadialBucket {
    pub white: u64,
    pub count: u64,
}

/// Squared distance from pixel `(x, y)` to the assumed optical center
/// `(w, h / 2)`.
pub open spec fn center_sq_dist(w: int, h: int, x: int, y: int) -> int {
    (w - x) * (w - x) + (h / 2 - y) * (h / 2 - y)
}

/// Pixel `(x, y)` is sampled into bucket `d`: it lies strictly inside the
/// hull and its rounded distance from the optical center is `d`.
pub open spec fn in_bucket(
    zone: GrayImg,
    hullv: Seq<(int, int)>,
    d: int,
    x: int,
    y: int,
) -> bool {
    &&& strictly_inside(hullv, (x, y))
    &&& is_rounded_sqrt(center_sq_dist(zone.width as int, zone.height as int, x, y), d)
}

/// How many of the first `k` pixels (row-major) fall in bucket `d`.
pub open spec fn bucket_count_upto(
    zone: GrayImg,
    hullv: Seq<(int, int)>,
    d: int,
    k: int,
) -> int
    decreases k,
{
    if k <= 0 {
        0
    } else {
        bucket_count_upto(zone, hullv, d, k - 1) + if in_bucket(
            zone,
            hullv,
            d,
            (k - 1) % (zone.width as int),
            (k - 1) / (zone.width as int),
        ) {
            1int
        } else {
            0int
        }
    }
}

/// How many of the first `k` pixels fall in bucket `d` and are white.
pub open spec fn bucket_white_upto(
    zone: GrayImg,
    hullv: Seq<(int, int)>,
    d: int,
    k: int,
) -> int
    decreases k,
{
    if k <= 0 {
        0
    } else {
        bucket_white_upto(zone, hullv, d, k - 1) + if in_bucket(
            zone,
            hullv,
            d,
            (k - 1) % (zone.width as int),
            (k - 1) / (zone.width as int),
        ) && zone.pix((k - 1) % (zone.width as int), (k - 1) / (zone.width as int)) == 255 {
            1int
        } else {
            0int
        }
    }
}

/// Bucket tallies are bounded by the number of pixels inspected.
pub proof fn lemma_bucket_bounds(zone: GrayImg, hullv: Seq<(int, int)>, d: int, k: int)
    requires
        k >= 0,
    ensures
        0 <= bucket_white_upto(zone, hullv, d, k)
            <= bucket_count_upto(zone, hullv, d, k) <= k,
    decreases k,
{
    if k > 0 {
        lemma_bucket_bounds(zone, hullv, d, k - 1);
    }
}

/// Accumulate the radial bucket table of an exclusion mask: one bucket per
/// integer distance from 0 to `width - 1`; pixels outside the hull or at
/// rounded distance `width` or more are dropped.
#[verifier::rlimit(100)]
pub fn radial_buckets(zone: &GrayImg, hull: &Vec<Pt>) -> (r: Vec<RadialBucket>)
    requires
        zone.wf(),
        pts_below(hull@, DIM_LIMIT as int),
    ensures
        r@.len() == zone.width,
        forall|d: int| 0 <= d < zone.width ==> {
            &&& (#[trigger] r@[d]).count == bucket_count_upto(
                *zone, points_view(hull@), d, (zone.width * zone.height) as int)
            &&& r@[d].white == bucket_white_upto(
                *zone, points_view(hull@), d, (zone.width * zone.height) as int)
            &&& r@[d].white <= r@[d].count <= zone.width * zone.height
        },
{
    let ghost hullv = points_view(hull@);
    let w = zone.width;
    let h = zone.height;
    let mut buckets: Vec<RadialBucket> = Vec::new();
    let mut setup: u32 = 0;
    while setup < w
        invariant
            setup <= w,
            buckets@.len() == setup,
            forall|d: int| 0 <= d < setup
                ==> #[trigger] buckets@[d] == (RadialBucket { white: 0, count: 0 }),
        decreases w - setup,
    {
        buckets.push(RadialBucket { white: 0, count: 0 });
        setup = setup + 1;
    }
    let n = zone.data.len();
    proof {
        assert(n == w * h);
    }
    let mut k: usize = 0;
    while k < n
        invariant
            zone.wf(),
            pts_below(hull@, DIM_LIMIT as int),
            hullv == points_view(hull@),
            w == zone.width,
            h == zone.height,
            n == w * h,
            k <= n,
            buckets@.len() == w,
            forall|d: int| 0 <= d < w ==> {
                &&& (#[trigger] buckets@[d]).count == bucket_count_upto(*zone, hullv, d, k as int)
                &&& buckets@[d].white == bucket_white_upto(*zone, hullv, d, k as int)
            },
        decreases n - k,
    {
        proof {
            assert(w > 0 && h > 0) by (nonlinear_arith)
                requires n == w * h, k < n, w >= 0, h >= 0;
            vstd::arithmetic::div_mod::lemma_fundamental_div_mod(k as int, w as int);
            assert(0 <= (k as int) % (w as int) < w);
            assert(0 <= (k as int) / (w as int) < h) by (nonlinear_arith)
                requires
                    k as int == (w as int) * ((k as int) / (w as int)) + (k as int) % (w as int),
                    0 <= (k as int) % (w as int) < w,
                    0 <= k < w * h,
                    w > 0,
                    h > 0;
        }
        let x: u32 = (k % (w as usize)) as u32;
        let y: u32 = (k / (w as usize)) as u32;
        let inside = point_strictly_inside(hull, x, y);
        let dx: u64 = (w - x) as u64;
        let dy: u64 = if y >= h / 2 { (y - h / 2) as u64 } else { (h / 2 - y) as u64 };
        proof {
            assert(dx * dx + dy * dy == center_sq_dist(w as int, h as int, x as int, y as int)
                && dx * dx + dy * dy < 0x80000000) by (nonlinear_arith)
                requires
                    dx == w - x,
                    0 < dx <= w,
                    w < 32768,
                    h < 32768,
                    x < w,
                    y < h,
                    dy == if y >= h / 2 { y - h / 2 } else { h / 2 - y as int },
                    center_sq_dist(w as int, h as int, x as int, y as int)
                        == (w - x) * (w - x) + (h / 2 - y) * (h / 2 - y);
        }
        let d2: u64 = dx * dx + dy * dy;
        let dist = rounded_sqrt(d2);
        let ghost prev = buckets@;
        if inside && dist < w as u64 {
            let idx = dist as usize;
            let white = if zone.get(x, y) == 255 { 1u64 } else { 0u64 };
            proof {
                lemma_bucket_bounds(*zone, hullv, idx as int, k as int);
            }
            let b = buckets[idx];
            buckets.set(idx, RadialBucket { white: b.white + white, count: b.count + 1 });
        }
        proof {
            let ki = k as int;
            let xi = ki % (w as int);
            let yi = ki / (w as int);
            assert(xi == x as int && yi == y as int);
            assert forall|d: int| 0 <= d < w implies {
                &&& (#[trigger] buckets@[d]).count == bucket_count_upto(*zone, hullv, d, ki + 1)
                &&& buckets@[d].white == bucket_white_upto(*zone, hullv, d, ki + 1)
            } by {
                assert(bucket_count_upto(*zone, hullv, d, ki + 1)
                    == bucket_count_upto(*zone, hullv, d, ki)
                        + if in_bucket(*zone, hullv, d, xi, yi) { 1int } else { 0int });
                if in_bucket(*zone, hullv, d, xi, yi) {
                    assert(strictly_inside(hullv, (x as int, y as int)));
                    assert(inside);
                    lemma_rounded_sqrt_unique(d2 as int, d, dist as int);
                    assert(d == dist);
                } else {
                    if inside && d == dist && d < w {
                        assert(is_rounded_sqrt(d2 as int, d));
                        assert(in_bucket(*zone, hullv, d, xi, yi));
                    }
                }
                if !(inside && dist < w as u64) {
                    assert(buckets@[d] == prev[d]);
                } else {
                    if d != dist {
                        assert(buckets@[d] == prev[d]);
                    }
                }
            }
        }
        k = k + 1;
    }
    proof {
        assert forall|d: int| 0 <= d < w
            implies (#[trigger] buckets@[d]).white <= buckets@[d].count <= w * h by {
            lemma_bucket_bounds(*zone, hullv, d, n as int);
        }
    }
    buckets
}

/// A bucket's mean exclusion value in `MEAN_SCALE` fixed point, rounded
/// down; 0 for an empty bucket.
pub open spec fn mean_scaled(b: RadialBucket) -> int {
    if b.count == 0 {
        0
    } else {
        (b.white * MEAN_SCALE) / (b.count as int)
    }
}

/// The weighted sum over the first `k` buckets of the mean exclusion value
/// times the annulus weight `2d - 1` (the area between radii `d - 1` and
/// `d` divided by pi).
pub open spec fn weighted_sum(bs: Seq<RadialBucket>, k: int) -> int
    decreases k,
{
    if k <= 0 {
        0
    } else {
        weighted_sum(bs, k - 1) + (2 * (k - 1) - 1) * mean_scaled(bs[k - 1])
    }
}

/// Integrate the bucket means weighted by annulus area. The corrected
/// exclusion ratio is the returned sum divided by
/// `MEAN_SCALE * (width - 1)^2` (the circle of radius `width - 1`, also
/// divided by pi).
pub fn corrected_weighted_sum(buckets: &Vec<RadialBucket>) -> (r: i128)
    requires
        buckets@.len() < DIM_LIMIT,
        forall|d: int| 0 <= d < buckets@.len()
            ==> (#[trigger] buckets@[d]).white <= buckets@[d].count <= 0x40000000,
    ensures
        r == weighted_sum(buckets@, buckets@.len() as int),
{
    let n = buckets.len();
    let mut acc: i128 = 0;
    let mut d: usize = 0;
    while d < n
        invariant
            n == buckets@.len(),
            n < DIM_LIMIT,
            forall|dd: int| 0 <= dd < n
                ==> (#[trigger] buckets@[dd]).white <= buckets@[dd].count <= 0x40000000,
            d <= n,
            acc == weighted_sum(buckets@, d as int),
            -(d as int) * 0x100000000000000000 <= acc <= (d as int) * 0x100000000000000000,
        decreases n - d,
    {
        let b = buckets[d];
        let mean: u64 = if b.count == 0 {
            0
        } else {
            proof {
                assert(b.white * MEAN_SCALE <= 0x40000000 * 1000000) by (nonlinear_arith)
                    requires 0 <= b.white <= 0x40000000, MEAN_SCALE == 1000000;
                lemma_div_is_ordered_by_denominator(
                    (b.white * MEAN_SCALE) as int, 1, b.count as int);
                lemma_div_basics((b.white * MEAN_SCALE) as int);
            }
            (b.white * MEAN_SCALE) / b.count
        };
        proof {
            assert(mean == mean_scaled(b));
            assert(0 <= mean <= 0x40000000 * 1000000);
        }
        let weight: i128 = 2 * (d as i128) - 1;
        proof {
            assert(-0x100000000000000000 <= weight * (mean as i128) <= 0x100000000000000000)
                by (nonlinear_arith)
                requires -1 <= weight < 0x10000, 0 <= mean <= 0x40000000 * 1000000;
        }
        acc = acc + weight * (mean as i128);
        d = d + 1;
    }
    acc
}

} // verus!
