//! Flake orientation and extent extraction.
//!
//! Contours traced from a thresholded image are analyzed one by one: every
//! fifth point is sampled, the sample pair at maximum distance estimates
//! the flake's long axis, and the sample farthest from that axis gives its
//! width. Contours that are too short, degenerate, or too round are
//! silently skipped rather than reported as errors. A flake's orientation
//! is kept as a canonical integer direction vector: directions that differ
//! by a half turn are identified, since a flake has no head or tail.

use vstd::prelude::*;
use vstd::arithmetic::div_mod::{
    lemma_fundamental_div_mod_converse_div, lemma_fundamental_div_mod_converse_mod};
use crate::frac::{UFrac, lemma_frac_product_bounded};
use crate::geom::{Pt, sq_dist, sq_dist_exec};
use crate::img::{GrayImg, DIM_LIMIT, threshold_mask, thresholded_data};
use crate::config::GrapheneAngles;
use crate::contours::{trace_contours, traced_contours, contours_view, points_view, abs_int};
use crate::hull::pts_below;

verus! {

/// One analyzed flake: the doubled center coordinates of its long axis
/// (exact midpoints without halves), the canonical axis direction, and the
/// squared pixel length of the axis. The physical length is
/// `sqrt(len2) * scale`; the orientation angle in `(-pi/2, pi/2]` is
/// `pi/2 - atan2(axis_y, axis_x)`.
#[derive(Clone, Copy, Debug, PartialEq, Eq, Structural)]
pub struct FlakeRecord {
    pub center_x2: u32,
    pub center_y2: u32,
    pub axis_x: i32,
    pub axis_y: i32,
    pub len2: u64,
}

/// Every fifth point of a contour, starting from the first.
pub open spec fn sampled(ps: Seq<(int, int)>) -> Seq<(int, int)> {
    Seq::new(((ps.len() + 4) / 5) as nat, |i: int| ps[5 * i])
}

/// The state of the farthest-pair scan after the first `t` ordered pairs
/// (row-major over sample indices): the best pair seen and its squared
/// distance, starting from the first sample paired with itself.
pub open spec fn max_pair_fold(s: Seq<(int, int)>, t: int) -> ((int, int), (int, int), int)
    decreases t,
{
    if t <= 0 {
        (s[0], s[0], 0)
    } else {
        let prev = max_pair_fold(s, t - 1);
        let i = (t - 1) / s.len() as int;
        let j = (t - 1) % s.len() as int;
        let d = sq_dist(s[i], s[j]);
        if prev.2 < d {
            (s[i], s[j], d)
        } else {
            prev
        }
    }
}

/// Twice the signed area of the triangle `p1 p2 p`: the numerator of the
/// perpendicular distance from `p` to the line through `p1` and `p2`.
pub open spec fn line_cross(p1: (int, int), p2: (int, int), p: (int, int)) -> int {
    (p2.1 - p1.1) * (p1.0 - p.0) - (p1.1 - p.1) * (p2.0 - p1.0)
}

/// The largest absolute line cross over the first `k` samples.
pub open spec fn max_abs_cross(s: Seq<(int, int)>, p1: (int, int), p2: (int, int), k: int) -> int
    decreases k,
{
    if k <= 0 {
        0
    } else {
        let prev = max_abs_cross(s, p1, p2, k - 1);
        let term = abs_int(line_cross(p1, p2, s[k - 1]));
        if prev < term {
            term
        } else {
            prev
        }
    }
}

/// The flake's axis from `p1` to `p2`, with the sign fixed so that
/// directions differing by a half turn coincide: the representative points
/// downward in image coordinates, or rightward when horizontal.
pub open spec fn canon_axis(p1: (int, int), p2: (int, int)) -> (int, int) {
    let dx = p2.0 - p1.0;
    let dy = p2.1 - p1.1;
    if dy < 0 || (dy == 0 && dx < 0) {
        (-dx, -dy)
    } else {
        (dx, dy)
    }
}

/// A flake's orientation does not depend on which end of its axis comes
/// first: swapping the endpoints (a half-turn rotation of the axis) gives
/// the same canonical direction.
pub proof fn lemma_axis_reversal(p1: (int, int), p2: (int, int))
    ensures
        canon_axis(p1, p2) == canon_axis(p2, p1),
{
}

/// The long axis is too short: `sqrt(d2) * scale < min_size`, squared and
/// cross-multiplied.
pub open spec fn size_fails(d2: int, min_size: UFrac, scale: UFrac) -> bool {
    d2 * ((scale.num * min_size.den) * (scale.num * min_size.den))
        < (min_size.num * scale.den) * (min_size.num * scale.den)
}

/// The flake is too round: `d2 / cmax`, the ratio of the axis length to
/// the maximum perpendicular deviation, falls below `min_ratio`.
pub open spec fn elongation_fails(d2: int, cmax: int, min_ratio: UFrac) -> bool {
    d2 * min_ratio.den < min_ratio.num * cmax
}

/// What the analyzer produces for one contour: `None` when the contour is
/// filtered out (too small, degenerate with no perpendicular deviation, or
/// not elongated enough), otherwise the flake record of its best axis.
pub open spec fn flake_spec(ps: Seq<(int, int)>, cfg: GrapheneAngles, scale: UFrac) -> Option<
    FlakeRecord,
> {
    let s = sampled(ps);
    let best = max_pair_fold(s, s.len() * s.len() as int);
    let p1 = best.0;
    let p2 = best.1;
    let d2 = best.2;
    let cmax = max_abs_cross(s, p1, p2, s.len() as int);
    if size_fails(d2, cfg.min_graphene_size, scale) {
        None
    } else if cmax == 0 {
        None
    } else if elongation_fails(d2, cmax, cfg.min_graphene_ratio) {
        None
    } else {
        Some(FlakeRecord {
            center_x2: (p1.0 + p2.0) as u32,
            center_y2: (p1.1 + p2.1) as u32,
            axis_x: canon_axis(p1, p2).0 as i32,
            axis_y: canon_axis(p1, p2).1 as i32,
            len2: d2 as u64,
        })
    }
}

/// Collect every fifth point of the contour.
fn sample_points(points: &Vec<Pt>) -> (r: Vec<Pt>)
    requires
        points@.len() > 0,
    ensures
        points_view(r@) == sampled(points_view(points@)),
        r@.len() == (points@.len() + 4) / 5,
        r@.len() > 0,
        forall|k: int| 0 <= k < r@.len() ==> #[trigger] r@[k] == points@[5 * k],
{
    let n = points.len();
    let m = (n - 1) / 5 + 1;
    proof {
        assert(m == (n + 4) / 5);
    }
    let mut r: Vec<Pt> = Vec::new();
    let mut k: usize = 0;
    while k < m
        invariant
            n == points@.len(),
            0 < n,
            m == (n + 4) / 5,
            k <= m,
            r@.len() == k,
            forall|kk: int| 0 <= kk < k ==> #[trigger] r@[kk] == points@[5 * kk],
        decreases m - k,
    {
        proof {
            assert(5 * k < n);
        }
        r.push(points[5 * k]);
        k = k + 1;
    }
    proof {
        assert(points_view(r@) =~= sampled(points_view(points@)));
    }
    r
}

/// Analyze one contour: sample it, find the farthest sample pair as the
/// long axis, measure the maximum perpendicular deviation, and either
/// reject the contour (too small, degenerate, or too round) or emit its
/// flake record.
#[verifier::rlimit(100)]
pub fn flake_from_contour(points: &Vec<Pt>, cfg: &GrapheneAngles, scale: &UFrac) -> (r: Option<
    FlakeRecord,
>)
    requires
        points@.len() > 0,
        points@.len() <= 0x200000000,
        pts_below(points@, DIM_LIMIT as int),
        cfg.wf(),
        scale.wf(),
        scale.num > 0,
    ensures
        r == flake_spec(points_view(points@), *cfg, *scale),
{
    let ghost pv = points_view(points@);
    let samples = sample_points(points);
    let ghost sv = sampled(pv);
    proof {
        assert(points_view(samples@) == sv);
        assert(forall|k: int| 0 <= k < samples@.len()
            ==> (#[trigger] samples@[k]).x < DIM_LIMIT && samples@[k].y < DIM_LIMIT);
    }
    let m = samples.len();
    let mut p1: Pt = samples[0];
    let mut p2: Pt = samples[0];
    let mut d2: u64 = 0;
    proof {
        assert(sv[0] == samples@[0]@);
        assert((p1@, p2@, d2 as int) == max_pair_fold(sv, 0));
    }
    let mut i: usize = 0;
    while i < m
        invariant
            m == samples@.len(),
            0 < m <= 0x80000000,
            sv == points_view(samples@),
            forall|k: int| 0 <= k < samples@.len()
                ==> (#[trigger] samples@[k]).x < DIM_LIMIT && samples@[k].y < DIM_LIMIT,
            i <= m,
            p1.x < DIM_LIMIT && p1.y < DIM_LIMIT && p2.x < DIM_LIMIT && p2.y < DIM_LIMIT,
            d2 < 0x80000000,
            (p1@, p2@, d2 as int) == max_pair_fold(sv, i * m),
        decreases m - i,
    {
        let mut j: usize = 0;
        while j < m
            invariant
                m == samples@.len(),
                0 < m <= 0x80000000,
                sv == points_view(samples@),
                forall|k: int| 0 <= k < samples@.len()
                    ==> (#[trigger] samples@[k]).x < DIM_LIMIT && samples@[k].y < DIM_LIMIT,
                i < m,
                j <= m,
                p1.x < DIM_LIMIT && p1.y < DIM_LIMIT && p2.x < DIM_LIMIT && p2.y < DIM_LIMIT,
                d2 < 0x80000000,
                (p1@, p2@, d2 as int) == max_pair_fold(sv, i * m + j),
            decreases m - j,
        {
            let a = samples[i];
            let b = samples[j];
            let d = sq_dist_exec(a, b);
            proof {
                let t = i * m + j + 1;
                assert(0 <= t - 1 && t - 1 == (i as int) * (m as int) + (j as int));
                lemma_fundamental_div_mod_converse_div(
                    t - 1, m as int, i as int, j as int);
                lemma_fundamental_div_mod_converse_mod(
                    t - 1, m as int, i as int, j as int);
                assert((t - 1) / (m as int) == i as int);
                assert((t - 1) % (m as int) == j as int);
                assert(sv[i as int] == samples@[i as int]@);
                assert(sv[j as int] == samples@[j as int]@);
            }
            if d2 < d {
                p1 = a;
                p2 = b;
                d2 = d;
            }
            proof {
                assert((p1@, p2@, d2 as int) == max_pair_fold(sv, i * m + j + 1));
            }
            j = j + 1;
        }
        i = i + 1;
        proof {
            assert(i * m == (i - 1) * m + m) by (nonlinear_arith);
        }
    }
    proof {
        assert(i * m == m * m) by (nonlinear_arith)
            requires i == m;
        assert((p1@, p2@, d2 as int) == max_pair_fold(sv, sv.len() * sv.len() as int));
    }
    // Reject contours whose long axis is below the minimum flake size.
    proof {
        lemma_frac_product_bounded(scale.num as int, cfg.min_graphene_size.den as int);
        lemma_frac_product_bounded(cfg.min_graphene_size.num as int, scale.den as int);
        assert((scale.num * cfg.min_graphene_size.den) * (scale.num * cfg.min_graphene_size.den)
            <= 0x100000000000000000000
            && (cfg.min_graphene_size.num * scale.den) * (cfg.min_graphene_size.num * scale.den)
                <= 0x100000000000000000000) by (nonlinear_arith)
            requires
                0 <= scale.num * cfg.min_graphene_size.den <= 0x10000000000,
                0 <= cfg.min_graphene_size.num * scale.den <= 0x10000000000;
    }
    let sa: u64 = scale.num * cfg.min_graphene_size.den;
    let sb: u64 = cfg.min_graphene_size.num * scale.den;
    proof {
        assert((d2 as int) * ((sa as int) * (sa as int)) < 0x80000000 * 0x200000000000000000000)
            by (nonlinear_arith)
            requires 0 <= d2 < 0x80000000, 0 <= (sa as int) * (sa as int) <= 0x100000000000000000000;
    }
    if (d2 as u128) * ((sa as u128) * (sa as u128)) < (sb as u128) * (sb as u128) {
        return None;
    }
    // Find the sample farthest from the axis line.
    let mut cmax: u64 = 0;
    let mut k: usize = 0;
    proof {
        assert(cmax as int == max_abs_cross(sv, p1@, p2@, 0));
    }
    while k < m
        invariant
            m == samples@.len(),
            sv == points_view(samples@),
            forall|kk: int| 0 <= kk < samples@.len()
                ==> (#[trigger] samples@[kk]).x < DIM_LIMIT && samples@[kk].y < DIM_LIMIT,
            k <= m,
            p1.x < DIM_LIMIT && p1.y < DIM_LIMIT && p2.x < DIM_LIMIT && p2.y < DIM_LIMIT,
            cmax as int == max_abs_cross(sv, p1@, p2@, k as int),
            cmax <= 0x100000000,
        decreases m - k,
    {
        let p = samples[k];
        let e1: i64 = p2.y as i64 - p1.y as i64;
        let e2: i64 = p1.x as i64 - p.x as i64;
        let e3: i64 = p1.y as i64 - p.y as i64;
        let e4: i64 = p2.x as i64 - p1.x as i64;
        proof {
            assert(-0x40000000 <= e1 * e2 <= 0x40000000
                && -0x40000000 <= e3 * e4 <= 0x40000000) by (nonlinear_arith)
                requires
                    -32768 < e1 < 32768,
                    -32768 < e2 < 32768,
                    -32768 < e3 < 32768,
                    -32768 < e4 < 32768;
        }
        let cr: i64 = e1 * e2 - e3 * e4;
        let term: u64 = if cr < 0 { (-cr) as u64 } else { cr as u64 };
        proof {
            assert(sv[k as int] == samples@[k as int]@);
            assert(term as int == abs_int(line_cross(p1@, p2@, sv[k as int])));
        }
        if cmax < term {
            cmax = term;
        }
        k = k + 1;
    }
    // A degenerate contour with no perpendicular deviation at all is
    // rejected rather than divided by zero.
    if cmax == 0 {
        return None;
    }
    // Reject near-round contours: axis length over width below the
    // minimum elongation ratio.
    proof {
        lemma_frac_product_bounded(
            cfg.min_graphene_ratio.num as int, cfg.min_graphene_ratio.den as int);
        assert((cfg.min_graphene_ratio.num as int) * (cmax as int)
            <= 0x100000 * 0x100000000) by (nonlinear_arith)
            requires
                0 <= cfg.min_graphene_ratio.num <= 0x100000,
                0 <= cmax <= 0x100000000;
        assert((d2 as int) * (cfg.min_graphene_ratio.den as int) <= 0x80000000 * 0x100000)
            by (nonlinear_arith)
            requires 0 <= d2 < 0x80000000, 0 <= cfg.min_graphene_ratio.den <= 0x100000;
    }
    if (d2 as u128) * (cfg.min_graphene_ratio.den as u128)
        < (cfg.min_graphene_ratio.num as u128) * (cmax as u128) {
        return None;
    }
    // The accepted flake: doubled midpoint, canonical axis, squared length.
    let dx: i32 = p2.x as i32 - p1.x as i32;
    let dy: i32 = p2.y as i32 - p1.y as i32;
    let (ax, ay): (i32, i32) = if dy < 0 || (dy == 0 && dx < 0) {
        (-dx, -dy)
    } else {
        (dx, dy)
    };
    Some(FlakeRecord {
        center_x2: p1.x + p2.x,
        center_y2: p1.y + p2.y,
        axis_x: ax,
        axis_y: ay,
        len2: d2,
    })
}

/// The flake records of all outer contours in order: interior hole
/// borders are skipped, and so is every contour the per-contour filters
/// reject.
pub open spec fn flakes_of(
    cs: Seq<(Seq<(int, int)>, bool)>,
    cfg: GrapheneAngles,
    scale: UFrac,
) -> Seq<FlakeRecord>
    decreases cs.len(),
{
    if cs.len() == 0 {
        Seq::empty()
    } else {
        let rest = flakes_of(cs.drop_last(), cfg, scale);
        if !cs.last().1 && flake_spec(cs.last().0, cfg, scale) is Some {
            rest.push(flake_spec(cs.last().0, cfg, scale)->Some_0)
        } else {
            rest
        }
    }
}

/// Extract flake records from a grayscale image: threshold it into a
/// mask (the caller applies any blur beforehand), trace the mask's
/// contours, and analyze every outer contour. Contours that fail the
/// size or elongation filters are skipped silently.
pub fn graphene_angles(img: &GrayImg, config: &GrapheneAngles, scale: &UFrac) -> (r: Vec<
    FlakeRecord,
>)
    requires
        img.wf(),
        config.wf(),
        scale.wf(),
        scale.num > 0,
    ensures
        r@ == flakes_of(
            traced_contours(
                img.width as int,
                img.height as int,
                thresholded_data(*img, config.threshold),
                0,
            ),
            *config,
            *scale,
        ),
{
    let mask = threshold_mask(img, config.threshold);
    let contours = trace_contours(&mask, 0);
    let ghost cv = contours_view(contours@);
    proof {
        assert(cv =~= traced_contours(
            img.width as int, img.height as int, thresholded_data(*img, config.threshold), 0));
    }
    let mut r: Vec<FlakeRecord> = Vec::new();
    let n = contours.len();
    let mut i: usize = 0;
    while i < n
        invariant
            img.wf(),
            config.wf(),
            scale.wf(),
            scale.num > 0,
            mask.wf(),
            mask.width == img.width && mask.height == img.height,
            n == contours@.len(),
            cv == contours_view(contours@),
            cv.len() == n,
            forall|k: int| 0 <= k < n ==> (#[trigger] contours@[k]).points@.len() > 0,
            forall|k: int| 0 <= k < n ==> (#[trigger] contours@[k]).points@.len()
                <= 8 * mask.width * mask.height,
            forall|k: int| 0 <= k < n
                ==> (#[trigger] contours@[k]).in_bounds(mask.width as int, mask.height as int),
            i <= n,
            r@ == flakes_of(cv.take(i as int), *config, *scale),
        decreases n - i,
    {
        let contour = &contours[i];
        proof {
            assert(cv[i as int] == contours@[i as int]@);
            assert(8 * mask.width * mask.height <= 0x200000000) by (nonlinear_arith)
                requires mask.width < 32768, mask.height < 32768;
            assert forall|j: int| 0 <= j < contour.points@.len()
                implies (#[trigger] contour.points@[j]).x < DIM_LIMIT
                    && contour.points@[j].y < DIM_LIMIT by {
                assert(contour.points@[j].in_bounds(mask.width as int, mask.height as int));
            }
        }
        if !contour.is_hole {
            let flake = flake_from_contour(&contour.points, config, scale);
            if let Some(f) = flake {
                r.push(f);
            }
        }
        proof {
            let taken = cv.take(i + 1);
            assert(taken.drop_last() =~= cv.take(i as int));
            assert(taken.last() == cv[i as int]);
        }
        i = i + 1;
    }
    proof {
        assert(cv.take(n as int) =~= cv);
    }
    r
}

} // verus!
