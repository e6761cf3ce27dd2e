//! Convex hulls and point-in-hull tests.
//!
//! The hull of all traced contour points approximates the valid (stitched)
//! imaging region. A pixel counts as valid only when it lies strictly
//! inside the hull: the edge-crossing product test treats points exactly on
//! an edge as outside, rejecting boundary pixels conservatively.

use vstd::prelude::*;
use crate::geom::Pt;
use crate::img::DIM_LIMIT;
use crate::contours::{Contour, points_view, poly_prev};

verus! {

/// The side of point `q` relative to the directed hull edge from `a` to
/// `b`: negative strictly inside the hull, zero on the edge's line,
/// positive strictly outside.
pub open spec fn edge_side(a: (int, int), b: (int, int), q: (int, int)) -> int {
    (a.0 - b.0) * (q.1 - b.1) - (q.0 - b.0) * (a.1 - b.1)
}

/// `q` lies on or inside the closed polygon `hull` (every edge places it
/// on the inner side or on the edge itself).
pub open spec fn contains_closed(hull: Seq<(int, int)>, q: (int, int)) -> bool {
    forall|i: int| 0 <= i < hull.len()
        ==> edge_side(poly_prev(hull, i), #[trigger] hull[i], q) <= 0
}

/// `q` lies strictly inside `hull`: every edge places it strictly on the
/// inner side. An empty hull contains nothing.
pub open spec fn strictly_inside(hull: Seq<(int, int)>, q: (int, int)) -> bool {
    &&& hull.len() > 0
    &&& forall|i: int| 0 <= i < hull.len()
        ==> edge_side(poly_prev(hull, i), #[trigger] hull[i], q) < 0
}

/// Every coordinate of every point is below `lim`.
pub open spec fn pts_below(ps: Seq<Pt>, lim: int) -> bool {
    forall|i: int| 0 <= i < ps.len()
        ==> (#[trigger] ps[i]).x < lim && ps[i].y < lim
}

/// No point occurs twice in the list.
pub open spec fn distinct_pts(ps: Seq<Pt>) -> bool {
    forall|i: int, j: int| 0 <= i < j < ps.len() ==> #[trigger] ps[i] != #[trigger] ps[j]
}

/// Consecutive vertex triples of the polygon turn consistently toward the
/// interior side (the side the edge test calls negative).
pub open spec fn convex_turns(hull: Seq<(int, int)>) -> bool {
    forall|i: int| 0 <= i && i + 2 < hull.len()
        ==> edge_side(hull[i], #[trigger] hull[i + 1], hull[i + 2]) < 0
}

/// Compute the convex hull of a point set.
///
/// Relies on imageproc's `convex_hull` (Graham scan): the result is a
/// subset of the input points, non-empty exactly when the input is;
/// consecutive vertex triples turn strictly toward the interior (the
/// scan's stack keeps only such turns); and — the defining property of a
/// convex hull — every input point lies on or inside the returned polygon.
/// The scan multiplies coordinate differences in 32-bit integers, which is
/// exact because every coordinate is below 2^15. The angular sort's
/// comparator never answers that two points are equal, so duplicate input
/// points would give it an inconsistent order, which the standard sort may
/// punish with a panic: the points are required to be distinct, under
/// which the order is total (the sort pivot is the strictly extreme
/// lowest-then-leftmost point, so distinct points never tie in both angle
/// and distance).
#[verifier::external_body]
pub(crate) fn convex_hull_points(points: &Vec<Pt>) -> (r: Vec<Pt>)
    requires
        pts_below(points@, DIM_LIMIT as int),
        distinct_pts(points@),
    ensures
        r@.len() > 0 <==> points@.len() > 0,
        forall|i: int| 0 <= i < r@.len()
            ==> exists|j: int| 0 <= j < points@.len() && #[trigger] r@[i] == #[trigger] points@[j],
        forall|k: int| 0 <= k < points@.len()
            ==> contains_closed(points_view(r@), (#[trigger] points@[k])@),
        convex_turns(points_view(r@)),
{
    let pts: Vec<imageproc::point::Point<u32>> = points
        .iter()
        .map(|p| imageproc::point::Point::new(p.x, p.y))
        .collect();
    imageproc::geometry::convex_hull(pts)
        .into_iter()
        .map(|p: imageproc::point::Point<u32>| Pt { x: p.x, y: p.y })
        .collect()
}

/// Test whether `(x, y)` lies strictly inside the hull.
#[verifier::rlimit(100)]
pub fn point_strictly_inside(hull: &Vec<Pt>, x: u32, y: u32) -> (r: bool)
    requires
        pts_below(hull@, DIM_LIMIT as int),
        x < DIM_LIMIT,
        y < DIM_LIMIT,
    ensures
        r == strictly_inside(points_view(hull@), (x as int, y as int)),
{
    let ghost hv = points_view(hull@);
    let ghost q = (x as int, y as int);
    let n = hull.len();
    if n == 0 {
        return false;
    }
    let mut i: usize = 0;
    while i < n
        invariant
            n == hull@.len(),
            0 < n,
            hv == points_view(hull@),
            pts_below(hull@, DIM_LIMIT as int),
            q == (x as int, y as int),
            x < DIM_LIMIT,
            y < DIM_LIMIT,
            i <= n,
            forall|k: int| 0 <= k < i
                ==> edge_side(poly_prev(hv, k), #[trigger] hv[k], q) < 0,
        decreases n - i,
    {
        let a: Pt = if i == 0 { hull[n - 1] } else { hull[i - 1] };
        let b: Pt = hull[i];
        proof {
            assert(hv[i as int] == hull@[i as int]@);
            assert(poly_prev(hv, i as int) == a@);
        }
        let d1: i64 = a.x as i64 - b.x as i64;
        let d2: i64 = y as i64 - b.y as i64;
        let d3: i64 = x as i64 - b.x as i64;
        let d4: i64 = a.y as i64 - b.y as i64;
        proof {
            assert(-0x40000000 <= d1 * d2 <= 0x40000000
                && -0x40000000 <= d3 * d4 <= 0x40000000) by (nonlinear_arith)
                requires
                    -32768 < d1 < 32768,
                    -32768 < d2 < 32768,
                    -32768 < d3 < 32768,
                    -32768 < d4 < 32768;
        }
        let side: i64 = d1 * d2 - d3 * d4;
        proof {
            assert(side == edge_side(poly_prev(hv, i as int), hv[i as int], q));
        }
        if side >= 0 {
            return false;
        }
        i = i + 1;
    }
    true
}

/// Every point of every contour in the list lies on or inside the hull.
pub open spec fn hull_contains_all(
    cs: Seq<(Seq<(int, int)>, bool)>,
    hullv: Seq<(int, int)>,
) -> bool {
    forall|i: int, j: int|
        0 <= i < cs.len() && 0 <= j < cs[i].0.len()
            ==> contains_closed(hullv, #[trigger] cs[i].0[j])
}

/// `p` is a point of one of the contours.
pub open spec fn is_contour_point(cs: Seq<Contour>, p: Pt) -> bool {
    exists|i: int, j: int|
        0 <= i < cs.len() && 0 <= j < cs[i].points@.len()
            && p == #[trigger] cs[i].points@[j]
}

/// `p` occurs in the point list `ps`.
pub open spec fn appears_in(ps: Seq<Pt>, p: Pt) -> bool {
    exists|k: int| 0 <= k < ps.len() && #[trigger] ps[k] == p
}

/// Whether `p` occurs in the vector.
fn vec_contains_pt(ps: &Vec<Pt>, p: Pt) -> (r: bool)
    ensures
        r == appears_in(ps@, p),
{
    let n = ps.len();
    let mut i: usize = 0;
    while i < n
        invariant
            n == ps@.len(),
            i <= n,
            forall|k: int| 0 <= k < i ==> #[trigger] ps@[k] != p,
        decreases n - i,
    {
        if ps[i].x == p.x && ps[i].y == p.y {
            proof {
                assert(ps@[i as int] == p);
            }
            return true;
        }
        i = i + 1;
    }
    false
}

/// Gather the points of all contours into one vector, each distinct point
/// once.
pub fn collect_contour_points(contours: &Vec<Contour>) -> (r: Vec<Pt>)
    ensures
        forall|k: int| 0 <= k < r@.len() ==> is_contour_point(contours@, #[trigger] r@[k]),
        forall|i: int, j: int|
            0 <= i < contours@.len() && 0 <= j < contours@[i].points@.len()
                ==> appears_in(r@, #[trigger] contours@[i].points@[j]),
        distinct_pts(r@),
{
    let mut r: Vec<Pt> = Vec::new();
    let n = contours.len();
    let mut i: usize = 0;
    while i < n
        invariant
            n == contours@.len(),
            i <= n,
            forall|k: int| 0 <= k < r@.len() ==> is_contour_point(contours@, #[trigger] r@[k]),
            forall|ii: int, jj: int|
                0 <= ii < i && 0 <= jj < contours@[ii].points@.len()
                    ==> appears_in(r@, #[trigger] contours@[ii].points@[jj]),
            distinct_pts(r@),
        decreases n - i,
    {
        let m = contours[i].points.len();
        let mut j: usize = 0;
        while j < m
            invariant
                n == contours@.len(),
                i < n,
                m == contours@[i as int].points@.len(),
                j <= m,
                forall|k: int| 0 <= k < r@.len() ==> is_contour_point(contours@, #[trigger] r@[k]),
                forall|ii: int, jj: int|
                    0 <= ii < i && 0 <= jj < contours@[ii].points@.len()
                        ==> appears_in(r@, #[trigger] contours@[ii].points@[jj]),
                forall|jj: int|
                    0 <= jj < j ==> appears_in(r@, #[trigger] contours@[i as int].points@[jj]),
                distinct_pts(r@),
            decreases m - j,
        {
            let ghost prev = r@;
            let p = contours[i].points[j];
            if !vec_contains_pt(&r, p) {
                r.push(p);
                proof {
                    assert(r@[r@.len() - 1] == contours@[i as int].points@[j as int]);
                    assert(is_contour_point(contours@, r@[r@.len() - 1]));
                    assert(forall|k: int| 0 <= k < prev.len() ==> r@[k] == #[trigger] prev[k]);
                    assert forall|pp: Pt| appears_in(prev, pp) implies appears_in(r@, pp) by {
                        let k = choose|k: int| 0 <= k < prev.len() && #[trigger] prev[k] == pp;
                        assert(r@[k] == pp);
                    }
                    assert forall|k1: int, k2: int| 0 <= k1 < k2 < r@.len()
                        implies #[trigger] r@[k1] != #[trigger] r@[k2] by {
                        if k2 == r@.len() - 1 {
                            assert(!appears_in(prev, p));
                            assert(prev[k1] != p);
                        }
                    }
                }
            } else {
                proof {
                    assert(appears_in(r@, contours@[i as int].points@[j as int]));
                }
            }
            j = j + 1;
        }
        proof {
            assert forall|jj: int| 0 <= jj < m
                implies appears_in(r@, #[trigger] contours@[i as int].points@[jj]) by {}
        }
        i = i + 1;
    }
    r
}

/// Compute the convex hull of the union of all contour points.
///
/// Every hull vertex is a point of some input contour, every point of
/// every input contour lies on or inside the hull, consecutive hull edges
/// turn consistently toward the interior, and the hull is non-empty
/// exactly when some contour has a point.
pub fn hull_of_contour_points(contours: &Vec<Contour>) -> (r: Vec<Pt>)
    requires
        forall|i: int| 0 <= i < contours@.len()
            ==> pts_below((#[trigger] contours@[i]).points@, DIM_LIMIT as int),
    ensures
        pts_below(r@, DIM_LIMIT as int),
        forall|k: int| 0 <= k < r@.len() ==> is_contour_point(contours@, #[trigger] r@[k]),
        forall|i: int, j: int|
            0 <= i < contours@.len() && 0 <= j < contours@[i].points@.len()
                ==> contains_closed(points_view(r@), (#[trigger] contours@[i].points@[j])@),
        convex_turns(points_view(r@)),
        r@.len() > 0 <==> exists|i: int|
            0 <= i < contours@.len() && #[trigger] contours@[i].points@.len() > 0,
{
    let all = collect_contour_points(contours);
    proof {
        assert forall|k: int| 0 <= k < all@.len()
            implies (#[trigger] all@[k]).x < DIM_LIMIT && all@[k].y < DIM_LIMIT by {
            let (ii, jj) = choose|ii: int, jj: int|
                0 <= ii < contours@.len() && 0 <= jj < contours@[ii].points@.len()
                    && all@[k] == #[trigger] contours@[ii].points@[jj];
            assert(pts_below(contours@[ii].points@, DIM_LIMIT as int));
            assert(contours@[ii].points@[jj].x < DIM_LIMIT);
        }
    }
    let hull = convex_hull_points(&all);
    proof {
        assert forall|i: int| 0 <= i < hull@.len()
            implies (#[trigger] hull@[i]).x < DIM_LIMIT && hull@[i].y < DIM_LIMIT
                && is_contour_point(contours@, hull@[i]) by {
            let j = choose|j: int| 0 <= j < all@.len() && hull@[i] == #[trigger] all@[j];
            assert(is_contour_point(contours@, all@[j]));
        }
        assert forall|i: int, j: int|
            0 <= i < contours@.len() && 0 <= j < contours@[i].points@.len()
            implies contains_closed(points_view(hull@), (#[trigger] contours@[i].points@[j])@) by {
            assert(appears_in(all@, contours@[i].points@[j]));
            let k = choose|k: int|
                0 <= k < all@.len() && #[trigger] all@[k] == contours@[i].points@[j];
            assert(contains_closed(points_view(hull@), all@[k]@));
        }
        if hull@.len() > 0 {
            assert(all@.len() > 0);
            assert(is_contour_point(contours@, all@[0]));
        }
        if exists|i: int| 0 <= i < contours@.len() && #[trigger] contours@[i].points@.len() > 0 {
            let i = choose|i: int|
                0 <= i < contours@.len() && #[trigger] contours@[i].points@.len() > 0;
            assert(appears_in(all@, contours@[i].points@[0]));
            assert(all@.len() > 0);
        }
    }
    hull
}

} // verus!
