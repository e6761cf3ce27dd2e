//! Contour tracing and area-based mask denoising.
//!
//! Contours are traced by the imaging crate's border-following routine
//! (a trusted collaborator). The signed polygon area of each contour is
//! computed by the shoelace formula; contours whose rounded absolute area
//! is at or below a minimum are discarded, and the survivors are
//! rasterized as filled polygons into a fresh mask.

use vstd::prelude::*;
use crate::geom::Pt;
use crate::img::{GrayImg, DIM_LIMIT};

verus! {

/// A closed boundary of a connected mask region: an ordered point sequence,
/// tagged with whether it is an outer border or the border of an interior
/// hole.
#[derive(Clone, Debug)]
pub struct Contour {
    pub points: Vec<Pt>,
    pub is_hole: bool,
}

/// A point sequence as pairs of mathematical integers.
pub open spec fn points_view(ps: Seq<Pt>) -> Seq<(int, int)> {
    ps.map_values(|p: Pt| p@)
}

impl Contour {
    /// The contour as its point sequence and hole flag.
    pub open spec fn view(self) -> (Seq<(int, int)>, bool) {
        (points_view(self.points@), self.is_hole)
    }

    /// All points lie inside a `w` by `h` grid.
    pub open spec fn in_bounds(self, w: int, h: int) -> bool {
        forall|i: int| 0 <= i < self.points@.len() ==> (#[trigger] self.points@[i]).in_bounds(w, h)
    }
}

/// A contour list as plain values.
pub open spec fn contours_view(cs: Seq<Contour>) -> Seq<(Seq<(int, int)>, bool)> {
    cs.map_values(|c: Contour| c@)
}

/// The borders that the tracing routine finds in a `width` by `height`
/// pixel grid, counting pixels strictly above `threshold` as foreground:
/// each is a point sequence with its hole flag. The outcome depends only on
/// these arguments.
pub uninterp spec fn traced_contours(
    width: int,
    height: int,
    pixels: Seq<u8>,
    threshold: u8,
) -> Seq<(Seq<(int, int)>, bool)>;

/// Trace all borders of foreground regions of `img`, where a pixel is
/// foreground when strictly brighter than `threshold`.
///
/// Relies on imageproc's `find_contours_with_threshold` (Suzuki-Abe border
/// following): the result is a function of the pixel grid and the threshold
/// alone; every returned border is non-empty and all its points are
/// in-bounds pixel positions. The border-following step is a deterministic
/// function of the last two positions, so a terminating trace never repeats
/// a (predecessor, position) state: a border has at most eight points per
/// pixel of the grid.
#[verifier::external_body]
pub(crate) fn trace_contours(img: &GrayImg, threshold: u8) -> (r: Vec<Contour>)
    requires
        img.wf(),
    ensures
        contours_view(r@) == traced_contours(
            img.width as int, img.height as int, img.data@, threshold),
        forall|i: int| 0 <= i < r@.len() ==> (#[trigger] r@[i]).points@.len() > 0,
        forall|i: int| 0 <= i < r@.len()
            ==> (#[trigger] r@[i]).points@.len() <= 8 * img.width * img.height,
        forall|i: int| 0 <= i < r@.len()
            ==> (#[trigger] r@[i]).in_bounds(img.width as int, img.height as int),
{
    let buf = image::GrayImage::from_raw(img.width, img.height, img.data.clone()).unwrap();
    imageproc::contours::find_contours_with_threshold::<u32>(&buf, threshold)
        .into_iter()
        .map(|c| Contour {
            points: c.points.into_iter().map(|p| Pt { x: p.x, y: p.y }).collect(),
            is_hole: c.border_type == imageproc::contours::BorderType::Hole,
        })
        .collect()
}

/// The pixel grid after the filled polygon `poly` is drawn in white over
/// `base` on a `width` by `height` canvas. The outcome depends only on
/// these arguments.
pub uninterp spec fn filled_polygon(
    width: int,
    height: int,
    base: Seq<u8>,
    poly: Seq<(int, int)>,
) -> Seq<u8>;

/// Draw the filled polygon `poly` in white (255) onto `mask`.
///
/// Relies on imageproc's `draw_polygon_mut`: it fills the polygon scanline
/// by scanline with the given color, closing the path implicitly; the
/// canvas dimensions are unchanged and every pixel either keeps its value
/// or becomes the drawing color. The canvas must have at least one row and
/// column: the fill clamps its scanline range into `0 ..= height - 1`, so
/// on a zero-height canvas it would still visit row 0 and write out of
/// bounds.
#[verifier::external_body]
fn draw_filled_polygon(mask: &mut GrayImg, poly: &Vec<Pt>)
    requires
        old(mask).wf(),
        old(mask).width > 0,
        old(mask).height > 0,
        poly@.len() > 0,
        forall|i: int| 0 <= i < poly@.len()
            ==> (#[trigger] poly@[i]).x < DIM_LIMIT && poly@[i].y < DIM_LIMIT,
    ensures
        final(mask).wf(),
        final(mask).width == old(mask).width,
        final(mask).height == old(mask).height,
        final(mask).data@ == filled_polygon(
            old(mask).width as int,
            old(mask).height as int,
            old(mask).data@,
            points_view(poly@),
        ),
        forall|i: int| 0 <= i < final(mask).data@.len()
            ==> final(mask).data@[i] == old(mask).data@[i]
                || final(mask).data@[i] == 255u8,
{
    let mut buf = image::GrayImage::from_raw(mask.width, mask.height, mask.data.clone()).unwrap();
    let pts: Vec<imageproc::point::Point<i32>> = poly
        .iter()
        .map(|p| imageproc::point::Point::new(p.x as i32, p.y as i32))
        .collect();
    imageproc::drawing::draw_polygon_mut(&mut buf, &pts, image::Luma([255u8]));
    mask.data = buf.into_raw();
}

/// Absolute value of an integer.
pub open spec fn abs_int(a: int) -> int {
    if a < 0 { -a } else { a }
}

/// One shoelace term for the edge from `a` to `b`.
pub open spec fn shoelace_term(a: (int, int), b: (int, int)) -> int {
    (a.0 + b.0) * (a.1 - b.1)
}

/// The predecessor of point `i` in the closed polygon `ps` (the last point
/// precedes the first).
pub open spec fn poly_prev(ps: Seq<(int, int)>, i: int) -> (int, int) {
    if i == 0 { ps[ps.len() - 1] } else { ps[i - 1] }
}

/// Partial shoelace sum over the first `k` edges of the closed polygon.
pub open spec fn shoelace_sum(ps: Seq<(int, int)>, k: int) -> int
    decreases k,
{
    if k <= 0 {
        0
    } else {
        shoelace_sum(ps, k - 1) + shoelace_term(poly_prev(ps, k - 1), ps[k - 1])
    }
}

/// Twice the absolute polygon area of the closed point sequence.
pub open spec fn double_area(ps: Seq<(int, int)>) -> int {
    abs_int(shoelace_sum(ps, ps.len() as int))
}

/// The polygon area rounded to the nearest integer (halves up): the
/// shoelace sum is twice the signed area.
pub open spec fn rounded_area(ps: Seq<(int, int)>) -> int {
    (double_area(ps) + 1) / 2
}

/// Whether a contour of points `ps` survives the minimum-area filter.
pub open spec fn keeps_contour(ps: Seq<(int, int)>, min_area: int) -> bool {
    min_area < rounded_area(ps)
}

/// Every point of `ps` lies in `0 ..< lim` on both axes.
pub open spec fn coords_below(ps: Seq<(int, int)>, lim: int) -> bool {
    forall|i: int| 0 <= i < ps.len()
        ==> 0 <= (#[trigger] ps[i]).0 < lim && 0 <= ps[i].1 < lim
}

/// Compute twice the signed shoelace area of a closed polygon.
pub fn shoelace_double_exec(points: &Vec<Pt>) -> (r: i128)
    requires
        points@.len() > 0,
        coords_below(points_view(points@), DIM_LIMIT as int),
    ensures
        r == shoelace_sum(points_view(points@), points@.len() as int),
        -(points@.len() as int) * 0x80000000 <= r <= (points@.len() as int) * 0x80000000,
{
    let ghost ps = points_view(points@);
    let n = points.len();
    let mut acc: i128 = 0;
    let mut i: usize = 0;
    while i < n
        invariant
            n == points@.len(),
            0 < n,
            ps == points_view(points@),
            coords_below(ps, DIM_LIMIT as int),
            i <= n,
            acc == shoelace_sum(ps, i as int),
            -(i as int) * 0x80000000 <= acc <= (i as int) * 0x80000000,
        decreases n - i,
    {
        let prev: Pt = if i == 0 { points[n - 1] } else { points[i - 1] };
        let cur: Pt = points[i];
        let sx = prev.x as i128 + cur.x as i128;
        let dy = prev.y as i128 - cur.y as i128;
        proof {
            assert(ps[i as int] == points@[i as int]@);
            assert(poly_prev(ps, i as int) == prev@);
            assert(-0x80000000 <= sx * dy <= 0x80000000) by (nonlinear_arith)
                requires 0 <= sx < 0x10000, -0x8000 < dy < 0x8000;
        }
        acc = acc + sx * dy;
        i = i + 1;
    }
    acc
}

/// The polygons (point sequences) of the contours that survive the
/// minimum-area filter, in order.
pub open spec fn kept_polys(
    cs: Seq<(Seq<(int, int)>, bool)>,
    min_area: int,
) -> Seq<Seq<(int, int)>>
    decreases cs.len(),
{
    if cs.len() == 0 {
        Seq::empty()
    } else if keeps_contour(cs.last().0, min_area) {
        kept_polys(cs.drop_last(), min_area).push(cs.last().0)
    } else {
        kept_polys(cs.drop_last(), min_area)
    }
}

/// The pixel grid after all polygons of `polys` are drawn in order over
/// `base`.
pub open spec fn raster_all(
    width: int,
    height: int,
    base: Seq<u8>,
    polys: Seq<Seq<(int, int)>>,
) -> Seq<u8>
    decreases polys.len(),
{
    if polys.len() == 0 {
        base
    } else {
        filled_polygon(width, height, raster_all(width, height, base, polys.drop_last()),
            polys.last())
    }
}

/// An all-zero pixel grid.
pub open spec fn zero_grid(n: nat) -> Seq<u8> {
    Seq::new(n, |i: int| 0u8)
}

/// Remove noise from a binary mask: trace all contours, discard those whose
/// rounded polygon area is at or below `minimum_area`, and rasterize the
/// survivors as filled polygons into a fresh mask of the same dimensions.
pub fn filter_by_minimum_area(mask: &GrayImg, minimum_area: usize) -> (r: GrayImg)
    requires
        mask.wf(),
    ensures
        r.wf(),
        r.width == mask.width,
        r.height == mask.height,
        r.is_binary(),
        r.data@ == raster_all(
            mask.width as int,
            mask.height as int,
            zero_grid((mask.width * mask.height) as nat),
            kept_polys(
                traced_contours(mask.width as int, mask.height as int, mask.data@, 0),
                minimum_area as int,
            ),
        ),
{
    let contours = trace_contours(mask, 0);
    let ghost cv = contours_view(contours@);
    proof {
        assert(cv =~= traced_contours(mask.width as int, mask.height as int, mask.data@, 0));
    }
    let mut out = GrayImg::blank(mask.width, mask.height);
    let n = contours.len();
    let mut i: usize = 0;
    while i < n
        invariant
            mask.wf(),
            out.wf(),
            out.width == mask.width,
            out.height == mask.height,
            out.is_binary(),
            n == contours@.len(),
            cv == contours_view(contours@),
            cv.len() == n,
            forall|k: int| 0 <= k < n ==> (#[trigger] contours@[k]).points@.len() > 0,
            forall|k: int| 0 <= k < n
                ==> (#[trigger] contours@[k]).in_bounds(mask.width as int, mask.height as int),
            i <= n,
            out.data@ == raster_all(
                mask.width as int,
                mask.height as int,
                zero_grid((mask.width * mask.height) as nat),
                kept_polys(cv.take(i as int), minimum_area as int),
            ),
        decreases n - i,
    {
        let contour = &contours[i];
        proof {
            assert(cv[i as int] == contours@[i as int]@);
            assert(forall|j: int| 0 <= j < contour.points@.len()
                ==> 0 <= (#[trigger] points_view(contour.points@)[j]).0 < DIM_LIMIT
                    && 0 <= points_view(contour.points@)[j].1 < DIM_LIMIT);
            // A traced contour has an in-bounds point, so the mask cannot
            // be zero-sized where a polygon is drawn.
            assert(contour.points@[0].in_bounds(mask.width as int, mask.height as int));
        }
        let doubled = shoelace_double_exec(&contour.points);
        let abs2: u128 = if doubled < 0 { (-doubled) as u128 } else { doubled as u128 };
        let rounded: u128 = (abs2 + 1) / 2;
        let ghost prev_out = out;
        if (minimum_area as u128) < rounded {
            draw_filled_polygon(&mut out, &contour.points);
        }
        proof {
            let min = minimum_area as int;
            let taken = cv.take(i + 1);
            assert(taken.drop_last() =~= cv.take(i as int));
            assert(taken.last() == cv[i as int]);
            assert(keeps_contour(cv[i as int].0, min) <==> (minimum_area as u128) < rounded);
            let polys_prev = kept_polys(cv.take(i as int), min);
            if keeps_contour(cv[i as int].0, min) {
                assert(kept_polys(taken, min) == polys_prev.push(cv[i as int].0));
                assert(polys_prev.push(cv[i as int].0).drop_last() =~= polys_prev);
                assert(polys_prev.push(cv[i as int].0).last() == cv[i as int].0);
            } else {
                assert(kept_polys(taken, min) == polys_prev);
            }
        }
        i = i + 1;
    }
    proof {
        assert(cv.take(n as int) =~= cv);
    }
    out
}

/// Raising the minimum-area threshold never increases the number of
/// surviving contours: the survivors at the higher threshold are a
/// subsequence of those at the lower one.
pub proof fn lemma_area_filter_monotone(
    cs: Seq<(Seq<(int, int)>, bool)>,
    low: int,
    high: int,
)
    requires
        low <= high,
    ensures
        kept_polys(cs, high).len() <= kept_polys(cs, low).len(),
    decreases cs.len(),
{
    if cs.len() > 0 {
        lemma_area_filter_monotone(cs.drop_last(), low, high);
    }
}

} // verus!
