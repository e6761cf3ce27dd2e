//! The bacteria-exclusion zone.
//!
//! A squared Euclidean distance transform of the filtered edge mask gives,
//! per pixel, the squared distance to the nearest edge pixel. Thresholding
//! it at the squared pixel radius (the physical exclusion radius divided by
//! the scale factor) yields the exclusion mask; the exclusion ratio is the
//! share of mask pixels that are on.

use vstd::prelude::*;
use crate::frac::{UFrac, lemma_frac_product_bounded};
use crate::geom::{sq_dist, Pt};
use crate::img::{GrayImg, DIM_LIMIT, count_on_upto, lemma_row_major_index,
    lemma_row_major_distinct};
use crate::config::{Error, BacteriaExclusion};
use crate::contrast::{absolute_contrast_threshold, exceeds_threshold, contrast_magnitude};
use crate::contours::{trace_contours, filter_by_minimum_area, traced_contours, contours_view,
    kept_polys, raster_all, zero_grid, points_view};
use crate::hull::{hull_of_contour_points, contains_closed, pts_below, hull_contains_all};
use crate::radial::{RadialBucket, radial_buckets, corrected_weighted_sum, bucket_count_upto,
    bucket_white_upto, weighted_sum, MEAN_SCALE};

verus! {

/// `v` is the least squared distance from `(x, y)` to an on pixel of
/// `mask`: some on pixel is exactly that far away, and none is nearer.
pub open spec fn is_min_sq_dist(mask: GrayImg, x: int, y: int, v: int) -> bool {
    &&& exists|x0: int, y0: int|
        0 <= x0 < mask.width && 0 <= y0 < mask.height && #[trigger] mask.on(x0, y0)
            && v == sq_dist((x, y), (x0, y0))
    &&& forall|x0: int, y0: int|
        0 <= x0 < mask.width && 0 <= y0 < mask.height && #[trigger] mask.on(x0, y0)
            ==> v <= sq_dist((x, y), (x0, y0))
}

/// The squared distance from every pixel to the nearest on pixel of the
/// mask, row-major; `u64::MAX` everywhere when the mask has no on pixel.
///
/// Relies on imageproc's `euclidean_squared_distance_transform` (the exact
/// linear-time transform of Felzenszwalb and Huttenlocher): distances are
/// to the nearest non-zero pixel; with no foreground the values stay
/// infinite, and the saturating float-to-integer cast turns infinity into
/// `u64::MAX`. The finite values are integers below 2^31 here, which the
/// transform's double-precision arithmetic represents exactly.
#[verifier::external_body]
fn squared_distance_field(mask: &GrayImg) -> (r: Vec<u64>)
    requires
        mask.wf(),
    ensures
        r@.len() == mask.width * mask.height,
        mask.has_on_pixel() ==> forall|x: int, y: int|
            0 <= x < mask.width && 0 <= y < mask.height
                ==> is_min_sq_dist(*mask, x, y, #[trigger] r@[y * mask.width + x] as int),
        !mask.has_on_pixel() ==> forall|i: int| 0 <= i < r@.len() ==> r@[i] == u64::MAX,
{
    let buf = image::GrayImage::from_raw(mask.width, mask.height, mask.data.clone()).unwrap();
    imageproc::distance_transform::euclidean_squared_distance_transform(&buf)
        .into_raw()
        .into_iter()
        .map(|d| d as u64)
        .collect()
}

/// The physical exclusion radius converts to strictly less than one pixel:
/// `radius / scale < 1`, by cross multiplication.
pub open spec fn radius_too_small(radius: UFrac, scale: UFrac) -> bool {
    radius.num * scale.den < radius.den * scale.num
}

/// Whether a squared pixel distance `d2` lies strictly within the squared
/// pixel radius `(radius / scale)^2`: `d2 * (radius.den * scale.num)^2 <
/// (radius.num * scale.den)^2`. Distances at or beyond 2^31 (in
/// particular the infinite distance of an empty mask) are never within.
pub open spec fn within_radius(d2: int, radius: UFrac, scale: UFrac) -> bool {
    &&& d2 < 0x80000000
    &&& d2 * ((radius.den * scale.num) * (radius.den * scale.num))
        < (radius.num * scale.den) * (radius.num * scale.den)
}

/// Build the exclusion mask for an edge mask: a pixel is on exactly when
/// its squared distance to the nearest edge pixel is strictly within the
/// squared pixel radius. Returns the mask and its on-pixel count; fails
/// with `ToSmallExclusionDiameter` exactly when the physical radius
/// converts to less than one pixel.
///
/// A radius of exactly one pixel is accepted.
pub fn exclusion_zone_of_mask(mask: &GrayImg, radius: &UFrac, scale: &UFrac) -> (r: Result<
    (GrayImg, u64),
    Error,
>)
    requires
        mask.wf(),
        radius.wf(),
        scale.wf(),
        scale.num > 0,
    ensures
        r is Err <==> radius_too_small(*radius, *scale),
        r matches Err(e) ==> e == Error::ToSmallExclusionDiameter,
        r matches Ok(z) ==> {
            &&& z.0.wf()
            &&& z.0.width == mask.width
            &&& z.0.height == mask.height
            &&& z.0.is_binary()
            &&& forall|x: int, y: int|
                0 <= x < mask.width && 0 <= y < mask.height
                    ==> (z.0.pix(x, y) == 255 <==> exists|v: int|
                        #[trigger] is_min_sq_dist(*mask, x, y, v)
                            && within_radius(v, *radius, *scale))
            &&& z.1 == count_on_upto(z.0.data@, z.0.data@.len() as int)
            &&& z.1 <= mask.width * mask.height
        },
{
    proof {
        lemma_frac_product_bounded(radius.num as int, scale.den as int);
        lemma_frac_product_bounded(radius.den as int, scale.num as int);
    }
    if radius.num * scale.den < radius.den * scale.num {
        return Err(Error::ToSmallExclusionDiameter);
    }
    let dists = squared_distance_field(mask);
    let a_term: u64 = radius.den * scale.num;
    let b_term: u64 = radius.num * scale.den;
    proof {
        assert((a_term as int) * (a_term as int) <= 0x100000000000000000000
            && (b_term as int) * (b_term as int) <= 0x100000000000000000000)
            by (nonlinear_arith)
            requires 0 <= a_term <= 0x10000000000, 0 <= b_term <= 0x10000000000;
    }
    let a2: u128 = (a_term as u128) * (a_term as u128);
    let b2: u128 = (b_term as u128) * (b_term as u128);
    let mut zone = GrayImg::blank(mask.width, mask.height);
    let ghost has_on = mask.has_on_pixel();
    let mut y: u32 = 0;
    while y < mask.height
        invariant
            mask.wf(),
            radius.wf() && scale.wf(),
            zone.wf(),
            zone.width == mask.width,
            zone.height == mask.height,
            dists@.len() == mask.width * mask.height,
            has_on == mask.has_on_pixel(),
            has_on ==> forall|xx: int, yy: int|
                0 <= xx < mask.width && 0 <= yy < mask.height
                    ==> is_min_sq_dist(*mask, xx, yy,
                        #[trigger] dists@[yy * mask.width + xx] as int),
            !has_on ==> forall|i: int| 0 <= i < dists@.len() ==> dists@[i] == u64::MAX,
            a2 == (radius.den * scale.num) * (radius.den * scale.num),
            b2 == (radius.num * scale.den) * (radius.num * scale.den),
            a2 <= 0x100000000000000000000,
            y <= mask.height,
            forall|i: int| 0 <= i < zone.data@.len()
                ==> zone.data@[i] == 0 || zone.data@[i] == 255,
            forall|xx: int, yy: int|
                0 <= xx < mask.width && 0 <= yy < y
                    ==> ((#[trigger] zone.pix(xx, yy)) == 255 <==> exists|v: int|
                        #[trigger] is_min_sq_dist(*mask, xx, yy, v)
                            && within_radius(v, *radius, *scale)),
        decreases mask.height - y,
    {
        let mut x: u32 = 0;
        while x < mask.width
            invariant
                mask.wf(),
                radius.wf() && scale.wf(),
                zone.wf(),
                zone.width == mask.width,
                zone.height == mask.height,
                dists@.len() == mask.width * mask.height,
                has_on == mask.has_on_pixel(),
                has_on ==> forall|xx: int, yy: int|
                    0 <= xx < mask.width && 0 <= yy < mask.height
                        ==> is_min_sq_dist(*mask, xx, yy,
                            #[trigger] dists@[yy * mask.width + xx] as int),
                !has_on ==> forall|i: int| 0 <= i < dists@.len() ==> dists@[i] == u64::MAX,
                a2 == (radius.den * scale.num) * (radius.den * scale.num),
                b2 == (radius.num * scale.den) * (radius.num * scale.den),
                a2 <= 0x100000000000000000000,
                y < mask.height,
                x <= mask.width,
                forall|i: int| 0 <= i < zone.data@.len()
                    ==> zone.data@[i] == 0 || zone.data@[i] == 255,
                forall|xx: int, yy: int|
                    0 <= xx < mask.width && 0 <= yy < y
                        ==> ((#[trigger] zone.pix(xx, yy)) == 255 <==> exists|v: int|
                            #[trigger] is_min_sq_dist(*mask, xx, yy, v)
                                && within_radius(v, *radius, *scale)),
                forall|xx: int|
                    0 <= xx < x
                        ==> ((#[trigger] zone.pix(xx, y as int)) == 255 <==> exists|v: int|
                            #[trigger] is_min_sq_dist(*mask, xx, y as int, v)
                                && within_radius(v, *radius, *scale)),
            decreases mask.width - x,
        {
            proof {
                lemma_row_major_index(
                    mask.width as int, mask.height as int, x as int, y as int);
            }
            let d2: u64 = dists[(y as usize) * (mask.width as usize) + (x as usize)];
            let within: bool = if d2 >= 0x80000000 {
                false
            } else {
                proof {
                    assert((d2 as int) * (a2 as int) < 0x80000000 * 0x200000000000000000000)
                        by (nonlinear_arith)
                        requires 0 <= d2 < 0x80000000, 0 <= a2 <= 0x100000000000000000000;
                }
                (d2 as u128) * a2 < b2
            };
            let ghost prev = zone;
            zone.set(x, y, if within { 255 } else { 0 });
            proof {
                assert forall|xx: int, yy: int|
                    0 <= xx < mask.width && 0 <= yy < mask.height && !(xx == x && yy == y)
                    implies zone.pix(xx, yy) == prev.pix(xx, yy) by {
                    lemma_row_major_index(mask.width as int, mask.height as int, xx, yy);
                    lemma_row_major_distinct(mask.width as int, xx, yy, x as int, y as int);
                }
                if has_on {
                    let v = dists@[y as int * mask.width + x as int] as int;
                    assert(is_min_sq_dist(*mask, x as int, y as int, v));
                    if within {
                        assert(within_radius(v, *radius, *scale));
                    } else {
                        assert forall|w: int|
                            #[trigger] is_min_sq_dist(*mask, x as int, y as int, w)
                            implies !within_radius(w, *radius, *scale) by {
                            lemma_min_sq_dist_unique(*mask, x as int, y as int, v, w);
                        }
                    }
                } else {
                    assert(!within);
                    assert forall|w: int|
                        !(#[trigger] is_min_sq_dist(*mask, x as int, y as int, w)) by {
                    }
                }
            }
            x = x + 1;
        }
        y = y + 1;
    }
    let count = crate::img::count_on(&zone);
    proof {
        crate::img::lemma_count_on_bound(zone.data@, zone.data@.len() as int);
    }
    Ok((zone, count))
}

/// The outputs of the radial field-of-view normalization: the convex hull
/// delimiting the valid imaging region, the radial bucket table, and the
/// corrected exclusion ratio as the exact fraction
/// `corrected_num / corrected_den`.
pub struct RadialAdjusted {
    pub hull: Vec<Pt>,
    pub buckets: Vec<RadialBucket>,
    pub corrected_num: i128,
    pub corrected_den: u128,
}

/// Everything the exclusion pipeline produces: the edge mask and contrast
/// magnitudes, the denoised edge mask, the exclusion mask with its
/// on-pixel count (the plain exclusion ratio is
/// `excluded_count / total_pixels`), and the radial normalization outputs
/// when that mode is enabled.
pub struct ExclusionAnalysis {
    pub edges: GrayImg,
    pub edge_magnitudes: GrayImg,
    pub filtered_edges: GrayImg,
    pub exclusion_zone: GrayImg,
    pub excluded_count: u64,
    pub total_pixels: u64,
    pub adjusted: Option<RadialAdjusted>,
}

/// Run the whole bacteria-exclusion pipeline on a grayscale image:
/// directional contrast detection, area denoising, the distance-transform
/// exclusion zone, and optionally the radial field-of-view normalization.
///
/// Fails with `ToSmallExclusionDiameter` exactly when the physical
/// exclusion radius converts to strictly less than one pixel; a radius of
/// exactly one pixel is accepted.
#[verifier::rlimit(100)]
pub fn bacteria_exclusion(img: &GrayImg, config: &BacteriaExclusion, scale: &UFrac) -> (r:
    Result<ExclusionAnalysis, Error>)
    requires
        img.wf(),
        config.wf(),
        scale.wf(),
        scale.num > 0,
        config.radius_adjusted ==> img.width >= 2,
    ensures
        r is Err <==> radius_too_small(config.exclusion_radius, *scale),
        r matches Err(e) ==> e == Error::ToSmallExclusionDiameter,
        r matches Ok(a) ==> {
            &&& a.edges.wf() && a.edges.width == img.width && a.edges.height == img.height
            &&& a.edges.is_binary()
            &&& forall|x: int, y: int|
                0 <= x < img.width && 0 <= y < img.height ==> a.edges.pix(x, y) == (
                    if exceeds_threshold(*img, x, y, config.contrast_threshold) { 255u8 }
                    else { 0u8 })
            &&& forall|x: int, y: int|
                0 <= x < img.width && 0 <= y < img.height
                    ==> a.edge_magnitudes.pix(x, y) == contrast_magnitude(*img, x, y)
            &&& a.filtered_edges.wf() && a.filtered_edges.width == img.width
                && a.filtered_edges.height == img.height && a.filtered_edges.is_binary()
            &&& a.filtered_edges.data@ == raster_all(
                img.width as int,
                img.height as int,
                zero_grid((img.width * img.height) as nat),
                kept_polys(
                    traced_contours(img.width as int, img.height as int, a.edges.data@, 0),
                    config.minimum_edge_area as int,
                ),
            )
            &&& a.exclusion_zone.wf() && a.exclusion_zone.width == img.width
                && a.exclusion_zone.height == img.height && a.exclusion_zone.is_binary()
            &&& forall|x: int, y: int|
                0 <= x < img.width && 0 <= y < img.height
                    ==> (a.exclusion_zone.pix(x, y) == 255 <==> exists|v: int|
                        #[trigger] is_min_sq_dist(a.filtered_edges, x, y, v)
                            && within_radius(v, config.exclusion_radius, *scale))
            &&& a.excluded_count == count_on_upto(
                a.exclusion_zone.data@, a.exclusion_zone.data@.len() as int)
            &&& a.total_pixels == img.width * img.height
            &&& a.excluded_count <= a.total_pixels
            &&& (a.adjusted is Some <==> config.radius_adjusted)
            &&& a.adjusted matches Some(ra) ==> {
                &&& hull_contains_all(
                    traced_contours(img.width as int, img.height as int, img.data@, 1),
                    points_view(ra.hull@),
                )
                &&& ra.buckets@.len() == img.width
                &&& forall|d: int| 0 <= d < img.width ==> {
                    &&& (#[trigger] ra.buckets@[d]).count == bucket_count_upto(
                        a.exclusion_zone, points_view(ra.hull@), d,
                        (img.width * img.height) as int)
                    &&& ra.buckets@[d].white == bucket_white_upto(
                        a.exclusion_zone, points_view(ra.hull@), d,
                        (img.width * img.height) as int)
                }
                &&& ra.corrected_num == weighted_sum(ra.buckets@, img.width as int)
                &&& ra.corrected_den == MEAN_SCALE * ((img.width - 1) * (img.width - 1))
            }
        },
{
    let (edges, magnitudes) = absolute_contrast_threshold(img, &config.contrast_threshold);
    let filtered = filter_by_minimum_area(&edges, config.minimum_edge_area);
    let zone_result = exclusion_zone_of_mask(&filtered, &config.exclusion_radius, scale);
    match zone_result {
        Err(e) => Err(e),
        Ok((zone, count)) => {
            proof {
                assert(img.width * img.height < 0x40000000) by (nonlinear_arith)
                    requires img.width < 32768, img.height < 32768;
            }
            let total: u64 = (img.width as u64) * (img.height as u64);
            let adjusted: Option<RadialAdjusted> = if config.radius_adjusted {
                let raw_contours = trace_contours(img, 1);
                proof {
                    assert forall|i: int| 0 <= i < raw_contours@.len()
                        implies pts_below(
                            (#[trigger] raw_contours@[i]).points@, DIM_LIMIT as int) by {
                        assert(raw_contours@[i].in_bounds(img.width as int, img.height as int));
                        assert forall|j: int| 0 <= j < raw_contours@[i].points@.len()
                            implies (#[trigger] raw_contours@[i].points@[j]).x < DIM_LIMIT
                                && raw_contours@[i].points@[j].y < DIM_LIMIT by {
                            assert(raw_contours@[i].points@[j].in_bounds(
                                img.width as int, img.height as int));
                        }
                    }
                }
                let hull = hull_of_contour_points(&raw_contours);
                let buckets = radial_buckets(&zone, &hull);
                let corrected_num = corrected_weighted_sum(&buckets);
                let wm1: u128 = (img.width - 1) as u128;
                proof {
                    assert(wm1 * wm1 < 0x40000000) by (nonlinear_arith)
                        requires 0 <= wm1 < 32768;
                }
                let corrected_den: u128 = (MEAN_SCALE as u128) * (wm1 * wm1);
                proof {
                    let cs = traced_contours(
                        img.width as int, img.height as int, img.data@, 1);
                    assert(cs =~= contours_view(raw_contours@));
                    assert forall|i: int, j: int|
                        0 <= i < cs.len() && 0 <= j < cs[i].0.len()
                        implies contains_closed(points_view(hull@), #[trigger] cs[i].0[j]) by {
                        assert(cs[i] == raw_contours@[i]@);
                        assert(cs[i].0[j] == raw_contours@[i].points@[j]@);
                        assert(contains_closed(
                            points_view(hull@), raw_contours@[i].points@[j]@));
                    }
                    assert(hull_contains_all(cs, points_view(hull@)));
                }
                Some(RadialAdjusted { hull, buckets, corrected_num, corrected_den })
            } else {
                None
            };
            Ok(ExclusionAnalysis {
                edges,
                edge_magnitudes: magnitudes,
                filtered_edges: filtered,
                exclusion_zone: zone,
                excluded_count: count,
                total_pixels: total,
                adjusted,
            })
        }
    }
}

/// The least squared distance to an on pixel is unique.
pub proof fn lemma_min_sq_dist_unique(mask: GrayImg, x: int, y: int, v: int, w: int)
    requires
        is_min_sq_dist(mask, x, y, v),
        is_min_sq_dist(mask, x, y, w),
    ensures
        v == w,
{
    let (vx, vy) = choose|x0: int, y0: int|
        0 <= x0 < mask.width && 0 <= y0 < mask.height && #[trigger] mask.on(x0, y0)
            && v == sq_dist((x, y), (x0, y0));
    let (wx, wy) = choose|x0: int, y0: int|
        0 <= x0 < mask.width && 0 <= y0 < mask.height && #[trigger] mask.on(x0, y0)
            && w == sq_dist((x, y), (x0, y0));
    assert(v <= sq_dist((x, y), (wx, wy)));
    assert(w <= sq_dist((x, y), (vx, vy)));
}

/// For a mask with a single on pixel at `(x0, y0)`, the distance field at
/// `(x, y)` is exactly `(x - x0)^2 + (y - y0)^2`.
pub proof fn lemma_distance_field_single_point(
    mask: GrayImg,
    x0: int,
    y0: int,
    x: int,
    y: int,
    v: int,
)
    requires
        0 <= x0 < mask.width,
        0 <= y0 < mask.height,
        mask.on(x0, y0),
        forall|a: int, b: int|
            0 <= a < mask.width && 0 <= b < mask.height && #[trigger] mask.on(a, b)
                ==> a == x0 && b == y0,
        is_min_sq_dist(mask, x, y, v),
    ensures
        v == sq_dist((x, y), (x0, y0)),
{
    let (vx, vy) = choose|a: int, b: int|
        0 <= a < mask.width && 0 <= b < mask.height && #[trigger] mask.on(a, b)
            && v == sq_dist((x, y), (a, b));
    assert(vx == x0 && vy == y0);
}

} // verus!
