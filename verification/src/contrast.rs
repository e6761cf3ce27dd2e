//! Directional contrast detection.
//!
//! For every pixel, the absolute intensity differences of the four opposing
//! neighbor pairs in the 3x3 neighborhood are averaged (each pair counted
//! from both sides, eight terms in all) into a magnitude in 0..=255, which
//! is then thresholded into a binary edge mask. Favoring contrast in single
//! directions picks out graphene edges better than a combined kernel.

use vstd::prelude::*;
use crate::frac::UFrac;
use crate::img::GrayImg;
use crate::img::lemma_row_major_index;
use crate::img::lemma_row_major_distinct;

verus! {

/// Clamp `v` into `0 ..= hi`.
pub open spec fn clamp_coord(v: int, hi: int) -> int {
    if v < 0 { 0 } else if v > hi { hi } else { v }
}

/// The sample at `(x + dx, y + dy)`, with coordinates clamped to the edge
/// of the image (no wraparound).
pub open spec fn clamped_pix(img: GrayImg, x: int, y: int, dx: int, dy: int) -> u8 {
    img.pix(
        clamp_coord(x + dx, img.width - 1),
        clamp_coord(y + dy, img.height - 1),
    )
}

/// Absolute difference of the two samples opposite each other across
/// `(x, y)` in direction `(dx, dy)`.
pub open spec fn opposed_diff(img: GrayImg, x: int, y: int, dx: int, dy: int) -> int {
    let a = clamped_pix(img, x, y, dx, dy) as int;
    let b = clamped_pix(img, x, y, -dx, -dy) as int;
    if a >= b { a - b } else { b - a }
}

/// Sum of the eight directional absolute differences around `(x, y)`.
pub open spec fn contrast_sum(img: GrayImg, x: int, y: int) -> int {
    opposed_diff(img, x, y, -1, -1)
        + opposed_diff(img, x, y, -1, 0)
        + opposed_diff(img, x, y, -1, 1)
        + opposed_diff(img, x, y, 0, -1)
        + opposed_diff(img, x, y, 0, 1)
        + opposed_diff(img, x, y, 1, -1)
        + opposed_diff(img, x, y, 1, 0)
        + opposed_diff(img, x, y, 1, 1)
}

/// The contrast magnitude: the eight-term sum averaged and rounded to the
/// nearest integer (halves up), always in 0..=255.
pub open spec fn contrast_magnitude(img: GrayImg, x: int, y: int) -> int {
    (contrast_sum(img, x, y) + 4) / 8
}

/// Whether the average contrast strictly exceeds the rational threshold
/// `t`: `t < sum / 8`, compared exactly by cross multiplication.
pub open spec fn exceeds_threshold(img: GrayImg, x: int, y: int, t: UFrac) -> bool {
    8 * t.num < contrast_sum(img, x, y) * t.den
}

/// Read the sample at `(x, y)` offset by `(dx, dy)`, clamping to the image
/// border.
fn clamped_get(img: &GrayImg, x: u32, y: u32, dx: i32, dy: i32) -> (r: u8)
    requires
        img.wf(),
        img.width > 0,
        img.height > 0,
        x < img.width,
        y < img.height,
        -1 <= dx <= 1,
        -1 <= dy <= 1,
    ensures
        r == clamped_pix(*img, x as int, y as int, dx as int, dy as int),
{
    let xi = x as i64 + dx as i64;
    let yi = y as i64 + dy as i64;
    let cx: u32 = if xi < 0 {
        0
    } else if xi > img.width as i64 - 1 {
        img.width - 1
    } else {
        xi as u32
    };
    let cy: u32 = if yi < 0 {
        0
    } else if yi > img.height as i64 - 1 {
        img.height - 1
    } else {
        yi as u32
    };
    img.get(cx, cy)
}

/// One opposing-pair absolute difference, at most 255.
fn opposed_diff_exec(img: &GrayImg, x: u32, y: u32, dx: i32, dy: i32) -> (r: u16)
    requires
        img.wf(),
        img.width > 0,
        img.height > 0,
        x < img.width,
        y < img.height,
        -1 <= dx <= 1,
        -1 <= dy <= 1,
    ensures
        r == opposed_diff(*img, x as int, y as int, dx as int, dy as int),
        r <= 255,
{
    let a = clamped_get(img, x, y, dx, dy);
    let b = clamped_get(img, x, y, -dx, -dy);
    if a >= b { (a - b) as u16 } else { (b - a) as u16 }
}

/// The eight-term directional contrast sum at `(x, y)`, at most 2040.
fn contrast_sum_exec(img: &GrayImg, x: u32, y: u32) -> (r: u16)
    requires
        img.wf(),
        img.width > 0,
        img.height > 0,
        x < img.width,
        y < img.height,
    ensures
        r == contrast_sum(*img, x as int, y as int),
        r <= 2040,
{
    let mut sum: u16 = opposed_diff_exec(img, x, y, -1, -1);
    sum = sum + opposed_diff_exec(img, x, y, -1, 0);
    sum = sum + opposed_diff_exec(img, x, y, -1, 1);
    sum = sum + opposed_diff_exec(img, x, y, 0, -1);
    sum = sum + opposed_diff_exec(img, x, y, 0, 1);
    sum = sum + opposed_diff_exec(img, x, y, 1, -1);
    sum = sum + opposed_diff_exec(img, x, y, 1, 0);
    sum = sum + opposed_diff_exec(img, x, y, 1, 1);
    sum
}

/// Detect directional contrast and threshold it in one pass.
///
/// Returns `(edges, magnitudes)`: a binary mask that is 255 exactly where
/// the averaged directional contrast strictly exceeds `threshold`, and the
/// rounded magnitude image for diagnostics.
pub fn absolute_contrast_threshold(img: &GrayImg, threshold: &UFrac) -> (r: (GrayImg, GrayImg))
    requires
        img.wf(),
        threshold.wf(),
    ensures
        r.0.wf() && r.1.wf(),
        r.0.width == img.width && r.0.height == img.height,
        r.1.width == img.width && r.1.height == img.height,
        r.0.is_binary(),
        forall|x: int, y: int|
            0 <= x < img.width && 0 <= y < img.height ==> r.0.pix(x, y) == (
                if exceeds_threshold(*img, x, y, *threshold) { 255u8 } else { 0u8 }),
        forall|x: int, y: int|
            0 <= x < img.width && 0 <= y < img.height ==> r.1.pix(x, y)
                == contrast_magnitude(*img, x, y),
{
    let mut edges = GrayImg::blank(img.width, img.height);
    let mut magn = GrayImg::blank(img.width, img.height);
    let mut y: u32 = 0;
    while y < img.height
        invariant
            img.wf(),
            threshold.wf(),
            edges.wf() && magn.wf(),
            edges.width == img.width && edges.height == img.height,
            magn.width == img.width && magn.height == img.height,
            y <= img.height,
            forall|i: int| 0 <= i < edges.data@.len()
                ==> edges.data@[i] == 0 || edges.data@[i] == 255,
            forall|xx: int, yy: int|
                0 <= xx < img.width && 0 <= yy < y ==> edges.pix(xx, yy) == (
                    if exceeds_threshold(*img, xx, yy, *threshold) { 255u8 } else { 0u8 }),
            forall|xx: int, yy: int|
                0 <= xx < img.width && 0 <= yy < y ==> magn.pix(xx, yy)
                    == contrast_magnitude(*img, xx, yy),
        decreases img.height - y,
    {
        let mut x: u32 = 0;
        while x < img.width
            invariant
                img.wf(),
                threshold.wf(),
                edges.wf() && magn.wf(),
                edges.width == img.width && edges.height == img.height,
                magn.width == img.width && magn.height == img.height,
                y < img.height,
                x <= img.width,
                forall|i: int| 0 <= i < edges.data@.len()
                    ==> edges.data@[i] == 0 || edges.data@[i] == 255,
                forall|xx: int, yy: int|
                    0 <= xx < img.width && 0 <= yy < y ==> edges.pix(xx, yy) == (
                        if exceeds_threshold(*img, xx, yy, *threshold) { 255u8 } else { 0u8 }),
                forall|xx: int, yy: int|
                    0 <= xx < img.width && 0 <= yy < y ==> magn.pix(xx, yy)
                        == contrast_magnitude(*img, xx, yy),
                forall|xx: int|
                    0 <= xx < x ==> edges.pix(xx, y as int) == (
                        if exceeds_threshold(*img, xx, y as int, *threshold) { 255u8 } else { 0u8 }),
                forall|xx: int|
                    0 <= xx < x ==> magn.pix(xx, y as int)
                        == contrast_magnitude(*img, xx, y as int),
            decreases img.width - x,
        {
            let sum = contrast_sum_exec(img, x, y);
            proof {
                assert(sum * threshold.den <= 2040 * 0x100000) by (nonlinear_arith)
                    requires 0 <= sum <= 2040, 0 <= threshold.den <= 0x100000;
            }
            let exceeded = 8u64 * (threshold.num as u64) < (sum as u64) * (threshold.den as u64);
            let ghost prev_e = edges;
            let ghost prev_m = magn;
            edges.set(x, y, if exceeded { 255 } else { 0 });
            magn.set(x, y, ((sum + 4) / 8) as u8);
            proof {
                lemma_row_major_index(
                    img.width as int, img.height as int, x as int, y as int);
                assert forall|xx: int, yy: int|
                    0 <= xx < img.width && 0 <= yy < img.height && !(xx == x && yy == y)
                    implies edges.pix(xx, yy) == prev_e.pix(xx, yy)
                        && magn.pix(xx, yy) == prev_m.pix(xx, yy) by {
                    lemma_row_major_index(img.width as int, img.height as int, xx, yy);
                    lemma_row_major_distinct(img.width as int, xx, yy, x as int, y as int);
                }
            }
            x = x + 1;
        }
        y = y + 1;
    }
    (edges, magn)
}

} // verus!
