//! Grayscale images and binary masks as flat row-major grids.

use vstd::prelude::*;

verus! {

/// Upper bound (exclusive) on image width and height. The hull routine of
/// the imaging crate computes cross products in 32-bit integers, which stay
/// exact only while every coordinate is below 2^15.
pub const DIM_LIMIT: u32 = 32768;

/// A single-channel image: `width * height` samples in row-major order with
/// the origin at the top left. A binary mask is an image whose samples are
/// only 0 or 255.
#[derive(Clone, Debug)]
pub struct GrayImg {
    pub width: u32,
    pub height: u32,
    pub data: Vec<u8>,
}

impl GrayImg {
    /// Well-formedness: the buffer matches the dimensions and both
    /// dimensions are small enough for exact 32-bit geometry.
    pub open spec fn wf(self) -> bool {
        &&& self.data@.len() == self.width * self.height
        &&& self.width < DIM_LIMIT
        &&& self.height < DIM_LIMIT
    }

    /// The sample at column `x`, row `y`.
    pub open spec fn pix(self, x: int, y: int) -> u8 {
        self.data@[y * self.width + x]
    }

    /// Every sample is 0 or 255.
    pub open spec fn is_binary(self) -> bool {
        forall|i: int|
            0 <= i < self.data@.len() ==> self.data@[i] == 0 || self.data@[i] == 255
    }

    /// Whether the mask is "on" (non-zero) at `(x, y)`.
    pub open spec fn on(self, x: int, y: int) -> bool {
        self.pix(x, y) != 0
    }

    /// Whether the mask has any non-zero sample.
    pub open spec fn has_on_pixel(self) -> bool {
        exists|x: int, y: int|
            0 <= x < self.width && 0 <= y < self.height && self.on(x, y)
    }

    /// An all-zero image of the given dimensions.
    pub fn blank(width: u32, height: u32) -> (r: GrayImg)
        requires
            width < DIM_LIMIT,
            height < DIM_LIMIT,
        ensures
            r.wf(),
            r.width == width,
            r.height == height,
            r.data@ == Seq::new((width * height) as nat, |i: int| 0u8),
    {
        proof {
            assert(width * height < 0x40000000) by (nonlinear_arith)
                requires width < 32768, height < 32768;
        }
        let n = (width as usize) * (height as usize);
        let mut data: Vec<u8> = Vec::new();
        let mut i: usize = 0;
        while i < n
            invariant
                i <= n,
                data@ =~= Seq::new(i as nat, |j: int| 0u8),
            decreases n - i,
        {
            data.push(0);
            i = i + 1;
        }
        proof {
            assert(data@ =~= Seq::new((width * height) as nat, |i: int| 0u8));
        }
        GrayImg { width, height, data }
    }

    /// Read the sample at `(x, y)`.
    pub fn get(&self, x: u32, y: u32) -> (r: u8)
        requires
            self.wf(),
            x < self.width,
            y < self.height,
        ensures
            r == self.pix(x as int, y as int),
    {
        proof {
            lemma_row_major_index(self.width as int, self.height as int, x as int, y as int);
        }
        self.data[(y as usize) * (self.width as usize) + (x as usize)]
    }

    /// Write the sample at `(x, y)`.
    pub fn set(&mut self, x: u32, y: u32, v: u8)
        requires
            old(self).wf(),
            x < old(self).width,
            y < old(self).height,
        ensures
            final(self).wf(),
            final(self).width == old(self).width,
            final(self).height == old(self).height,
            final(self).data@ == old(self).data@.update(y * old(self).width + x, v),
    {
        proof {
            lemma_row_major_index(self.width as int, self.height as int, x as int, y as int);
        }
        let idx = (y as usize) * (self.width as usize) + (x as usize);
        self.data.set(idx, v);
    }
}

/// A row-major index of an in-bounds pixel is within the buffer, and small
/// enough that the index arithmetic cannot overflow a `usize`.
pub proof fn lemma_row_major_index(w: int, h: int, x: int, y: int)
    requires
        0 <= x < w,
        0 <= y < h,
        w < DIM_LIMIT,
        h < DIM_LIMIT,
    ensures
        0 <= y * w + x < w * h,
        y * w + x < 0x40000000,
{
    assert(y * w + x < w * h && y * w + x < 0x40000000) by (nonlinear_arith)
        requires 0 <= x < w, 0 <= y < h, w < 32768, h < 32768;
}

/// The pixel grid after thresholding: samples strictly above `t` become
/// 255, everything else 0.
pub open spec fn thresholded_data(img: GrayImg, t: u8) -> Seq<u8> {
    Seq::new(img.data@.len(), |i: int| if img.data@[i] > t { 255u8 } else { 0u8 })
}

/// Threshold an image into a binary mask: samples strictly above `t` become
/// 255, everything else 0.
pub fn threshold_mask(img: &GrayImg, t: u8) -> (r: GrayImg)
    requires
        img.wf(),
    ensures
        r.wf(),
        r.width == img.width,
        r.height == img.height,
        r.is_binary(),
        r.data@ == thresholded_data(*img, t),
        forall|x: int, y: int|
            0 <= x < img.width && 0 <= y < img.height ==> r.pix(x, y) == (
                if img.pix(x, y) > t { 255u8 } else { 0u8 }),
{
    let mut out = GrayImg::blank(img.width, img.height);
    let mut y: u32 = 0;
    while y < img.height
        invariant
            img.wf(),
            out.wf(),
            out.width == img.width,
            out.height == img.height,
            y <= img.height,
            forall|i: int| 0 <= i < out.data@.len() ==> out.data@[i] == 0 || out.data@[i] == 255,
            forall|xx: int, yy: int|
                0 <= xx < img.width && 0 <= yy < y ==> out.pix(xx, yy) == (
                    if img.pix(xx, yy) > t { 255u8 } else { 0u8 }),
        decreases img.height - y,
    {
        let mut x: u32 = 0;
        while x < img.width
            invariant
                img.wf(),
                out.wf(),
                out.width == img.width,
                out.height == img.height,
                y < img.height,
                x <= img.width,
                forall|i: int| 0 <= i < out.data@.len() ==> out.data@[i] == 0 || out.data@[i] == 255,
                forall|xx: int, yy: int|
                    0 <= xx < img.width && 0 <= yy < y ==> out.pix(xx, yy) == (
                        if img.pix(xx, yy) > t { 255u8 } else { 0u8 }),
                forall|xx: int|
                    0 <= xx < x ==> out.pix(xx, y as int) == (
                        if img.pix(xx, y as int) > t { 255u8 } else { 0u8 }),
            decreases img.width - x,
        {
            let v = img.get(x, y);
            let ghost prev = out;
            if v > t {
                out.set(x, y, 255);
            } else {
                out.set(x, y, 0);
            }
            proof {
                lemma_row_major_index(
                    img.width as int, img.height as int, x as int, y as int);
                assert forall|xx: int, yy: int|
                    0 <= xx < img.width && 0 <= yy < img.height && !(xx == x && yy == y)
                    implies out.pix(xx, yy) == prev.pix(xx, yy) by {
                    lemma_row_major_index(
                        img.width as int, img.height as int, xx, yy);
                    lemma_row_major_distinct(img.width as int, xx, yy, x as int, y as int);
                }
            }
            x = x + 1;
        }
        y = y + 1;
    }
    proof {
        assert forall|i: int| 0 <= i < out.data@.len()
            implies out.data@[i] == (if img.data@[i] > t { 255u8 } else { 0u8 }) by {
            assert(img.width > 0 && img.height > 0) by (nonlinear_arith)
                requires 0 <= i < img.width * img.height, img.width >= 0, img.height >= 0;
            vstd::arithmetic::div_mod::lemma_fundamental_div_mod(i, img.width as int);
            let xx = i % (img.width as int);
            let yy = i / (img.width as int);
            assert(0 <= yy < img.height) by (nonlinear_arith)
                requires
                    i == (img.width as int) * yy + xx,
                    0 <= xx < img.width,
                    0 <= i < img.width * img.height,
                    img.width > 0,
                    img.height > 0;
            assert(out.pix(xx, yy) == (if img.pix(xx, yy) > t { 255u8 } else { 0u8 }));
            assert(yy * img.width + xx == i);
        }
        assert(out.data@ =~= thresholded_data(*img, t));
    }
    out
}

/// Distinct in-bounds pixels have distinct row-major indices.
pub proof fn lemma_row_major_distinct(w: int, x1: int, y1: int, x2: int, y2: int)
    requires
        0 <= x1 < w,
        0 <= x2 < w,
        0 <= y1,
        0 <= y2,
        !(x1 == x2 && y1 == y2),
    ensures
        y1 * w + x1 != y2 * w + x2,
{
    if y1 == y2 {
    } else if y1 < y2 {
        assert((y1 + 1) * w <= y2 * w) by (nonlinear_arith)
            requires y1 + 1 <= y2, w > 0;
        assert(y1 * w + w == (y1 + 1) * w) by (nonlinear_arith);
    } else {
        assert((y2 + 1) * w <= y1 * w) by (nonlinear_arith)
            requires y2 + 1 <= y1, w > 0;
        assert(y2 * w + w == (y2 + 1) * w) by (nonlinear_arith);
    }
}

/// Count the samples equal to 255.
pub open spec fn count_on_upto(data: Seq<u8>, k: int) -> int
    decreases k,
{
    if k <= 0 {
        0
    } else {
        count_on_upto(data, k - 1) + if data[k - 1] == 255 { 1int } else { 0int }
    }
}

/// The number of 255 samples never exceeds the number inspected.
pub proof fn lemma_count_on_bound(data: Seq<u8>, k: int)
    requires
        0 <= k <= data.len(),
    ensures
        0 <= count_on_upto(data, k) <= k,
    decreases k,
{
    if k > 0 {
        lemma_count_on_bound(data, k - 1);
    }
}

/// Count the 255 samples of a mask.
pub fn count_on(img: &GrayImg) -> (r: u64)
    requires
        img.wf(),
    ensures
        r == count_on_upto(img.data@, img.data@.len() as int),
        r <= img.data@.len(),
{
    let n = img.data.len();
    let mut count: u64 = 0;
    let mut i: usize = 0;
    while i < n
        invariant
            img.wf(),
            n == img.data@.len(),
            i <= n,
            count == count_on_upto(img.data@, i as int),
            count <= i,
        decreases n - i,
    {
        proof {
            lemma_count_on_bound(img.data@, i + 1);
        }
        if img.data[i] == 255 {
            count = count + 1;
        }
        i = i + 1;
    }
    count
}

} // verus!
