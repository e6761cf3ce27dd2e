//! Pre-processing applied to the grayscale image before analysis.

use vstd::prelude::*;
use crate::img::GrayImg;
use crate::config::PreProcessing;

verus! {

/// The pixel grid after histogram equalization. The outcome depends only
/// on the dimensions and pixel values.
pub uninterp spec fn equalized(width: int, height: int, pixels: Seq<u8>) -> Seq<u8>;

/// Equalize the histogram of a grayscale image.
///
/// Relies on imageproc's `equalize_histogram_mut`: it remaps each pixel
/// through the image's cumulative histogram, a per-pixel function of the
/// pixel grid alone, keeping the dimensions.
#[verifier::external_body]
fn equalize_histogram(img: &GrayImg) -> (r: GrayImg)
    requires
        img.wf(),
    ensures
        r.wf(),
        r.width == img.width,
        r.height == img.height,
        r.data@ == equalized(img.width as int, img.height as int, img.data@),
{
    let mut buf = image::GrayImage::from_raw(img.width, img.height, img.data.clone()).unwrap();
    imageproc::contrast::equalize_histogram_mut(&mut buf);
    GrayImg { width: img.width, height: img.height, data: buf.into_raw() }
}

/// Apply the configured pre-processing: histogram equalization when
/// enabled, otherwise the image is returned unchanged.
pub fn pre_processing(input_image: GrayImg, config: PreProcessing) -> (r: GrayImg)
    requires
        input_image.wf(),
    ensures
        r.wf(),
        r.width == input_image.width,
        r.height == input_image.height,
        config.equalize_histogram ==> r.data@ == equalized(
            input_image.width as int, input_image.height as int, input_image.data@),
        !config.equalize_histogram ==> r == input_image,
{
    if config.equalize_histogram {
        equalize_histogram(&input_image)
    } else {
        input_image
    }
}

} // verus!
