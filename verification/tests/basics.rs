use graphene_metrics::frac::UFrac;
use graphene_metrics::geom::{isqrt, rounded_sqrt, Pt, sq_dist_exec};
use graphene_metrics::img::{GrayImg, threshold_mask, count_on};
use graphene_metrics::config::{Configuration, Error, PreProcessing};
use graphene_metrics::preprocess::pre_processing;
use graphene_metrics::contrast::absolute_contrast_threshold;

fn gray(width: u32, height: u32, data: Vec<u8>) -> GrayImg {
    assert_eq!(data.len(), (width * height) as usize);
    GrayImg { width, height, data }
}

#[test]
fn frac_comparison_is_exact() {
    let half = UFrac::new(1, 2);
    let two_thirds = UFrac::new(2, 3);
    assert!(half.lt(&two_thirds));
    assert!(!two_thirds.lt(&half));
    assert!(!half.lt(&half));
    // 999/1000 < 1/1, but 1000/1000 is not
    assert!(UFrac::new(999, 1000).lt(&UFrac::new(1, 1)));
    assert!(!UFrac::new(1000, 1000).lt(&UFrac::new(1, 1)));
}

#[test]
fn integer_square_roots() {
    assert_eq!(isqrt(0), 0);
    assert_eq!(isqrt(1), 1);
    assert_eq!(isqrt(24), 4);
    assert_eq!(isqrt(25), 5);
    assert_eq!(isqrt(2147483647), 46340);
}

#[test]
fn rounded_square_roots() {
    assert_eq!(rounded_sqrt(0), 0);
    assert_eq!(rounded_sqrt(1), 1);
    assert_eq!(rounded_sqrt(2), 1); // sqrt(2) = 1.41
    assert_eq!(rounded_sqrt(3), 2); // sqrt(3) = 1.73
    assert_eq!(rounded_sqrt(20), 4); // sqrt(20) = 4.47
    assert_eq!(rounded_sqrt(24), 5); // sqrt(24) = 4.90
    assert_eq!(rounded_sqrt(25), 5);
}

#[test]
fn squared_distance() {
    let a = Pt { x: 3, y: 4 };
    let b = Pt { x: 0, y: 0 };
    assert_eq!(sq_dist_exec(a, b), 25);
    assert_eq!(sq_dist_exec(a, a), 0);
}

#[test]
fn threshold_mask_is_binary_and_strict() {
    let img = gray(2, 2, vec![0, 150, 151, 255]);
    let mask = threshold_mask(&img, 150);
    assert_eq!(mask.data, vec![0, 0, 255, 255]);
    assert_eq!(count_on(&mask), 2);
}

#[test]
fn default_configuration_values() {
    let c = Configuration::default();
    assert!(!c.text_recognition.override_scale);
    assert_eq!(c.text_recognition.scale_bar_height, 0);
    assert_eq!(c.text_recognition.override_scale_micrometers, UFrac { num: 0, den: 1 });
    assert_eq!(c.text_recognition.override_scale_pixels, 0);
    assert!(c.bacteria_exclusion.enabled);
    assert_eq!(c.bacteria_exclusion.contrast_threshold, UFrac { num: 45, den: 1 });
    assert_eq!(c.bacteria_exclusion.minimum_edge_area, 5);
    assert_eq!(c.bacteria_exclusion.exclusion_radius, UFrac { num: 9, den: 10 });
    assert!(!c.bacteria_exclusion.radius_adjusted);
    assert!(!c.graphene_angles.enabled);
    assert_eq!(c.graphene_angles.blur, UFrac { num: 1, den: 1 });
    assert_eq!(c.graphene_angles.threshold, 150);
    assert_eq!(c.graphene_angles.min_graphene_size, UFrac { num: 1, den: 2 });
    assert_eq!(c.graphene_angles.min_graphene_ratio, UFrac { num: 3, den: 1 });
    assert!(!c.pre_processing.equalize_histogram);
}

#[test]
fn error_messages_are_fixed_texts() {
    assert_eq!(
        Error::ToSmallExclusionDiameter.message(),
        "The bacteria exclusion diameter is smaller than 1 pixel which effectively makes it non-existent"
    );
    assert_eq!(
        Error::ExtremeLineIsNonHorizontal.message(),
        "The two lines creating the scale are not on the same y level"
    );
    assert_eq!(
        Error::LessThenTwoApplicableLinesFound.message(),
        "Less then two lines that meet the requirements were found when trying to detect scale"
    );
    let e = Error::FailedToDetectText(String::from("12um"));
    assert_eq!(e.message(), "Couldn't detect the scale using OCR");
    assert_eq!(e.detected_text(), Some(&String::from("12um")));
    assert_eq!(Error::ToSmallExclusionDiameter.detected_text(), None);
}

#[test]
fn error_messages_are_distinct() {
    let errs = [
        Error::FailedToDetectText(String::from("12um")),
        Error::ToSmallExclusionDiameter,
        Error::ExtremeLineIsNonHorizontal,
        Error::LessThenTwoApplicableLinesFound,
    ];
    for e in &errs {
        assert!(!e.message().is_empty());
    }
    assert_ne!(errs[1].message(), errs[2].message());
    assert_ne!(errs[2].message(), errs[3].message());
}

#[test]
fn pre_processing_identity_when_disabled() {
    let img = gray(2, 2, vec![10, 200, 10, 200]);
    let out = pre_processing(img.clone(), PreProcessing { equalize_histogram: false });
    assert_eq!(out.data, img.data);
}

#[test]
fn pre_processing_equalizes_when_enabled() {
    // Half dark, half bright: equalization must remap the dark level.
    let img = gray(4, 4, vec![
        10, 10, 10, 10,
        10, 10, 10, 10,
        200, 200, 200, 200,
        200, 200, 200, 200,
    ]);
    let out = pre_processing(img.clone(), PreProcessing { equalize_histogram: true });
    assert_eq!(out.width, 4);
    assert_eq!(out.height, 4);
    assert_ne!(out.data, img.data);
}

#[test]
fn contrast_detector_exact_values() {
    // Two pixels 0 and 80: six of the eight clamped neighbor pairs differ
    // by 80, so the magnitude is round(480 / 8) = 60 at both pixels.
    let img = gray(2, 1, vec![0, 80]);
    let (edges, magn) = absolute_contrast_threshold(&img, &UFrac::new(59, 1));
    assert_eq!(magn.data, vec![60, 60]);
    assert_eq!(edges.data, vec![255, 255]);
    let (edges2, _) = absolute_contrast_threshold(&img, &UFrac::new(60, 1));
    assert_eq!(edges2.data, vec![0, 0]);
    // The threshold is rational and compared exactly: 59.5 < 60.
    let (edges3, _) = absolute_contrast_threshold(&img, &UFrac::new(119, 2));
    assert_eq!(edges3.data, vec![255, 255]);
}

#[test]
fn contrast_detector_flat_image_is_silent() {
    let img = gray(3, 3, vec![7; 9]);
    let (edges, magn) = absolute_contrast_threshold(&img, &UFrac::new(0, 1));
    assert_eq!(edges.data, vec![0; 9]);
    assert_eq!(magn.data, vec![0; 9]);
}
