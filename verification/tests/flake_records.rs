use graphene_metrics::frac::UFrac;
use graphene_metrics::geom::Pt;
use graphene_metrics::img::GrayImg;
use graphene_metrics::config::GrapheneAngles;
use graphene_metrics::flakes::{flake_from_contour, graphene_angles, FlakeRecord};

fn cfg(min_size: UFrac, min_ratio: UFrac) -> GrapheneAngles {
    GrapheneAngles {
        enabled: true,
        blur: UFrac::new(1, 1),
        threshold: 150,
        min_graphene_size: min_size,
        min_graphene_ratio: min_ratio,
    }
}

fn pt(x: u32, y: u32) -> Pt {
    Pt { x, y }
}

/// An eleven-point closed path whose sampled points (every fifth) are
/// exactly `s0`, `s1`, `s2`; the intermediate points stay near the path
/// and are never sampled.
fn contour_with_samples(s0: Pt, s1: Pt, s2: Pt) -> Vec<Pt> {
    let mid = |a: Pt, b: Pt, k: u32| -> Pt {
        Pt { x: (a.x * (5 - k) + b.x * k) / 5, y: (a.y * (5 - k) + b.y * k) / 5 }
    };
    vec![
        s0,
        mid(s0, s1, 1),
        mid(s0, s1, 2),
        mid(s0, s1, 3),
        mid(s0, s1, 4),
        s1,
        mid(s1, s2, 1),
        mid(s1, s2, 2),
        mid(s1, s2, 3),
        mid(s1, s2, 4),
        s2,
    ]
}

#[test]
fn elongated_contour_yields_record() {
    // Long axis (0,0)-(40,0), maximum perpendicular deviation 5:
    // elongation 8, length 40 pixels.
    let points = contour_with_samples(pt(0, 0), pt(40, 0), pt(20, 5));
    let r = flake_from_contour(&points, &cfg(UFrac::new(1, 2), UFrac::new(3, 1)),
        &UFrac::new(1, 1));
    let f = r.expect("the elongated contour is a flake");
    assert_eq!(f.len2, 1600);
    assert_eq!((f.center_x2, f.center_y2), (40, 0));
    assert_eq!((f.axis_x, f.axis_y), (40, 0));
}

#[test]
fn orientation_is_stable_under_reversal() {
    // The same axis samples in either order give the same record: the
    // canonical direction identifies directions a half turn apart.
    let a = contour_with_samples(pt(0, 0), pt(40, 0), pt(20, 5));
    let mut b = a.clone();
    b.reverse();
    let config = cfg(UFrac::new(1, 2), UFrac::new(3, 1));
    let scale = UFrac::new(1, 1);
    let fa = flake_from_contour(&a, &config, &scale).unwrap();
    let fb = flake_from_contour(&b, &config, &scale).unwrap();
    assert_eq!(fa, fb);
    // A diagonal axis: direction (10, -14) canonicalizes to (-10, 14)
    // whichever endpoint comes first.
    let c = contour_with_samples(pt(5, 20), pt(15, 6), pt(12, 15));
    let mut d = c.clone();
    d.reverse();
    let fc = flake_from_contour(&c, &config, &scale).unwrap();
    let fd = flake_from_contour(&d, &config, &scale).unwrap();
    assert_eq!(fc, fd);
    assert_eq!((fc.axis_x, fc.axis_y), (-10, 14));
}

#[test]
fn elongation_filter_keeps_only_the_elongated_contour() {
    // Two contours: axis length 40 with elongation 8, and axis length 6
    // with elongation exactly 1.5; minimum ratio 3 keeps only the first.
    let config = cfg(UFrac::new(1, 2), UFrac::new(3, 1));
    let scale = UFrac::new(1, 1);
    let long = contour_with_samples(pt(0, 0), pt(40, 0), pt(20, 5));
    let round = contour_with_samples(pt(0, 10), pt(6, 10), pt(3, 14));
    let fl = flake_from_contour(&long, &config, &scale);
    let fr = flake_from_contour(&round, &config, &scale);
    assert!(fl.is_some());
    assert!(fr.is_none());
}

#[test]
fn size_filter_rejects_short_axes() {
    // A 40-pixel axis at a scale of 1/100 units per pixel is 0.4 units:
    // below a minimum size of 0.5 it is rejected, at 2/5 it is kept.
    let points = contour_with_samples(pt(0, 0), pt(40, 0), pt(20, 5));
    let scale = UFrac::new(1, 100);
    let rejected = flake_from_contour(
        &points, &cfg(UFrac::new(1, 2), UFrac::new(3, 1)), &scale);
    assert!(rejected.is_none());
    let kept = flake_from_contour(
        &points, &cfg(UFrac::new(2, 5), UFrac::new(3, 1)), &scale);
    assert!(kept.is_some());
}

#[test]
fn degenerate_straight_contour_is_rejected() {
    // All samples collinear: no perpendicular deviation at all. The
    // elongation guard rejects it instead of dividing by zero.
    let points = contour_with_samples(pt(0, 0), pt(40, 0), pt(20, 0));
    let r = flake_from_contour(&points, &cfg(UFrac::new(1, 2), UFrac::new(1, 1)),
        &UFrac::new(1, 1));
    assert!(r.is_none());
}

#[test]
fn graphene_angles_finds_bright_elongated_flake() {
    // A bright 24x3 bar on a dark background: thresholding and tracing
    // find its outer contour; the analyzer reports one flake lying along
    // the x axis.
    let width: u32 = 40;
    let height: u32 = 20;
    let mut data = vec![0u8; (width * height) as usize];
    for y in 8..11u32 {
        for x in 5..29u32 {
            data[(y * width + x) as usize] = 220;
        }
    }
    let img = GrayImg { width, height, data };
    let config = cfg(UFrac::new(1, 2), UFrac::new(3, 1));
    let records = graphene_angles(&img, &config, &UFrac::new(1, 1));
    assert_eq!(records.len(), 1);
    let f: FlakeRecord = records[0];
    // The long axis joins the bar's opposite corners: length^2 is at
    // least the bar length squared, and the axis is far from vertical.
    assert!(f.len2 >= 23 * 23);
    assert!(f.axis_x.abs() >= 20);
    assert!(f.axis_y.abs() <= 2);
}

#[test]
fn graphene_angles_skips_round_blobs() {
    // A bright square is too round for an elongation ratio of 3.
    let width: u32 = 30;
    let height: u32 = 30;
    let mut data = vec![0u8; (width * height) as usize];
    for y in 10..20u32 {
        for x in 10..20u32 {
            data[(y * width + x) as usize] = 220;
        }
    }
    let img = GrayImg { width, height, data };
    let config = cfg(UFrac::new(1, 2), UFrac::new(3, 1));
    let records = graphene_angles(&img, &config, &UFrac::new(1, 1));
    assert!(records.is_empty());
}
