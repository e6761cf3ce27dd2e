use graphene_metrics::geom::Pt;
use graphene_metrics::img::GrayImg;
use graphene_metrics::contours::Contour;
use graphene_metrics::hull::{hull_of_contour_points, point_strictly_inside};
use graphene_metrics::radial::{radial_buckets, corrected_weighted_sum, RadialBucket};

fn blank(width: u32, height: u32) -> GrayImg {
    GrayImg { width, height, data: vec![0; (width * height) as usize] }
}

fn set(img: &mut GrayImg, x: u32, y: u32, v: u8) {
    let w = img.width as usize;
    img.data[(y as usize) * w + (x as usize)] = v;
}

/// The edge-crossing side test the library uses, recomputed here by hand.
fn edge_side(a: Pt, b: Pt, qx: i64, qy: i64) -> i64 {
    (a.x as i64 - b.x as i64) * (qy - b.y as i64)
        - (qx - b.x as i64) * (a.y as i64 - b.y as i64)
}

#[test]
fn hull_contains_every_contour_point() {
    let mut mask = blank(40, 40);
    // Two separate blobs.
    for y in 5..12 {
        for x in 4..9 {
            set(&mut mask, x, y, 255);
        }
    }
    for y in 25..33 {
        for x in 20..36 {
            set(&mut mask, x, y, 255);
        }
    }
    // Trace the contours independently with the imaging crate and hand
    // them to the library.
    let buf = image::GrayImage::from_raw(mask.width, mask.height, mask.data.clone()).unwrap();
    let contours: Vec<Contour> = imageproc::contours::find_contours::<u32>(&buf)
        .into_iter()
        .map(|c| Contour {
            points: c.points.into_iter().map(|p| Pt { x: p.x, y: p.y }).collect(),
            is_hole: c.border_type == imageproc::contours::BorderType::Hole,
        })
        .collect();
    assert!(contours.len() >= 2);
    let hull = hull_of_contour_points(&contours);
    assert!(hull.len() >= 3);
    // Every contour point lies on or inside the hull: no edge places it
    // strictly outside.
    let n = hull.len();
    for c in &contours {
        for p in &c.points {
            for i in 0..n {
                let a = hull[if i == 0 { n - 1 } else { i - 1 }];
                let b = hull[i];
                assert!(
                    edge_side(a, b, p.x as i64, p.y as i64) <= 0,
                    "point ({}, {}) outside hull edge {}",
                    p.x,
                    p.y,
                    i
                );
            }
        }
    }
}

#[test]
fn hull_of_thin_line_handles_revisited_points() {
    // The border trace of a one-pixel-wide line walks out and back, so the
    // same pixels occur twice in the contour; the hull is still computed
    // (the library deduplicates before hulling) and contains every point.
    let mut mask = blank(20, 20);
    for x in 3..15 {
        set(&mut mask, x, 9, 255);
    }
    let buf = image::GrayImage::from_raw(mask.width, mask.height, mask.data.clone()).unwrap();
    let contours: Vec<Contour> = imageproc::contours::find_contours::<u32>(&buf)
        .into_iter()
        .map(|c| Contour {
            points: c.points.into_iter().map(|p| Pt { x: p.x, y: p.y }).collect(),
            is_hole: c.border_type == imageproc::contours::BorderType::Hole,
        })
        .collect();
    assert!(contours.iter().any(|c| {
        let pts = &c.points;
        (0..pts.len()).any(|a| (a + 1..pts.len()).any(|b| pts[a] == pts[b]))
    }), "the thin line should produce a contour with revisited points");
    let hull = hull_of_contour_points(&contours);
    assert!(!hull.is_empty());
    let n = hull.len();
    for c in &contours {
        for p in &c.points {
            for i in 0..n {
                let a = hull[if i == 0 { n - 1 } else { i - 1 }];
                let b = hull[i];
                assert!(edge_side(a, b, p.x as i64, p.y as i64) <= 0);
            }
        }
    }
}

#[test]
fn point_in_hull_test_is_strict() {
    // A square hull in the orientation the tracer's hull produces:
    // interior points give strictly negative edge sides.
    let hull = vec![
        Pt { x: 0, y: 0 },
        Pt { x: 10, y: 0 },
        Pt { x: 10, y: 10 },
        Pt { x: 0, y: 10 },
    ];
    assert!(point_strictly_inside(&hull, 5, 5));
    assert!(point_strictly_inside(&hull, 1, 9));
    // Boundary points are conservatively rejected.
    assert!(!point_strictly_inside(&hull, 0, 5));
    assert!(!point_strictly_inside(&hull, 10, 10));
    assert!(!point_strictly_inside(&hull, 5, 0));
    // Points clearly outside are rejected.
    assert!(!point_strictly_inside(&hull, 11, 5));
    // An empty hull contains nothing.
    assert!(!point_strictly_inside(&Vec::new(), 5, 5));
}

#[test]
fn radial_buckets_of_tiny_zone() {
    // A 2x2 zone with only pixel (1, 1) strictly inside the hull; its
    // distance to the optical center (2, 1) is exactly 1.
    let mut zone = blank(2, 2);
    set(&mut zone, 1, 1, 255);
    let hull = vec![
        Pt { x: 0, y: 0 },
        Pt { x: 3, y: 0 },
        Pt { x: 3, y: 3 },
        Pt { x: 0, y: 3 },
    ];
    let buckets = radial_buckets(&zone, &hull);
    assert_eq!(buckets.len(), 2);
    assert_eq!(buckets[0], RadialBucket { white: 0, count: 0 });
    assert_eq!(buckets[1], RadialBucket { white: 1, count: 1 });
    // Bucket 0 has weight -1 and an empty mean; bucket 1 has weight +1
    // and mean 1, scaled by a million.
    assert_eq!(corrected_weighted_sum(&buckets), 1000000);
}

#[test]
fn weighted_sum_uses_annulus_weights() {
    // Means 1, 1, 1 over three buckets weigh in as -1 + 1 + 3 = 3.
    let buckets = vec![
        RadialBucket { white: 2, count: 2 },
        RadialBucket { white: 3, count: 3 },
        RadialBucket { white: 1, count: 1 },
    ];
    assert_eq!(corrected_weighted_sum(&buckets), 3000000);
    // A half-full bucket contributes its floor-scaled mean.
    let halves = vec![
        RadialBucket { white: 0, count: 4 },
        RadialBucket { white: 1, count: 3 },
    ];
    assert_eq!(corrected_weighted_sum(&halves), 333333);
}
