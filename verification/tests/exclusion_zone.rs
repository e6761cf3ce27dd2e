use graphene_metrics::frac::UFrac;
use graphene_metrics::img::{GrayImg, count_on};
use graphene_metrics::config::{BacteriaExclusion, Error};
use graphene_metrics::contours::filter_by_minimum_area;
use graphene_metrics::exclusion::{exclusion_zone_of_mask, bacteria_exclusion};

fn blank(width: u32, height: u32) -> GrayImg {
    GrayImg { width, height, data: vec![0; (width * height) as usize] }
}

fn set(img: &mut GrayImg, x: u32, y: u32, v: u8) {
    let w = img.width as usize;
    img.data[(y as usize) * w + (x as usize)] = v;
}

fn at(img: &GrayImg, x: u32, y: u32) -> u8 {
    img.data[(y as usize) * (img.width as usize) + (x as usize)]
}

/// Paint a filled axis-aligned rectangle of white pixels.
fn fill_rect(img: &mut GrayImg, x0: u32, y0: u32, x1: u32, y1: u32) {
    for y in y0..y1 {
        for x in x0..x1 {
            set(img, x, y, 255);
        }
    }
}

#[test]
fn radius_of_exactly_one_pixel_is_accepted() {
    let mut mask = blank(8, 8);
    set(&mut mask, 4, 4, 255);
    let r = exclusion_zone_of_mask(&mask, &UFrac::new(1, 1), &UFrac::new(1, 1));
    assert!(r.is_ok());
}

#[test]
fn radius_below_one_pixel_is_rejected() {
    let mut mask = blank(8, 8);
    set(&mut mask, 4, 4, 255);
    // 0.999 pixels once divided by a scale of 1.
    let r = exclusion_zone_of_mask(&mask, &UFrac::new(999, 1000), &UFrac::new(1, 1));
    assert_eq!(r.err(), Some(Error::ToSmallExclusionDiameter));
    // The same boundary holds through the scale factor: 2 / 2 = 1 pixel
    // is accepted, 2 / 2.001 is not.
    let ok = exclusion_zone_of_mask(&mask, &UFrac::new(2, 1), &UFrac::new(2, 1));
    assert!(ok.is_ok());
    let too_small = exclusion_zone_of_mask(&mask, &UFrac::new(2000, 1000), &UFrac::new(2001, 1000));
    assert_eq!(too_small.err(), Some(Error::ToSmallExclusionDiameter));
}

#[test]
fn distance_field_of_single_pixel_is_exact() {
    // One white pixel at (3, 4): the zone of radius 5 holds exactly the
    // grid points with (x - 3)^2 + (y - 4)^2 < 25.
    let mut mask = blank(20, 20);
    set(&mut mask, 3, 4, 255);
    let (zone, count) =
        exclusion_zone_of_mask(&mask, &UFrac::new(5, 1), &UFrac::new(1, 1)).unwrap();
    let mut expected: u64 = 0;
    for y in 0..20i64 {
        for x in 0..20i64 {
            let d2 = (x - 3) * (x - 3) + (y - 4) * (y - 4);
            let want = d2 < 25;
            if want {
                expected += 1;
            }
            assert_eq!(at(&zone, x as u32, y as u32) == 255, want, "at ({x}, {y})");
        }
    }
    assert_eq!(count, expected);
    assert_eq!(count, 64); // a 69-point disk with one 5-point column clipped
}

#[test]
fn empty_mask_has_empty_zone() {
    let mask = blank(10, 10);
    let (zone, count) =
        exclusion_zone_of_mask(&mask, &UFrac::new(1000, 1), &UFrac::new(1, 1)).unwrap();
    assert_eq!(count, 0);
    assert!(zone.data.iter().all(|&p| p == 0));
}

#[test]
fn area_filter_keeps_square_and_drops_specks() {
    let mut mask = blank(30, 30);
    fill_rect(&mut mask, 5, 5, 11, 11); // 6x6 block, contour area 25
    set(&mut mask, 20, 20, 255); // single-pixel noise, area 0
    set(&mut mask, 25, 3, 255);
    let filtered = filter_by_minimum_area(&mask, 5);
    assert_eq!(count_on(&filtered), 36);
    for y in 5..11 {
        for x in 5..11 {
            assert_eq!(at(&filtered, x, y), 255);
        }
    }
    assert_eq!(at(&filtered, 20, 20), 0);
    assert_eq!(at(&filtered, 25, 3), 0);
}

#[test]
fn area_filter_is_idempotent() {
    let mut mask = blank(30, 30);
    fill_rect(&mut mask, 5, 5, 11, 11);
    fill_rect(&mut mask, 15, 18, 24, 21); // 9x3 block, contour area 16
    set(&mut mask, 2, 27, 255);
    let once = filter_by_minimum_area(&mask, 5);
    let twice = filter_by_minimum_area(&once, 5);
    assert_eq!(once.data, twice.data);
}

#[test]
fn area_filter_threshold_is_monotonic() {
    let mut mask = blank(30, 30);
    fill_rect(&mut mask, 2, 2, 5, 5); // 3x3 block, contour area 4
    fill_rect(&mut mask, 10, 10, 16, 16); // 6x6 block, contour area 25
    let low = filter_by_minimum_area(&mask, 3);
    let at_boundary = filter_by_minimum_area(&mask, 4);
    let mid = filter_by_minimum_area(&mask, 5);
    let high = filter_by_minimum_area(&mask, 100);
    assert_eq!(count_on(&low), 9 + 36); // both survive
    assert_eq!(count_on(&at_boundary), 36); // area 4 is not above 4: dropped
    assert_eq!(count_on(&mid), 36); // only the big block survives
    assert_eq!(count_on(&high), 0); // nothing survives
}

#[test]
fn square_scenario_exclusion_ratio() {
    // A 100x100 mask with a 10x10 white square centered at (50, 50) and a
    // minimum area of 5: the filter retains the square (area 81 > 5), and
    // an exclusion radius of 5 pixels yields the square dilated by the
    // open disk of radius 5: 312 of 10000 pixels.
    let mut mask = blank(100, 100);
    fill_rect(&mut mask, 45, 45, 55, 55);
    let filtered = filter_by_minimum_area(&mask, 5);
    assert_eq!(filtered.data, mask.data, "the filter reconstructs the square exactly");
    let (zone, count) =
        exclusion_zone_of_mask(&filtered, &UFrac::new(5, 1), &UFrac::new(1, 1)).unwrap();
    // Cross-check the closed form against the definition.
    let mut expected: u64 = 0;
    for y in 0..100i64 {
        for x in 0..100i64 {
            let cx = if x < 45 { 45 - x } else if x > 54 { x - 54 } else { 0 };
            let cy = if y < 45 { 45 - y } else if y > 54 { y - 54 } else { 0 };
            let included = cx * cx + cy * cy < 25;
            if included {
                expected += 1;
            }
            assert_eq!(at(&zone, x as u32, y as u32) == 255, included, "at ({x}, {y})");
        }
    }
    assert_eq!(expected, 312);
    assert_eq!(count, 312);
    // The exclusion ratio is exactly 312 / 10000.
}

#[test]
fn full_pipeline_flat_image_radius_adjusted() {
    // A uniformly bright image has no contrast edges, so the exclusion
    // zone is empty. It also has no border contours at all (the tracer
    // starts a border only beside a background pixel), so the field of
    // view hull is empty, nothing is sampled, and the corrected ratio is
    // exactly zero.
    let img = GrayImg { width: 16, height: 16, data: vec![200; 256] };
    let config = BacteriaExclusion {
        enabled: true,
        contrast_threshold: UFrac::new(45, 1),
        minimum_edge_area: 5,
        exclusion_radius: UFrac::new(2, 1),
        radius_adjusted: true,
    };
    let out = bacteria_exclusion(&img, &config, &UFrac::new(1, 1)).unwrap();
    assert_eq!(out.excluded_count, 0);
    assert_eq!(out.total_pixels, 256);
    let adj = out.adjusted.expect("radius-adjusted outputs");
    assert!(adj.hull.is_empty());
    assert_eq!(adj.buckets.len(), 16);
    assert_eq!(adj.corrected_num, 0);
    assert_eq!(adj.corrected_den, 1000000 * 15 * 15);
    for b in &adj.buckets {
        assert_eq!(b.white, 0);
        assert_eq!(b.count, 0);
    }
}

#[test]
fn full_pipeline_bright_region_radius_adjusted() {
    // A bright block on a dark background: the raw contours at the low
    // threshold trace the block, the hull is its four corners, and only
    // pixels strictly inside that hull are sampled into the buckets.
    let mut img = blank(16, 16);
    fill_rect(&mut img, 2, 2, 14, 14);
    let config = BacteriaExclusion {
        enabled: true,
        contrast_threshold: UFrac::new(45, 1),
        minimum_edge_area: 2,
        exclusion_radius: UFrac::new(2, 1),
        radius_adjusted: true,
    };
    let out = bacteria_exclusion(&img, &config, &UFrac::new(1, 1)).unwrap();
    let adj = out.adjusted.expect("radius-adjusted outputs");
    assert_eq!(adj.hull.len(), 4);
    for p in &adj.hull {
        assert!((p.x == 2 || p.x == 13) && (p.y == 2 || p.y == 13));
    }
    // Pixels strictly inside the hull: the 11x11 interior block, less
    // those at rounded distance >= 16 from the optical center (16, 8).
    let mut expected_total: u64 = 0;
    for y in 3..13i64 {
        for x in 3..13i64 {
            let d2 = ((16 - x) * (16 - x) + (8 - y) * (8 - y)) as u64;
            let d = (d2 as f64).sqrt().round() as u64;
            if d < 16 {
                expected_total += 1;
            }
        }
    }
    let total: u64 = adj.buckets.iter().map(|b| b.count).sum();
    assert_eq!(total, expected_total);
}

#[test]
fn full_pipeline_reports_radius_error() {
    let img = GrayImg { width: 16, height: 16, data: vec![200; 256] };
    let config = BacteriaExclusion {
        enabled: true,
        contrast_threshold: UFrac::new(45, 1),
        minimum_edge_area: 5,
        exclusion_radius: UFrac::new(9, 10),
        radius_adjusted: false,
    };
    let out = bacteria_exclusion(&img, &config, &UFrac::new(1, 1));
    assert_eq!(out.err(), Some(Error::ToSmallExclusionDiameter));
}
