use bytevis::brightness::BrightnessCurve;
use bytevis::histogram::{Dimensions, Histogram};
use bytevis::points::{extract, Point};
use bytevis::visualization::Visualization;

fn total(h: &Histogram) -> u64 {
    let mut sum = 0u64;
    for k in 0..h.len() {
        sum += h.count(k);
    }
    sum
}

fn nonzero_cells(h: &Histogram) -> Vec<(usize, u64)> {
    let mut cells = Vec::new();
    for k in 0..h.len() {
        if h.count(k) != 0 {
            cells.push((k, h.count(k)));
        }
    }
    cells
}

/// Steps for a curve that doubles: level `b` needs a count of `2^(b-1)`,
/// capped so the table stays nondecreasing.
fn doubling_steps() -> Vec<u64> {
    (0..255u32).map(|b| if b < 63 { 1u64 << b } else { u64::MAX }).collect()
}

#[test]
fn repeated_zero_pairs() {
    let h = Histogram::build(&[0, 0, 0, 0, 0], Dimensions::Two);
    assert_eq!(h.len(), 65536);
    assert_eq!(nonzero_cells(&h), vec![(0, 4)]);
    let pts = extract(&h, &BrightnessCurve::linear(), 0);
    assert_eq!(pts, vec![Point { x: 0, y: 0, z: 0, brightness: 4 }]);
}

#[test]
fn single_triple() {
    let h = Histogram::build(&[1, 2, 3], Dimensions::Three);
    assert_eq!(h.len(), 16777216);
    assert_eq!(nonzero_cells(&h), vec![(1 + 256 * 2 + 65536 * 3, 1)]);
    let pts = extract(&h, &BrightnessCurve::linear(), 1);
    assert_eq!(pts, vec![Point { x: 1, y: 2, z: 3, brightness: 1 }]);
}

#[test]
fn empty_input_has_no_points() {
    let h = Histogram::build(&[], Dimensions::Two);
    assert_eq!(total(&h), 0);
    let curve = BrightnessCurve::linear();
    for t in [0u8, 1, 2, 100, 254, 255] {
        assert!(extract(&h, &curve, t).is_empty());
    }
}

#[test]
fn short_input_is_all_zero() {
    let h = Histogram::build(&[9, 8], Dimensions::Three);
    assert_eq!(total(&h), 0);
    assert!(extract(&h, &BrightnessCurve::linear(), 0).is_empty());
    let h2 = Histogram::build(&[9], Dimensions::Two);
    assert_eq!(total(&h2), 0);
    let doubling = BrightnessCurve::from_steps(doubling_steps()).unwrap();
    assert!(extract(&h2, &doubling, 0).is_empty());
}

#[test]
fn total_equals_window_count() {
    let bytes: Vec<u8> = (0..1000u32).map(|i| (i * 7 % 13) as u8).collect();
    assert_eq!(total(&Histogram::build(&bytes, Dimensions::Two)), 999);
    assert_eq!(total(&Histogram::build(&bytes, Dimensions::Three)), 998);
    assert_eq!(total(&Histogram::build(&[5, 6], Dimensions::Two)), 1);
}

#[test]
fn pair_coordinates_follow_window_order() {
    let h = Histogram::build(&[10, 20, 10, 20], Dimensions::Two);
    assert_eq!(
        nonzero_cells(&h),
        vec![(20 + 256 * 10, 1), (10 + 256 * 20, 2)]
    );
    let pts = extract(&h, &BrightnessCurve::linear(), 2);
    assert_eq!(pts, vec![Point { x: 10, y: 20, z: 0, brightness: 2 }]);
}

#[test]
fn higher_threshold_gives_subset() {
    let mut bytes = vec![1u8; 50];
    bytes.extend_from_slice(&[2, 3, 2, 3, 2, 3, 4, 5]);
    let h = Histogram::build(&bytes, Dimensions::Two);
    let curve = BrightnessCurve::linear();
    let low = extract(&h, &curve, 1);
    let mid = extract(&h, &curve, 2);
    let high = extract(&h, &curve, 49);
    assert_eq!(low.len(), 6);
    assert_eq!(mid.len(), 3);
    assert_eq!(high, vec![Point { x: 1, y: 1, z: 0, brightness: 49 }]);
    for p in &high {
        assert!(mid.contains(p));
    }
    for p in &mid {
        assert!(low.contains(p));
    }
    assert!(extract(&h, &curve, 50).is_empty());
}

#[test]
fn extraction_is_repeatable() {
    let bytes: Vec<u8> = (0..500u32).map(|i| (i % 5) as u8).collect();
    let h = Histogram::build(&bytes, Dimensions::Two);
    let curve = BrightnessCurve::linear();
    let a = extract(&h, &curve, 3);
    let b = extract(&h, &curve, 3);
    assert_eq!(a, b);
    assert_eq!(a.len(), 5);
}

#[test]
fn zero_count_is_dark() {
    let linear = BrightnessCurve::linear();
    assert_eq!(linear.brightness(0), 0);
    let doubling = BrightnessCurve::from_steps(doubling_steps()).unwrap();
    assert_eq!(doubling.brightness(0), 0);
}

#[test]
fn linear_curve_clamps() {
    let c = BrightnessCurve::linear();
    assert_eq!(c.brightness(1), 1);
    assert_eq!(c.brightness(17), 17);
    assert_eq!(c.brightness(254), 254);
    assert_eq!(c.brightness(255), 255);
    assert_eq!(c.brightness(300), 255);
    assert_eq!(c.brightness(u64::MAX), 255);
    assert_eq!(c.cutoff(0), 1);
    assert_eq!(c.cutoff(1), 1);
    assert_eq!(c.cutoff(40), 40);
}

#[test]
fn doubling_curve_levels() {
    let c = BrightnessCurve::from_steps(doubling_steps()).unwrap();
    assert_eq!(c.brightness(1), 1);
    assert_eq!(c.brightness(2), 2);
    assert_eq!(c.brightness(3), 2);
    assert_eq!(c.brightness(4), 3);
    assert_eq!(c.brightness(1023), 10);
    assert_eq!(c.brightness(1024), 11);
    assert_eq!(c.brightness(u64::MAX), 255);
    assert_eq!(c.cutoff(5), 16);
    let h = Histogram::build(&[0, 0, 0, 0, 0], Dimensions::Two);
    assert_eq!(
        extract(&h, &c, 0),
        vec![Point { x: 0, y: 0, z: 0, brightness: 3 }]
    );
    assert!(extract(&h, &c, 4).is_empty());
}

#[test]
fn invalid_step_tables_are_refused() {
    assert!(BrightnessCurve::from_steps(vec![1; 254]).is_none());
    assert!(BrightnessCurve::from_steps(vec![1; 256]).is_none());
    assert!(BrightnessCurve::from_steps(Vec::new()).is_none());
    let mut zero = vec![1u64; 255];
    zero[0] = 0;
    assert!(BrightnessCurve::from_steps(zero).is_none());
    let mut falling = vec![5u64; 255];
    falling[200] = 4;
    assert!(BrightnessCurve::from_steps(falling).is_none());
    let flat = BrightnessCurve::from_steps(vec![7u64; 255]).unwrap();
    assert_eq!(flat.steps(), &vec![7u64; 255]);
    assert_eq!(flat.brightness(6), 0);
    assert_eq!(flat.brightness(7), 255);
}

#[test]
fn threshold_round_trip() {
    let mut bytes = vec![1u8; 300];
    bytes.extend_from_slice(&[2u8; 20]);
    bytes.extend_from_slice(&[3, 4, 5]);
    let mut vis = Visualization::new_with_curve(
        &bytes,
        Dimensions::Two,
        BrightnessCurve::linear(),
        15,
    );
    let before = vis.points().clone();
    assert_eq!(
        before,
        vec![
            Point { x: 1, y: 1, z: 0, brightness: 255 },
            Point { x: 2, y: 2, z: 0, brightness: 19 },
        ]
    );
    vis.set_draw_threshold(200);
    assert_eq!(vis.draw_threshold(), 200);
    assert_eq!(vis.points(), &vec![Point { x: 1, y: 1, z: 0, brightness: 255 }]);
    vis.set_draw_threshold(15);
    assert_eq!(vis.draw_threshold(), 15);
    assert_eq!(vis.points(), &before);
}

#[test]
fn default_visualization_is_three_dimensional() {
    let bytes = [4u8, 4, 4, 4, 4, 4, 9];
    let mut vis = Visualization::new_from_bytes(&bytes, 0);
    assert_eq!(vis.histogram().dims(), Dimensions::Three);
    assert_eq!(vis.histogram().count(4 + 256 * 4 + 65536 * 4), 4);
    assert_eq!(vis.histogram().count(4 + 256 * 4 + 65536 * 9), 1);
    assert_eq!(
        vis.points(),
        &vec![
            Point { x: 4, y: 4, z: 4, brightness: 4 },
            Point { x: 4, y: 4, z: 9, brightness: 1 },
        ]
    );
    vis.set_draw_threshold(2);
    assert_eq!(vis.points(), &vec![Point { x: 4, y: 4, z: 4, brightness: 4 }]);
    assert_eq!(vis.curve().brightness(4), 4);
}
