use chart_core::decimal::format_value;
use chart_core::ranged::{AxisSpec, AXIS_BOUND};

#[test]
fn linear_map_exact_values() {
    let axis = AxisSpec::Linear { from: 0, to: 100 };
    assert_eq!(axis.map(0, (0, 200)), 0);
    assert_eq!(axis.map(50, (0, 200)), 100);
    assert_eq!(axis.map(100, (0, 200)), 200);
    assert_eq!(axis.map(25, (0, 200)), 50);
}

#[test]
fn linear_map_inverted_pixel_range() {
    let axis = AxisSpec::Linear { from: 0, to: 100 };
    assert_eq!(axis.map(0, (200, 0)), 200);
    assert_eq!(axis.map(100, (200, 0)), 0);
    assert_eq!(axis.map(25, (200, 0)), 150);
}

#[test]
fn degenerate_range_maps_to_midpoint() {
    let axis = AxisSpec::Linear { from: 5, to: 5 };
    assert_eq!(axis.map(5, (10, 20)), 15);
    assert_eq!(axis.map(5, (20, 10)), 15);
    assert_eq!(axis.map(5, (7, 7)), 7);
}

#[test]
fn map_stays_within_pixel_range() {
    let axis = AxisSpec::Linear { from: -250, to: 370 };
    for v in -250..=370 {
        let p = axis.map(v, (13, 444));
        assert!(13 <= p && p <= 444);
        let q = axis.map(v, (444, 13));
        assert!(13 <= q && q <= 444);
    }
}

#[test]
fn map_is_monotone() {
    let axis = AxisSpec::Linear { from: -1000, to: 1000 };
    let mut last = axis.map(-1000, (0, 500));
    let mut last_inv = axis.map(-1000, (500, 0));
    for v in -999..=1000 {
        let p = axis.map(v, (0, 500));
        assert!(p >= last);
        last = p;
        let q = axis.map(v, (500, 0));
        assert!(q <= last_inv);
        last_inv = q;
    }
}

#[test]
fn discrete_map_enumerates_indices() {
    let axis = AxisSpec::Discrete { count: 3 };
    assert_eq!(axis.map(0, (0, 100)), 0);
    assert_eq!(axis.map(1, (0, 100)), 50);
    assert_eq!(axis.map(2, (0, 100)), 100);
    let single = AxisSpec::Discrete { count: 1 };
    assert_eq!(single.map(0, (0, 100)), 50);
}

#[test]
fn linear_key_points_are_evenly_spaced() {
    let axis = AxisSpec::Linear { from: 0, to: 100 };
    assert_eq!(axis.key_points(5), vec![0, 25, 50, 75, 100]);
    assert_eq!(axis.key_points(2), vec![0, 100]);
    assert_eq!(axis.key_points(1), vec![0]);
    assert_eq!(axis.key_points(0), Vec::<i64>::new());
}

#[test]
fn discrete_key_points_enumerate_when_they_fit() {
    let axis = AxisSpec::Discrete { count: 3 };
    assert_eq!(axis.key_points(10), vec![0, 1, 2]);
    let many = AxisSpec::Discrete { count: 100 };
    assert_eq!(many.key_points(2), vec![0, 99]);
    assert_eq!(many.key_points(1), vec![0]);
}

#[test]
fn format_value_renders_decimal() {
    assert_eq!(format_value(0), "0");
    assert_eq!(format_value(7), "7");
    assert_eq!(format_value(-123), "-123");
    assert_eq!(format_value(6500), "6500");
    assert_eq!(format_value(1_000_000_000_000), "1000000000000");
}

#[test]
fn format_ext_matches_format_value() {
    let axis = AxisSpec::Linear { from: -10, to: 10 };
    assert_eq!(axis.format_ext(-7), format_value(-7));
    assert_eq!(axis.format_ext(0), "0");
}

#[test]
fn map_handles_the_largest_domain() {
    let axis = AxisSpec::Linear { from: -AXIS_BOUND, to: AXIS_BOUND };
    assert_eq!(axis.map(-AXIS_BOUND, (0, 1000)), 0);
    assert_eq!(axis.map(0, (0, 1000)), 500);
    assert_eq!(axis.map(AXIS_BOUND, (0, 1000)), 1000);
}
