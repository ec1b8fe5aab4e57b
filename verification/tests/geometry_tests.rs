//! Arc fitting and the three-point arc form.

use elib2kicad::geom::{isqrt, Point};
use elib2kicad::arc::{calculate_arc_midpoint, fit_arc_with_lines};

#[test]
fn integer_square_root() {
    assert_eq!(isqrt(0), 0);
    assert_eq!(isqrt(15), 3);
    assert_eq!(isqrt(16), 4);
    assert_eq!(isqrt(10_000_000_000_000_000), 100_000_000);
}

#[test]
fn point_distance_is_exact_on_integer_triangles() {
    let a = Point::new(0, 0);
    let b = Point::new(3_000_000, 4_000_000);
    assert_eq!(a.distance(&b), 5_000_000);
    assert_eq!(b.distance(&a), 5_000_000);
    assert_eq!(a.distance(&a), 0);
}

#[test]
fn point_vector_operations() {
    let a = Point::new(3_000_000, -4_000_000);
    let b = Point::new(1_000_000, 2_000_000);
    assert_eq!(a.add(&b), Point::new(4_000_000, -2_000_000));
    assert_eq!(a.sub(&b), Point::new(2_000_000, -6_000_000));
    // Scaling by one half, held in millionths.
    assert_eq!(a.mul(500_000), Point::new(1_500_000, -2_000_000));
    assert_eq!(a.perp(), Point::new(4_000_000, 3_000_000));
}

#[test]
fn normalize_scales_to_unit_length_in_millionths() {
    let v = Point::new(3_000_000, -4_000_000);
    let u = v.normalize();
    assert_eq!(u, Point::new(600_000, -800_000));
    assert_eq!(Point::new(0, 0).normalize(), Point::new(0, 0));
}

#[test]
fn fit_arc_returns_n_plus_one_points_with_exact_anchors() {
    let start = Point::new(0, 0);
    let end = Point::new(10_000_000, 0);
    // A half-turn sweep, in millionths of a radian.
    let pts = fit_arc_with_lines(start, end, 3_141_593, 4);
    assert_eq!(pts.len(), 5);
    assert_eq!(pts[0], start);
    assert_eq!(pts[4], end);
    let pts = fit_arc_with_lines(start, end, 3_141_593, 20);
    assert_eq!(pts.len(), 21);
    assert_eq!(pts[0], start);
    assert_eq!(pts[20], end);
}

#[test]
fn fit_arc_midpoint_bulges_to_the_arc_side() {
    // A positive half-turn over this chord rotates the start about
    // the centre (5, 0) from a bearing of half a turn, so the middle
    // fitted point lands near the bottom of the circle.
    let start = Point::new(0, 0);
    let end = Point::new(10_000_000, 0);
    let pts = fit_arc_with_lines(start, end, 3_141_593, 4);
    let mid = pts[2];
    assert!((mid.x - 5_000_000).abs() < 20_000, "mid.x = {}", mid.x);
    assert!((mid.y + 5_000_000).abs() < 20_000, "mid.y = {}", mid.y);
}

#[test]
fn fit_arc_degenerate_inputs_give_the_chord() {
    let start = Point::new(0, 0);
    let end = Point::new(10_000_000, 0);
    // Zero sweep.
    let pts = fit_arc_with_lines(start, end, 0, 8);
    assert_eq!(pts.len(), 2);
    assert_eq!(pts[0], start);
    assert_eq!(pts[1], end);
    // Coincident anchors.
    let pts = fit_arc_with_lines(start, start, 3_141_593, 8);
    assert_eq!(pts.len(), 2);
    // No segments asked for.
    let pts = fit_arc_with_lines(start, end, 3_141_593, 0);
    assert_eq!(pts.len(), 2);
}

#[test]
fn arc_midpoint_swapping_anchors_and_negating_sweep_agree() {
    // Both calls describe the same physical arc, so the reported
    // midpoint is identical.
    let m1 = calculate_arc_midpoint(0, 0, 10_000_000, 0, 90_000_000);
    let m2 = calculate_arc_midpoint(10_000_000, 0, 0, 0, -90_000_000);
    assert_eq!((m1.2, m1.3), (m2.2, m2.3));

    let m1 = calculate_arc_midpoint(-59_055_000, 0, 59_056_000, 0, -180_471_542);
    let m2 = calculate_arc_midpoint(59_056_000, 0, -59_055_000, 0, 180_471_542);
    assert_eq!((m1.2, m1.3), (m2.2, m2.3));
}

#[test]
fn arc_midpoint_reports_the_original_ordering() {
    // A negative sweep is computed over the swapped endpoints, but the
    // returned start and end are the arguments, in their own order.
    let m = calculate_arc_midpoint(0, 0, 10_000_000, 0, -90_000_000);
    assert_eq!((m.0, m.1), (0, 0));
    assert_eq!((m.4, m.5), (10_000_000, 0));
}

#[test]
fn arc_midpoint_zero_sweep_falls_back_to_the_start() {
    let m = calculate_arc_midpoint(1_000_000, 2_000_000, 3_000_000, 4_000_000, 0);
    assert_eq!(m, (1_000_000, 2_000_000, 1_000_000, 2_000_000, 3_000_000, 4_000_000));
}

#[test]
fn arc_midpoint_of_a_half_turn_lies_on_the_circle() {
    // A positive half turn from the origin to (10, 0): the midpoint
    // lies near (5, -5), a radius below the chord's centre.
    let m = calculate_arc_midpoint(0, 0, 10_000_000, 0, 180_000_000);
    assert!((m.2 - 5_000_000).abs() < 20_000, "mid x = {}", m.2);
    assert!((m.3 + 5_000_000).abs() < 20_000, "mid y = {}", m.3);
}
