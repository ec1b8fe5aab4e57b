//! Arc geometry: the three-point representation of an arc given its
//! chord and signed sweep angle, and the fitting of an arc by a
//! polyline.
//!
//! Both routines derive radius, centre and sweep direction from the
//! same (start, end, angle) triple.  A negative sweep means clockwise;
//! the midpoint routine computes it as the equivalent counter-clockwise
//! sweep over the swapped endpoints, reporting the result against the
//! original ordering.

use vstd::prelude::*;
use crate::geom::{
    clamp_coord, clamp_spec, cos_e6, cos_e6_exec, coord_ok, deg_to_rad, dist, dist2, div_trunc,
    div_trunc_any, lemma_dist2_nonneg, lemma_sqrt_at_least, lemma_tdiv_bound, rad_of_deg, sdiv,
    sin_e6, sin_e6_exec, tdiv, Point,
};

verus! {

/// Coordinates that decoded records can hold: the clamped range.
pub open spec fn rec_ok(v: int) -> bool {
    -10_000_000_000_000 <= v <= 10_000_000_000_000
}

/// Half of the magnitude of an angle.
pub open spec fn half_of(a: int) -> int {
    (if a >= 0 {
        a
    } else {
        -a
    }) / 2
}

/// The centre of the counter-clockwise arc from `(x1, y1)` to
/// `(x2, y2)` with sweep `arad` millionths of a radian: on the
/// perpendicular bisector of the chord, at distance `radius *
/// cos(half)` from the chord's midpoint, where `radius = chord /
/// (2 sin(half))`.
pub open spec fn arc_center(x1: int, y1: int, x2: int, y2: int, arad: int) -> (int, int) {
    let chord = dist(x1, y1, x2, y2);
    let sh = sin_e6(half_of(arad));
    let radius = sdiv(chord * 1000000, 2 * sh);
    let d2c = tdiv(radius * cos_e6(half_of(arad)), 1000000);
    let mx = tdiv(x1 + x2, 2);
    let my = tdiv(y1 + y2, 2);
    let ex = tdiv((x2 - x1) * 1000000, chord);
    let ey = tdiv((y2 - y1) * 1000000, chord);
    (mx + tdiv(-ey * d2c, 1000000), my + tdiv(ex * d2c, 1000000))
}

/// The point of the arc reached by rotating the start point around the
/// centre by `theta` millionths of a radian.
pub open spec fn arc_point(x1: int, y1: int, cx: int, cy: int, theta: int) -> (i64, i64) {
    let ux = x1 - cx;
    let uy = y1 - cy;
    let c = cos_e6(theta);
    let s = sin_e6(theta);
    (
        clamp_spec(cx + tdiv(ux * c - uy * s, 1000000)),
        clamp_spec(cy + tdiv(ux * s + uy * c, 1000000)),
    )
}

/// The midpoint of the counter-clockwise arc from `(x1, y1)` to
/// `(x2, y2)`: the point reached by rotating the start around the
/// centre by half the sweep.  Degenerate sweeps fall back to a
/// midpoint equal to that start.
pub open spec fn arc_mid_ccw(x1: int, y1: int, x2: int, y2: int, arad: int) -> (int, int) {
    let chord = dist(x1, y1, x2, y2);
    if chord == 0 {
        (x1, y1)
    } else {
        let sh = sin_e6(half_of(arad));
        if sh == 0 {
            (x1, y1)
        } else {
            let (cx, cy) = arc_center(x1, y1, x2, y2, arad);
            let (mx, my) = arc_point(x1, y1, cx, cy, half_of(arad));
            (mx as int, my as int)
        }
    }
}

/// The three-point form of the arc from `(x1, y1)` to `(x2, y2)` with
/// signed sweep `adeg` millionths of a degree.  A zero sweep or a zero
/// chord falls back to a midpoint equal to the start; a negative sweep
/// is computed as the equivalent counter-clockwise sweep over the
/// swapped endpoints, but the result is always reported against the
/// original start/end ordering.
pub open spec fn arc_midpoint_spec(x1: int, y1: int, x2: int, y2: int, adeg: int) -> (
    int,
    int,
    int,
    int,
    int,
    int,
) {
    let arad = rad_of_deg(adeg);
    if arad == 0 || dist(x1, y1, x2, y2) == 0 {
        (x1, y1, x1, y1, x2, y2)
    } else {
        let m = if arad < 0 {
            arc_mid_ccw(x2, y2, x1, y1, -arad)
        } else {
            arc_mid_ccw(x1, y1, x2, y2, arad)
        };
        (x1, y1, m.0, m.1, x2, y2)
    }
}

/// A component of a vector is at most the vector's length.
proof fn lemma_component_le(dx: int, dy: int, l: int)
    requires
        l == dist(0, 0, dx, dy),
    ensures
        -l <= dx <= l,
        -l <= dy <= l,
        l >= 0,
{
    lemma_dist2_nonneg(0, 0, dx, dy);
    let n = dist2(0, 0, dx, dy) as nat;
    assert(dx * dx <= n && dy * dy <= n && (-dx) * (-dx) == dx * dx && (-dy) * (-dy) == dy * dy)
        by (nonlinear_arith)
        requires n == (0 - dx) * (0 - dx) + (0 - dy) * (0 - dy);
    if dx >= 0 {
        lemma_sqrt_at_least(n, dx as nat);
    } else {
        lemma_sqrt_at_least(n, (-dx) as nat);
    }
    if dy >= 0 {
        lemma_sqrt_at_least(n, dy as nat);
    } else {
        lemma_sqrt_at_least(n, (-dy) as nat);
    }
}

/// Distance is unchanged by translating both points.
proof fn lemma_dist_shift(x1: int, y1: int, x2: int, y2: int)
    ensures
        dist(x1, y1, x2, y2) == dist(0, 0, x2 - x1, y2 - y1),
        dist(x1, y1, x2, y2) == dist(x2, y2, x1, y1),
{
    assert(dist2(x1, y1, x2, y2) == dist2(0, 0, x2 - x1, y2 - y1)) by (nonlinear_arith);
    assert(dist2(x1, y1, x2, y2) == dist2(x2, y2, x1, y1)) by (nonlinear_arith);
}

/// Computes the centre of the counter-clockwise arc, exactly as
/// `arc_center` states it.  Callers establish a positive chord and a
/// nonzero half-sweep sine.
fn arc_center_exec(x1: i64, y1: i64, x2: i64, y2: i64, arad: i64, chord: i64, sh: i64, ch: i64) -> (r: (
    i128,
    i128,
))
    requires
        rec_ok(x1 as int),
        rec_ok(y1 as int),
        rec_ok(x2 as int),
        rec_ok(y2 as int),
        -600_000_000_000 <= arad <= 600_000_000_000,
        chord == dist(x1 as int, y1 as int, x2 as int, y2 as int),
        chord > 0,
        sh == sin_e6(half_of(arad as int)),
        sh != 0,
        ch == cos_e6(half_of(arad as int)),
        -2_000_000 <= sh <= 2_000_000,
        -2_000_000 <= ch <= 2_000_000,
    ensures
        (r.0 as int, r.1 as int) == arc_center(x1 as int, y1 as int, x2 as int, y2 as int,
            arad as int),
        -61_000_000_000_000_000_000 <= r.0 <= 61_000_000_000_000_000_000,
        -61_000_000_000_000_000_000 <= r.1 <= 61_000_000_000_000_000_000,
{
    proof {
        lemma_dist_shift(x1 as int, y1 as int, x2 as int, y2 as int);
        lemma_component_le((x2 - x1) as int, (y2 - y1) as int, chord as int);
        assert(chord <= 30_000_000_000_000) by {
            let n = dist2(x1 as int, y1 as int, x2 as int, y2 as int);
            assert(n <= 800000000000000000000000000) by (nonlinear_arith)
                requires
                    rec_ok(x1 as int), rec_ok(y1 as int), rec_ok(x2 as int), rec_ok(y2 as int),
                    n == dist2(x1 as int, y1 as int, x2 as int, y2 as int);
            lemma_dist2_nonneg(x1 as int, y1 as int, x2 as int, y2 as int);
            assert((30_000_000_000_001 as int) * 30_000_000_000_001
                > 800000000000000000000000000) by (nonlinear_arith);
            crate::geom::lemma_sqrt_below(n as nat, 30_000_000_000_001 as nat);
        };
    }
    let radius: i128 = div_trunc_any((chord as i128) * 1000000, 2 * (sh as i128));
    proof {
        assert(-30000000000000000000 <= radius <= 30000000000000000000);
        assert(radius * (ch as i128) <= 60000000000000000000000000 && radius * (ch as i128)
            >= -60000000000000000000000000) by (nonlinear_arith)
            requires
                -30000000000000000000 <= radius <= 30000000000000000000,
                -2_000_000 <= ch <= 2_000_000;
    }
    let d2c: i128 = div_trunc(radius * (ch as i128), 1000000);
    proof {
        lemma_tdiv_bound((radius * (ch as i128)) as int, 1000000, 60000000000000000000000000);
    }
    let mx: i128 = div_trunc((x1 as i128) + (x2 as i128), 2);
    let my: i128 = div_trunc((y1 as i128) + (y2 as i128), 2);
    let ex: i128 = div_trunc(((x2 as i128) - (x1 as i128)) * 1000000, chord as i128);
    let ey: i128 = div_trunc(((y2 as i128) - (y1 as i128)) * 1000000, chord as i128);
    proof {
        let dxv = x2 as int - x1 as int;
        let dyv = y2 as int - y1 as int;
        assert(dxv * 1000000 <= chord * 1000000 && dxv * 1000000 >= -(chord * 1000000))
            by (nonlinear_arith)
            requires -chord <= dxv <= chord;
        assert(dyv * 1000000 <= chord * 1000000 && dyv * 1000000 >= -(chord * 1000000))
            by (nonlinear_arith)
            requires -chord <= dyv <= chord;
        lemma_tdiv_bound(dxv * 1000000, chord as int, chord as int * 1000000);
        lemma_tdiv_bound(dyv * 1000000, chord as int, chord as int * 1000000);
        vstd::arithmetic::div_mod::lemma_div_multiples_vanish(1000000, chord as int);
        assert((chord as int * 1000000) / (chord as int) == 1000000);
        assert(-1000000 <= ex <= 1000000 && -1000000 <= ey <= 1000000);
        assert(-ey * d2c <= 60000000000000000000000000 && -ey * d2c
            >= -60000000000000000000000000) by (nonlinear_arith)
            requires
                -1000000 <= ey <= 1000000,
                -60000000000000000000 <= d2c <= 60000000000000000000;
        assert(ex * d2c <= 60000000000000000000000000 && ex * d2c
            >= -60000000000000000000000000) by (nonlinear_arith)
            requires
                -1000000 <= ex <= 1000000,
                -60000000000000000000 <= d2c <= 60000000000000000000;
    }
    let ox: i128 = div_trunc(-ey * d2c, 1000000);
    let oy: i128 = div_trunc(ex * d2c, 1000000);
    proof {
        lemma_tdiv_bound((-ey * d2c) as int, 1000000, 60000000000000000000000000);
        lemma_tdiv_bound((ex * d2c) as int, 1000000, 60000000000000000000000000);
    }
    (mx + ox, my + oy)
}

/// Computes the point of the arc at rotation `theta` from the start,
/// exactly as `arc_point` states it.
fn arc_point_exec(x1: i64, y1: i64, cx: i128, cy: i128, theta: i64) -> (r: (i64, i64))
    requires
        rec_ok(x1 as int),
        rec_ok(y1 as int),
        -61_000_000_000_000_000_000 <= cx <= 61_000_000_000_000_000_000,
        -61_000_000_000_000_000_000 <= cy <= 61_000_000_000_000_000_000,
        i64::MIN < theta <= i64::MAX - 1570796,
    ensures
        (r.0, r.1) == arc_point(x1 as int, y1 as int, cx as int, cy as int, theta as int),
        coord_ok(r.0 as int),
        coord_ok(r.1 as int),
{
    let ux: i128 = (x1 as i128) - cx;
    let uy: i128 = (y1 as i128) - cy;
    let c = cos_e6_exec(theta) as i128;
    let s = sin_e6_exec(theta) as i128;
    proof {
        assert(ux * c <= 200000000000000000000000000 && ux * c >= -200000000000000000000000000
            && ux * s <= 200000000000000000000000000 && ux * s >= -200000000000000000000000000)
            by (nonlinear_arith)
            requires
                -70000000000000000000 <= ux <= 70000000000000000000,
                -2000000 <= c <= 2000000,
                -2000000 <= s <= 2000000;
        assert(uy * c <= 200000000000000000000000000 && uy * c >= -200000000000000000000000000
            && uy * s <= 200000000000000000000000000 && uy * s >= -200000000000000000000000000)
            by (nonlinear_arith)
            requires
                -70000000000000000000 <= uy <= 70000000000000000000,
                -2000000 <= c <= 2000000,
                -2000000 <= s <= 2000000;
    }
    let px: i128 = div_trunc(ux * c - uy * s, 1000000);
    let py: i128 = div_trunc(ux * s + uy * c, 1000000);
    proof {
        lemma_tdiv_bound((ux * c - uy * s) as int, 1000000, 400000000000000000000000000);
        lemma_tdiv_bound((ux * s + uy * c) as int, 1000000, 400000000000000000000000000);
    }
    (clamp_coord(cx + px), clamp_coord(cy + py))
}

/// The three-point representation of an arc: start, midpoint, end,
/// from the chord endpoints and the signed sweep angle in millionths
/// of a degree.  A negative sweep is computed as the equivalent
/// counter-clockwise one over the swapped endpoints, but the result is
/// reported against the original start/end ordering.  Near-degenerate
/// sweeps (zero angle, coincident endpoints, vanishing half-angle
/// sine) fall back to a midpoint equal to the sweep's own start.
pub fn calculate_arc_midpoint(x1: i64, y1: i64, x2: i64, y2: i64, adeg: i64) -> (r: (
    i64,
    i64,
    i64,
    i64,
    i64,
    i64,
))
    requires
        rec_ok(x1 as int),
        rec_ok(y1 as int),
        rec_ok(x2 as int),
        rec_ok(y2 as int),
        -30_000_000_000_000 <= adeg <= 30_000_000_000_000,
    ensures
        (r.0 as int, r.1 as int, r.2 as int, r.3 as int, r.4 as int, r.5 as int)
            == arc_midpoint_spec(x1 as int, y1 as int, x2 as int, y2 as int, adeg as int),
        coord_ok(r.0 as int) && coord_ok(r.1 as int) && coord_ok(r.2 as int) && coord_ok(
            r.3 as int) && coord_ok(r.4 as int) && coord_ok(r.5 as int),
{
    let arad = deg_to_rad(adeg);
    let p1 = Point::new(x1, y1);
    let p2 = Point::new(x2, y2);
    let chord0 = p1.distance(&p2);
    if arad == 0 || chord0 == 0 {
        return (x1, y1, x1, y1, x2, y2);
    }
    let (sx, sy, ex, ey, a) = if arad < 0 {
        (x2, y2, x1, y1, -arad)
    } else {
        (x1, y1, x2, y2, arad)
    };
    proof {
        lemma_dist_shift(x1 as int, y1 as int, x2 as int, y2 as int);
    }
    let sp = Point::new(sx, sy);
    let ep = Point::new(ex, ey);
    let chord = sp.distance(&ep);
    if chord == 0 {
        return (x1, y1, sx, sy, x2, y2);
    }
    let half = a / 2;
    proof {
        assert(half == half_of(a as int));
    }
    let sh = sin_e6_exec(half);
    if sh == 0 {
        return (x1, y1, sx, sy, x2, y2);
    }
    let ch = cos_e6_exec(half);
    let (cx, cy) = arc_center_exec(sx, sy, ex, ey, a, chord, sh, ch);
    let (mx, my) = arc_point_exec(sx, sy, cx, cy, half);
    (x1, y1, mx, my, x2, y2)
}

/// A distance of zero means the points coincide.
proof fn lemma_dist_zero(x1: int, y1: int, x2: int, y2: int)
    requires
        dist(x1, y1, x2, y2) == 0,
    ensures
        x1 == x2 && y1 == y2,
{
    lemma_dist2_nonneg(x1, y1, x2, y2);
    let n = dist2(x1, y1, x2, y2);
    if n >= 1 {
        assert((1 as nat) * 1 <= n as nat);
        lemma_sqrt_at_least(n as nat, 1);
    }
    assert(x1 == x2 && y1 == y2) by (nonlinear_arith)
        requires (x1 - x2) * (x1 - x2) + (y1 - y2) * (y1 - y2) == 0;
}

/// Negating a sweep in degrees negates it in radians.
proof fn lemma_rad_neg(d: int)
    ensures
        rad_of_deg(-d) == -rad_of_deg(d),
{
    assert((-d) * 3141593 == -(d * 3141593));
}

/// Swapping the endpoints while negating the sweep angle leaves the
/// arc's midpoint unchanged: both describe the same physical arc.
/// Sweeps so small that they vanish in radians are excluded, since
/// they fall back to a midpoint equal to the start.
pub proof fn lemma_arc_midpoint_swap(x1: int, y1: int, x2: int, y2: int, a: int)
    requires
        rad_of_deg(a) != 0,
    ensures
        ({
            let m1 = arc_midpoint_spec(x1, y1, x2, y2, a);
            let m2 = arc_midpoint_spec(x2, y2, x1, y1, -a);
            m1.2 == m2.2 && m1.3 == m2.3
        }),
{
    lemma_rad_neg(a);
    lemma_dist_shift(x1, y1, x2, y2);
    let arad = rad_of_deg(a);
    if dist(x1, y1, x2, y2) == 0 {
        lemma_dist_zero(x1, y1, x2, y2);
    }
}

/// Whether the arc fitter falls back to the two-point chord: the
/// endpoints coincide, the sweep is zero, fewer than one segment is
/// asked for, or the half-sweep sine vanishes or turns negative.
pub open spec fn fit_degenerate(start: Point, end: Point, a: int, n: int) -> bool {
    dist(start.x as int, start.y as int, end.x as int, end.y as int) == 0 || a == 0 || n < 1
        || sin_e6(half_of(a)) <= 0
}

/// The centre used by the arc fitter: as `arc_center`, but with the
/// offset from the chord's midpoint on the side picked by the sweep's
/// sign.
pub open spec fn fit_center(start: Point, end: Point, a: int) -> (int, int) {
    let sx = start.x as int;
    let sy = start.y as int;
    let ex = end.x as int;
    let ey = end.y as int;
    let chord = dist(sx, sy, ex, ey);
    let sh = sin_e6(half_of(a));
    let radius = tdiv(chord * 1000000, 2 * sh);
    let d2c = tdiv(radius * cos_e6(half_of(a)), 1000000);
    let off = if a > 0 {
        d2c
    } else {
        -d2c
    };
    let mx = tdiv(sx + ex, 2);
    let my = tdiv(sy + ey, 2);
    let px = tdiv(-(ey - sy) * 1000000, chord);
    let py = tdiv((ex - sx) * 1000000, chord);
    (mx + tdiv(px * off, 1000000), my + tdiv(py * off, 1000000))
}

/// The polyline the arc fitter returns: exact start and end, with the
/// interior points reached by rotating the start around the centre in
/// equal angle steps.  Degenerate inputs give the two-point chord.
pub open spec fn fit_arc_spec(start: Point, end: Point, a: int, n: int) -> Seq<Point> {
    if fit_degenerate(start, end, a, n) {
        seq![start, end]
    } else {
        let c = fit_center(start, end, a);
        let step = tdiv(a, n);
        Seq::new((n + 1) as nat, |i: int|
            if i == 0 {
                start
            } else if i == n {
                end
            } else {
                let p = arc_point(start.x as int, start.y as int, c.0, c.1, i * step);
                Point { x: p.0, y: p.1 }
            }
        )
    }
}

/// Fits an arc with `num_segments` line segments.  The result holds
/// `num_segments + 1` points beginning exactly at `start` and ending
/// exactly at `end`; degenerate inputs (coincident endpoints, zero
/// sweep, no segments, vanishing half-sweep sine) give the two-point
/// chord `[start, end]`.
#[verifier::loop_isolation(false)]
#[verifier::rlimit(50)]
pub fn fit_arc_with_lines(start: Point, end: Point, angle_radians: i64, num_segments: usize) -> (r:
    Vec<Point>)
    requires
        rec_ok(start.x as int),
        rec_ok(start.y as int),
        rec_ok(end.x as int),
        rec_ok(end.y as int),
        -600_000_000_000 <= angle_radians <= 600_000_000_000,
    ensures
        r@ == fit_arc_spec(start, end, angle_radians as int, num_segments as int),
        r@.len() >= 2,
        r@[0] == start,
        r@[r@.len() - 1] == end,
        !fit_degenerate(start, end, angle_radians as int, num_segments as int) ==> r@.len()
            == num_segments + 1,
{
    let ghost ga = angle_radians as int;
    let ghost gn = num_segments as int;
    let chord = start.distance(&end);
    let half = (if angle_radians >= 0 {
        angle_radians
    } else {
        -angle_radians
    }) / 2;
    let sh = sin_e6_exec(half);
    if chord == 0 || angle_radians == 0 || num_segments < 1 || sh <= 0 {
        let mut pts: Vec<Point> = Vec::new();
        pts.push(start);
        pts.push(end);
        proof {
            assert(pts@ =~= seq![start, end]);
        }
        return pts;
    }
    let ch = cos_e6_exec(half);
    proof {
        lemma_dist_shift(start.x as int, start.y as int, end.x as int, end.y as int);
        lemma_component_le((end.x - start.x) as int, (end.y - start.y) as int, chord as int);
        assert(chord <= 30_000_000_000_000) by {
            let n = dist2(start.x as int, start.y as int, end.x as int, end.y as int);
            assert(n <= 800000000000000000000000000) by (nonlinear_arith)
                requires
                    rec_ok(start.x as int), rec_ok(start.y as int), rec_ok(end.x as int),
                    rec_ok(end.y as int),
                    n == dist2(start.x as int, start.y as int, end.x as int, end.y as int);
            lemma_dist2_nonneg(start.x as int, start.y as int, end.x as int, end.y as int);
            assert((30_000_000_000_001 as int) * 30_000_000_000_001
                > 800000000000000000000000000) by (nonlinear_arith);
            crate::geom::lemma_sqrt_below(n as nat, 30_000_000_000_001 as nat);
        };
    }
    let radius: i128 = div_trunc((chord as i128) * 1000000, 2 * (sh as i128));
    proof {
        assert(radius * (ch as i128) <= 60000000000000000000000000 && radius * (ch as i128)
            >= -60000000000000000000000000) by (nonlinear_arith)
            requires
                0 <= radius <= 30000000000000000000,
                -2_000_000 <= ch <= 2_000_000;
    }
    let d2c: i128 = div_trunc(radius * (ch as i128), 1000000);
    proof {
        lemma_tdiv_bound((radius * (ch as i128)) as int, 1000000, 60000000000000000000000000);
    }
    let off: i128 = if angle_radians > 0 {
        d2c
    } else {
        -d2c
    };
    let mx: i128 = div_trunc((start.x as i128) + (end.x as i128), 2);
    let my: i128 = div_trunc((start.y as i128) + (end.y as i128), 2);
    let px: i128 = div_trunc(-((end.y as i128) - (start.y as i128)) * 1000000, chord as i128);
    let py: i128 = div_trunc(((end.x as i128) - (start.x as i128)) * 1000000, chord as i128);
    proof {
        let dxv = end.x as int - start.x as int;
        let dyv = end.y as int - start.y as int;
        assert(dxv * 1000000 <= chord * 1000000 && dxv * 1000000 >= -(chord * 1000000)
            && -dyv * 1000000 <= chord * 1000000 && -dyv * 1000000 >= -(chord * 1000000))
            by (nonlinear_arith)
            requires -chord <= dxv <= chord, -chord <= dyv <= chord;
        lemma_tdiv_bound(-dyv * 1000000, chord as int, chord as int * 1000000);
        lemma_tdiv_bound(dxv * 1000000, chord as int, chord as int * 1000000);
        vstd::arithmetic::div_mod::lemma_div_multiples_vanish(1000000, chord as int);
        assert(-1000000 <= px <= 1000000 && -1000000 <= py <= 1000000);
        assert(px * off <= 60000000000000000000000000 && px * off
            >= -60000000000000000000000000 && py * off <= 60000000000000000000000000 && py * off
            >= -60000000000000000000000000) by (nonlinear_arith)
            requires
                -1000000 <= px <= 1000000,
                -1000000 <= py <= 1000000,
                -60000000000000000000 <= off <= 60000000000000000000;
    }
    let cx: i128 = mx + div_trunc(px * off, 1000000);
    let cy: i128 = my + div_trunc(py * off, 1000000);
    proof {
        lemma_tdiv_bound((px * off) as int, 1000000, 60000000000000000000000000);
        lemma_tdiv_bound((py * off) as int, 1000000, 60000000000000000000000000);
        assert((cx as int, cy as int) == fit_center(start, end, ga));
    }
    let step: i64 = div_trunc(angle_radians as i128, num_segments as i128) as i64;
    let ghost spec_seq = fit_arc_spec(start, end, ga, gn);
    let ghost aabs: int = if ga >= 0 { ga } else { -ga };
    proof {
        lemma_tdiv_bound(ga, gn, aabs);
        vstd::arithmetic::div_mod::lemma_fundamental_div_mod(aabs, gn);
    }
    let mut pts: Vec<Point> = Vec::new();
    pts.push(start);
    let mut i: usize = 1;
    while i < num_segments
        invariant
            1 <= i <= num_segments,
            pts@.len() == i,
            forall|j: int| 0 <= j < i ==> pts@[j] == spec_seq[j],
            spec_seq == fit_arc_spec(start, end, ga, gn),
            spec_seq[0] == start,
            spec_seq.len() == gn + 1,
        decreases num_segments - i,
    {
        proof {
            assert(i as int * (step as int) <= aabs && i as int * (step as int) >= -aabs)
                by (nonlinear_arith)
                requires
                    1 <= i as int <= gn,
                    -(aabs / gn) <= step as int <= aabs / gn,
                    gn * (aabs / gn) <= aabs,
                    aabs >= 0,
                    gn >= 1;
        }
        let theta: i64 = ((i as i128) * (step as i128)) as i64;
        let q = arc_point_exec(start.x, start.y, cx, cy, theta);
        pts.push(Point { x: q.0, y: q.1 });
        proof {
            assert(spec_seq[i as int] == Point {
                x: arc_point(start.x as int, start.y as int, cx as int, cy as int,
                    i as int * step as int).0,
                y: arc_point(start.x as int, start.y as int, cx as int, cy as int,
                    i as int * step as int).1,
            });
        }
        i += 1;
    }
    pts.push(end);
    proof {
        assert(pts@ =~= spec_seq);
    }
    pts
}

} // verus!
