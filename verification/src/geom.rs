//! Fixed-point plane geometry: points, distances, and the
//! trigonometric approximations the arc fitter needs.
//!
//! Coordinates are counts of millionths of a mil; angles are counts of
//! millionths of a radian or of a degree as noted.  All routines are
//! deterministic integer arithmetic with exact specifications.

use vstd::prelude::*;

verus! {

/// Truncated (round-toward-zero) division, the semantics of `/` on
/// machine integers, for a positive divisor.
pub open spec fn tdiv(a: int, b: int) -> int {
    if a >= 0 {
        a / b
    } else {
        -((-a) / b)
    }
}

/// The integer square root: the unique `r` with `r^2 <= n < (r+1)^2`.
pub open spec fn sqrt_floor(n: nat) -> nat {
    choose|r: nat| #[trigger] (r * r) <= n < (r + 1) * (r + 1)
}

pub proof fn lemma_sqrt_exists(n: nat)
    ensures
        exists|r: nat| #[trigger] (r * r) <= n < (r + 1) * (r + 1),
    decreases n,
{
    if n == 0 {
        let r0: nat = 0;
        assert(r0 * r0 == 0) by (nonlinear_arith)
            requires r0 == 0;
        assert((r0 + 1) * (r0 + 1) == 1) by (nonlinear_arith)
            requires r0 == 0;
        assert(r0 * r0 <= n < (r0 + 1) * (r0 + 1));
    } else {
        lemma_sqrt_exists((n - 1) as nat);
        let p = choose|r: nat| #[trigger] (r * r) <= n - 1 < (r + 1) * (r + 1);
        if (p + 1) * (p + 1) <= n {
            assert(n == (p + 1) * (p + 1));
            assert((p + 1) * (p + 1) <= n < (p + 2) * (p + 2)) by (nonlinear_arith)
                requires n == (p + 1) * (p + 1);
        } else {
            assert(p * p <= n < (p + 1) * (p + 1));
        }
    }
}

pub proof fn lemma_sqrt_unique(n: nat, r: nat)
    requires
        r * r <= n < (r + 1) * (r + 1),
    ensures
        r == sqrt_floor(n),
{
    lemma_sqrt_exists(n);
    let s = sqrt_floor(n);
    assert(s * s <= n < (s + 1) * (s + 1));
    assert(r == s) by (nonlinear_arith)
        requires
            r * r <= n < (r + 1) * (r + 1),
            s * s <= n < (s + 1) * (s + 1);
}

/// The square root is monotone, and at least `|x|` on `x^2 + y^2`.
pub proof fn lemma_sqrt_at_least(n: nat, b: nat)
    requires
        b * b <= n,
    ensures
        sqrt_floor(n) >= b,
{
    lemma_sqrt_exists(n);
    let s = sqrt_floor(n);
    assert(s * s <= n < (s + 1) * (s + 1));
    assert(s >= b) by (nonlinear_arith)
        requires
            s * s <= n < (s + 1) * (s + 1),
            b * b <= n;
}

pub proof fn lemma_sqrt_below(n: nat, b: nat)
    requires
        n < b * b,
    ensures
        sqrt_floor(n) < b,
{
    lemma_sqrt_exists(n);
    let s = sqrt_floor(n);
    assert(s * s <= n < (s + 1) * (s + 1));
    assert(s < b) by (nonlinear_arith)
        requires
            s * s <= n < (s + 1) * (s + 1),
            n < b * b;
}

/// Integer square root by bisection.
pub fn isqrt(n: u128) -> (r: u64)
    ensures
        r == sqrt_floor(n as nat),
        r * r <= n < (r + 1) * (r + 1),
{
    let mut lo: u128 = 0;
    let mut hi: u128 = 18446744073709551616;
    proof {
        assert((n as int) < 18446744073709551616 * 18446744073709551616) by (nonlinear_arith)
            requires n <= 340282366920938463463374607431768211455;
    }
    while hi - lo > 1
        invariant
            0 <= lo < hi <= 18446744073709551616,
            lo * lo <= n,
            (n as int) < hi * hi,
        decreases hi - lo,
    {
        let mid = lo + (hi - lo) / 2;
        proof {
            assert(mid * mid < 340282366920938463463374607431768211456) by (nonlinear_arith)
                requires 0 <= mid < 18446744073709551616;
        }
        if mid * mid <= n {
            lo = mid;
        } else {
            hi = mid;
        }
    }
    proof {
        assert(hi == lo + 1);
        lemma_sqrt_unique(n as nat, lo as nat);
    }
    lo as u64
}

/// Truncated division of `a` by a positive `b`, written out by sign so
/// that it matches `tdiv` exactly.
pub fn div_trunc(a: i128, b: i128) -> (r: i128)
    requires
        b > 0,
        a > i128::MIN,
    ensures
        r == tdiv(a as int, b as int),
        a >= 0 ==> 0 <= r <= a,
        a < 0 ==> a <= r <= 0,
{
    proof {
        if a >= 0 {
            assert(0 <= a / b <= a) by (nonlinear_arith)
                requires a >= 0, b > 0;
        } else {
            assert(0 <= (-(a as int)) / (b as int) <= -(a as int)) by (nonlinear_arith)
                requires a < 0, b > 0;
        }
    }
    if a >= 0 {
        a / b
    } else {
        -((-a) / b)
    }
}

/// Truncated division for any nonzero divisor.
pub open spec fn sdiv(a: int, b: int) -> int {
    if b >= 0 {
        tdiv(a, b)
    } else {
        -tdiv(a, -b)
    }
}

/// Truncated division of `a` by a nonzero `b` of either sign.
pub fn div_trunc_any(a: i128, b: i128) -> (r: i128)
    requires
        b != 0,
        a > i128::MIN,
        b > i128::MIN,
    ensures
        r == sdiv(a as int, b as int),
        -a <= r <= a || a <= r <= -a,
{
    if b > 0 {
        div_trunc(a, b)
    } else {
        let r = div_trunc(a, -b);
        -r
    }
}

/// Clamp into the coordinate range the geometry routines accept.
pub open spec fn clamp_spec(v: int) -> i64 {
    if v > 60_000_000_000_000 {
        60_000_000_000_000
    } else if v < -60_000_000_000_000 {
        (-60_000_000_000_000) as i64
    } else {
        v as i64
    }
}

pub fn clamp_coord(v: i128) -> (r: i64)
    ensures
        r == clamp_spec(v as int),
        coord_ok(r as int),
{
    if v > 60_000_000_000_000 {
        60_000_000_000_000
    } else if v < -60_000_000_000_000 {
        -60_000_000_000_000
    } else {
        v as i64
    }
}

/// Squared distance between two points.
pub open spec fn dist2(ax: int, ay: int, bx: int, by: int) -> int {
    (ax - bx) * (ax - bx) + (ay - by) * (ay - by)
}

pub proof fn lemma_dist2_nonneg(ax: int, ay: int, bx: int, by: int)
    ensures
        dist2(ax, ay, bx, by) >= 0,
{
    assert((ax - bx) * (ax - bx) >= 0) by (nonlinear_arith);
    assert((ay - by) * (ay - by) >= 0) by (nonlinear_arith);
}

/// Integer distance between two points: the floor of the Euclidean
/// distance.
pub open spec fn dist(ax: int, ay: int, bx: int, by: int) -> int {
    sqrt_floor(dist2(ax, ay, bx, by) as nat) as int
}

/// A point of the source plane, in millionths of a mil.
#[derive(Clone, Copy, PartialEq, Eq, Structural, Debug)]
pub struct Point {
    pub x: i64,
    pub y: i64,
}

/// Magnitude every point handed to the geometry routines stays under:
/// six times the clamped coordinate range, leaving room for the sums
/// the routines form.
pub open spec fn coord_ok(v: int) -> bool {
    -60_000_000_000_000 <= v <= 60_000_000_000_000
}

pub open spec fn point_ok(p: Point) -> bool {
    coord_ok(p.x as int) && coord_ok(p.y as int)
}

impl Point {
    /// Creates a new point.
    pub fn new(x: i64, y: i64) -> (p: Point)
        ensures
            p.x == x,
            p.y == y,
    {
        Point { x, y }
    }

    /// Distance between two points, rounded down.
    pub fn distance(&self, other: &Point) -> (r: i64)
        requires
            point_ok(*self),
            point_ok(*other),
        ensures
            r == dist(self.x as int, self.y as int, other.x as int, other.y as int),
            0 <= r <= 170_000_000_000_000,
    {
        let dx: i128 = (self.x as i128) - (other.x as i128);
        let dy: i128 = (self.y as i128) - (other.y as i128);
        proof {
            assert(dx * dx >= 0 && dx * dx <= 14400000000000000000000000000) by (nonlinear_arith)
                requires -120_000_000_000_000 <= dx <= 120_000_000_000_000;
            assert(dy * dy >= 0 && dy * dy <= 14400000000000000000000000000) by (nonlinear_arith)
                requires -120_000_000_000_000 <= dy <= 120_000_000_000_000;
        }
        let n: u128 = (dx * dx + dy * dy) as u128;
        let r = isqrt(n);
        proof {
            assert((170_000_000_000_001 as int) * 170_000_000_000_001
                > 28800000000000000000000000000) by (nonlinear_arith);
            lemma_sqrt_below(n as nat, 170_000_000_000_001 as nat);
        }
        r as i64
    }

    /// Componentwise vector sum.
    pub fn add(&self, other: &Point) -> (r: Point)
        requires
            i64::MIN <= self.x + other.x <= i64::MAX,
            i64::MIN <= self.y + other.y <= i64::MAX,
        ensures
            r.x == self.x + other.x,
            r.y == self.y + other.y,
    {
        Point { x: self.x + other.x, y: self.y + other.y }
    }

    /// Componentwise vector difference.
    pub fn sub(&self, other: &Point) -> (r: Point)
        requires
            i64::MIN <= self.x - other.x <= i64::MAX,
            i64::MIN <= self.y - other.y <= i64::MAX,
        ensures
            r.x == self.x - other.x,
            r.y == self.y - other.y,
    {
        Point { x: self.x - other.x, y: self.y - other.y }
    }

    /// Scales by a factor held in millionths.
    pub fn mul(&self, scalar: i64) -> (r: Point)
        requires
            -9_000_000_000_000_000_000_000_000 <= self.x * scalar
                <= 9_000_000_000_000_000_000_000_000,
            -9_000_000_000_000_000_000_000_000 <= self.y * scalar
                <= 9_000_000_000_000_000_000_000_000,
        ensures
            r.x == tdiv(self.x * scalar, 1000000),
            r.y == tdiv(self.y * scalar, 1000000),
    {
        let px = div_trunc((self.x as i128) * (scalar as i128), 1000000);
        let py = div_trunc((self.y as i128) * (scalar as i128), 1000000);
        proof {
            lemma_tdiv_bound((self.x as i128 * scalar as i128) as int, 1000000,
                9_000_000_000_000_000_000_000_000);
            lemma_tdiv_bound((self.y as i128 * scalar as i128) as int, 1000000,
                9_000_000_000_000_000_000_000_000);
        }
        Point { x: px as i64, y: py as i64 }
    }

    /// Rotation by a quarter turn counter-clockwise.
    pub fn perp(&self) -> (r: Point)
        requires
            self.y > i64::MIN,
        ensures
            r.x == -self.y,
            r.y == self.x,
    {
        Point { x: -self.y, y: self.x }
    }

    /// The direction of the vector scaled to unit length, held in
    /// millionths; the zero vector stays zero.
    pub fn normalize(&self) -> (r: Point)
        requires
            point_ok(*self),
        ensures
            ({
                let l = dist(self.x as int, self.y as int, 0, 0);
                if l == 0 {
                    r.x == 0 && r.y == 0
                } else {
                    r.x == tdiv(self.x * 1000000, l) && r.y == tdiv(self.y * 1000000, l)
                }
            }),
            -1000000 <= r.x <= 1000000,
            -1000000 <= r.y <= 1000000,
    {
        let zero = Point::new(0, 0);
        let l = self.distance(&zero);
        if l > 0 {
            proof {
                lemma_unit_component(self.x as int, self.y as int, l as int);
                lemma_unit_component(self.y as int, self.x as int, l as int);
            }
            let rx = div_trunc((self.x as i128) * 1000000, l as i128);
            let ry = div_trunc((self.y as i128) * 1000000, l as i128);
            Point { x: rx as i64, y: ry as i64 }
        } else {
            Point { x: 0, y: 0 }
        }
    }
}

/// Taylor polynomial for the sine of `x` millionths of a radian, for
/// `0 <= x <= 1_570_796` (a quarter turn).  All divisions round down.
pub open spec fn sin_poly(x: int) -> int {
    let x2 = x * x;
    let p3 = x * x2 / 1000000000000;
    let p5 = p3 * x2 / 1000000000000;
    let p7 = p5 * x2 / 1000000000000;
    let p9 = p7 * x2 / 1000000000000;
    x - p3 / 6 + p5 / 120 - p7 / 5040 + p9 / 362880
}

/// Reduction of an angle in millionths of a radian into one of equal
/// sine within (-pi, pi].
pub open spec fn norm_pi(a: int) -> int {
    let m = if a >= 0 {
        a % 6283185
    } else {
        -((-a) % 6283185)
    };
    if m > 3141593 {
        m - 6283185
    } else if m < -3141593 {
        m + 6283185
    } else {
        m
    }
}

/// Folding of a reduced angle into the quarter turn around zero where
/// the Taylor polynomial is accurate, preserving the sine.
pub open spec fn fold_quarter(r: int) -> int {
    if r > 1570796 {
        3141593 - r
    } else if r < -1570796 {
        -3141593 - r
    } else {
        r
    }
}

/// The sine of `a` millionths of a radian, in millionths.
pub open spec fn sin_e6(a: int) -> int {
    let f = fold_quarter(norm_pi(a));
    if f >= 0 {
        sin_poly(f)
    } else {
        -sin_poly(-f)
    }
}

/// The cosine of `a` millionths of a radian, in millionths.
pub open spec fn cos_e6(a: int) -> int {
    sin_e6(a + 1570796)
}

/// An angle in millionths of a degree, in millionths of a radian,
/// rounded toward zero.
pub open spec fn rad_of_deg(d: int) -> int {
    tdiv(d * 3141593, 180000000)
}

/// Taylor polynomial for the sine on the first quarter turn.
fn sin_poly_exec(x: u64) -> (r: i64)
    requires
        x <= 1_570_796,
    ensures
        r == sin_poly(x as int),
        -2_000_000 <= r <= 2_000_000,
{
    let xw: u128 = x as u128;
    proof {
        assert(xw * xw <= 2467400073616) by (nonlinear_arith)
            requires 0 <= xw <= 1_570_796;
    }
    let x2: u128 = xw * xw;
    proof {
        assert(xw * x2 <= 3875782166035718336) by (nonlinear_arith)
            requires 0 <= xw <= 1_570_796, 0 <= x2 <= 2467400073616;
    }
    let p3: u128 = (xw * x2) / 1000000000000;
    proof {
        assert(p3 * x2 <= 9563104792119567712) by (nonlinear_arith)
            requires 0 <= p3 <= 3875782, 0 <= x2 <= 2467400073616;
    }
    let p5: u128 = (p3 * x2) / 1000000000000;
    proof {
        assert(p5 * x2 <= 23596003513597464064) by (nonlinear_arith)
            requires 0 <= p5 <= 9563104, 0 <= x2 <= 2467400073616;
    }
    let p7: u128 = (p5 * x2) / 1000000000000;
    proof {
        assert(p7 * x2 <= 58220779539243356848) by (nonlinear_arith)
            requires 0 <= p7 <= 23596003, 0 <= x2 <= 2467400073616;
    }
    let p9: u128 = (p7 * x2) / 1000000000000;
    let r: i64 = (x as i64) - ((p3 / 6) as i64) + ((p5 / 120) as i64) - ((p7 / 5040) as i64)
        + ((p9 / 362880) as i64);
    r
}

/// The sine of `a` millionths of a radian, in millionths.
pub fn sin_e6_exec(a: i64) -> (r: i64)
    requires
        a > i64::MIN,
    ensures
        r == sin_e6(a as int),
        -2_000_000 <= r <= 2_000_000,
{
    let neg = a < 0;
    let ua: u64 = if neg {
        (-a) as u64
    } else {
        a as u64
    };
    let m: u64 = ua % 6283185;
    let ms: i64 = if neg {
        -(m as i64)
    } else {
        m as i64
    };
    let rr: i64 = if ms > 3141593 {
        ms - 6283185
    } else if ms < -3141593 {
        ms + 6283185
    } else {
        ms
    };
    let f: i64 = if rr > 1570796 {
        3141593 - rr
    } else if rr < -1570796 {
        -3141593 - rr
    } else {
        rr
    };
    if f >= 0 {
        sin_poly_exec(f as u64)
    } else {
        let s = sin_poly_exec((-f) as u64);
        -s
    }
}

/// The cosine of `a` millionths of a radian, in millionths.
pub fn cos_e6_exec(a: i64) -> (r: i64)
    requires
        i64::MIN < a <= i64::MAX - 1570796,
    ensures
        r == cos_e6(a as int),
        -2_000_000 <= r <= 2_000_000,
{
    sin_e6_exec(a + 1570796)
}

/// Converts millionths of a degree to millionths of a radian.
pub fn deg_to_rad(d: i64) -> (r: i64)
    requires
        -30_000_000_000_000 <= d <= 30_000_000_000_000,
    ensures
        r == rad_of_deg(d as int),
        -600_000_000_000 <= r <= 600_000_000_000,
{
    let p: i128 = (d as i128) * 3141593;
    let r = div_trunc(p, 180000000);
    proof {
        lemma_tdiv_bound(p as int, 180000000, 94247790000000000000);
    }
    r as i64
}

/// `tdiv` keeps the magnitude bound `c / b` of its dividend bound `c`.
pub proof fn lemma_tdiv_bound(a: int, b: int, c: int)
    requires
        b > 0,
        c >= 0,
        -c <= a <= c,
    ensures
        -(c / b) <= tdiv(a, b) <= c / b,
{
    if a >= 0 {
        vstd::arithmetic::div_mod::lemma_div_is_ordered(a, c, b);
        vstd::arithmetic::div_mod::lemma_div_pos_is_pos(a, b);
    } else {
        vstd::arithmetic::div_mod::lemma_div_is_ordered(-a, c, b);
        vstd::arithmetic::div_mod::lemma_div_pos_is_pos(-a, b);
    }
}

/// A component of a vector, scaled by 10^6 and divided by the vector's
/// length, stays within one unit (10^6).
proof fn lemma_unit_component(v: int, w: int, l: int)
    requires
        l > 0,
        l == dist(v, w, 0, 0),
    ensures
        -1000000 <= tdiv(v * 1000000, l) <= 1000000,
{
    lemma_dist2_nonneg(v, w, 0, 0);
    let n = dist2(v, w, 0, 0) as nat;
    if v >= 0 {
        assert(v * v <= n) by (nonlinear_arith)
            requires n == v * v + w * w;
        lemma_sqrt_at_least(n, v as nat);
        assert(v <= l);
        assert(v * 1000000 <= l * 1000000);
        lemma_tdiv_bound(v * 1000000, l, l * 1000000);
        vstd::arithmetic::div_mod::lemma_div_multiples_vanish(1000000, l);
        assert((l * 1000000) / l == 1000000);
    } else {
        assert((-v) * (-v) <= n) by (nonlinear_arith)
            requires n == v * v + w * w;
        lemma_sqrt_at_least(n, (-v) as nat);
        assert(-v <= l);
        assert((-v) * 1000000 <= l * 1000000);
        assert(-(l * 1000000) <= v * 1000000 <= l * 1000000);
        lemma_tdiv_bound(v * 1000000, l, l * 1000000);
        vstd::arithmetic::div_mod::lemma_div_multiples_vanish(1000000, l);
    }
}

} // verus!
