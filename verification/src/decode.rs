//! The record decoder: classifies one JSON-parsed record into a
//! graphic primitive or pad descriptor, interpreting its
//! position-coded, variable-length shape array.
//!
//! A record is a flat array of fields located by offset.  Decoding a
//! record yields an action — what to append to the document — and a
//! count of unparsed findings: zero for a clean decode, more when a
//! part of the record had to be skipped or a policy fidelity warning
//! applies (an ambiguous wrapped payload, a silkscreen polygon the
//! model explodes into lines).  A decode failure never stops the
//! records that follow.

use vstd::prelude::*;
use crate::numfmt::str_eq;
use crate::model::{
    content_spec, is_arc_elem, is_circle_elem, is_circle_hole_elem, is_line_elem,
    is_pad_circle_elem, is_pad_hole_elem, is_pad_hole_oval_elem, is_pad_hole_rect_elem,
    is_pad_oval_elem, is_pad_poly_elem, is_pad_rect_elem, is_poly_elem, same_doc_meta,
    KicadModData,
};

verus! {

/// One field of a JSON-parsed record: a string, a number (in
/// millionths of the source unit), a nested array, the JSON null, or
/// any other value (treated as unrecognized everywhere).
pub enum Field {
    SVal(String),
    NVal(i64),
    AVal(Vec<Field>),
    Null,
    Other,
}

/// Numbers read out of records are clamped into this range, so that
/// every later computation stays far inside the machine integers.
pub open spec fn clamp_rec(v: i64) -> i64 {
    if v > 10_000_000_000_000 {
        10_000_000_000_000
    } else if v < -10_000_000_000_000 {
        (-10_000_000_000_000) as i64
    } else {
        v
    }
}

fn clamp_rec_exec(v: i64) -> (r: i64)
    ensures
        r == clamp_rec(v),
{
    if v > 10_000_000_000_000 {
        10_000_000_000_000
    } else if v < -10_000_000_000_000 {
        -10_000_000_000_000
    } else {
        v
    }
}

/// The clamped numeric value of field `i`, if it exists and is a
/// number.
pub open spec fn num_at(s: Seq<Field>, i: int) -> Option<i64> {
    if 0 <= i < s.len() {
        match s[i] {
            Field::NVal(v) => Some(clamp_rec(v)),
            _ => None,
        }
    } else {
        None
    }
}

/// The clamped numeric value of field `i`, or `d` where the field is
/// missing or not a number.
pub open spec fn num_or(s: Seq<Field>, i: int, d: i64) -> i64 {
    match num_at(s, i) {
        Some(v) => v,
        None => d,
    }
}

/// The text of field `i`, if it exists and is a string.
pub open spec fn str_at(s: Seq<Field>, i: int) -> Option<Seq<char>> {
    if 0 <= i < s.len() {
        match s[i] {
            Field::SVal(t) => Some(t@),
            _ => None,
        }
    } else {
        None
    }
}

/// The elements of field `i`, if it exists and is an array.
pub open spec fn arr_at(s: Seq<Field>, i: int) -> Option<Seq<Field>> {
    if 0 <= i < s.len() {
        match s[i] {
            Field::AVal(v) => Some(v@),
            _ => None,
        }
    } else {
        None
    }
}

/// A non-negative whole number of units at field `i` (a rotation in
/// whole degrees, a layer id), or zero.
pub open spec fn whole_at_or0(s: Seq<Field>, i: int) -> i64 {
    if 0 <= i < s.len() {
        match s[i] {
            Field::NVal(v) => if v >= 0 && v % 1000000 == 0 {
                (v / 1000000) as i64
            } else {
                0
            },
            _ => 0,
        }
    } else {
        0
    }
}

fn get_num(arr: &Vec<Field>, i: usize) -> (r: Option<i64>)
    ensures
        r == num_at(arr@, i as int),
{
    if i < arr.len() {
        match &arr[i] {
            Field::NVal(v) => Some(clamp_rec_exec(*v)),
            _ => None,
        }
    } else {
        None
    }
}

fn get_num_or(arr: &Vec<Field>, i: usize, d: i64) -> (r: i64)
    ensures
        r == num_or(arr@, i as int, d),
{
    match get_num(arr, i) {
        Some(v) => v,
        None => d,
    }
}

fn get_whole_or0(arr: &Vec<Field>, i: usize) -> (r: i64)
    ensures
        r == whole_at_or0(arr@, i as int),
{
    if i < arr.len() {
        match &arr[i] {
            Field::NVal(v) => {
                let v = *v;
                if v >= 0 && v % 1000000 == 0 {
                    v / 1000000
                } else {
                    0
                }
            },
            _ => 0,
        }
    } else {
        0
    }
}

fn is_str_at(arr: &Vec<Field>, i: usize, w: &str) -> (r: bool)
    ensures
        r == (str_at(arr@, i as int) == Some(w@)),
{
    if i < arr.len() {
        match &arr[i] {
            Field::SVal(t) => str_eq(t.as_str(), w),
            _ => false,
        }
    } else {
        false
    }
}

/// Whether a field is one of the segment-kind tokens of a shape
/// array.
pub open spec fn is_token(f: Field) -> bool {
    match f {
        Field::SVal(t) => t@ == "L"@ || t@ == "ARC"@ || t@ == "CARC"@,
        _ => false,
    }
}

/// How many segment-kind tokens stand among the first `k` fields.
pub open spec fn token_count(s: Seq<Field>, k: int) -> int
    decreases k,
{
    if k <= 0 {
        0
    } else {
        token_count(s, k - 1) + if is_token(s[k - 1]) {
            1int
        } else {
            0int
        }
    }
}

fn is_token_exec(f: &Field) -> (r: bool)
    ensures
        r == is_token(*f),
{
    match f {
        Field::SVal(t) => {
            str_eq(t.as_str(), "L") || str_eq(t.as_str(), "ARC") || str_eq(t.as_str(), "CARC")
        },
        _ => false,
    }
}

#[verifier::loop_isolation(false)]
fn count_tokens(arr: &Vec<Field>) -> (r: u64)
    ensures
        r == token_count(arr@, arr@.len() as int),
{
    let mut r: u64 = 0;
    let mut i: usize = 0;
    while i < arr.len()
        invariant
            0 <= i <= arr@.len(),
            0 <= r <= i,
            r == token_count(arr@, i as int),
        decreases arr@.len() - i,
    {
        if is_token_exec(&arr[i]) {
            r = r + 1;
        }
        i += 1;
    }
    r
}

/// The numeric fields of a shape array among its first `k`, in order,
/// skipping position 2 (the segment token's place) and every
/// non-numeric field, each value clamped.
pub open spec fn poly_pts(s: Seq<Field>, k: int) -> Seq<i64>
    decreases k,
{
    if k <= 0 {
        Seq::empty()
    } else {
        let p = poly_pts(s, k - 1);
        if k - 1 == 2 {
            p
        } else {
            match s[k - 1] {
                Field::NVal(v) => p.push(clamp_rec(v)),
                _ => p,
            }
        }
    }
}

#[verifier::loop_isolation(false)]
fn collect_poly_pts(arr: &Vec<Field>) -> (r: Vec<i64>)
    ensures
        r@ == poly_pts(arr@, arr@.len() as int),
        forall|j: int|
            0 <= j < r@.len() ==> -10_000_000_000_000 <= #[trigger] r@[j] <= 10_000_000_000_000,
{
    let mut r: Vec<i64> = Vec::new();
    let mut i: usize = 0;
    while i < arr.len()
        invariant
            0 <= i <= arr@.len(),
            r@ == poly_pts(arr@, i as int),
            forall|j: int|
                0 <= j < r@.len() ==> -10_000_000_000_000 <= #[trigger] r@[j]
                    <= 10_000_000_000_000,
        decreases arr@.len() - i,
    {
        if i != 2 {
            match &arr[i] {
                Field::NVal(v) => {
                    r.push(clamp_rec_exec(*v));
                },
                _ => {},
            }
        }
        i += 1;
    }
    r
}

/// Whether the fields around a segment token at `i` form a complete
/// arc: the two entries before it and the three after it are numbers.
pub open spec fn arc_ok(s: Seq<Field>, i: int) -> bool {
    num_at(s, i - 2) is Some && num_at(s, i - 1) is Some && num_at(s, i + 1) is Some && num_at(
        s,
        i + 2,
    ) is Some && num_at(s, i + 3) is Some
}

/// A fitted point list flattened into alternating x and y values,
/// each Y flipped back into the source orientation: the fit ran in the
/// Y-flipped plane, and the polygon emitter flips every point exactly
/// once, so the chain must carry source-plane points.
pub open spec fn flatten_unflip(ps: Seq<crate::geom::Point>) -> Seq<i64> {
    Seq::new(2 * ps.len(), |j: int|
        if j % 2 == 0 {
            ps[j / 2].x
        } else {
            (-ps[j / 2].y) as i64
        }
    )
}

/// For a decoded circle on a non-cutout layer with a non-negative
/// radius, the emitted end point lies exactly one radius from the
/// emitted centre, in the exact output scale (254 units per millionth
/// of a mil) of the Y-flipped plane — so the circle's boundary passes
/// through the end point the document records.
pub proof fn lemma_circle_end_on_radius(
    shape: Seq<Field>,
    layer: Seq<char>,
    width: i64,
    fill: bool,
    extra: u64,
)
    requires
        shape_spec(shape, layer, width, fill, extra).0 is Circle,
        ({
            let a = shape_spec(shape, layer, width, fill, extra).0;
            a->Circle_ey >= a->Circle_cy
        }),
    ensures
        ({
            let a = shape_spec(shape, layer, width, fill, extra).0;
            a->Circle_ex == a->Circle_cx && crate::geom::dist(
                254 * a->Circle_cx,
                -254 * a->Circle_cy,
                254 * a->Circle_ex,
                -254 * a->Circle_ey,
            ) == 254 * (a->Circle_ey - a->Circle_cy)
        }),
{
    let a = shape_spec(shape, layer, width, fill, extra).0;
    let cx = num_at(shape, 1)->Some_0;
    let cy = num_at(shape, 2)->Some_0;
    let r = num_at(shape, 3)->Some_0;
    assert(a->Circle_cx == cx && a->Circle_cy == cy && a->Circle_ey == cy + r);
    crate::model::lemma_circle_boundary(cx as int, cy as int, r as int);
}

/// The start anchor of the arc at token position `i` of a chain, with
/// Y negated.
pub open spec fn chain_arc_start(s: Seq<Field>, i: int) -> crate::geom::Point {
    crate::geom::Point { x: num_at(s, i - 2)->Some_0, y: (-num_at(s, i - 1)->Some_0) as i64 }
}

/// The end anchor of the arc at token position `i` of a chain, with Y
/// negated.
pub open spec fn chain_arc_end(s: Seq<Field>, i: int) -> crate::geom::Point {
    crate::geom::Point { x: num_at(s, i + 2)->Some_0, y: (-num_at(s, i + 3)->Some_0) as i64 }
}

/// The sweep of the arc at token position `i` of a chain: negated and
/// turned to millionths of a radian.
pub open spec fn chain_arc_angle(s: Seq<Field>, i: int) -> int {
    -crate::geom::rad_of_deg(num_at(s, i + 1)->Some_0 as int)
}

/// The polyline an arc token at `i` contributes to a mixed chain: the
/// arc from the preceding point pair to the following one, fitted with
/// twenty segments in the Y-flipped plane with the sweep negated and
/// turned to radians.  The fit's first point, which repeats the start
/// anchor the preceding straight run already contributed, is dropped,
/// and the fitted Y coordinates are flipped back so every point of the
/// chain is flipped exactly once at emission.
pub open spec fn arc_flat(s: Seq<Field>, i: int) -> Seq<i64> {
    flatten_unflip(crate::arc::fit_arc_spec(chain_arc_start(s, i), chain_arc_end(s, i),
        chain_arc_angle(s, i), 20).skip(1))
}

/// A fitted chain arc ends exactly on its anchor point: whatever the
/// sweep, the last flattened pair is the raw end coordinates the
/// record gave, so no drift accumulates along a chain.  The start
/// anchor is not repeated: the preceding straight run has already
/// contributed it.
pub proof fn lemma_arc_flat_anchors(s: Seq<Field>, i: int)
    requires
        arc_ok(s, i),
    ensures
        arc_flat(s, i).len() >= 2,
        arc_flat(s, i)[arc_flat(s, i).len() - 2] == num_at(s, i + 2)->Some_0,
        arc_flat(s, i)[arc_flat(s, i).len() - 1] == num_at(s, i + 3)->Some_0,
{
    let start = chain_arc_start(s, i);
    let end = chain_arc_end(s, i);
    let a = chain_arc_angle(s, i);
    let pts = crate::arc::fit_arc_spec(start, end, a, 20);
    assert(pts[pts.len() - 1] == end && pts.len() >= 2) by {
        if !crate::arc::fit_degenerate(start, end, a, 20) {
            assert(pts.len() == 21);
        }
    };
    let f = arc_flat(s, i);
    let sk = pts.skip(1);
    let m = sk.len() as int;
    assert(sk[m - 1] == pts[pts.len() - 1]);
    assert((2 * m - 2) / 2 == m - 1 && (2 * m - 1) / 2 == m - 1);
    assert(f[2 * m - 2] == sk[m - 1].x && f[2 * m - 1] == (-sk[m - 1].y) as i64);
}

/// The cursor state machine over a mixed straight/arc chain, from
/// field `i` on: the flat point list it accumulates and the count of
/// unrecognized tokens it skips.  `consuming` says whether a straight
/// run is being consumed.
pub open spec fn chain_spec(s: Seq<Field>, i: int, consuming: bool) -> (Seq<i64>, u64)
    decreases s.len() - i, (if consuming { 1int } else { 0int }),
{
    if i < 0 || i >= s.len() {
        (Seq::empty(), 0u64)
    } else if consuming {
        match s[i] {
            Field::NVal(v) => {
                let r = chain_spec(s, i + 1, true);
                (seq![clamp_rec(v)] + r.0, r.1)
            },
            _ => chain_spec(s, i, false),
        }
    } else {
        match s[i] {
            Field::SVal(t) => {
                if t@ == "L"@ {
                    chain_spec(s, i + 1, true)
                } else if t@ == "ARC"@ || t@ == "CARC"@ {
                    if arc_ok(s, i) {
                        let r = chain_spec(s, i + 3, false);
                        (arc_flat(s, i) + r.0, r.1)
                    } else {
                        let r = chain_spec(s, i + 1, false);
                        (r.0, sat_add(r.1, 1))
                    }
                } else {
                    let r = chain_spec(s, i + 1, false);
                    (r.0, sat_add(r.1, 1))
                }
            },
            _ => chain_spec(s, i + 1, false),
        }
    }
}

/// Every point of a fitted arc lies in the clamped coordinate range.
proof fn lemma_fit_arc_bounds(start: crate::geom::Point, end: crate::geom::Point, a: int, n: int)
    requires
        crate::arc::rec_ok(start.x as int),
        crate::arc::rec_ok(start.y as int),
        crate::arc::rec_ok(end.x as int),
        crate::arc::rec_ok(end.y as int),
    ensures
        forall|j: int|
            0 <= j < crate::arc::fit_arc_spec(start, end, a, n).len()
                ==> crate::geom::coord_ok(
                #[trigger] crate::arc::fit_arc_spec(start, end, a, n)[j].x as int,
            ) && crate::geom::coord_ok(crate::arc::fit_arc_spec(start, end, a, n)[j].y as int),
{
    let s = crate::arc::fit_arc_spec(start, end, a, n);
    assert forall|j: int| 0 <= j < s.len() implies crate::geom::coord_ok(#[trigger] s[j].x as int)
        && crate::geom::coord_ok(s[j].y as int) by {
        if crate::arc::fit_degenerate(start, end, a, n) {
            assert(s == seq![start, end]);
            assert(s[j] == start || s[j] == end);
        } else {
            if j != 0 && j != n {
                let c = crate::arc::fit_center(start, end, a);
                let step = crate::geom::tdiv(a, n);
                let p = crate::arc::arc_point(start.x as int, start.y as int, c.0, c.1, j * step);
                assert(s[j] == (crate::geom::Point { x: p.0, y: p.1 }));
            }
        }
    };
}

/// Walks a mixed straight/arc chain from field `i`, exactly as
/// `chain_spec` states it.
#[verifier::loop_isolation(false)]
fn chain_walk(arr: &Vec<Field>, i: usize, consuming: bool) -> (r: (Vec<i64>, u64))
    ensures
        (r.0@, r.1) == chain_spec(arr@, i as int, consuming),
        forall|j: int|
            0 <= j < r.0@.len() ==> -60_000_000_000_000 <= #[trigger] r.0@[j]
                <= 60_000_000_000_000,
    decreases arr@.len() - i, (if consuming { 1int } else { 0int }),
{
    if i >= arr.len() {
        (Vec::new(), 0)
    } else if consuming {
        match &arr[i] {
            Field::NVal(v) => {
                let first = clamp_rec_exec(*v);
                let mut rec = chain_walk(arr, i + 1, true);
                let mut out: Vec<i64> = Vec::new();
                out.push(first);
                out.append(&mut rec.0);
                proof {
                    assert(out@ =~= seq![clamp_rec(arr@[i as int]->NVal_0)] + chain_spec(
                        arr@, i as int + 1, true).0);
                }
                (out, rec.1)
            },
            _ => chain_walk(arr, i, false),
        }
    } else {
        let is_l = is_str_at(arr, i, "L");
        let is_arc = is_str_at(arr, i, "ARC") || is_str_at(arr, i, "CARC");
        if is_l {
            chain_walk(arr, i + 1, true)
        } else if is_arc {
            let deep_enough = arr.len() - i > 3;
            let sx = if i >= 2 {
                get_num(arr, i - 2)
            } else {
                None
            };
            let sy = if i >= 1 {
                get_num(arr, i - 1)
            } else {
                None
            };
            let (ad, ex, ey) = if deep_enough {
                (get_num(arr, i + 1), get_num(arr, i + 2), get_num(arr, i + 3))
            } else {
                proof {
                    assert(num_at(arr@, i as int + 3) is None);
                }
                (None, None, None)
            };
            if let (Some(sx), Some(sy), Some(ad), Some(ex), Some(ey)) = (sx, sy, ad, ex, ey) {
                proof {
                    assert(arc_ok(arr@, i as int));
                }
                let start = crate::geom::Point { x: sx, y: -sy };
                let endp = crate::geom::Point { x: ex, y: -ey };
                let angle = -crate::geom::deg_to_rad(ad);
                let pts = crate::arc::fit_arc_with_lines(start, endp, angle, 20);
                let ghost spec_pts = crate::arc::fit_arc_spec(start, endp, angle as int, 20);
                proof {
                    lemma_fit_arc_bounds(start, endp, angle as int, 20);
                }
                let mut out: Vec<i64> = Vec::new();
                let mut k: usize = 1;
                while k < pts.len()
                    invariant
                        1 <= k <= pts@.len(),
                        pts@.len() >= 2,
                        out@.len() == 2 * (k - 1),
                        forall|j: int|
                            0 <= j < out@.len() ==> out@[j] == flatten_unflip(spec_pts.skip(1))[j],
                        forall|j: int|
                            0 <= j < out@.len() ==> -60_000_000_000_000 <= #[trigger] out@[j]
                                <= 60_000_000_000_000,
                    decreases pts@.len() - k,
                {
                    let p = pts[k];
                    out.push(p.x);
                    out.push(-p.y);
                    k += 1;
                }
                proof {
                    assert(out@ =~= flatten_unflip(spec_pts.skip(1)));
                }
                let mut rec = chain_walk(arr, i + 3, false);
                out.append(&mut rec.0);
                proof {
                    assert(out@ =~= arc_flat(arr@, i as int) + chain_spec(arr@, i as int + 3,
                        false).0);
                }
                (out, rec.1)
            } else {
                proof {
                    assert(!arc_ok(arr@, i as int));
                }
                let rec = chain_walk(arr, i + 1, false);
                (rec.0, sat_add_exec(rec.1, 1))
            }
        } else {
            match &arr[i] {
                Field::SVal(_) => {
                    let rec = chain_walk(arr, i + 1, false);
                    (rec.0, sat_add_exec(rec.1, 1))
                },
                _ => chain_walk(arr, i + 1, false),
            }
        }
    }
}

/// Saturating addition: the unparsed count never wraps.
pub open spec fn sat_add(a: u64, b: u64) -> u64 {
    if a + b <= u64::MAX {
        (a + b) as u64
    } else {
        u64::MAX
    }
}

fn sat_add_exec(a: u64, b: u64) -> (r: u64)
    ensures
        r == sat_add(a, b),
{
    if a <= u64::MAX - b {
        a + b
    } else {
        u64::MAX
    }
}

/// What one decoded record asks the document model to do.
pub enum Action {
    /// Nothing to append: a skipped, unknown or malformed record.
    Skip,
    /// A circle outline or disc.
    Circle { cx: i64, cy: i64, ex: i64, ey: i64, layer: String, width: i64, fill: bool },
    /// A plated/unplated hole: a circle on the reserved combination
    /// layer.
    CircleHole { cx: i64, cy: i64, r: i64 },
    /// A polygon over a flat coordinate list.
    Polygon { pts: Vec<i64>, layer: String, width: i64, fill: bool },
    /// A two-point arc with a signed sweep in millionths of a degree.
    Arc { sx: i64, sy: i64, angle: i64, ex: i64, ey: i64, layer: String, width: i64 },
    /// A surface-mount circular pad.
    PadCircle { name: String, cx: i64, cy: i64, r: i64, mask: i64, paste: i64 },
    /// A surface-mount rectangular pad.
    PadRect { name: String, cx: i64, cy: i64, angle: i64, w: i64, h: i64, mask: i64, paste: i64 },
    /// A surface-mount oval pad.
    PadOval { name: String, cx: i64, cy: i64, rx: i64, ry: i64, angle: i64, mask: i64, paste: i64 },
    /// A custom polygon pad.
    PadPoly { name: String, cx: i64, cy: i64, pts: Vec<i64>, mask: i64, paste: i64 },
    /// A through-hole circular pad.
    PadHole { name: String, cx: i64, cy: i64, r: i64, drill: i64 },
    /// A through-hole oval pad with an oval drill.
    PadHoleOval {
        name: String,
        cx: i64,
        cy: i64,
        angle: i64,
        w: i64,
        h: i64,
        dx: i64,
        dy: i64,
    },
    /// A through-hole rectangular pad.
    PadHoleRect { name: String, cx: i64, cy: i64, w: i64, h: i64, angle: i64, drill: i64 },
}

/// The mathematical form of an action: views in place of owned
/// values.
pub enum ActionS {
    Skip,
    Circle { cx: i64, cy: i64, ex: i64, ey: i64, layer: Seq<char>, width: i64, fill: bool },
    CircleHole { cx: i64, cy: i64, r: i64 },
    Polygon { pts: Seq<i64>, layer: Seq<char>, width: i64, fill: bool },
    Arc { sx: i64, sy: i64, angle: i64, ex: i64, ey: i64, layer: Seq<char>, width: i64 },
    PadCircle { name: Seq<char>, cx: i64, cy: i64, r: i64, mask: i64, paste: i64 },
    PadRect {
        name: Seq<char>,
        cx: i64,
        cy: i64,
        angle: i64,
        w: i64,
        h: i64,
        mask: i64,
        paste: i64,
    },
    PadOval {
        name: Seq<char>,
        cx: i64,
        cy: i64,
        rx: i64,
        ry: i64,
        angle: i64,
        mask: i64,
        paste: i64,
    },
    PadPoly { name: Seq<char>, cx: i64, cy: i64, pts: Seq<i64>, mask: i64, paste: i64 },
    PadHole { name: Seq<char>, cx: i64, cy: i64, r: i64, drill: i64 },
    PadHoleOval {
        name: Seq<char>,
        cx: i64,
        cy: i64,
        angle: i64,
        w: i64,
        h: i64,
        dx: i64,
        dy: i64,
    },
    PadHoleRect {
        name: Seq<char>,
        cx: i64,
        cy: i64,
        w: i64,
        h: i64,
        angle: i64,
        drill: i64,
    },
}

impl View for Action {
    type V = ActionS;

    open spec fn view(&self) -> ActionS {
        match self {
            Action::Skip => ActionS::Skip,
            Action::Circle { cx, cy, ex, ey, layer, width, fill } => ActionS::Circle {
                cx: *cx,
                cy: *cy,
                ex: *ex,
                ey: *ey,
                layer: layer@,
                width: *width,
                fill: *fill,
            },
            Action::CircleHole { cx, cy, r } => ActionS::CircleHole { cx: *cx, cy: *cy, r: *r },
            Action::Polygon { pts, layer, width, fill } => ActionS::Polygon {
                pts: pts@,
                layer: layer@,
                width: *width,
                fill: *fill,
            },
            Action::Arc { sx, sy, angle, ex, ey, layer, width } => ActionS::Arc {
                sx: *sx,
                sy: *sy,
                angle: *angle,
                ex: *ex,
                ey: *ey,
                layer: layer@,
                width: *width,
            },
            Action::PadCircle { name, cx, cy, r, mask, paste } => ActionS::PadCircle {
                name: name@,
                cx: *cx,
                cy: *cy,
                r: *r,
                mask: *mask,
                paste: *paste,
            },
            Action::PadRect { name, cx, cy, angle, w, h, mask, paste } => ActionS::PadRect {
                name: name@,
                cx: *cx,
                cy: *cy,
                angle: *angle,
                w: *w,
                h: *h,
                mask: *mask,
                paste: *paste,
            },
            Action::PadOval { name, cx, cy, rx, ry, angle, mask, paste } => ActionS::PadOval {
                name: name@,
                cx: *cx,
                cy: *cy,
                rx: *rx,
                ry: *ry,
                angle: *angle,
                mask: *mask,
                paste: *paste,
            },
            Action::PadPoly { name, cx, cy, pts, mask, paste } => ActionS::PadPoly {
                name: name@,
                cx: *cx,
                cy: *cy,
                pts: pts@,
                mask: *mask,
                paste: *paste,
            },
            Action::PadHole { name, cx, cy, r, drill } => ActionS::PadHole {
                name: name@,
                cx: *cx,
                cy: *cy,
                r: *r,
                drill: *drill,
            },
            Action::PadHoleOval { name, cx, cy, angle, w, h, dx, dy } => ActionS::PadHoleOval {
                name: name@,
                cx: *cx,
                cy: *cy,
                angle: *angle,
                w: *w,
                h: *h,
                dx: *dx,
                dy: *dy,
            },
            Action::PadHoleRect { name, cx, cy, w, h, angle, drill } => ActionS::PadHoleRect {
                name: name@,
                cx: *cx,
                cy: *cy,
                w: *w,
                h: *h,
                angle: *angle,
                drill: *drill,
            },
        }
    }
}

/// Bounds that every decoded action's numbers respect, from clamping
/// at extraction: single fields stay in the clamped range, the circle
/// end point within twice of it, chain points within the fitted range.
pub open spec fn in1(v: i64) -> bool {
    -10_000_000_000_000 <= v <= 10_000_000_000_000
}

pub open spec fn in2(v: i64) -> bool {
    -20_000_000_000_000 <= v <= 20_000_000_000_000
}

pub open spec fn in6(v: i64) -> bool {
    -60_000_000_000_000 <= v <= 60_000_000_000_000
}

pub open spec fn action_ok(a: Action) -> bool {
    match a {
        Action::Skip => true,
        Action::Circle { cx, cy, ex, ey, width, .. } => in1(cx) && in1(cy) && in2(ex) && in2(ey)
            && in1(width),
        Action::CircleHole { cx, cy, r } => in1(cx) && in1(cy) && in1(r),
        Action::Polygon { pts, width, .. } => in1(width) && forall|j: int|
            0 <= j < pts@.len() ==> in6(#[trigger] pts@[j]),
        Action::Arc { sx, sy, angle, ex, ey, width, .. } => in1(sx) && in1(sy) && in1(angle)
            && in1(ex) && in1(ey) && in1(width),
        Action::PadCircle { cx, cy, r, mask, paste, .. } => in1(cx) && in1(cy) && in1(r) && in1(
            mask,
        ) && in1(paste),
        Action::PadRect { cx, cy, angle, w, h, mask, paste, .. } => in1(cx) && in1(cy) && in1(
            angle,
        ) && in1(w) && in1(h) && in1(mask) && in1(paste),
        Action::PadOval { cx, cy, rx, ry, angle, mask, paste, .. } => in1(cx) && in1(cy) && in1(
            rx,
        ) && in1(ry) && in1(angle) && in1(mask) && in1(paste),
        Action::PadPoly { cx, cy, pts, mask, paste, .. } => in1(cx) && in1(cy) && in1(mask) && in1(
            paste,
        ) && forall|j: int| 0 <= j < pts@.len() ==> in1(#[trigger] pts@[j]),
        Action::PadHole { cx, cy, r, drill, .. } => in1(cx) && in1(cy) && in1(r) && in1(drill),
        Action::PadHoleOval { cx, cy, angle, w, h, dx, dy, .. } => in1(cx) && in1(cy) && in1(angle)
            && in1(w) && in1(h) && in1(dx) && in1(dy),
        Action::PadHoleRect { cx, cy, w, h, angle, drill, .. } => in1(cx) && in1(cy) && in1(w)
            && in1(h) && in1(angle) && in1(drill),
    }
}

/// The shape payload of a graphic record: at offset 7 for a filled
/// record, 6 otherwise.  The payload may be the shape array directly,
/// or a wrapper array around one or more shape arrays; a wrapper
/// longer than one counts one unparsed finding while the first
/// sub-shape is still decoded.
pub open spec fn payload_of(fields: Seq<Field>, fill: bool) -> Option<(Seq<Field>, u64)> {
    let idx: int = if fill {
        7
    } else {
        6
    };
    match arr_at(fields, idx) {
        Some(outer) => if outer.len() >= 1 && outer[0] is AVal {
            Some((outer[0]->AVal_0@, if outer.len() > 1 {
                1u64
            } else {
                0u64
            }))
        } else {
            Some((outer, 0u64))
        },
        None => None,
    }
}

/// One finding for a polygon the model will explode into lines: an
/// unfilled polygon on the front silkscreen is still emitted, but the
/// explosion is a policy fidelity warning and is tallied into the
/// unparsed count, like the ambiguous wrapped payload.
pub open spec fn silk_tally(layer: Seq<char>, fill: bool) -> u64 {
    if layer == "F.SilkS"@ && !fill {
        1u64
    } else {
        0u64
    }
}

/// Interpretation of one shape array on a resolved layer: the action
/// and the unparsed count, `extra` findings already carried in.
pub open spec fn shape_spec(
    shape: Seq<Field>,
    layer: Seq<char>,
    width: i64,
    fill: bool,
    extra: u64,
) -> (ActionS, u64) {
    if shape.len() == 0 {
        (ActionS::Skip, sat_add(extra, 1))
    } else if str_at(shape, 0) == Some("CIRCLE"@) {
        if num_at(shape, 1) is Some && num_at(shape, 2) is Some && num_at(shape, 3) is Some {
            let cx = num_at(shape, 1)->Some_0;
            let cy = num_at(shape, 2)->Some_0;
            let r = num_at(shape, 3)->Some_0;
            let extra2 = if shape.len() > 4 {
                sat_add(extra, 1)
            } else {
                extra
            };
            if layer == crate::layers::cutout_layer() {
                (ActionS::CircleHole { cx, cy, r }, extra2)
            } else {
                (
                    ActionS::Circle {
                        cx,
                        cy,
                        ex: cx,
                        ey: (cy + r) as i64,
                        layer,
                        width,
                        fill,
                    },
                    extra2,
                )
            }
        } else {
            (ActionS::Skip, sat_add(extra, 1))
        }
    } else {
        let cnt = token_count(shape, shape.len() as int);
        if cnt < 1 {
            (ActionS::Skip, sat_add(extra, 1))
        } else if cnt == 1 {
            match str_at(shape, 2) {
                Some(s2) => if s2 == "L"@ {
                    (
                        ActionS::Polygon {
                            pts: poly_pts(shape, shape.len() as int),
                            layer,
                            width,
                            fill,
                        },
                        sat_add(extra, silk_tally(layer, fill)),
                    )
                } else if s2 == "ARC"@ || s2 == "CARC"@ {
                    if num_at(shape, 0) is Some && num_at(shape, 1) is Some && num_at(shape, 3)
                        is Some && num_at(shape, 4) is Some && num_at(shape, 5) is Some {
                        (
                            ActionS::Arc {
                                sx: num_at(shape, 0)->Some_0,
                                sy: num_at(shape, 1)->Some_0,
                                angle: num_at(shape, 3)->Some_0,
                                ex: num_at(shape, 4)->Some_0,
                                ey: num_at(shape, 5)->Some_0,
                                layer,
                                width,
                            },
                            extra,
                        )
                    } else {
                        (ActionS::Skip, sat_add(extra, 1))
                    }
                } else {
                    (ActionS::Skip, extra)
                },
                None => (ActionS::Skip, sat_add(extra, 1)),
            }
        } else {
            let c = chain_spec(shape, 2, false);
            (
                ActionS::Polygon { pts: c.0, layer, width, fill },
                sat_add(sat_add(extra, c.1), silk_tally(layer, fill)),
            )
        }
    }
}

/// Decoding of a graphic record: resolve the layer, read the stroke
/// width, find the shape payload, interpret the shape.
pub open spec fn graphic_spec(fields: Seq<Field>, fill: bool) -> (ActionS, u64) {
    let lid = whole_at_or0(fields, 4);
    if !(0 <= 4 < fields.len() && fields[4] is NVal && fields[4]->NVal_0 >= 0
        && fields[4]->NVal_0 % 1000000 == 0) {
        (ActionS::Skip, 1u64)
    } else {
        match crate::layers::layer_name_spec(lid as int) {
            None => (ActionS::Skip, 1u64),
            Some(layer) => match num_at(fields, 5) {
                None => (ActionS::Skip, 1u64),
                Some(width) => match payload_of(fields, fill) {
                    None => (ActionS::Skip, 1u64),
                    Some((shape, extra)) => shape_spec(shape, layer, width, fill, extra),
                },
            },
        }
    }
}

/// Decoding of a pad record with a non-empty drill shape: a
/// through-hole pad.
pub open spec fn pad_hole_spec(
    fields: Seq<Field>,
    name: Seq<char>,
    cx: i64,
    cy: i64,
    angle: i64,
    ps: Seq<Field>,
    drill: Seq<Field>,
) -> (ActionS, u64) {
    let p1 = num_or(ps, 1, 0);
    let p2 = num_or(ps, 2, 0);
    let d1 = num_or(drill, 1, 0);
    let d2 = num_or(drill, 2, 0);
    if str_at(drill, 0) == Some("ROUND"@) {
        if str_at(ps, 0) == Some("ELLIPSE"@) {
            (ActionS::PadHole { name, cx, cy, r: p1, drill: d1 }, 0u64)
        } else if str_at(ps, 0) == Some("RECT"@) {
            (ActionS::PadHoleRect { name, cx, cy, w: p1, h: p2, angle, drill: d1 }, 0u64)
        } else if str_at(ps, 0) == Some("OVAL"@) {
            (ActionS::PadHoleOval { name, cx, cy, angle, w: p1, h: p2, dx: d1, dy: d1 }, 0u64)
        } else {
            (ActionS::Skip, 0u64)
        }
    } else if str_at(drill, 0) == Some("SLOT"@) {
        let orient = whole_at_or0(fields, 14);
        let dw = if (orient / 90) % 2 == 1 {
            d2
        } else {
            d1
        };
        let dh = if (orient / 90) % 2 == 1 {
            d1
        } else {
            d2
        };
        if str_at(ps, 0) == Some("ELLIPSE"@) {
            (ActionS::Skip, 0u64)
        } else if str_at(ps, 0) == Some("RECT"@) {
            (ActionS::Skip, 0u64)
        } else if str_at(ps, 0) == Some("OVAL"@) {
            (ActionS::PadHoleOval { name, cx, cy, angle, w: p1, h: p2, dx: dw, dy: dh }, 0u64)
        } else {
            (ActionS::Skip, 1u64)
        }
    } else {
        (ActionS::Skip, 1u64)
    }
}

/// Decoding of a pad record with no drill shape: a surface-mount pad.
/// Missing margin fields default to 2 units of solder-mask margin and
/// no paste margin.
pub open spec fn pad_smd_spec(
    fields: Seq<Field>,
    name: Seq<char>,
    cx: i64,
    cy: i64,
    angle: i64,
    ps: Seq<Field>,
) -> (ActionS, u64) {
    let mask = num_or(fields, 18, 2_000_000);
    let paste = num_or(fields, 20, 0);
    let p1 = num_or(ps, 1, 0);
    let p2 = num_or(ps, 2, 0);
    if str_at(ps, 0) == Some("ELLIPSE"@) {
        (ActionS::PadCircle { name, cx, cy, r: p1, mask, paste }, 0u64)
    } else if str_at(ps, 0) == Some("RECT"@) {
        (ActionS::PadRect { name, cx, cy, angle, w: p1, h: p2, mask, paste }, 0u64)
    } else if str_at(ps, 0) == Some("OVAL"@) {
        let orient = whole_at_or0(fields, 14);
        let rx = if (orient / 90) % 2 == 1 {
            p1
        } else {
            p2
        };
        let ry = if (orient / 90) % 2 == 1 {
            p2
        } else {
            p1
        };
        (ActionS::PadOval { name, cx, cy, rx, ry, angle, mask, paste }, 0u64)
    } else if str_at(ps, 0) == Some("POLY"@) {
        match arr_at(ps, 1) {
            Some(pp) => (
                ActionS::PadPoly { name, cx, cy, pts: poly_pts(pp, pp.len() as int), mask, paste },
                0u64,
            ),
            None => (ActionS::Skip, 1u64),
        }
    } else {
        (ActionS::Skip, 1u64)
    }
}

/// Decoding of a pad record: name at offset 5, centre at 6 and 7,
/// rotation at 8, drill shape or null at 9, pad shape array at 10.  A
/// missing pad-shape array is a hard skip.
pub open spec fn pad_spec(fields: Seq<Field>) -> (ActionS, u64) {
    if fields.len() < 11 {
        (ActionS::Skip, 1u64)
    } else {
        let name = match str_at(fields, 5) {
            Some(s) => s,
            None => ""@,
        };
        let cx = num_or(fields, 6, 0);
        let cy = num_or(fields, 7, 0);
        let angle = num_or(fields, 8, 0);
        match arr_at(fields, 10) {
            None => (ActionS::Skip, 1u64),
            Some(ps) => if ps.len() == 0 {
                (ActionS::Skip, 1u64)
            } else {
                let drill = match arr_at(fields, 9) {
                    Some(d) => d,
                    None => Seq::empty(),
                };
                if drill.len() > 0 {
                    pad_hole_spec(fields, name, cx, cy, angle, ps, drill)
                } else {
                    pad_smd_spec(fields, name, cx, cy, angle, ps)
                }
            },
        }
    }
}

/// Decoding of one record: graphic records dispatch on the `FILL` and
/// `POLY` tags, pads on `PAD`; any other string tag is skipped without
/// a finding, a non-string tag counts as malformed.  Records shorter
/// than six fields are skipped silently.
pub open spec fn decode_spec(fields: Seq<Field>) -> (ActionS, u64) {
    if fields.len() < 6 {
        (ActionS::Skip, 0u64)
    } else {
        match fields[0] {
            Field::SVal(t) => if t@ == "FILL"@ || t@ == "POLY"@ {
                graphic_spec(fields, t@ == "FILL"@)
            } else if t@ == "PAD"@ {
                pad_spec(fields)
            } else {
                (ActionS::Skip, 0u64)
            },
            _ => (ActionS::Skip, 1u64),
        }
    }
}

/// Interprets one shape array, as `shape_spec` states it.
fn interpret_shape(shape: &Vec<Field>, layer: String, width: i64, fill: bool, extra: u64) -> (r: (
    Action,
    u64,
))
    requires
        -10_000_000_000_000 <= width <= 10_000_000_000_000,
    ensures
        (r.0@, r.1) == shape_spec(shape@, layer@, width, fill, extra),
        action_ok(r.0),
{
    if shape.len() == 0 {
        return (Action::Skip, sat_add_exec(extra, 1));
    }
    if is_str_at(shape, 0, "CIRCLE") {
        let c1 = get_num(shape, 1);
        let c2 = get_num(shape, 2);
        let c3 = get_num(shape, 3);
        if let (Some(cx), Some(cy), Some(r)) = (c1, c2, c3) {
            let extra2 = if shape.len() > 4 {
                sat_add_exec(extra, 1)
            } else {
                extra
            };
            if str_eq(layer.as_str(), "F&B.Cu *.Mask") {
                (Action::CircleHole { cx, cy, r }, extra2)
            } else {
                (Action::Circle { cx, cy, ex: cx, ey: cy + r, layer, width, fill }, extra2)
            }
        } else {
            (Action::Skip, sat_add_exec(extra, 1))
        }
    } else {
        let cnt = count_tokens(shape);
        if cnt < 1 {
            (Action::Skip, sat_add_exec(extra, 1))
        } else if cnt == 1 {
            if 2 < shape.len() {
                match &shape[2] {
                    Field::SVal(s2) => {
                        if str_eq(s2.as_str(), "L") {
                            let silk = if str_eq(layer.as_str(), "F.SilkS") && !fill {
                                1
                            } else {
                                0
                            };
                            let pts = collect_poly_pts(shape);
                            (
                                Action::Polygon { pts, layer, width, fill },
                                sat_add_exec(extra, silk),
                            )
                        } else if str_eq(s2.as_str(), "ARC") || str_eq(s2.as_str(), "CARC") {
                            let n0 = get_num(shape, 0);
                            let n1 = get_num(shape, 1);
                            let n3 = get_num(shape, 3);
                            let n4 = get_num(shape, 4);
                            let n5 = get_num(shape, 5);
                            if let (Some(sx), Some(sy), Some(ad), Some(ex), Some(ey)) = (
                                n0,
                                n1,
                                n3,
                                n4,
                                n5,
                            ) {
                                (Action::Arc { sx, sy, angle: ad, ex, ey, layer, width }, extra)
                            } else {
                                (Action::Skip, sat_add_exec(extra, 1))
                            }
                        } else {
                            (Action::Skip, extra)
                        }
                    },
                    _ => (Action::Skip, sat_add_exec(extra, 1)),
                }
            } else {
                (Action::Skip, sat_add_exec(extra, 1))
            }
        } else {
            let silk = if str_eq(layer.as_str(), "F.SilkS") && !fill {
                1
            } else {
                0
            };
            let c = chain_walk(shape, 2, false);
            (
                Action::Polygon { pts: c.0, layer, width, fill },
                sat_add_exec(sat_add_exec(extra, c.1), silk),
            )
        }
    }
}

/// Decodes a graphic record, as `graphic_spec` states it.
fn decode_graphic(fields: &Vec<Field>, fill: bool) -> (r: (Action, u64))
    requires
        fields@.len() >= 6,
    ensures
        (r.0@, r.1) == graphic_spec(fields@, fill),
        action_ok(r.0),
{
    let lid: i64 = match &fields[4] {
        Field::NVal(v) => {
            let v = *v;
            if v >= 0 && v % 1000000 == 0 {
                v / 1000000
            } else {
                return (Action::Skip, 1);
            }
        },
        _ => {
            return (Action::Skip, 1);
        },
    };
    let layer = match crate::layers::layer_name(lid as u64) {
        Some(l) => l,
        None => {
            return (Action::Skip, 1);
        },
    };
    let width = match get_num(fields, 5) {
        Some(w) => w,
        None => {
            return (Action::Skip, 1);
        },
    };
    let idx: usize = if fill {
        7
    } else {
        6
    };
    if idx < fields.len() {
        match &fields[idx] {
            Field::AVal(outer) => {
                if outer.len() >= 1 {
                    match &outer[0] {
                        Field::AVal(inner) => {
                            let extra: u64 = if outer.len() > 1 {
                                1
                            } else {
                                0
                            };
                            interpret_shape(inner, layer, width, fill, extra)
                        },
                        _ => interpret_shape(outer, layer, width, fill, 0),
                    }
                } else {
                    interpret_shape(outer, layer, width, fill, 0)
                }
            },
            _ => (Action::Skip, 1),
        }
    } else {
        (Action::Skip, 1)
    }
}

/// Decodes a through-hole pad, as `pad_hole_spec` states it.
fn decode_pad_hole(
    fields: &Vec<Field>,
    name: String,
    cx: i64,
    cy: i64,
    angle: i64,
    ps: &Vec<Field>,
    drill: &Vec<Field>,
) -> (r: (Action, u64))
    requires
        -10_000_000_000_000 <= cx <= 10_000_000_000_000,
        -10_000_000_000_000 <= cy <= 10_000_000_000_000,
        -10_000_000_000_000 <= angle <= 10_000_000_000_000,
    ensures
        (r.0@, r.1) == pad_hole_spec(fields@, name@, cx, cy, angle, ps@, drill@),
        action_ok(r.0),
{
    let p1 = get_num_or(ps, 1, 0);
    let p2 = get_num_or(ps, 2, 0);
    let d1 = get_num_or(drill, 1, 0);
    let d2 = get_num_or(drill, 2, 0);
    if is_str_at(drill, 0, "ROUND") {
        if is_str_at(ps, 0, "ELLIPSE") {
            (Action::PadHole { name, cx, cy, r: p1, drill: d1 }, 0)
        } else if is_str_at(ps, 0, "RECT") {
            (Action::PadHoleRect { name, cx, cy, w: p1, h: p2, angle, drill: d1 }, 0)
        } else if is_str_at(ps, 0, "OVAL") {
            (Action::PadHoleOval { name, cx, cy, angle, w: p1, h: p2, dx: d1, dy: d1 }, 0)
        } else {
            (Action::Skip, 0)
        }
    } else if is_str_at(drill, 0, "SLOT") {
        let orient = get_whole_or0(fields, 14);
        let flip = (orient / 90) % 2 == 1;
        let dw = if flip {
            d2
        } else {
            d1
        };
        let dh = if flip {
            d1
        } else {
            d2
        };
        if is_str_at(ps, 0, "ELLIPSE") {
            (Action::Skip, 0)
        } else if is_str_at(ps, 0, "RECT") {
            (Action::Skip, 0)
        } else if is_str_at(ps, 0, "OVAL") {
            (Action::PadHoleOval { name, cx, cy, angle, w: p1, h: p2, dx: dw, dy: dh }, 0)
        } else {
            (Action::Skip, 1)
        }
    } else {
        (Action::Skip, 1)
    }
}

/// Decodes a surface-mount pad, as `pad_smd_spec` states it.
fn decode_pad_smd(
    fields: &Vec<Field>,
    name: String,
    cx: i64,
    cy: i64,
    angle: i64,
    ps: &Vec<Field>,
) -> (r: (Action, u64))
    requires
        -10_000_000_000_000 <= cx <= 10_000_000_000_000,
        -10_000_000_000_000 <= cy <= 10_000_000_000_000,
        -10_000_000_000_000 <= angle <= 10_000_000_000_000,
    ensures
        (r.0@, r.1) == pad_smd_spec(fields@, name@, cx, cy, angle, ps@),
        action_ok(r.0),
{
    let mask = get_num_or(fields, 18, 2_000_000);
    let paste = get_num_or(fields, 20, 0);
    let p1 = get_num_or(ps, 1, 0);
    let p2 = get_num_or(ps, 2, 0);
    if is_str_at(ps, 0, "ELLIPSE") {
        (Action::PadCircle { name, cx, cy, r: p1, mask, paste }, 0)
    } else if is_str_at(ps, 0, "RECT") {
        (Action::PadRect { name, cx, cy, angle, w: p1, h: p2, mask, paste }, 0)
    } else if is_str_at(ps, 0, "OVAL") {
        let orient = get_whole_or0(fields, 14);
        let flip = (orient / 90) % 2 == 1;
        let rx = if flip {
            p1
        } else {
            p2
        };
        let ry = if flip {
            p2
        } else {
            p1
        };
        (Action::PadOval { name, cx, cy, rx, ry, angle, mask, paste }, 0)
    } else if is_str_at(ps, 0, "POLY") {
        if 1 < ps.len() {
            match &ps[1] {
                Field::AVal(pp) => {
                    let pts = collect_poly_pts(pp);
                    (Action::PadPoly { name, cx, cy, pts, mask, paste }, 0)
                },
                _ => (Action::Skip, 1),
            }
        } else {
            (Action::Skip, 1)
        }
    } else {
        (Action::Skip, 1)
    }
}

/// Decodes a pad record, as `pad_spec` states it.
fn decode_pad(fields: &Vec<Field>) -> (r: (Action, u64))
    ensures
        (r.0@, r.1) == pad_spec(fields@),
        action_ok(r.0),
{
    if fields.len() < 11 {
        return (Action::Skip, 1);
    }
    let name: String = match &fields[5] {
        Field::SVal(s) => s.clone(),
        _ => {
            let e = String::new();
            proof {
                reveal_strlit("");
                assert(e@ =~= ""@);
            }
            e
        },
    };
    let cx = get_num_or(fields, 6, 0);
    let cy = get_num_or(fields, 7, 0);
    let angle = get_num_or(fields, 8, 0);
    match &fields[10] {
        Field::AVal(ps) => {
            if ps.len() == 0 {
                return (Action::Skip, 1);
            }
            let use_drill = match &fields[9] {
                Field::AVal(d) => d.len() > 0,
                _ => false,
            };
            if use_drill {
                match &fields[9] {
                    Field::AVal(d) => decode_pad_hole(fields, name, cx, cy, angle, ps, d),
                    _ => (Action::Skip, 1),
                }
            } else {
                proof {
                    let drill = match arr_at(fields@, 9) {
                        Some(d) => d,
                        None => Seq::<Field>::empty(),
                    };
                    assert(drill.len() == 0);
                }
                decode_pad_smd(fields, name, cx, cy, angle, ps)
            }
        },
        _ => (Action::Skip, 1),
    }
}

/// Decodes one record into the action it asks of the document and the
/// number of unparsed findings, as `decode_spec` states it.
pub fn decode_record(fields: &Vec<Field>) -> (r: (Action, u64))
    ensures
        r.0@ == decode_spec(fields@).0,
        r.1 == decode_spec(fields@).1,
        action_ok(r.0),
{
    if fields.len() < 6 {
        return (Action::Skip, 0);
    }
    match &fields[0] {
        Field::SVal(t) => {
            let is_fill = str_eq(t.as_str(), "FILL");
            let is_poly = str_eq(t.as_str(), "POLY");
            if is_fill || is_poly {
                decode_graphic(fields, is_fill)
            } else if str_eq(t.as_str(), "PAD") {
                decode_pad(fields)
            } else {
                (Action::Skip, 0)
            }
        },
        _ => (Action::Skip, 1),
    }
}

proof fn lemma_poly_pts_len(shape: Seq<Field>, k: int)
    requires
        0 <= k <= shape.len(),
        forall|i: int| 0 <= i < shape.len() && i != 2 ==> shape[i] is NVal,
    ensures
        poly_pts(shape, k).len() == if k <= 2 {
            k
        } else {
            k - 1
        },
    decreases k,
{
    if k > 0 {
        lemma_poly_pts_len(shape, k - 1);
    }
}

/// For a record whose shape array holds exactly one segment token, an
/// `L` at position 2, and whose other fields are all numbers, the
/// decoded polygon holds every field but the token — so its point
/// count, in coordinate pairs, is (array length − 1) / 2.
pub proof fn lemma_simple_polygon_count(
    shape: Seq<Field>,
    layer: Seq<char>,
    width: i64,
    fill: bool,
    extra: u64,
)
    requires
        shape.len() >= 3,
        str_at(shape, 2) == Some("L"@),
        token_count(shape, shape.len() as int) == 1,
        forall|i: int| 0 <= i < shape.len() && i != 2 ==> shape[i] is NVal,
    ensures
        shape_spec(shape, layer, width, fill, extra).0 == (ActionS::Polygon {
            pts: poly_pts(shape, shape.len() as int),
            layer,
            width,
            fill,
        }),
        poly_pts(shape, shape.len() as int).len() == shape.len() - 1,
{
    lemma_poly_pts_len(shape, shape.len() as int);
    assert(shape[0] is NVal);
    assert(str_at(shape, 0) != Some("CIRCLE"@));
}

/// The number of values the straight runs of a chain contribute, from
/// field `i` on.
pub open spec fn chain_run_vals(s: Seq<Field>, i: int, consuming: bool) -> int
    decreases s.len() - i, (if consuming { 1int } else { 0int }),
{
    if i < 0 || i >= s.len() {
        0
    } else if consuming {
        match s[i] {
            Field::NVal(_) => 1 + chain_run_vals(s, i + 1, true),
            _ => chain_run_vals(s, i, false),
        }
    } else {
        match s[i] {
            Field::SVal(t) => if t@ == "L"@ {
                chain_run_vals(s, i + 1, true)
            } else if t@ == "ARC"@ || t@ == "CARC"@ {
                if arc_ok(s, i) {
                    chain_run_vals(s, i + 3, false)
                } else {
                    chain_run_vals(s, i + 1, false)
                }
            } else {
                chain_run_vals(s, i + 1, false)
            },
            _ => chain_run_vals(s, i + 1, false),
        }
    }
}

/// The number of complete arc tokens a chain walk meets from field
/// `i` on.
pub open spec fn chain_arc_tokens(s: Seq<Field>, i: int, consuming: bool) -> int
    decreases s.len() - i, (if consuming { 1int } else { 0int }),
{
    if i < 0 || i >= s.len() {
        0
    } else if consuming {
        match s[i] {
            Field::NVal(_) => chain_arc_tokens(s, i + 1, true),
            _ => chain_arc_tokens(s, i, false),
        }
    } else {
        match s[i] {
            Field::SVal(t) => if t@ == "L"@ {
                chain_arc_tokens(s, i + 1, true)
            } else if t@ == "ARC"@ || t@ == "CARC"@ {
                if arc_ok(s, i) {
                    1 + chain_arc_tokens(s, i + 3, false)
                } else {
                    chain_arc_tokens(s, i + 1, false)
                }
            } else {
                chain_arc_tokens(s, i + 1, false)
            },
            _ => chain_arc_tokens(s, i + 1, false),
        }
    }
}

/// Every complete arc the chain walk meets is non-degenerate: its
/// anchors differ, its sweep survives the conversion to radians, and
/// its half-sweep sine is positive.
pub open spec fn chain_arcs_fine(s: Seq<Field>, i: int, consuming: bool) -> bool
    decreases s.len() - i, (if consuming { 1int } else { 0int }),
{
    if i < 0 || i >= s.len() {
        true
    } else if consuming {
        match s[i] {
            Field::NVal(_) => chain_arcs_fine(s, i + 1, true),
            _ => chain_arcs_fine(s, i, false),
        }
    } else {
        match s[i] {
            Field::SVal(t) => if t@ == "L"@ {
                chain_arcs_fine(s, i + 1, true)
            } else if t@ == "ARC"@ || t@ == "CARC"@ {
                if arc_ok(s, i) {
                    !crate::arc::fit_degenerate(chain_arc_start(s, i), chain_arc_end(s, i),
                        chain_arc_angle(s, i), 20) && chain_arcs_fine(s, i + 3, false)
                } else {
                    chain_arcs_fine(s, i + 1, false)
                }
            } else {
                chain_arcs_fine(s, i + 1, false)
            },
            _ => chain_arcs_fine(s, i + 1, false),
        }
    }
}

/// A mixed straight/arc chain decodes to one continuous point list
/// whose length is the straight runs' contribution plus forty values —
/// twenty points — per complete, non-degenerate arc token: an arc is
/// fitted with twenty segments, and the fit's first point, which
/// repeats the arc's start anchor the preceding straight run already
/// contributed, is dropped.
pub proof fn lemma_chain_vertex_count(s: Seq<Field>, i: int, consuming: bool)
    requires
        chain_arcs_fine(s, i, consuming),
    ensures
        chain_spec(s, i, consuming).0.len() == chain_run_vals(s, i, consuming) + 40
            * chain_arc_tokens(s, i, consuming),
    decreases s.len() - i, (if consuming { 1int } else { 0int }),
{
    if i < 0 || i >= s.len() {
    } else if consuming {
        match s[i] {
            Field::NVal(_) => {
                lemma_chain_vertex_count(s, i + 1, true);
            },
            _ => {
                lemma_chain_vertex_count(s, i, false);
            },
        }
    } else {
        match s[i] {
            Field::SVal(t) => {
                if t@ == "L"@ {
                    lemma_chain_vertex_count(s, i + 1, true);
                } else if t@ == "ARC"@ || t@ == "CARC"@ {
                    if arc_ok(s, i) {
                        lemma_chain_vertex_count(s, i + 3, false);
                        let start = chain_arc_start(s, i);
                        let end = chain_arc_end(s, i);
                        let a = chain_arc_angle(s, i);
                        assert(crate::arc::fit_arc_spec(start, end, a, 20).len() == 21);
                        assert(arc_flat(s, i).len() == 40);
                    } else {
                        lemma_chain_vertex_count(s, i + 1, false);
                    }
                } else {
                    lemma_chain_vertex_count(s, i + 1, false);
                }
            },
            _ => {
                lemma_chain_vertex_count(s, i + 1, false);
            },
        }
    }
}

/// A chain met no complete arc token: nothing constrains its arcs.
proof fn lemma_no_arcs_fine(s: Seq<Field>, i: int, consuming: bool)
    requires
        chain_arc_tokens(s, i, consuming) == 0,
    ensures
        chain_arcs_fine(s, i, consuming),
    decreases s.len() - i, (if consuming { 1int } else { 0int }),
{
    if i < 0 || i >= s.len() {
    } else if consuming {
        match s[i] {
            Field::NVal(_) => lemma_no_arcs_fine(s, i + 1, true),
            _ => lemma_no_arcs_fine(s, i, false),
        }
    } else {
        match s[i] {
            Field::SVal(t) => {
                if t@ == "L"@ {
                    lemma_no_arcs_fine(s, i + 1, true);
                } else if t@ == "ARC"@ || t@ == "CARC"@ {
                    assert(!arc_ok(s, i)) by {
                        if arc_ok(s, i) {
                            assert(chain_arc_tokens(s, i, consuming) >= 1) by {
                                lemma_chain_arc_tokens_nonneg(s, i + 3, false);
                            };
                        }
                    };
                    lemma_no_arcs_fine(s, i + 1, false);
                } else {
                    lemma_no_arcs_fine(s, i + 1, false);
                }
            },
            _ => lemma_no_arcs_fine(s, i + 1, false),
        }
    }
}

proof fn lemma_chain_arc_tokens_nonneg(s: Seq<Field>, i: int, consuming: bool)
    ensures
        chain_arc_tokens(s, i, consuming) >= 0,
    decreases s.len() - i, (if consuming { 1int } else { 0int }),
{
    if i < 0 || i >= s.len() {
    } else if consuming {
        match s[i] {
            Field::NVal(_) => lemma_chain_arc_tokens_nonneg(s, i + 1, true),
            _ => lemma_chain_arc_tokens_nonneg(s, i, false),
        }
    } else {
        match s[i] {
            Field::SVal(t) => {
                if t@ == "L"@ {
                    lemma_chain_arc_tokens_nonneg(s, i + 1, true);
                } else if t@ == "ARC"@ || t@ == "CARC"@ {
                    if arc_ok(s, i) {
                        lemma_chain_arc_tokens_nonneg(s, i + 3, false);
                    } else {
                        lemma_chain_arc_tokens_nonneg(s, i + 1, false);
                    }
                } else {
                    lemma_chain_arc_tokens_nonneg(s, i + 1, false);
                }
            },
            _ => lemma_chain_arc_tokens_nonneg(s, i + 1, false),
        }
    }
}

/// A chain without complete arc tokens decodes to exactly the points
/// of its straight runs.
pub proof fn lemma_chain_straight_only(s: Seq<Field>, i: int, consuming: bool)
    requires
        chain_arc_tokens(s, i, consuming) == 0,
    ensures
        chain_spec(s, i, consuming).0.len() == chain_run_vals(s, i, consuming),
{
    lemma_no_arcs_fine(s, i, consuming);
    lemma_chain_vertex_count(s, i, consuming);
}

/// The silkscreen explosion of an unfilled polygon: one line element
/// per adjacent point pair, appended after the existing elements.
pub open spec fn exploded_lines(
    a: KicadModData,
    b: KicadModData,
    pts: Seq<i64>,
    layer: Seq<char>,
    width: i64,
) -> bool {
    let n = pts.len() as int / 2;
    let k = if n >= 1 {
        n - 1
    } else {
        0
    };
    let base = a.graphic_elements@.len() as int;
    b.graphic_elements@.len() == base + k && b.graphic_elements@.take(base) == a.graphic_elements@
        && forall|j: int|
        0 <= j < k ==> is_line_elem(
            #[trigger] b.graphic_elements@[base + j]@,
            pts[2 * j] as int,
            -(pts[2 * j + 1] as int),
            pts[2 * j + 2] as int,
            -(pts[2 * j + 3] as int),
            layer,
            width as int,
        )
}

/// How one action changes the document: what one decoded record makes
/// the model append.
pub open spec fn applied(a: KicadModData, b: KicadModData, act: ActionS) -> bool {
    match act {
        ActionS::Skip => b == a,
        ActionS::Circle { cx, cy, ex, ey, layer, width, fill } => same_doc_meta(a, b) && b.pads@
            == a.pads@ && b.graphic_elements@.len() == a.graphic_elements@.len() + 1
            && b.graphic_elements@.drop_last() == a.graphic_elements@ && is_circle_elem(
            b.graphic_elements@.last()@,
            cx as int,
            cy as int,
            ex as int,
            ey as int,
            layer,
            width as int,
            fill,
        ),
        ActionS::CircleHole { cx, cy, r } => same_doc_meta(a, b) && b.pads@ == a.pads@
            && b.graphic_elements@.len() == a.graphic_elements@.len() + 1
            && b.graphic_elements@.drop_last() == a.graphic_elements@ && is_circle_hole_elem(
            b.graphic_elements@.last()@,
            cx as int,
            cy as int,
            r as int,
        ),
        ActionS::Polygon { pts, layer, width, fill } => same_doc_meta(a, b) && b.pads@ == a.pads@
            && if layer == "F.SilkS"@ && !fill {
            exploded_lines(a, b, pts, layer, width)
        } else {
            b.graphic_elements@.len() == a.graphic_elements@.len() + 1
                && b.graphic_elements@.drop_last() == a.graphic_elements@ && is_poly_elem(
                b.graphic_elements@.last()@,
                pts,
                layer,
                width as int,
                fill,
            )
        },
        ActionS::Arc { sx, sy, angle, ex, ey, layer, width } => same_doc_meta(a, b) && b.pads@
            == a.pads@ && b.graphic_elements@.len() == a.graphic_elements@.len() + 1
            && b.graphic_elements@.drop_last() == a.graphic_elements@ && is_arc_elem(
            b.graphic_elements@.last()@,
            sx as int,
            sy as int,
            angle as int,
            ex as int,
            ey as int,
            layer,
            width as int,
        ),
        ActionS::PadCircle { name, cx, cy, r, mask, paste } => same_doc_meta(a, b)
            && b.graphic_elements@ == a.graphic_elements@ && b.pads@.len() == a.pads@.len() + 1
            && b.pads@.drop_last() == a.pads@ && is_pad_circle_elem(
            b.pads@.last()@,
            name,
            cx as int,
            cy as int,
            r as int,
            mask as int,
            paste as int,
        ),
        ActionS::PadRect { name, cx, cy, angle, w, h, mask, paste } => same_doc_meta(a, b)
            && b.graphic_elements@ == a.graphic_elements@ && b.pads@.len() == a.pads@.len() + 1
            && b.pads@.drop_last() == a.pads@ && is_pad_rect_elem(
            b.pads@.last()@,
            name,
            cx as int,
            cy as int,
            angle as int,
            w as int,
            h as int,
            mask as int,
            paste as int,
        ),
        ActionS::PadOval { name, cx, cy, rx, ry, angle, mask, paste } => same_doc_meta(a, b)
            && b.graphic_elements@ == a.graphic_elements@ && b.pads@.len() == a.pads@.len() + 1
            && b.pads@.drop_last() == a.pads@ && is_pad_oval_elem(
            b.pads@.last()@,
            name,
            cx as int,
            cy as int,
            angle as int,
            rx as int,
            ry as int,
            mask as int,
            paste as int,
        ),
        ActionS::PadPoly { name, cx, cy, pts, mask, paste } => same_doc_meta(a, b)
            && b.graphic_elements@ == a.graphic_elements@ && b.pads@.len() == a.pads@.len() + 1
            && b.pads@.drop_last() == a.pads@ && is_pad_poly_elem(
            b.pads@.last()@,
            name,
            cx as int,
            cy as int,
            pts,
            mask as int,
            paste as int,
        ),
        ActionS::PadHole { name, cx, cy, r, drill } => same_doc_meta(a, b) && b.graphic_elements@
            == a.graphic_elements@ && b.pads@.len() == a.pads@.len() + 1 && b.pads@.drop_last()
            == a.pads@ && is_pad_hole_elem(
            b.pads@.last()@,
            name,
            cx as int,
            cy as int,
            r as int,
            drill as int,
        ),
        ActionS::PadHoleOval { name, cx, cy, angle, w, h, dx, dy } => same_doc_meta(a, b)
            && b.graphic_elements@ == a.graphic_elements@ && b.pads@.len() == a.pads@.len() + 1
            && b.pads@.drop_last() == a.pads@ && is_pad_hole_oval_elem(
            b.pads@.last()@,
            name,
            cx as int,
            cy as int,
            angle as int,
            w as int,
            h as int,
            dx as int,
            dy as int,
        ),
        ActionS::PadHoleRect { name, cx, cy, w, h, angle, drill } => same_doc_meta(a, b)
            && b.graphic_elements@ == a.graphic_elements@ && b.pads@.len() == a.pads@.len() + 1
            && b.pads@.drop_last() == a.pads@ && is_pad_hole_rect_elem(
            b.pads@.last()@,
            name,
            cx as int,
            cy as int,
            w as int,
            h as int,
            angle as int,
            drill as int,
        ),
    }
}

/// Appends what one decoded action asks for to the document.
pub fn apply_action(model: &mut KicadModData, action: Action)
    requires
        action_ok(action),
    ensures
        applied(*old(model), *final(model), action@),
{
    match action {
        Action::Skip => {},
        Action::Circle { cx, cy, ex, ey, layer, width, fill } => {
            model.add_graphic_element_circle(cx, cy, ex, ey, layer, width, fill);
        },
        Action::CircleHole { cx, cy, r } => {
            model.add_graphic_element_circle_hole(cx, cy, r);
        },
        Action::Polygon { pts, layer, width, fill } => {
            model.add_graphic_element_polygon(&pts, layer, width, fill);
        },
        Action::Arc { sx, sy, angle, ex, ey, layer, width } => {
            model.add_graphic_element_arc(sx, sy, angle, ex, ey, layer, width);
        },
        Action::PadCircle { name, cx, cy, r, mask, paste } => {
            model.add_pad_circle(name.as_str(), cx, cy, r, mask, paste);
        },
        Action::PadRect { name, cx, cy, angle, w, h, mask, paste } => {
            model.add_pad_rect(name.as_str(), cx, cy, angle, w, h, mask, paste);
        },
        Action::PadOval { name, cx, cy, rx, ry, angle, mask, paste } => {
            model.add_pad_ellipse(name.as_str(), cx, cy, rx, ry, angle, mask, paste);
        },
        Action::PadPoly { name, cx, cy, pts, mask, paste } => {
            model.add_pad_poly(name.as_str(), cx, cy, &pts, mask, paste);
        },
        Action::PadHole { name, cx, cy, r, drill } => {
            model.add_pad_hole(name.as_str(), cx, cy, r, drill);
        },
        Action::PadHoleOval { name, cx, cy, angle, w, h, dx, dy } => {
            model.add_pad_hole_oval(name.as_str(), cx, cy, angle, w, h, dx, dy);
        },
        Action::PadHoleRect { name, cx, cy, w, h, angle, drill } => {
            model.add_pad_hole_rect(name.as_str(), cx, cy, w, h, angle, drill);
        },
    }
}

/// Decodes one record and appends its action to the document,
/// returning the record's unparsed count.
pub fn process_record(model: &mut KicadModData, fields: &Vec<Field>) -> (u: u64)
    ensures
        applied(*old(model), *final(model), decode_spec(fields@).0),
        u == decode_spec(fields@).1,
{
    let (action, unparsed) = decode_record(fields);
    apply_action(model, action);
    unparsed
}

/// The accumulated unparsed count of a record stream.
pub open spec fn unparsed_total(records: Seq<Vec<Field>>) -> u64
    decreases records.len(),
{
    if records.len() == 0 {
        0u64
    } else {
        sat_add(unparsed_total(records.drop_last()), decode_spec(records.last()@).1)
    }
}

/// A fresh document as construction leaves it for the given title.
pub open spec fn fresh_doc(m: KicadModData, title: Seq<char>) -> bool {
    m.header@ == "(footprint \""@ + title + "\" "@ && m.version@ == "(version 20211014)"@
        && m.generator@ == "(generator pcbnew)"@ && m.layer@ == "(layer \"F.Cu\")"@ && (exists|
        ts: u64,
    | m.tedit@ == "(tedit "@ + crate::numfmt::hex16(ts as nat) + ")"@) && m.description@
        == "(descr \"\")"@ && m.tags@ == "(tags \"\")"@ && m.attr@ == "(attr smd)"@
        && m.text_elements@.len() == 2 && (exists|id: Seq<char>|
        crate::model::is_elem_id(id) && m.text_elements@[0]@ == (#[trigger] crate::model::ref_text_spec(
            id,
        ))) && (exists|id: Seq<char>|
        crate::model::is_elem_id(id) && m.text_elements@[1]@ == (#[trigger] crate::model::value_text_spec(
            title,
            id,
        ))) && m.graphic_elements@.len() == 0 && m.pads@.len() == 0
}

/// The intermediate documents of a fold: `trace[j]` is the document
/// before record `j` is decoded, and each step appends what that
/// record asks for.
pub open spec fn folded_trace(
    m0: KicadModData,
    records: Seq<Vec<Field>>,
    trace: Seq<KicadModData>,
    m: KicadModData,
) -> bool {
    &&& trace.len() == records.len() + 1
    &&& trace[0] == m0
    &&& trace[records.len() as int] == m
    &&& forall|j: int|
        0 <= j < records.len() ==> applied(
            trace[j],
            #[trigger] trace[j + 1],
            decode_spec(records[j]@).0,
        )
}

/// The document `m` is what decoding `records` in order on top of
/// `m0` leaves: some trace of intermediate documents connects them.
pub open spec fn folded_from(m0: KicadModData, records: Seq<Vec<Field>>, m: KicadModData) -> bool {
    exists|trace: Seq<KicadModData>| #[trigger] folded_trace(m0, records, trace, m)
}

/// The text is the serialization of a fresh document for the title,
/// populated by decoding every record in order.
pub open spec fn converted(records: Seq<Vec<Field>>, title: Seq<char>, content: Seq<char>) -> bool {
    exists|m0: KicadModData, m: KicadModData|
        fresh_doc(m0, title) && (#[trigger] folded_from(m0, records, m)) && content
            == content_spec(m)
}

/// Converts one component's records: builds a fresh document under the
/// footprint title, decodes each record in order — a failure on one
/// record never stops the rest — and serializes once.  Returns the
/// document text and the accumulated unparsed count.
#[verifier::loop_isolation(false)]
#[verifier::rlimit(100)]
pub fn parse_efoo_records(records: &Vec<Vec<Field>>, footprint_title: &str) -> (r: (String, u64))
    ensures
        converted(records@, footprint_title@, r.0@),
        r.1 == unparsed_total(records@),
{
    let mut data = KicadModData::new(footprint_title);
    let ghost m0 = data;
    let ghost mut trace: Seq<KicadModData> = seq![data];
    let mut failed: u64 = 0;
    let mut i: usize = 0;
    while i < records.len()
        invariant
            0 <= i <= records@.len(),
            fresh_doc(m0, footprint_title@),
            folded_trace(m0, records@.take(i as int), trace, data),
            failed == unparsed_total(records@.take(i as int)),
        decreases records@.len() - i,
    {
        let u = process_record(&mut data, &records[i]);
        failed = sat_add_exec(failed, u);
        i += 1;
        proof {
            trace = trace.push(data);
            assert(records@.take(i as int).drop_last() =~= records@.take(i as int - 1));
            assert(records@.take(i as int).last() == records@[i as int - 1]);
            assert(folded_trace(m0, records@.take(i as int), trace, data));
        }
    }
    proof {
        assert(records@.take(records@.len() as int) =~= records@);
        assert(folded_trace(m0, records@, trace, data));
        assert(folded_from(m0, records@, data));
    }
    let content = data.generate_content();
    let ghost final_doc = data;
    proof {
        assert(fresh_doc(m0, footprint_title@) && folded_from(m0, records@, final_doc)
            && content@ == content_spec(final_doc));
    }
    (content, failed)
}

/// The symbol-library decoder: a placeholder that reports success
/// without decoding anything.
#[allow(unused_variables)]
pub fn parse_esym_file(esym_content: &str, kicad_mod_path: &str, symbol_title_str: &str) -> (r:
    String)
    ensures
        r@ == "OK"@,
{
    "OK".to_owned()
}

} // verus!
