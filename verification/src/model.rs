//! The footprint document model: one append operation per primitive
//! kind, each assigning a fresh identifier at append time, and one
//! serialize operation that emits the whole S-expression document.
//!
//! All lengths arrive in millionths of a mil and are emitted in
//! millimetres; every emitted point negates Y, since the output plane
//! is Y-down while the source plane is Y-up.

use vstd::prelude::*;
use crate::numfmt::{
    hex16, mm6_of_mil, push_hex16, push_mm6_of_mil, push_trimmed, str_eq, trimmed,
};
use crate::arc::{arc_midpoint_spec, calculate_arc_midpoint};

verus! {

/// Relies on chrono's `Local::now` and `DateTime::timestamp`: the
/// current Unix timestamp of the local clock, reinterpreted as
/// unsigned.  The value depends on the clock, so nothing is promised
/// of it.
#[verifier::external_body]
fn now_timestamp() -> u64 {
    chrono::Local::now().timestamp() as u64
}

/// Relies on uuid's `Uuid::new_v4` and its `Display` form: a fresh
/// random version-4 UUID in the hyphenated form, which is always 36
/// characters.  The value itself is random, so nothing more is
/// promised of it.
#[verifier::external_body]
fn fresh_id() -> (r: String)
    ensures
        r@.len() == 36,
{
    uuid::Uuid::new_v4().to_string()
}

/// The shape of an append-time identifier: the hyphenated form of a
/// UUID, 36 characters.
pub open spec fn is_elem_id(id: Seq<char>) -> bool {
    id.len() == 36
}

/// The word the `fill` flag prints as.
pub open spec fn fill_word(fill: bool) -> Seq<char> {
    if fill {
        "solid"@
    } else {
        "none"@
    }
}

/// Text of a line element; `sx, sy, ex, ey` are emitted as given (the
/// caller has already flipped Y), `w` is the stroke width.
pub open spec fn fp_line_text(
    sx: int,
    sy: int,
    ex: int,
    ey: int,
    layer: Seq<char>,
    w: int,
    id: Seq<char>,
) -> Seq<char> {
    "  (fp_line (start "@ + mm6_of_mil(sx) + " "@ + mm6_of_mil(sy) + ") (end "@ + mm6_of_mil(ex)
        + " "@ + mm6_of_mil(ey) + ") (layer \""@ + layer + "\") (width "@ + mm6_of_mil(w)
        + ") (tstamp "@ + id + "))"@
}

/// Text of a circle element; the Y coordinates are negated here.
pub open spec fn fp_circle_text(
    cx: int,
    cy: int,
    ex: int,
    ey: int,
    layer: Seq<char>,
    w: int,
    fill: bool,
    id: Seq<char>,
) -> Seq<char> {
    "  (fp_circle (center "@ + mm6_of_mil(cx) + " "@ + mm6_of_mil(-cy) + ") (end "@
        + mm6_of_mil(ex) + " "@ + mm6_of_mil(-ey) + ") (layer "@ + layer + ") (width "@
        + mm6_of_mil(w) + ") (fill "@ + fill_word(fill) + ") (tstamp "@ + id + "))"@
}

/// The `(xy x -y)` terms of a polygon, one per coordinate pair.
pub open spec fn poly_pts_text(pts: Seq<i64>, k: int) -> Seq<char>
    decreases k,
{
    if k <= 0 {
        Seq::empty()
    } else {
        poly_pts_text(pts, k - 1) + "   (xy "@ + mm6_of_mil(pts[2 * (k - 1)] as int) + " "@
            + mm6_of_mil(-(pts[2 * (k - 1) + 1] as int)) + ")"@
    }
}

/// Text of a polygon element over the flat coordinate list `pts`.
pub open spec fn fp_poly_text(pts: Seq<i64>, layer: Seq<char>, w: int, fill: bool, id: Seq<char>) -> Seq<
    char,
> {
    "  (fp_poly (pts "@ + poly_pts_text(pts, pts.len() as int / 2) + "  ) (layer \""@ + layer
        + "\") (width "@ + mm6_of_mil(w) + ") (fill "@ + fill_word(fill) + ") (tstamp "@ + id
        + "))"@
}

/// Text of an arc element: the three-point form computed from the
/// Y-flipped endpoints and the negated sweep.
pub open spec fn fp_arc_text(
    sx: int,
    sy: int,
    adeg: int,
    ex: int,
    ey: int,
    layer: Seq<char>,
    w: int,
    id: Seq<char>,
) -> Seq<char> {
    let m = arc_midpoint_spec(sx, -sy, ex, -ey, -adeg);
    "  (fp_arc (start "@ + mm6_of_mil(m.0) + " "@ + mm6_of_mil(m.1) + ") (mid "@ + mm6_of_mil(m.2)
        + " "@ + mm6_of_mil(m.3) + ") (end "@ + mm6_of_mil(m.4) + " "@ + mm6_of_mil(m.5)
        + ") (layer "@ + layer + ") (width "@ + mm6_of_mil(w) + ")(tstamp "@ + id + "))"@
}

/// Text of a plated/unplated hole emitted among the graphics: a
/// `np_thru_hole` pad on the combination layer.
pub open spec fn fp_circle_hole_text(cx: int, cy: int, radius: int, id: Seq<char>) -> Seq<char> {
    "  (pad \"\" np_thru_hole circle (at "@ + mm6_of_mil(cx) + " "@ + mm6_of_mil(-cy)
        + ") (size "@ + mm6_of_mil(radius) + " "@ + mm6_of_mil(radius) + ") (drill "@
        + mm6_of_mil(2 * radius) + ") (layers "@ + "F&B.Cu *.Mask"@ + ") (tstamp "@ + id + "))"@
}

/// The element is a line with the given geometry, under some
/// append-time identifier.
pub open spec fn is_line_elem(
    s: Seq<char>,
    sx: int,
    sy: int,
    ex: int,
    ey: int,
    layer: Seq<char>,
    w: int,
) -> bool {
    exists|id: Seq<char>| is_elem_id(id) && s == (#[trigger] fp_line_text(sx, sy, ex, ey, layer, w, id))
}

/// The element is a circle with the given geometry, under some
/// append-time identifier.
pub open spec fn is_circle_elem(
    s: Seq<char>,
    cx: int,
    cy: int,
    ex: int,
    ey: int,
    layer: Seq<char>,
    w: int,
    fill: bool,
) -> bool {
    exists|id: Seq<char>| is_elem_id(id) && s == (#[trigger] fp_circle_text(cx, cy, ex, ey, layer, w, fill, id))
}

/// The element is a polygon over the given points, under some
/// append-time identifier.
pub open spec fn is_poly_elem(s: Seq<char>, pts: Seq<i64>, layer: Seq<char>, w: int, fill: bool) -> bool {
    exists|id: Seq<char>| is_elem_id(id) && s == (#[trigger] fp_poly_text(pts, layer, w, fill, id))
}

/// The element is an arc with the given geometry, under some
/// append-time identifier.
pub open spec fn is_arc_elem(
    s: Seq<char>,
    sx: int,
    sy: int,
    adeg: int,
    ex: int,
    ey: int,
    layer: Seq<char>,
    w: int,
) -> bool {
    exists|id: Seq<char>| is_elem_id(id) && s == (#[trigger] fp_arc_text(sx, sy, adeg, ex, ey, layer, w, id))
}

/// The element is a plated/unplated hole with the given geometry,
/// under some append-time identifier.
pub open spec fn is_circle_hole_elem(s: Seq<char>, cx: int, cy: int, radius: int) -> bool {
    exists|id: Seq<char>| is_elem_id(id) && s == (#[trigger] fp_circle_hole_text(cx, cy, radius, id))
}

/// Text of a surface-mount circular pad.
pub open spec fn pad_circle_text(
    name: Seq<char>,
    cx: int,
    cy: int,
    radius: int,
    mask: int,
    paste: int,
    id: Seq<char>,
) -> Seq<char> {
    "  (pad "@ + name + " smd circle (at "@ + mm6_of_mil(cx) + " "@ + mm6_of_mil(-cy) + ") (size "@
        + mm6_of_mil(radius) + " "@ + mm6_of_mil(radius)
        + ") (layers \"F.Cu\" \"F.Paste\" \"F.Mask\") (solder_mask_margin "@ + mm6_of_mil(mask)
        + ") (solder_paste_margin "@ + mm6_of_mil(paste) + ") (tstamp "@ + id + "))"@
}

/// Text of a surface-mount rectangular pad.
pub open spec fn pad_rect_text(
    name: Seq<char>,
    cx: int,
    cy: int,
    angle: int,
    w: int,
    h: int,
    mask: int,
    paste: int,
    id: Seq<char>,
) -> Seq<char> {
    "  (pad "@ + name + " smd rect (at "@ + mm6_of_mil(cx) + " "@ + mm6_of_mil(-cy) + " "@
        + trimmed(angle) + ") (size "@ + mm6_of_mil(w) + " "@ + mm6_of_mil(h)
        + ") (layers \"F.Cu\" \"F.Paste\" \"F.Mask\") (solder_mask_margin "@ + mm6_of_mil(mask)
        + ") (solder_paste_margin "@ + mm6_of_mil(paste) + ") (tstamp "@ + id + "))"@
}

/// Text of a surface-mount oval pad.
pub open spec fn pad_oval_text(
    name: Seq<char>,
    cx: int,
    cy: int,
    angle: int,
    w: int,
    h: int,
    mask: int,
    paste: int,
    id: Seq<char>,
) -> Seq<char> {
    "  (pad "@ + name + " smd oval (at "@ + mm6_of_mil(cx) + " "@ + mm6_of_mil(-cy) + " "@
        + trimmed(angle) + ") (size "@ + mm6_of_mil(w) + " "@ + mm6_of_mil(h)
        + ") (layers \"F.Cu\" \"F.Paste\" \"F.Mask\") (solder_mask_margin "@ + mm6_of_mil(mask)
        + ") (solder_paste_margin "@ + mm6_of_mil(paste) + ") (tstamp "@ + id + "))"@
}

/// The `(xy x y)` terms of a custom pad's polygon, over coordinates
/// already made relative to the pad centre.
pub open spec fn pad_poly_pts_text(rel: Seq<i64>, k: int) -> Seq<char>
    decreases k,
{
    if k <= 0 {
        Seq::empty()
    } else {
        pad_poly_pts_text(rel, k - 1) + " (xy "@ + mm6_of_mil(rel[2 * (k - 1)] as int) + " "@
            + mm6_of_mil(rel[2 * (k - 1) + 1] as int) + ")"@
    }
}

/// The pad-relative form of a flat coordinate list: each point
/// translated by the pad centre, with Y flipped.
pub open spec fn rel_pts_spec(pts: Seq<i64>, cx: int, cy: int) -> Seq<i64> {
    Seq::new(2 * (pts.len() / 2), |i: int|
        if i % 2 == 0 {
            (pts[i] - cx) as i64
        } else {
            (-(pts[i] - cy)) as i64
        }
    )
}

/// Text of a custom polygon pad over the flat absolute coordinate
/// list `pts`.
pub open spec fn pad_poly_text(
    name: Seq<char>,
    cx: int,
    cy: int,
    pts: Seq<i64>,
    mask: int,
    paste: int,
    id: Seq<char>,
) -> Seq<char> {
    let rel = rel_pts_spec(pts, cx, cy);
    "  (pad "@ + name + " smd custom (at "@ + mm6_of_mil(cx) + " "@ + mm6_of_mil(-cy)
        + ") (size 0.0001 0.0001) (layers \"F.Cu\" \"F.Paste\" \"F.Mask\")\n    (options (clearance outline) (anchor circle))\n    (primitives\n      (gr_poly (pts"@
        + pad_poly_pts_text(rel, rel.len() as int / 2)
        + "\n      ) (width 0) (fill yes))\n  )(solder_mask_margin "@ + mm6_of_mil(mask)
        + ") (solder_paste_margin "@ + mm6_of_mil(paste) + ")(tstamp "@ + id + "))"@
}

/// Text of a through-hole circular pad.
pub open spec fn pad_hole_text(
    name: Seq<char>,
    cx: int,
    cy: int,
    radius: int,
    drill: int,
    id: Seq<char>,
) -> Seq<char> {
    "  (pad "@ + name + " thru_hole circle (at "@ + mm6_of_mil(cx) + " "@ + mm6_of_mil(-cy)
        + ") (size "@ + mm6_of_mil(radius) + " "@ + mm6_of_mil(radius) + ") (drill "@
        + mm6_of_mil(drill) + ") (layers *.Cu *.Mask) (solder_mask_margin 0.051) (tstamp "@ + id
        + "))"@
}

/// Text of a through-hole oval pad with an oval drill.
pub open spec fn pad_hole_oval_text(
    name: Seq<char>,
    cx: int,
    cy: int,
    angle: int,
    w: int,
    h: int,
    dx: int,
    dy: int,
    id: Seq<char>,
) -> Seq<char> {
    "  (pad "@ + name + " thru_hole oval (at "@ + mm6_of_mil(cx) + " "@ + mm6_of_mil(-cy) + " "@
        + trimmed(angle) + ") (size "@ + mm6_of_mil(w) + " "@ + mm6_of_mil(h) + ") (drill oval "@
        + mm6_of_mil(dx) + " "@ + mm6_of_mil(dy)
        + ") (layers *.Cu *.Mask) (solder_mask_margin 0.051) (tstamp "@ + id + "))"@
}

/// Text of a through-hole rectangular pad.
pub open spec fn pad_hole_rect_text(
    name: Seq<char>,
    cx: int,
    cy: int,
    w: int,
    h: int,
    angle: int,
    drill: int,
    id: Seq<char>,
) -> Seq<char> {
    "  (pad "@ + name + " thru_hole rect (at "@ + mm6_of_mil(cx) + " "@ + mm6_of_mil(-cy) + " "@
        + trimmed(angle) + ") (size "@ + mm6_of_mil(w) + " "@ + mm6_of_mil(h) + ") (drill "@
        + mm6_of_mil(drill) + ") (layers *.Cu *.Mask) (solder_mask_margin 0.051) (tstamp "@ + id
        + "))"@
}

pub open spec fn is_pad_circle_elem(
    s: Seq<char>,
    name: Seq<char>,
    cx: int,
    cy: int,
    radius: int,
    mask: int,
    paste: int,
) -> bool {
    exists|id: Seq<char>| is_elem_id(id) && s == (#[trigger] pad_circle_text(name, cx, cy, radius, mask, paste, id))
}

pub open spec fn is_pad_rect_elem(
    s: Seq<char>,
    name: Seq<char>,
    cx: int,
    cy: int,
    angle: int,
    w: int,
    h: int,
    mask: int,
    paste: int,
) -> bool {
    exists|id: Seq<char>| is_elem_id(id) && s == (#[trigger] pad_rect_text(name, cx, cy, angle, w, h, mask, paste, id))
}

pub open spec fn is_pad_oval_elem(
    s: Seq<char>,
    name: Seq<char>,
    cx: int,
    cy: int,
    angle: int,
    w: int,
    h: int,
    mask: int,
    paste: int,
) -> bool {
    exists|id: Seq<char>| is_elem_id(id) && s == (#[trigger] pad_oval_text(name, cx, cy, angle, w, h, mask, paste, id))
}

pub open spec fn is_pad_poly_elem(
    s: Seq<char>,
    name: Seq<char>,
    cx: int,
    cy: int,
    pts: Seq<i64>,
    mask: int,
    paste: int,
) -> bool {
    exists|id: Seq<char>| is_elem_id(id) && s == (#[trigger] pad_poly_text(name, cx, cy, pts, mask, paste, id))
}

pub open spec fn is_pad_hole_elem(
    s: Seq<char>,
    name: Seq<char>,
    cx: int,
    cy: int,
    radius: int,
    drill: int,
) -> bool {
    exists|id: Seq<char>| is_elem_id(id) && s == (#[trigger] pad_hole_text(name, cx, cy, radius, drill, id))
}

pub open spec fn is_pad_hole_oval_elem(
    s: Seq<char>,
    name: Seq<char>,
    cx: int,
    cy: int,
    angle: int,
    w: int,
    h: int,
    dx: int,
    dy: int,
) -> bool {
    exists|id: Seq<char>| is_elem_id(id) && s == (#[trigger] pad_hole_oval_text(name, cx, cy, angle, w, h, dx, dy, id))
}

pub open spec fn is_pad_hole_rect_elem(
    s: Seq<char>,
    name: Seq<char>,
    cx: int,
    cy: int,
    w: int,
    h: int,
    angle: int,
    drill: int,
) -> bool {
    exists|id: Seq<char>| is_elem_id(id) && s == (#[trigger] pad_hole_rect_text(name, cx, cy, w, h, angle, drill, id))
}

/// Renders a polygon element's text.
#[verifier::loop_isolation(false)]
#[verifier::rlimit(100)]
fn render_poly(pts: &Vec<i64>, layer: &str, width: i64, fill: bool, id: &str) -> (s: String)
    requires
        forall|i: int|
            0 <= i < pts@.len() ==> -60_000_000_000_000 <= #[trigger] pts@[i]
                <= 60_000_000_000_000,
        -60_000_000_000_000 <= width <= 60_000_000_000_000,
    ensures
        s@ == fp_poly_text(pts@, layer@, width as int, fill, id@),
{
    let mut s = String::new();
    s.append("  (fp_poly (pts ");
    let half = pts.len() / 2;
    proof {
        assert(s@ =~= "  (fp_poly (pts "@ + poly_pts_text(pts@, 0));
    }
    let mut i: usize = 0;
    while i < half
        invariant
            0 <= i <= half,
            s@ == "  (fp_poly (pts "@ + poly_pts_text(pts@, i as int),
        decreases half - i,
    {
        s.append("   (xy ");
        push_mm6_of_mil(&mut s, pts[2 * i]);
        s.append(" ");
        push_mm6_of_mil(&mut s, -pts[2 * i + 1]);
        s.append(")");
        i += 1;
        proof {
            assert(s@ =~= "  (fp_poly (pts "@ + poly_pts_text(pts@, i as int));
        }
    }
    s.append("  ) (layer \"");
    s.append(layer);
    s.append("\") (width ");
    push_mm6_of_mil(&mut s, width);
    s.append(") (fill ");
    if fill {
        s.append("solid");
    } else {
        s.append("none");
    }
    s.append(") (tstamp ");
    s.append(id);
    s.append("))");
    proof {
        assert(s@ =~= fp_poly_text(pts@, layer@, width as int, fill, id@));
    }
    s
}

/// The document fields other than the element lists.
pub open spec fn same_doc_meta(a: KicadModData, b: KicadModData) -> bool {
    a.header@ == b.header@ && a.version@ == b.version@ && a.generator@ == b.generator@
        && a.layer@ == b.layer@ && a.tedit@ == b.tedit@ && a.description@ == b.description@
        && a.tags@ == b.tags@ && a.attr@ == b.attr@ && a.text_elements@ == b.text_elements@
}

/// The data of one footprint document, field by field already in its
/// serialized form; the element lists hold one rendered element each.
#[derive(Debug, Clone)]
pub struct KicadModData {
    pub header: String,
    pub version: String,
    pub generator: String,
    pub layer: String,
    pub tedit: String,
    pub description: String,
    pub tags: String,
    pub attr: String,
    pub text_elements: Vec<String>,
    pub graphic_elements: Vec<String>,
    pub pads: Vec<String>,
}

impl KicadModData {
    /// Appends a line element.  The caller hands coordinates already
    /// in the output orientation; none are flipped here.
    pub fn add_graphic_element_line(
        &mut self,
        start_x: i64,
        start_y: i64,
        end_x: i64,
        end_y: i64,
        layer: String,
        width: i64,
    )
        requires
            -60_000_000_000_000 <= start_x <= 60_000_000_000_000,
            -60_000_000_000_000 <= start_y <= 60_000_000_000_000,
            -60_000_000_000_000 <= end_x <= 60_000_000_000_000,
            -60_000_000_000_000 <= end_y <= 60_000_000_000_000,
            -60_000_000_000_000 <= width <= 60_000_000_000_000,
        ensures
            same_doc_meta(*old(self), *final(self)),
            final(self).pads@ == old(self).pads@,
            final(self).graphic_elements@.len() == old(self).graphic_elements@.len() + 1,
            final(self).graphic_elements@.drop_last() == old(self).graphic_elements@,
            is_line_elem(final(self).graphic_elements@.last()@, start_x as int, start_y as int,
                end_x as int, end_y as int, layer@, width as int),
    {
        let id = fresh_id();
        let ghost gid = id@;
        let mut s = String::new();
        s.append("  (fp_line (start ");
        push_mm6_of_mil(&mut s, start_x);
        s.append(" ");
        push_mm6_of_mil(&mut s, start_y);
        s.append(") (end ");
        push_mm6_of_mil(&mut s, end_x);
        s.append(" ");
        push_mm6_of_mil(&mut s, end_y);
        s.append(") (layer \"");
        s.append(layer.as_str());
        s.append("\") (width ");
        push_mm6_of_mil(&mut s, width);
        s.append(") (tstamp ");
        s.append(id.as_str());
        s.append("))");
        proof {
            assert(s@ =~= fp_line_text(start_x as int, start_y as int, end_x as int, end_y as int,
                layer@, width as int, gid));
        }
        self.graphic_elements.push(s);
        proof {
            assert(self.graphic_elements@.drop_last() =~= old(self).graphic_elements@);
        }
    }

    /// Appends a polygon over the flat coordinate list `pts`.  An
    /// unfilled polygon on the front silkscreen layer is exploded into
    /// one line element per adjacent point pair instead — a
    /// layer-specific rendering policy, not an error path.
    #[verifier::loop_isolation(false)]
    #[verifier::rlimit(100)]
    pub fn add_graphic_element_polygon(
        &mut self,
        pts: &Vec<i64>,
        layer: String,
        width: i64,
        fill: bool,
    )
        requires
            forall|i: int|
                0 <= i < pts@.len() ==> -60_000_000_000_000 <= #[trigger] pts@[i]
                    <= 60_000_000_000_000,
            -60_000_000_000_000 <= width <= 60_000_000_000_000,
        ensures
            same_doc_meta(*old(self), *final(self)),
            final(self).pads@ == old(self).pads@,
            ({
                let n = pts@.len() as int / 2;
                let base = old(self).graphic_elements@.len() as int;
                if layer@ == "F.SilkS"@ && !fill {
                    let k = if n >= 1 { n - 1 } else { 0 };
                    final(self).graphic_elements@.len() == base + k
                        && final(self).graphic_elements@.take(base) == old(self).graphic_elements@
                        && forall|j: int| 0 <= j < k ==>
                            is_line_elem(#[trigger] final(self).graphic_elements@[base + j]@,
                                pts@[2 * j] as int, -(pts@[2 * j + 1] as int),
                                pts@[2 * j + 2] as int, -(pts@[2 * j + 3] as int), layer@,
                                width as int)
                } else {
                    final(self).graphic_elements@.len() == base + 1
                        && final(self).graphic_elements@.drop_last()
                            == old(self).graphic_elements@
                        && is_poly_elem(final(self).graphic_elements@.last()@, pts@, layer@,
                            width as int, fill)
                }
            }),
    {
        let silk = str_eq(layer.as_str(), "F.SilkS");
        let ghost base = self.graphic_elements@.len() as int;
        proof {
            assert(self.graphic_elements@.take(base) =~= self.graphic_elements@);
        }
        if silk && !fill {
            let n = pts.len() / 2;
            if n >= 1 {
                let mut i: usize = 0;
                while i < n - 1
                    invariant
                        0 <= i <= n - 1,
                        self.graphic_elements@.len() == base + i,
                        self.graphic_elements@.take(base) == old(self).graphic_elements@,
                        same_doc_meta(*old(self), *self),
                        self.pads@ == old(self).pads@,
                        forall|j: int| 0 <= j < i ==>
                            is_line_elem(#[trigger] self.graphic_elements@[base + j]@,
                                pts@[2 * j] as int, -(pts@[2 * j + 1] as int),
                                pts@[2 * j + 2] as int, -(pts@[2 * j + 3] as int), layer@,
                                width as int),
                    decreases n - 1 - i,
                {
                    let ghost prev = self.graphic_elements@;
                    self.add_graphic_element_line(
                        pts[2 * i],
                        -pts[2 * i + 1],
                        pts[2 * i + 2],
                        -pts[2 * i + 3],
                        layer.clone(),
                        width,
                    );
                    proof {
                        assert(self.graphic_elements@.take(base) =~= old(
                            self,
                        ).graphic_elements@) by {
                            assert(self.graphic_elements@.drop_last() == prev);
                            assert(forall|j: int| 0 <= j < prev.len() ==>
                                #[trigger] self.graphic_elements@[j] == prev[j]);
                        };
                        assert(forall|j: int| 0 <= j < i ==>
                            #[trigger] self.graphic_elements@[base + j] == prev[base + j]);
                    }
                    i += 1;
                }
            }
        } else {
            let id = fresh_id();
            let ghost gid = id@;
            let s = render_poly(pts, layer.as_str(), width, fill, id.as_str());
            self.graphic_elements.push(s);
            proof {
                assert(self.graphic_elements@.drop_last() =~= old(self).graphic_elements@);
            }
        }
    }

    /// Appends a circle element, flipping both Y coordinates.
    pub fn add_graphic_element_circle(
        &mut self,
        center_x: i64,
        center_y: i64,
        end_x: i64,
        end_y: i64,
        layer: String,
        width: i64,
        fill: bool,
    )
        requires
            -60_000_000_000_000 <= center_x <= 60_000_000_000_000,
            -60_000_000_000_000 <= center_y <= 60_000_000_000_000,
            -60_000_000_000_000 <= end_x <= 60_000_000_000_000,
            -60_000_000_000_000 <= end_y <= 60_000_000_000_000,
            -60_000_000_000_000 <= width <= 60_000_000_000_000,
        ensures
            same_doc_meta(*old(self), *final(self)),
            final(self).pads@ == old(self).pads@,
            final(self).graphic_elements@.len() == old(self).graphic_elements@.len() + 1,
            final(self).graphic_elements@.drop_last() == old(self).graphic_elements@,
            is_circle_elem(final(self).graphic_elements@.last()@, center_x as int,
                center_y as int, end_x as int, end_y as int, layer@, width as int, fill),
    {
        let id = fresh_id();
        let ghost gid = id@;
        let mut s = String::new();
        s.append("  (fp_circle (center ");
        push_mm6_of_mil(&mut s, center_x);
        s.append(" ");
        push_mm6_of_mil(&mut s, -center_y);
        s.append(") (end ");
        push_mm6_of_mil(&mut s, end_x);
        s.append(" ");
        push_mm6_of_mil(&mut s, -end_y);
        s.append(") (layer ");
        s.append(layer.as_str());
        s.append(") (width ");
        push_mm6_of_mil(&mut s, width);
        s.append(") (fill ");
        if fill {
            s.append("solid");
        } else {
            s.append("none");
        }
        s.append(") (tstamp ");
        s.append(id.as_str());
        s.append("))");
        proof {
            assert(s@ =~= fp_circle_text(center_x as int, center_y as int, end_x as int,
                end_y as int, layer@, width as int, fill, gid));
        }
        self.graphic_elements.push(s);
        proof {
            assert(self.graphic_elements@.drop_last() =~= old(self).graphic_elements@);
        }
    }

    /// Appends a plated/unplated hole among the graphics.
    pub fn add_graphic_element_circle_hole(&mut self, center_x: i64, center_y: i64, radius: i64)
        requires
            -10_000_000_000_000 <= center_x <= 10_000_000_000_000,
            -10_000_000_000_000 <= center_y <= 10_000_000_000_000,
            -10_000_000_000_000 <= radius <= 10_000_000_000_000,
        ensures
            same_doc_meta(*old(self), *final(self)),
            final(self).pads@ == old(self).pads@,
            final(self).graphic_elements@.len() == old(self).graphic_elements@.len() + 1,
            final(self).graphic_elements@.drop_last() == old(self).graphic_elements@,
            is_circle_hole_elem(final(self).graphic_elements@.last()@, center_x as int,
                center_y as int, radius as int),
    {
        let id = fresh_id();
        let ghost gid = id@;
        let mut s = String::new();
        s.append("  (pad \"\" np_thru_hole circle (at ");
        push_mm6_of_mil(&mut s, center_x);
        s.append(" ");
        push_mm6_of_mil(&mut s, -center_y);
        s.append(") (size ");
        push_mm6_of_mil(&mut s, radius);
        s.append(" ");
        push_mm6_of_mil(&mut s, radius);
        s.append(") (drill ");
        push_mm6_of_mil(&mut s, 2 * radius);
        s.append(") (layers ");
        s.append("F&B.Cu *.Mask");
        s.append(") (tstamp ");
        s.append(id.as_str());
        s.append("))");
        proof {
            assert(s@ =~= fp_circle_hole_text(center_x as int, center_y as int, radius as int,
                gid));
        }
        self.graphic_elements.push(s);
        proof {
            assert(self.graphic_elements@.drop_last() =~= old(self).graphic_elements@);
        }
    }

    /// Appends an arc element: computes the three-point form from the
    /// Y-flipped endpoints and the negated sweep, then emits it.
    pub fn add_graphic_element_arc(
        &mut self,
        start_x: i64,
        start_y: i64,
        angle: i64,
        end_x: i64,
        end_y: i64,
        layer: String,
        width: i64,
    )
        requires
            -10_000_000_000_000 <= start_x <= 10_000_000_000_000,
            -10_000_000_000_000 <= start_y <= 10_000_000_000_000,
            -10_000_000_000_000 <= end_x <= 10_000_000_000_000,
            -10_000_000_000_000 <= end_y <= 10_000_000_000_000,
            -10_000_000_000_000 <= angle <= 10_000_000_000_000,
            -60_000_000_000_000 <= width <= 60_000_000_000_000,
        ensures
            same_doc_meta(*old(self), *final(self)),
            final(self).pads@ == old(self).pads@,
            final(self).graphic_elements@.len() == old(self).graphic_elements@.len() + 1,
            final(self).graphic_elements@.drop_last() == old(self).graphic_elements@,
            is_arc_elem(final(self).graphic_elements@.last()@, start_x as int, start_y as int,
                angle as int, end_x as int, end_y as int, layer@, width as int),
    {
        let m = calculate_arc_midpoint(start_x, -start_y, end_x, -end_y, -angle);
        let id = fresh_id();
        let ghost gid = id@;
        let mut s = String::new();
        s.append("  (fp_arc (start ");
        push_mm6_of_mil(&mut s, m.0);
        s.append(" ");
        push_mm6_of_mil(&mut s, m.1);
        s.append(") (mid ");
        push_mm6_of_mil(&mut s, m.2);
        s.append(" ");
        push_mm6_of_mil(&mut s, m.3);
        s.append(") (end ");
        push_mm6_of_mil(&mut s, m.4);
        s.append(" ");
        push_mm6_of_mil(&mut s, m.5);
        s.append(") (layer ");
        s.append(layer.as_str());
        s.append(") (width ");
        push_mm6_of_mil(&mut s, width);
        s.append(")(tstamp ");
        s.append(id.as_str());
        s.append("))");
        proof {
            assert(s@ =~= fp_arc_text(start_x as int, start_y as int, angle as int, end_x as int,
                end_y as int, layer@, width as int, gid));
        }
        self.graphic_elements.push(s);
        proof {
            assert(self.graphic_elements@.drop_last() =~= old(self).graphic_elements@);
        }
    }

    /// Appends a surface-mount circular pad.
    pub fn add_pad_circle(
        &mut self,
        pad_name: &str,
        center_x: i64,
        center_y: i64,
        radius: i64,
        solder_mask_margin: i64,
        solder_paste_margin: i64,
    )
        requires
            -60_000_000_000_000 <= center_x <= 60_000_000_000_000,
            -60_000_000_000_000 <= center_y <= 60_000_000_000_000,
            -60_000_000_000_000 <= radius <= 60_000_000_000_000,
            -60_000_000_000_000 <= solder_mask_margin <= 60_000_000_000_000,
            -60_000_000_000_000 <= solder_paste_margin <= 60_000_000_000_000,
        ensures
            same_doc_meta(*old(self), *final(self)),
            final(self).graphic_elements@ == old(self).graphic_elements@,
            final(self).pads@.len() == old(self).pads@.len() + 1,
            final(self).pads@.drop_last() == old(self).pads@,
            is_pad_circle_elem(final(self).pads@.last()@, pad_name@, center_x as int,
                center_y as int, radius as int, solder_mask_margin as int,
                solder_paste_margin as int),
    {
        let id = fresh_id();
        let ghost gid = id@;
        let mut s = String::new();
        s.append("  (pad ");
        s.append(pad_name);
        s.append(" smd circle (at ");
        push_mm6_of_mil(&mut s, center_x);
        s.append(" ");
        push_mm6_of_mil(&mut s, -center_y);
        s.append(") (size ");
        push_mm6_of_mil(&mut s, radius);
        s.append(" ");
        push_mm6_of_mil(&mut s, radius);
        s.append(") (layers \"F.Cu\" \"F.Paste\" \"F.Mask\") (solder_mask_margin ");
        push_mm6_of_mil(&mut s, solder_mask_margin);
        s.append(") (solder_paste_margin ");
        push_mm6_of_mil(&mut s, solder_paste_margin);
        s.append(") (tstamp ");
        s.append(id.as_str());
        s.append("))");
        proof {
            assert(s@ =~= pad_circle_text(pad_name@, center_x as int, center_y as int,
                radius as int, solder_mask_margin as int, solder_paste_margin as int, gid));
        }
        self.pads.push(s);
        proof {
            assert(self.pads@.drop_last() =~= old(self).pads@);
        }
    }

    /// Appends a surface-mount rectangular pad.
    pub fn add_pad_rect(
        &mut self,
        pad_name: &str,
        center_x: i64,
        center_y: i64,
        angle: i64,
        width: i64,
        height: i64,
        solder_mask_margin: i64,
        solder_paste_margin: i64,
    )
        requires
            -60_000_000_000_000 <= center_x <= 60_000_000_000_000,
            -60_000_000_000_000 <= center_y <= 60_000_000_000_000,
            -60_000_000_000_000 <= angle <= 60_000_000_000_000,
            -60_000_000_000_000 <= width <= 60_000_000_000_000,
            -60_000_000_000_000 <= height <= 60_000_000_000_000,
            -60_000_000_000_000 <= solder_mask_margin <= 60_000_000_000_000,
            -60_000_000_000_000 <= solder_paste_margin <= 60_000_000_000_000,
        ensures
            same_doc_meta(*old(self), *final(self)),
            final(self).graphic_elements@ == old(self).graphic_elements@,
            final(self).pads@.len() == old(self).pads@.len() + 1,
            final(self).pads@.drop_last() == old(self).pads@,
            is_pad_rect_elem(final(self).pads@.last()@, pad_name@, center_x as int,
                center_y as int, angle as int, width as int, height as int,
                solder_mask_margin as int, solder_paste_margin as int),
    {
        let id = fresh_id();
        let ghost gid = id@;
        let mut s = String::new();
        s.append("  (pad ");
        s.append(pad_name);
        s.append(" smd rect (at ");
        push_mm6_of_mil(&mut s, center_x);
        s.append(" ");
        push_mm6_of_mil(&mut s, -center_y);
        s.append(" ");
        push_trimmed(&mut s, angle);
        s.append(") (size ");
        push_mm6_of_mil(&mut s, width);
        s.append(" ");
        push_mm6_of_mil(&mut s, height);
        s.append(") (layers \"F.Cu\" \"F.Paste\" \"F.Mask\") (solder_mask_margin ");
        push_mm6_of_mil(&mut s, solder_mask_margin);
        s.append(") (solder_paste_margin ");
        push_mm6_of_mil(&mut s, solder_paste_margin);
        s.append(") (tstamp ");
        s.append(id.as_str());
        s.append("))");
        proof {
            assert(s@ =~= pad_rect_text(pad_name@, center_x as int, center_y as int, angle as int,
                width as int, height as int, solder_mask_margin as int,
                solder_paste_margin as int, gid));
        }
        self.pads.push(s);
        proof {
            assert(self.pads@.drop_last() =~= old(self).pads@);
        }
    }

    /// Appends a surface-mount oval pad.
    pub fn add_pad_ellipse(
        &mut self,
        pad_name: &str,
        center_x: i64,
        center_y: i64,
        width: i64,
        height: i64,
        angle: i64,
        solder_mask_margin: i64,
        solder_paste_margin: i64,
    )
        requires
            -60_000_000_000_000 <= center_x <= 60_000_000_000_000,
            -60_000_000_000_000 <= center_y <= 60_000_000_000_000,
            -60_000_000_000_000 <= angle <= 60_000_000_000_000,
            -60_000_000_000_000 <= width <= 60_000_000_000_000,
            -60_000_000_000_000 <= height <= 60_000_000_000_000,
            -60_000_000_000_000 <= solder_mask_margin <= 60_000_000_000_000,
            -60_000_000_000_000 <= solder_paste_margin <= 60_000_000_000_000,
        ensures
            same_doc_meta(*old(self), *final(self)),
            final(self).graphic_elements@ == old(self).graphic_elements@,
            final(self).pads@.len() == old(self).pads@.len() + 1,
            final(self).pads@.drop_last() == old(self).pads@,
            is_pad_oval_elem(final(self).pads@.last()@, pad_name@, center_x as int,
                center_y as int, angle as int, width as int, height as int,
                solder_mask_margin as int, solder_paste_margin as int),
    {
        let id = fresh_id();
        let ghost gid = id@;
        let mut s = String::new();
        s.append("  (pad ");
        s.append(pad_name);
        s.append(" smd oval (at ");
        push_mm6_of_mil(&mut s, center_x);
        s.append(" ");
        push_mm6_of_mil(&mut s, -center_y);
        s.append(" ");
        push_trimmed(&mut s, angle);
        s.append(") (size ");
        push_mm6_of_mil(&mut s, width);
        s.append(" ");
        push_mm6_of_mil(&mut s, height);
        s.append(") (layers \"F.Cu\" \"F.Paste\" \"F.Mask\") (solder_mask_margin ");
        push_mm6_of_mil(&mut s, solder_mask_margin);
        s.append(") (solder_paste_margin ");
        push_mm6_of_mil(&mut s, solder_paste_margin);
        s.append(") (tstamp ");
        s.append(id.as_str());
        s.append("))");
        proof {
            assert(s@ =~= pad_oval_text(pad_name@, center_x as int, center_y as int, angle as int,
                width as int, height as int, solder_mask_margin as int,
                solder_paste_margin as int, gid));
        }
        self.pads.push(s);
        proof {
            assert(self.pads@.drop_last() =~= old(self).pads@);
        }
    }

    /// Appends a custom polygon pad: the points are translated to
    /// pad-relative coordinates about the centre before emission.
    #[verifier::loop_isolation(false)]
    #[verifier::rlimit(80)]
    pub fn add_pad_poly(
        &mut self,
        pad_name: &str,
        center_x: i64,
        center_y: i64,
        pts: &Vec<i64>,
        solder_mask_margin: i64,
        solder_paste_margin: i64,
    )
        requires
            -10_000_000_000_000 <= center_x <= 10_000_000_000_000,
            -10_000_000_000_000 <= center_y <= 10_000_000_000_000,
            forall|i: int|
                0 <= i < pts@.len() ==> -10_000_000_000_000 <= #[trigger] pts@[i]
                    <= 10_000_000_000_000,
            -60_000_000_000_000 <= solder_mask_margin <= 60_000_000_000_000,
            -60_000_000_000_000 <= solder_paste_margin <= 60_000_000_000_000,
        ensures
            same_doc_meta(*old(self), *final(self)),
            final(self).graphic_elements@ == old(self).graphic_elements@,
            final(self).pads@.len() == old(self).pads@.len() + 1,
            final(self).pads@.drop_last() == old(self).pads@,
            is_pad_poly_elem(final(self).pads@.last()@, pad_name@, center_x as int,
                center_y as int, pts@, solder_mask_margin as int, solder_paste_margin as int),
    {
        let id = fresh_id();
        let ghost gid = id@;
        let mut s = String::new();
        s.append("  (pad ");
        s.append(pad_name);
        s.append(" smd custom (at ");
        push_mm6_of_mil(&mut s, center_x);
        s.append(" ");
        push_mm6_of_mil(&mut s, -center_y);
        s.append(") (size 0.0001 0.0001) (layers \"F.Cu\" \"F.Paste\" \"F.Mask\")\n    (options (clearance outline) (anchor circle))\n    (primitives\n      (gr_poly (pts");
        let relative_pts = absolute_to_relative(pts, center_x, center_y);
        let ghost rel = rel_pts_spec(pts@, center_x as int, center_y as int);
        let half = relative_pts.len() / 2;
        let ghost pre = s@;
        proof {
            assert(s@ =~= pre + pad_poly_pts_text(rel, 0));
        }
        let mut i: usize = 0;
        while i < half
            invariant
                0 <= i <= half,
                s@ == pre + pad_poly_pts_text(rel, i as int),
            decreases half - i,
        {
            s.append(" (xy ");
            push_mm6_of_mil(&mut s, relative_pts[2 * i]);
            s.append(" ");
            push_mm6_of_mil(&mut s, relative_pts[2 * i + 1]);
            s.append(")");
            i += 1;
            proof {
                assert(s@ =~= pre + pad_poly_pts_text(rel, i as int));
            }
        }
        s.append("\n      ) (width 0) (fill yes))\n  )(solder_mask_margin ");
        push_mm6_of_mil(&mut s, solder_mask_margin);
        s.append(") (solder_paste_margin ");
        push_mm6_of_mil(&mut s, solder_paste_margin);
        s.append(")(tstamp ");
        s.append(id.as_str());
        s.append("))");
        proof {
            assert(s@ =~= pad_poly_text(pad_name@, center_x as int, center_y as int, pts@,
                solder_mask_margin as int, solder_paste_margin as int, gid));
        }
        self.pads.push(s);
        proof {
            assert(self.pads@.drop_last() =~= old(self).pads@);
        }
    }

    /// Appends a through-hole circular pad.
    pub fn add_pad_hole(
        &mut self,
        pad_name: &str,
        center_x: i64,
        center_y: i64,
        radius: i64,
        drill: i64,
    )
        requires
            -60_000_000_000_000 <= center_x <= 60_000_000_000_000,
            -60_000_000_000_000 <= center_y <= 60_000_000_000_000,
            -60_000_000_000_000 <= radius <= 60_000_000_000_000,
            -60_000_000_000_000 <= drill <= 60_000_000_000_000,
        ensures
            same_doc_meta(*old(self), *final(self)),
            final(self).graphic_elements@ == old(self).graphic_elements@,
            final(self).pads@.len() == old(self).pads@.len() + 1,
            final(self).pads@.drop_last() == old(self).pads@,
            is_pad_hole_elem(final(self).pads@.last()@, pad_name@, center_x as int,
                center_y as int, radius as int, drill as int),
    {
        let id = fresh_id();
        let ghost gid = id@;
        let mut s = String::new();
        s.append("  (pad ");
        s.append(pad_name);
        s.append(" thru_hole circle (at ");
        push_mm6_of_mil(&mut s, center_x);
        s.append(" ");
        push_mm6_of_mil(&mut s, -center_y);
        s.append(") (size ");
        push_mm6_of_mil(&mut s, radius);
        s.append(" ");
        push_mm6_of_mil(&mut s, radius);
        s.append(") (drill ");
        push_mm6_of_mil(&mut s, drill);
        s.append(") (layers *.Cu *.Mask) (solder_mask_margin 0.051) (tstamp ");
        s.append(id.as_str());
        s.append("))");
        proof {
            assert(s@ =~= pad_hole_text(pad_name@, center_x as int, center_y as int,
                radius as int, drill as int, gid));
        }
        self.pads.push(s);
        proof {
            assert(self.pads@.drop_last() =~= old(self).pads@);
        }
    }

    /// Appends a through-hole oval pad with an oval drill.
    pub fn add_pad_hole_oval(
        &mut self,
        pad_name: &str,
        center_x: i64,
        center_y: i64,
        angle: i64,
        width: i64,
        height: i64,
        drill_x: i64,
        drill_y: i64,
    )
        requires
            -60_000_000_000_000 <= center_x <= 60_000_000_000_000,
            -60_000_000_000_000 <= center_y <= 60_000_000_000_000,
            -60_000_000_000_000 <= angle <= 60_000_000_000_000,
            -60_000_000_000_000 <= width <= 60_000_000_000_000,
            -60_000_000_000_000 <= height <= 60_000_000_000_000,
            -60_000_000_000_000 <= drill_x <= 60_000_000_000_000,
            -60_000_000_000_000 <= drill_y <= 60_000_000_000_000,
        ensures
            same_doc_meta(*old(self), *final(self)),
            final(self).graphic_elements@ == old(self).graphic_elements@,
            final(self).pads@.len() == old(self).pads@.len() + 1,
            final(self).pads@.drop_last() == old(self).pads@,
            is_pad_hole_oval_elem(final(self).pads@.last()@, pad_name@, center_x as int,
                center_y as int, angle as int, width as int, height as int, drill_x as int,
                drill_y as int),
    {
        let id = fresh_id();
        let ghost gid = id@;
        let mut s = String::new();
        s.append("  (pad ");
        s.append(pad_name);
        s.append(" thru_hole oval (at ");
        push_mm6_of_mil(&mut s, center_x);
        s.append(" ");
        push_mm6_of_mil(&mut s, -center_y);
        s.append(" ");
        push_trimmed(&mut s, angle);
        s.append(") (size ");
        push_mm6_of_mil(&mut s, width);
        s.append(" ");
        push_mm6_of_mil(&mut s, height);
        s.append(") (drill oval ");
        push_mm6_of_mil(&mut s, drill_x);
        s.append(" ");
        push_mm6_of_mil(&mut s, drill_y);
        s.append(") (layers *.Cu *.Mask) (solder_mask_margin 0.051) (tstamp ");
        s.append(id.as_str());
        s.append("))");
        proof {
            assert(s@ =~= pad_hole_oval_text(pad_name@, center_x as int, center_y as int,
                angle as int, width as int, height as int, drill_x as int, drill_y as int, gid));
        }
        self.pads.push(s);
        proof {
            assert(self.pads@.drop_last() =~= old(self).pads@);
        }
    }

    /// Appends a through-hole rectangular pad.
    pub fn add_pad_hole_rect(
        &mut self,
        pad_name: &str,
        center_x: i64,
        center_y: i64,
        width: i64,
        height: i64,
        angle: i64,
        drill: i64,
    )
        requires
            -60_000_000_000_000 <= center_x <= 60_000_000_000_000,
            -60_000_000_000_000 <= center_y <= 60_000_000_000_000,
            -60_000_000_000_000 <= angle <= 60_000_000_000_000,
            -60_000_000_000_000 <= width <= 60_000_000_000_000,
            -60_000_000_000_000 <= height <= 60_000_000_000_000,
            -60_000_000_000_000 <= drill <= 60_000_000_000_000,
        ensures
            same_doc_meta(*old(self), *final(self)),
            final(self).graphic_elements@ == old(self).graphic_elements@,
            final(self).pads@.len() == old(self).pads@.len() + 1,
            final(self).pads@.drop_last() == old(self).pads@,
            is_pad_hole_rect_elem(final(self).pads@.last()@, pad_name@, center_x as int,
                center_y as int, width as int, height as int, angle as int, drill as int),
    {
        let id = fresh_id();
        let ghost gid = id@;
        let mut s = String::new();
        s.append("  (pad ");
        s.append(pad_name);
        s.append(" thru_hole rect (at ");
        push_mm6_of_mil(&mut s, center_x);
        s.append(" ");
        push_mm6_of_mil(&mut s, -center_y);
        s.append(" ");
        push_trimmed(&mut s, angle);
        s.append(") (size ");
        push_mm6_of_mil(&mut s, width);
        s.append(" ");
        push_mm6_of_mil(&mut s, height);
        s.append(") (drill ");
        push_mm6_of_mil(&mut s, drill);
        s.append(") (layers *.Cu *.Mask) (solder_mask_margin 0.051) (tstamp ");
        s.append(id.as_str());
        s.append("))");
        proof {
            assert(s@ =~= pad_hole_rect_text(pad_name@, center_x as int, center_y as int,
                width as int, height as int, angle as int, drill as int, gid));
        }
        self.pads.push(s);
        proof {
            assert(self.pads@.drop_last() =~= old(self).pads@);
        }
    }
}

/// Turns a flat list of absolute coordinates into pad-relative ones:
/// each X translated by the centre, each Y translated and flipped.
#[verifier::loop_isolation(false)]
pub fn absolute_to_relative(pts: &Vec<i64>, center_x: i64, center_y: i64) -> (r: Vec<i64>)
    requires
        -10_000_000_000_000 <= center_x <= 10_000_000_000_000,
        -10_000_000_000_000 <= center_y <= 10_000_000_000_000,
        forall|i: int|
            0 <= i < pts@.len() ==> -10_000_000_000_000 <= #[trigger] pts@[i]
                <= 10_000_000_000_000,
    ensures
        r@ == rel_pts_spec(pts@, center_x as int, center_y as int),
        forall|i: int|
            0 <= i < r@.len() ==> -20_000_000_000_000 <= #[trigger] r@[i] <= 20_000_000_000_000,
{
    let mut r: Vec<i64> = Vec::new();
    let half = pts.len() / 2;
    let mut i: usize = 0;
    while i < half
        invariant
            0 <= i <= half,
            r@.len() == 2 * i,
            forall|j: int| 0 <= j < 2 * i ==> r@[j]
                == rel_pts_spec(pts@, center_x as int, center_y as int)[j],
        decreases half - i,
    {
        r.push(pts[2 * i] - center_x);
        r.push(-(pts[2 * i + 1] - center_y));
        i += 1;
    }
    proof {
        assert(r@ =~= rel_pts_spec(pts@, center_x as int, center_y as int));
    }
    r
}


/// Text of the fixed reference field.
pub open spec fn ref_text_spec(id: Seq<char>) -> Seq<char> {
    "  (fp_text reference \"REF**\" (at 0 -5) (layer \"F.SilkS\")\n    (effects (font (size 1 1) (thickness 0.15)))\n    (tstamp "@
        + id + "))"@
}

/// Text of the value field carrying the component name.
pub open spec fn value_text_spec(name: Seq<char>, id: Seq<char>) -> Seq<char> {
    "  (fp_text value \""@ + name
        + "\" (at 0 5) (layer \"F.Fab\")\n    (effects (font (size 1 1) (thickness 0.15)))\n    (tstamp "@
        + id + "))"@
}

/// The elements of a list, each followed by one newline.
pub open spec fn join_nl(elems: Seq<String>) -> Seq<char>
    decreases elems.len(),
{
    if elems.len() == 0 {
        Seq::empty()
    } else {
        join_nl(elems.drop_last()) + elems.last()@ + seq!['\n']
    }
}

/// The serialized document: header and metadata lines, the text
/// fields, the graphic elements in append order, the pads in append
/// order, and the terminating marker.
pub open spec fn content_spec(m: KicadModData) -> Seq<char> {
    m.header@ + seq!['\n'] + m.version@ + seq!['\n'] + m.generator@ + seq!['\n'] + m.layer@
        + seq!['\n'] + m.tedit@ + seq!['\n'] + m.description@ + seq!['\n'] + m.tags@
        + seq!['\n'] + m.attr@ + seq!['\n'] + join_nl(m.text_elements@) + join_nl(
        m.graphic_elements@,
    ) + join_nl(m.pads@) + ")"@
}

/// A document with no graphic elements serializes with the graphic
/// section empty: header, metadata, text fields, pads and the
/// terminating marker stand unchanged, directly adjacent.
pub proof fn lemma_empty_graphics_content(m: KicadModData)
    requires
        m.graphic_elements@.len() == 0,
    ensures
        content_spec(m) == m.header@ + seq!['\n'] + m.version@ + seq!['\n'] + m.generator@
            + seq!['\n'] + m.layer@ + seq!['\n'] + m.tedit@ + seq!['\n'] + m.description@
            + seq!['\n'] + m.tags@ + seq!['\n'] + m.attr@ + seq!['\n'] + join_nl(
            m.text_elements@) + join_nl(m.pads@) + ")"@,
{
    assert(join_nl(m.graphic_elements@) =~= Seq::<char>::empty());
    assert(content_spec(m) =~= m.header@ + seq!['\n'] + m.version@ + seq!['\n'] + m.generator@
        + seq!['\n'] + m.layer@ + seq!['\n'] + m.tedit@ + seq!['\n'] + m.description@
        + seq!['\n'] + m.tags@ + seq!['\n'] + m.attr@ + seq!['\n'] + join_nl(m.text_elements@)
        + join_nl(m.pads@) + ")"@);
}

/// For a valid circle on a non-cutout layer the emitted end point lies
/// exactly one radius from the emitted centre, in the exact output
/// scale (tenths of a nanometre): the decoder emits the end as
/// `(cx, cy + r)`, the model flips Y, and the conversion is linear.
pub proof fn lemma_circle_boundary(cx: int, cy: int, r: int)
    requires
        0 <= r <= 10_000_000_000_000,
        -10_000_000_000_000 <= cx <= 10_000_000_000_000,
        -10_000_000_000_000 <= cy <= 10_000_000_000_000,
    ensures
        crate::geom::dist(254 * cx, -254 * cy, 254 * cx, -254 * (cy + r)) == 254 * r,
{
    let d = 254 * r;
    let x1 = 254 * cx;
    let y1 = -254 * cy;
    let y2 = -254 * (cy + r);
    assert((x1 - x1) * (x1 - x1) == 0) by (nonlinear_arith);
    assert((y1 - y2) * (y1 - y2) == d * d) by (nonlinear_arith)
        requires y1 - y2 == d;
    assert(crate::geom::dist2(x1, y1, x1, y2) == d * d);
    assert(d * d >= 0) by (nonlinear_arith);
    assert(d * d < (d + 1) * (d + 1)) by (nonlinear_arith)
        requires d >= 0;
    crate::geom::lemma_sqrt_unique((d * d) as nat, d as nat);
}

impl KicadModData {
    /// Creates a new document for the named component: fixed header
    /// and metadata, the construction timestamp, two default text
    /// fields, and empty element lists.
    pub fn new(module_name: &str) -> (r: KicadModData)
        ensures
            r.header@ == "(footprint \""@ + module_name@ + "\" "@,
            r.version@ == "(version 20211014)"@,
            r.generator@ == "(generator pcbnew)"@,
            r.layer@ == "(layer \"F.Cu\")"@,
            exists|ts: u64| r.tedit@ == "(tedit "@ + hex16(ts as nat) + ")"@,
            r.description@ == "(descr \"\")"@,
            r.tags@ == "(tags \"\")"@,
            r.attr@ == "(attr smd)"@,
            r.text_elements@.len() == 2,
            exists|id: Seq<char>|
                is_elem_id(id) && r.text_elements@[0]@ == (#[trigger] ref_text_spec(id)),
            exists|id: Seq<char>|
                is_elem_id(id) && r.text_elements@[1]@ == (#[trigger] value_text_spec(
                    module_name@, id)),
            r.graphic_elements@.len() == 0,
            r.pads@.len() == 0,
    {
        let ts = now_timestamp();
        let mut tedit = String::new();
        tedit.append("(tedit ");
        push_hex16(&mut tedit, ts);
        tedit.append(")");
        proof {
            assert(tedit@ =~= "(tedit "@ + hex16(ts as nat) + ")"@);
        }
        let mut header = String::new();
        header.append("(footprint \"");
        header.append(module_name);
        header.append("\" ");
        proof {
            assert(header@ =~= "(footprint \""@ + module_name@ + "\" "@);
        }
        let id0 = fresh_id();
        let ghost gid0 = id0@;
        let mut t0 = String::new();
        t0.append(
            "  (fp_text reference \"REF**\" (at 0 -5) (layer \"F.SilkS\")\n    (effects (font (size 1 1) (thickness 0.15)))\n    (tstamp ",
        );
        t0.append(id0.as_str());
        t0.append("))");
        proof {
            assert(t0@ =~= ref_text_spec(gid0));
        }
        let id1 = fresh_id();
        let ghost gid1 = id1@;
        let mut t1 = String::new();
        t1.append("  (fp_text value \"");
        t1.append(module_name);
        t1.append(
            "\" (at 0 5) (layer \"F.Fab\")\n    (effects (font (size 1 1) (thickness 0.15)))\n    (tstamp ",
        );
        t1.append(id1.as_str());
        t1.append("))");
        proof {
            assert(t1@ =~= value_text_spec(module_name@, gid1));
        }
        let mut text_elements: Vec<String> = Vec::new();
        text_elements.push(t0);
        text_elements.push(t1);
        KicadModData {
            header,
            version: "(version 20211014)".to_owned(),
            generator: "(generator pcbnew)".to_owned(),
            layer: "(layer \"F.Cu\")".to_owned(),
            tedit,
            description: "(descr \"\")".to_owned(),
            tags: "(tags \"\")".to_owned(),
            attr: "(attr smd)".to_owned(),
            text_elements,
            graphic_elements: Vec::new(),
            pads: Vec::new(),
        }
    }

    /// Serializes the document.  Repeated calls return identical text
    /// while the document is not mutated.
    #[verifier::loop_isolation(false)]
    pub fn generate_content(&self) -> (r: String)
        ensures
            r@ == content_spec(*self),
    {
        let mut content = String::new();
        content.append(self.header.as_str());
        content.append("\n");
        content.append(self.version.as_str());
        content.append("\n");
        content.append(self.generator.as_str());
        content.append("\n");
        content.append(self.layer.as_str());
        content.append("\n");
        content.append(self.tedit.as_str());
        content.append("\n");
        content.append(self.description.as_str());
        content.append("\n");
        content.append(self.tags.as_str());
        content.append("\n");
        content.append(self.attr.as_str());
        content.append("\n");
        proof {
            reveal_strlit("\n");
        }
        let ghost meta = content@;
        let mut i: usize = 0;
        while i < self.text_elements.len()
            invariant
                0 <= i <= self.text_elements@.len(),
                content@ == meta + join_nl(self.text_elements@.take(i as int)),
            decreases self.text_elements@.len() - i,
        {
            content.append(self.text_elements[i].as_str());
            content.append("\n");
            i += 1;
            proof {
                assert(self.text_elements@.take(i as int).drop_last() =~= self.text_elements@.take(
                    i as int - 1));
                assert(content@ =~= meta + join_nl(self.text_elements@.take(i as int)));
            }
        }
        proof {
            assert(self.text_elements@.take(self.text_elements@.len() as int)
                =~= self.text_elements@);
        }
        let ghost meta2 = content@;
        let mut i: usize = 0;
        while i < self.graphic_elements.len()
            invariant
                0 <= i <= self.graphic_elements@.len(),
                content@ == meta2 + join_nl(self.graphic_elements@.take(i as int)),
            decreases self.graphic_elements@.len() - i,
        {
            content.append(self.graphic_elements[i].as_str());
            content.append("\n");
            i += 1;
            proof {
                assert(self.graphic_elements@.take(i as int).drop_last()
                    =~= self.graphic_elements@.take(i as int - 1));
                assert(content@ =~= meta2 + join_nl(self.graphic_elements@.take(i as int)));
            }
        }
        proof {
            assert(self.graphic_elements@.take(self.graphic_elements@.len() as int)
                =~= self.graphic_elements@);
        }
        let ghost meta3 = content@;
        let mut i: usize = 0;
        while i < self.pads.len()
            invariant
                0 <= i <= self.pads@.len(),
                content@ == meta3 + join_nl(self.pads@.take(i as int)),
            decreases self.pads@.len() - i,
        {
            content.append(self.pads[i].as_str());
            content.append("\n");
            i += 1;
            proof {
                assert(self.pads@.take(i as int).drop_last() =~= self.pads@.take(i as int - 1));
                assert(content@ =~= meta3 + join_nl(self.pads@.take(i as int)));
            }
        }
        proof {
            assert(self.pads@.take(self.pads@.len() as int) =~= self.pads@);
        }
        content.append(")");
        proof {
            assert(content@ =~= content_spec(*self));
        }
        content
    }
}

} // verus!
