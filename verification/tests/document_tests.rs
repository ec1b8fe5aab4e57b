//! The document model and the whole per-component conversion.

use elib2kicad::decode::{parse_efoo_records, parse_esym_file, Field};
use elib2kicad::model::{absolute_to_relative, KicadModData};

fn n(v: i64) -> Field {
    Field::NVal(v)
}

fn s(t: &str) -> Field {
    Field::SVal(t.to_string())
}

fn a(v: Vec<Field>) -> Field {
    Field::AVal(v)
}

fn smd_pad(name: &str) -> Vec<Field> {
    vec![s("PAD"), Field::Null, Field::Null, Field::Null, Field::Null, s(name), n(100_000_000),
        n(200_000_000), n(0), Field::Null, a(vec![s("ELLIPSE"), n(10_000_000)])]
}

#[test]
fn new_document_carries_the_fixed_metadata() {
    let m = KicadModData::new("R0603");
    let content = m.generate_content();
    assert!(content.starts_with("(footprint \"R0603\" \n"));
    assert!(content.contains("(version 20211014)\n"));
    assert!(content.contains("(generator pcbnew)\n"));
    assert!(content.contains("(layer \"F.Cu\")\n"));
    assert!(content.contains("(descr \"\")\n"));
    assert!(content.contains("(tags \"\")\n"));
    assert!(content.contains("(attr smd)\n"));
    assert!(content.contains("(fp_text reference \"REF**\""));
    assert!(content.contains("(fp_text value \"R0603\""));
    assert!(content.ends_with(")"));
    // The construction timestamp renders as sixteen hex digits.
    let at = content.find("(tedit ").unwrap() + "(tedit ".len();
    let tedit = &content[at..at + 16];
    assert!(tedit.chars().all(|c| c.is_ascii_hexdigit()));
}

#[test]
fn serialization_is_idempotent() {
    let mut m = KicadModData::new("X");
    m.add_pad_circle("1", 0, 0, 5_000_000, 2_000_000, 0);
    assert_eq!(m.generate_content(), m.generate_content());
}

#[test]
fn pads_only_document_keeps_the_grammar_with_no_graphics() {
    // A component with only pad records: the graphic section is empty
    // but header, text fields, pad section and the closing marker all
    // stand.
    let records = vec![smd_pad("1"), smd_pad("2")];
    let (content, failed) = parse_efoo_records(&records, "PADS");
    assert_eq!(failed, 0);
    assert!(content.starts_with("(footprint \"PADS\" \n"));
    assert!(content.ends_with(")"));
    assert!(!content.contains("(fp_line"));
    assert!(!content.contains("(fp_poly"));
    assert!(!content.contains("(fp_circle"));
    assert!(!content.contains("(fp_arc"));
    assert_eq!(content.matches("\n  (pad ").count(), 2);
    // The pad line itself: converted centre, flipped Y, default
    // margins of 2 units of mask and no paste.
    assert!(content.contains(
        " smd circle (at 2.540000 -5.080000) (size 0.254000 0.254000) (layers \"F.Cu\" \"F.Paste\" \"F.Mask\") (solder_mask_margin 0.050800) (solder_paste_margin 0.000000) (tstamp "
    ));
}

#[test]
fn circle_record_emits_centre_and_boundary_point() {
    // A circle at (100, 200) mil with radius 50 mil on the top copper
    // layer: centre (2.54, -5.08) mm, end one radius below in the
    // flipped plane.
    let rec = vec![s("POLY"), Field::Null, Field::Null, Field::Null, n(1_000_000), n(10_000_000),
        a(vec![s("CIRCLE"), n(100_000_000), n(200_000_000), n(50_000_000)])];
    let (content, failed) = parse_efoo_records(&vec![rec], "C");
    assert_eq!(failed, 0);
    assert!(content.contains(
        "(fp_circle (center 2.540000 -5.080000) (end 2.540000 -6.350000) (layer F.Cu) (width 0.254000) (fill none) (tstamp "
    ));
}

#[test]
fn cutout_circle_becomes_an_unplated_hole() {
    let rec = vec![s("POLY"), Field::Null, Field::Null, Field::Null, n(12_000_000), n(10_000_000),
        a(vec![s("CIRCLE"), n(0), n(0), n(50_000_000)])];
    let (content, failed) = parse_efoo_records(&vec![rec], "C");
    assert_eq!(failed, 0);
    assert!(content.contains(
        "(pad \"\" np_thru_hole circle (at 0.000000 0.000000) (size 1.270000 1.270000) (drill 2.540000) (layers F&B.Cu *.Mask) (tstamp "
    ));
}

#[test]
fn silkscreen_polygon_explodes_into_lines() {
    // An unfilled three-point polygon on the front silkscreen becomes
    // two line elements and no polygon element.
    let shape = vec![n(0), n(0), s("L"), n(1_000_000), n(1_000_000), n(2_000_000), n(0)];
    let rec = vec![s("POLY"), Field::Null, Field::Null, Field::Null, n(3_000_000), n(10_000_000),
        a(shape)];
    let (content, failed) = parse_efoo_records(&vec![rec], "SILK");
    // The explosion is a policy fidelity warning: tallied as one
    // finding even though the lines are still emitted.
    assert_eq!(failed, 1);
    assert!(!content.contains("(fp_poly"));
    assert_eq!(content.matches("(fp_line").count(), 2);
    // First segment: from (0, 0) to (1, -1) in converted, flipped
    // coordinates.
    assert!(content.contains(
        "(fp_line (start 0.000000 0.000000) (end 0.025400 -0.025400) (layer \"F.SilkS\") (width 0.254000) (tstamp "
    ));
}

#[test]
fn other_layers_keep_their_polygons() {
    let shape = vec![n(0), n(0), s("L"), n(1_000_000), n(1_000_000), n(2_000_000), n(0)];
    let rec = vec![s("POLY"), Field::Null, Field::Null, Field::Null, n(9_000_000), n(10_000_000),
        a(shape)];
    let (content, failed) = parse_efoo_records(&vec![rec], "FAB");
    assert_eq!(failed, 0);
    assert!(!content.contains("(fp_line"));
    assert!(content.contains(
        "(fp_poly (pts    (xy 0.000000 0.000000)   (xy 0.025400 -0.025400)   (xy 0.050800 0.000000)  ) (layer \"F.Fab\") (width 0.254000) (fill none) (tstamp "
    ));
}

#[test]
fn arc_record_emits_the_three_point_form() {
    // A counter-clockwise quarter turn; the document flips Y and
    // negates the sweep, so the start and end pass through unchanged
    // and the midpoint sits on the arc.
    let shape = vec![n(0), n(0), s("ARC"), n(-180_000_000), n(10_000_000), n(0)];
    let rec = vec![s("POLY"), Field::Null, Field::Null, Field::Null, n(1_000_000), n(10_000_000),
        a(shape)];
    let (content, failed) = parse_efoo_records(&vec![rec], "ARC");
    assert_eq!(failed, 0);
    assert!(content.contains("(fp_arc (start 0.000000 0.000000) (mid "));
    assert!(content.contains(") (end 0.254000 0.000000) (layer F.Cu) (width 0.254000)(tstamp "));
}

#[test]
fn conversion_accumulates_the_unparsed_count() {
    let bad_pad = vec![s("PAD"), n(1), n(2), n(3), n(4), n(5), n(6), n(7), n(8), n(9)];
    let no_token = vec![s("POLY"), Field::Null, Field::Null, Field::Null, n(1_000_000),
        n(10_000_000), a(vec![n(1), n(2)])];
    let fine = smd_pad("1");
    let records = vec![bad_pad, no_token, fine];
    let (content, failed) = parse_efoo_records(&records, "MIX");
    assert_eq!(failed, 2);
    assert_eq!(content.matches("\n  (pad ").count(), 1);
}

#[test]
fn custom_pad_points_are_made_relative_to_the_centre() {
    let rel = absolute_to_relative(&vec![3_000_000, 5_000_000, -1_000_000, 2_000_000], 1_000_000,
        2_000_000);
    assert_eq!(rel, vec![2_000_000, -3_000_000, -2_000_000, 0]);
}

#[test]
fn poly_pad_emits_relative_coordinates() {
    let pts = a(vec![n(101_000_000), n(201_000_000), Field::Null, n(99_000_000), n(200_000_000)]);
    let rec = vec![s("PAD"), Field::Null, Field::Null, Field::Null, Field::Null, s("1"),
        n(100_000_000), n(200_000_000), n(0), Field::Null, a(vec![s("POLY"), pts])];
    let (content, failed) = parse_efoo_records(&vec![rec], "CUSTOM");
    assert_eq!(failed, 0);
    assert!(content.contains(" smd custom (at 2.540000 -5.080000) (size 0.0001 0.0001)"));
    // (101, 201) relative to (100, 200), Y flipped: (0.0254, -0.0254).
    assert!(content.contains("(gr_poly (pts (xy 0.025400 -0.025400) (xy -0.025400 0.000000)"));
}

#[test]
fn pad_rotation_prints_in_its_shortest_form() {
    let mut rec = smd_pad("1");
    rec[8] = n(90_000_000);
    rec[10] = a(vec![s("RECT"), n(10_000_000), n(20_000_000)]);
    let (content, failed) = parse_efoo_records(&vec![rec], "ROT");
    assert_eq!(failed, 0);
    assert!(content.contains(" smd rect (at 2.540000 -5.080000 90) (size 0.254000 0.508000)"));
}

#[test]
fn through_hole_pad_emits_drill_and_fixed_layers() {
    let mut rec = smd_pad("2");
    rec[9] = a(vec![s("ROUND"), n(30_000_000)]);
    let (content, failed) = parse_efoo_records(&vec![rec], "TH");
    assert_eq!(failed, 0);
    assert!(content.contains(
        " thru_hole circle (at 2.540000 -5.080000) (size 0.254000 0.254000) (drill 0.762000) (layers *.Cu *.Mask) (solder_mask_margin 0.051) (tstamp "
    ));
}

#[test]
fn symbol_decoder_is_a_placeholder() {
    assert_eq!(parse_esym_file("", "", ""), "OK");
}
