//! Record decoding: shape arrays, pads, and the unparsed count.

use elib2kicad::decode::{decode_record, Action, Field};

fn n(v: i64) -> Field {
    Field::NVal(v)
}

fn s(t: &str) -> Field {
    Field::SVal(t.to_string())
}

fn a(v: Vec<Field>) -> Field {
    Field::AVal(v)
}

/// A graphic record: tag, three fillers, layer id, stroke width, and
/// the shape payload at offset 6 (or 7 for a filled record).
fn graphic(tag: &str, layer_id: i64, shape: Vec<Field>) -> Vec<Field> {
    if tag == "FILL" {
        vec![s(tag), Field::Null, Field::Null, Field::Null, n(layer_id * 1_000_000),
            n(10_000_000), Field::Null, a(shape)]
    } else {
        vec![s(tag), Field::Null, Field::Null, Field::Null, n(layer_id * 1_000_000),
            n(10_000_000), a(shape)]
    }
}

#[test]
fn short_records_are_skipped_silently() {
    let (action, unparsed) = decode_record(&vec![s("POLY"), n(1), n(2)]);
    assert!(matches!(action, Action::Skip));
    assert_eq!(unparsed, 0);
}

#[test]
fn unknown_tags_are_skipped_silently() {
    let rec = vec![s("TRACK"), n(1), n(2), n(3), n(4), n(5)];
    let (action, unparsed) = decode_record(&rec);
    assert!(matches!(action, Action::Skip));
    assert_eq!(unparsed, 0);
}

#[test]
fn non_string_tags_count_as_malformed() {
    let rec = vec![n(1), n(1), n(2), n(3), n(4), n(5)];
    let (action, unparsed) = decode_record(&rec);
    assert!(matches!(action, Action::Skip));
    assert_eq!(unparsed, 1);
}

#[test]
fn unresolved_layer_id_is_counted() {
    let rec = graphic("POLY", 14, vec![s("CIRCLE"), n(0), n(0), n(5_000_000)]);
    let (action, unparsed) = decode_record(&rec);
    assert!(matches!(action, Action::Skip));
    assert_eq!(unparsed, 1);
}

#[test]
fn circle_on_a_normal_layer_ends_one_radius_above_centre() {
    let rec = graphic("POLY", 1, vec![s("CIRCLE"), n(1_000_000), n(2_000_000), n(5_000_000)]);
    let (action, unparsed) = decode_record(&rec);
    assert_eq!(unparsed, 0);
    match action {
        Action::Circle { cx, cy, ex, ey, layer, width, fill } => {
            assert_eq!((cx, cy), (1_000_000, 2_000_000));
            assert_eq!(ex, cx);
            assert_eq!(ey, cy + 5_000_000);
            assert_eq!(layer, "F.Cu");
            assert_eq!(width, 10_000_000);
            assert!(!fill);
        },
        _ => panic!("expected a circle"),
    }
}

#[test]
fn circle_on_the_combination_layer_is_a_cutout() {
    let rec = graphic("POLY", 12, vec![s("CIRCLE"), n(0), n(0), n(7_000_000)]);
    let (action, unparsed) = decode_record(&rec);
    assert_eq!(unparsed, 0);
    assert!(matches!(action, Action::CircleHole { cx: 0, cy: 0, r: 7_000_000 }));
}

#[test]
fn circle_with_trailing_fields_counts_one_finding() {
    let rec = graphic("POLY", 1, vec![s("CIRCLE"), n(0), n(0), n(7_000_000), n(9)]);
    let (action, unparsed) = decode_record(&rec);
    assert!(matches!(action, Action::Circle { .. }));
    assert_eq!(unparsed, 1);
}

#[test]
fn simple_polygon_takes_every_field_but_the_token() {
    // Seven fields, one "L" at position 2: (7 - 1) / 2 = 3 points.
    let shape = vec![n(1), n(2), s("L"), n(3), n(4), n(5), n(6)];
    let rec = graphic("POLY", 1, shape);
    let (action, unparsed) = decode_record(&rec);
    assert_eq!(unparsed, 0);
    match action {
        Action::Polygon { pts, fill, .. } => {
            assert_eq!(pts, vec![1, 2, 3, 4, 5, 6]);
            assert!(!fill);
        },
        _ => panic!("expected a polygon"),
    }
}

#[test]
fn filled_record_reads_its_payload_at_offset_seven() {
    let shape = vec![n(1), n(2), s("L"), n(3), n(4)];
    let rec = graphic("FILL", 1, shape);
    let (action, unparsed) = decode_record(&rec);
    assert_eq!(unparsed, 0);
    match action {
        Action::Polygon { pts, fill, .. } => {
            assert_eq!(pts, vec![1, 2, 3, 4]);
            assert!(fill);
        },
        _ => panic!("expected a polygon"),
    }
}

#[test]
fn wrapped_payload_of_length_one_costs_nothing() {
    let inner = a(vec![n(1), n(2), s("L"), n(3), n(4)]);
    let rec = vec![s("POLY"), Field::Null, Field::Null, Field::Null, n(1_000_000),
        n(10_000_000), a(vec![inner])];
    let (action, unparsed) = decode_record(&rec);
    assert!(matches!(action, Action::Polygon { .. }));
    assert_eq!(unparsed, 0);
}

#[test]
fn wrapped_payload_longer_than_one_counts_once_but_still_decodes() {
    let inner = a(vec![n(1), n(2), s("L"), n(3), n(4)]);
    let second = a(vec![n(9), n(9), s("L"), n(9), n(9)]);
    let rec = vec![s("POLY"), Field::Null, Field::Null, Field::Null, n(1_000_000),
        n(10_000_000), a(vec![inner, second])];
    let (action, unparsed) = decode_record(&rec);
    match action {
        Action::Polygon { pts, .. } => assert_eq!(pts, vec![1, 2, 3, 4]),
        _ => panic!("expected the first sub-shape"),
    }
    assert_eq!(unparsed, 1);
}

#[test]
fn shape_without_tokens_is_counted() {
    let rec = graphic("POLY", 1, vec![n(1), n(2), n(3)]);
    let (action, unparsed) = decode_record(&rec);
    assert!(matches!(action, Action::Skip));
    assert_eq!(unparsed, 1);
}

#[test]
fn single_arc_shape_decodes_to_one_arc() {
    let shape = vec![n(-59_055_000), n(0), s("ARC"), n(-180_471_542), n(59_056_000), n(0)];
    let rec = graphic("POLY", 1, shape);
    let (action, unparsed) = decode_record(&rec);
    assert_eq!(unparsed, 0);
    match action {
        Action::Arc { sx, sy, angle, ex, ey, .. } => {
            assert_eq!((sx, sy), (-59_055_000, 0));
            assert_eq!(angle, -180_471_542);
            assert_eq!((ex, ey), (59_056_000, 0));
        },
        _ => panic!("expected an arc"),
    }
}

#[test]
fn mixed_chain_concatenates_runs_and_fitted_arcs() {
    // One straight run of two points, then one arc: 4 run values plus
    // 20 fitted points of 2 values each — the fit's first point, which
    // would repeat the anchor the run already contributed, is dropped.
    let shape = vec![n(0), n(0), s("L"), n(1_000_000), n(0), n(2_000_000), n(0), s("ARC"),
        n(90_000_000), n(3_000_000), n(1_000_000)];
    let rec = graphic("POLY", 1, shape);
    let (action, unparsed) = decode_record(&rec);
    assert_eq!(unparsed, 0);
    match action {
        Action::Polygon { pts, .. } => {
            assert_eq!(pts.len(), 4 + 40);
            // The run is taken verbatim.
            assert_eq!(&pts[0..4], &[1_000_000, 0, 2_000_000, 0]);
            // The arc's start anchor is not repeated.
            assert_ne!(&pts[4..6], &[2_000_000, 0]);
            // The arc ends exactly on its end anchor, back in the
            // source orientation like the straight-run points.
            assert_eq!(&pts[42..44], &[3_000_000, 1_000_000]);
        },
        _ => panic!("expected a polygon"),
    }
}

#[test]
fn silkscreen_explosion_is_tallied_as_a_finding() {
    // An unfilled polygon on the front silkscreen is still decoded,
    // but the explosion into lines is a policy warning and counts one
    // finding; the same polygon filled, or on another layer, is free.
    let shape = vec![n(0), n(0), s("L"), n(1), n(2), n(3), n(4)];
    let rec = graphic("POLY", 3, shape);
    let (action, unparsed) = decode_record(&rec);
    assert!(matches!(action, Action::Polygon { .. }));
    assert_eq!(unparsed, 1);

    let shape = vec![n(0), n(0), s("L"), n(1), n(2), n(3), n(4)];
    let rec = graphic("FILL", 3, shape);
    let (_, unparsed) = decode_record(&rec);
    assert_eq!(unparsed, 0);

    let shape = vec![n(0), n(0), s("L"), n(1), n(2), n(3), n(4)];
    let rec = graphic("POLY", 9, shape);
    let (_, unparsed) = decode_record(&rec);
    assert_eq!(unparsed, 0);
}

#[test]
fn unknown_chain_tokens_are_counted_and_skipped() {
    let shape = vec![n(0), n(0), s("L"), n(1), n(2), s("XX"), s("L"), n(3), n(4)];
    let rec = graphic("POLY", 1, shape);
    let (action, unparsed) = decode_record(&rec);
    assert_eq!(unparsed, 1);
    match action {
        Action::Polygon { pts, .. } => assert_eq!(pts, vec![1, 2, 3, 4]),
        _ => panic!("expected a polygon"),
    }
}

#[test]
fn short_pad_records_are_counted() {
    let rec = vec![s("PAD"), n(1), n(2), n(3), n(4), n(5), n(6), n(7), n(8), n(9)];
    let (action, unparsed) = decode_record(&rec);
    assert!(matches!(action, Action::Skip));
    assert_eq!(unparsed, 1);
}

fn pad_record(drill: Field, shape: Vec<Field>) -> Vec<Field> {
    vec![s("PAD"), Field::Null, Field::Null, Field::Null, Field::Null, s("1"), n(100_000_000),
        n(200_000_000), n(0), drill, a(shape)]
}

#[test]
fn smd_ellipse_pad_defaults_its_margins() {
    // Shape ["ELLIPSE", 10], no drill shape, margin fields absent: one
    // surface-mount circular pad with a mask margin of 2 units and no
    // paste margin.
    let rec = pad_record(Field::Null, vec![s("ELLIPSE"), n(10_000_000)]);
    let (action, unparsed) = decode_record(&rec);
    assert_eq!(unparsed, 0);
    match action {
        Action::PadCircle { name, cx, cy, r, mask, paste } => {
            assert_eq!(name, "1");
            assert_eq!((cx, cy), (100_000_000, 200_000_000));
            assert_eq!(r, 10_000_000);
            assert_eq!(mask, 2_000_000);
            assert_eq!(paste, 0);
        },
        _ => panic!("expected a circular pad"),
    }
}

#[test]
fn smd_margins_are_read_when_present() {
    let mut rec = pad_record(Field::Null, vec![s("ELLIPSE"), n(10_000_000)]);
    while rec.len() < 21 {
        rec.push(Field::Null);
    }
    rec[18] = n(3_000_000);
    rec[20] = n(-500_000);
    let (action, unparsed) = decode_record(&rec);
    assert_eq!(unparsed, 0);
    match action {
        Action::PadCircle { mask, paste, .. } => {
            assert_eq!(mask, 3_000_000);
            assert_eq!(paste, -500_000);
        },
        _ => panic!("expected a circular pad"),
    }
}

#[test]
fn smd_oval_pad_swaps_its_radii_by_rotation() {
    // With no rotation field the radii arrive swapped.
    let rec = pad_record(Field::Null, vec![s("OVAL"), n(4_000_000), n(8_000_000)]);
    let (action, _) = decode_record(&rec);
    match action {
        Action::PadOval { rx, ry, .. } => assert_eq!((rx, ry), (8_000_000, 4_000_000)),
        _ => panic!("expected an oval pad"),
    }
    // At an odd multiple of a quarter turn they stay as given.
    let mut rec = pad_record(Field::Null, vec![s("OVAL"), n(4_000_000), n(8_000_000)]);
    while rec.len() < 15 {
        rec.push(Field::Null);
    }
    rec[14] = n(90_000_000);
    let (action, _) = decode_record(&rec);
    match action {
        Action::PadOval { rx, ry, .. } => assert_eq!((rx, ry), (4_000_000, 8_000_000)),
        _ => panic!("expected an oval pad"),
    }
}

#[test]
fn unknown_smd_shape_is_counted() {
    let rec = pad_record(Field::Null, vec![s("STAR"), n(1)]);
    let (action, unparsed) = decode_record(&rec);
    assert!(matches!(action, Action::Skip));
    assert_eq!(unparsed, 1);
}

#[test]
fn missing_pad_shape_is_a_hard_skip() {
    let rec = vec![s("PAD"), Field::Null, Field::Null, Field::Null, Field::Null, s("1"), n(0),
        n(0), n(0), Field::Null, Field::Null];
    let (action, unparsed) = decode_record(&rec);
    assert!(matches!(action, Action::Skip));
    assert_eq!(unparsed, 1);
}

#[test]
fn round_drill_pads_decode_by_shape() {
    let drill = a(vec![s("ROUND"), n(3_000_000)]);
    let rec = pad_record(drill, vec![s("ELLIPSE"), n(10_000_000)]);
    let (action, unparsed) = decode_record(&rec);
    assert_eq!(unparsed, 0);
    assert!(matches!(action, Action::PadHole { r: 10_000_000, drill: 3_000_000, .. }));

    let drill = a(vec![s("ROUND"), n(3_000_000)]);
    let rec = pad_record(drill, vec![s("RECT"), n(10_000_000), n(20_000_000)]);
    let (action, _) = decode_record(&rec);
    assert!(matches!(action, Action::PadHoleRect {
        w: 10_000_000,
        h: 20_000_000,
        drill: 3_000_000,
        ..
    }));

    let drill = a(vec![s("ROUND"), n(3_000_000)]);
    let rec = pad_record(drill, vec![s("OVAL"), n(10_000_000), n(20_000_000)]);
    let (action, _) = decode_record(&rec);
    assert!(matches!(action, Action::PadHoleOval { dx: 3_000_000, dy: 3_000_000, .. }));
}

#[test]
fn round_drill_with_unknown_shape_warns_without_counting() {
    let drill = a(vec![s("ROUND"), n(3_000_000)]);
    let rec = pad_record(drill, vec![s("STAR"), n(1)]);
    let (action, unparsed) = decode_record(&rec);
    assert!(matches!(action, Action::Skip));
    assert_eq!(unparsed, 0);
}

#[test]
fn slot_drill_swaps_its_axes_by_rotation() {
    // No rotation field: the slot stays vertical.
    let drill = a(vec![s("SLOT"), n(3_000_000), n(6_000_000)]);
    let rec = pad_record(drill, vec![s("OVAL"), n(10_000_000), n(20_000_000)]);
    let (action, unparsed) = decode_record(&rec);
    assert_eq!(unparsed, 0);
    assert!(matches!(action, Action::PadHoleOval { dx: 3_000_000, dy: 6_000_000, .. }));

    // An odd multiple of a quarter turn lays it horizontal.
    let drill = a(vec![s("SLOT"), n(3_000_000), n(6_000_000)]);
    let mut rec = pad_record(drill, vec![s("OVAL"), n(10_000_000), n(20_000_000)]);
    while rec.len() < 15 {
        rec.push(Field::Null);
    }
    rec[14] = n(270_000_000);
    let (action, _) = decode_record(&rec);
    assert!(matches!(action, Action::PadHoleOval { dx: 6_000_000, dy: 3_000_000, .. }));
}

#[test]
fn slot_drill_with_unknown_shape_is_counted() {
    let drill = a(vec![s("SLOT"), n(3_000_000), n(6_000_000)]);
    let rec = pad_record(drill, vec![s("STAR"), n(1)]);
    let (action, unparsed) = decode_record(&rec);
    assert!(matches!(action, Action::Skip));
    assert_eq!(unparsed, 1);
}

#[test]
fn unknown_drill_shape_is_counted() {
    let drill = a(vec![s("HEX"), n(3_000_000)]);
    let rec = pad_record(drill, vec![s("ELLIPSE"), n(10_000_000)]);
    let (action, unparsed) = decode_record(&rec);
    assert!(matches!(action, Action::Skip));
    assert_eq!(unparsed, 1);
}

#[test]
fn poly_pad_reads_its_point_array() {
    let pts = a(vec![n(1), n(2), n(3), n(4), n(5), n(6)]);
    let rec = pad_record(Field::Null, vec![s("POLY"), pts]);
    let (action, unparsed) = decode_record(&rec);
    assert_eq!(unparsed, 0);
    match action {
        Action::PadPoly { pts, .. } => {
            // The decoder drops the entry at position 2 of the point
            // array, as it does for polygon shapes.
            assert_eq!(pts, vec![1, 2, 4, 5, 6]);
        },
        _ => panic!("expected a polygon pad"),
    }
}

#[test]
fn values_are_clamped_into_the_working_range() {
    let rec = graphic("POLY", 1, vec![s("CIRCLE"), n(i64::MAX), n(i64::MIN), n(5_000_000)]);
    let (action, _) = decode_record(&rec);
    match action {
        Action::Circle { cx, cy, .. } => {
            assert_eq!(cx, 10_000_000_000_000);
            assert_eq!(cy, -10_000_000_000_000);
        },
        _ => panic!("expected a circle"),
    }
}
