//! Number rendering and layer table behaviour.

use elib2kicad::numfmt::{
    mil_to_mm, push_dec_u64, push_fixed6, push_hex16, push_mm6_of_mil, push_trimmed,
};
use elib2kicad::layers::layer_name;

fn fixed6(u: i64) -> String {
    let mut s = String::new();
    push_fixed6(&mut s, u);
    s
}

fn trimmed(u: i64) -> String {
    let mut s = String::new();
    push_trimmed(&mut s, u);
    s
}

fn mm6(x: i64) -> String {
    let mut s = String::new();
    push_mm6_of_mil(&mut s, x);
    s
}

#[test]
fn decimal_digits_render() {
    let mut s = String::new();
    push_dec_u64(&mut s, 0);
    assert_eq!(s, "0");
    let mut s = String::new();
    push_dec_u64(&mut s, 90210);
    assert_eq!(s, "90210");
}

#[test]
fn fixed_six_places() {
    assert_eq!(fixed6(59_055_000), "59.055000");
    assert_eq!(fixed6(-59_055_000), "-59.055000");
    assert_eq!(fixed6(0), "0.000000");
    assert_eq!(fixed6(1), "0.000001");
    assert_eq!(fixed6(-1), "-0.000001");
    assert_eq!(fixed6(2_500_000), "2.500000");
}

#[test]
fn trimmed_shortest_form() {
    assert_eq!(trimmed(90_000_000), "90");
    assert_eq!(trimmed(45_500_000), "45.5");
    assert_eq!(trimmed(0), "0");
    assert_eq!(trimmed(-12_340_000), "-12.34");
    assert_eq!(trimmed(123), "0.000123");
    assert_eq!(trimmed(-100_000), "-0.1");
}

#[test]
fn mil_converts_to_millimetres_exactly() {
    // 1000 mil is exactly 25.4 mm.
    assert_eq!(mil_to_mm(1_000_000_000), 254_000_000_000);
    assert_eq!(mm6(1_000_000_000), "25.400000");
    // 2 mil is the default solder-mask margin: 0.0508 mm.
    assert_eq!(mm6(2_000_000), "0.050800");
    assert_eq!(mm6(0), "0.000000");
    assert_eq!(mm6(-100_000_000), "-2.540000");
}

#[test]
fn rounding_is_half_away_from_zero() {
    // 0.0000196850... mm rounds by the final decimal digit.
    // x = 775 micro-mil -> 775 * 254 = 196850 tenth-nanometres ->
    // 19.685 millionths of a millimetre -> rounds to 20.
    assert_eq!(mm6(775), "0.000020");
    assert_eq!(mm6(-775), "-0.000020");
}

#[test]
fn hex_timestamp_is_sixteen_digits() {
    let mut s = String::new();
    push_hex16(&mut s, 0);
    assert_eq!(s, "0000000000000000");
    let mut s = String::new();
    push_hex16(&mut s, 0x1a2b3c4d5e6f7081);
    assert_eq!(s, "1a2b3c4d5e6f7081");
    let mut s = String::new();
    push_hex16(&mut s, u64::MAX);
    assert_eq!(s, "ffffffffffffffff");
}

#[test]
fn layer_table_resolves_known_ids() {
    assert_eq!(layer_name(1).as_deref(), Some("F.Cu"));
    assert_eq!(layer_name(3).as_deref(), Some("F.SilkS"));
    assert_eq!(layer_name(12).as_deref(), Some("F&B.Cu *.Mask"));
    assert_eq!(layer_name(13).as_deref(), Some("Dwgs.User"));
    assert_eq!(layer_name(48).as_deref(), Some("F.Fab"));
    assert_eq!(layer_name(51).as_deref(), Some("User.9"));
}

#[test]
fn layer_table_rejects_unknown_ids() {
    assert_eq!(layer_name(0), None);
    assert_eq!(layer_name(14), None);
    assert_eq!(layer_name(47), None);
    assert_eq!(layer_name(52), None);
    assert_eq!(layer_name(56), None);
}
