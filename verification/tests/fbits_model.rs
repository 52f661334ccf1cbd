//! The bit-pattern float model must agree with the machine's own `f32`.

use cnmo_parse::fbits;

#[test]
fn casts_match_f32_semantics() {
    for v in [0.0f32, 0.5, 1.0, 3.7, 255.9, 256.0, 65535.5, 16777215.0, -1.5, -0.25] {
        assert_eq!(fbits::f32b_to_u32(v.to_bits()), v as u32, "to_u32 of {}", v);
        assert_eq!(fbits::f32b_to_i32(v.to_bits()), v as i32, "to_i32 of {}", v);
        assert_eq!(fbits::f32b_to_u8(v.to_bits()), v as u8, "to_u8 of {}", v);
    }
    assert_eq!(fbits::f32b_to_u32(f32::NAN.to_bits()), f32::NAN as u32);
    assert_eq!(fbits::f32b_to_u32(f32::INFINITY.to_bits()), f32::INFINITY as u32);
    assert_eq!(fbits::f32b_to_i32((-3.99f32).to_bits()), -3);
}

#[test]
fn from_u32_matches_f32_semantics() {
    for x in [0u32, 1, 2, 9, 10, 255, 256, 65535, 1 << 20, (1 << 24) - 1, u32::MAX, 0xFFFF_FF7F] {
        assert_eq!(fbits::f32b_of_u32(x), (x as f32).to_bits(), "of_u32 of {}", x);
    }
}

#[test]
fn floor_and_fraction_match_f32_semantics() {
    for v in [2.75f32, -2.75, 0.25, -0.5, 31.5, 100.0] {
        assert_eq!(fbits::f32b_floor_abs(v.to_bits()), v.floor().abs() as u32, "floor of {}", v);
    }
    // The platform's fraction thresholds: below 0.1, below 0.3, below 0.6.
    assert_eq!(fbits::f32b_fract_band(32.0f32.to_bits()), 0);
    assert_eq!(fbits::f32b_fract_band(32.25f32.to_bits()), 1);
    assert_eq!(fbits::f32b_fract_band(32.5f32.to_bits()), 2);
    assert_eq!(fbits::f32b_fract_band(32.75f32.to_bits()), 0);
    assert_eq!(fbits::f32b_fract_band((-32.25f32).to_bits()), 1);
}

#[test]
fn sign_helpers_match_f32_semantics() {
    let b = 4.5f32.to_bits();
    assert_eq!(fbits::f32b_apply_sign(b, true), (-4.5f32).to_bits());
    assert_eq!(fbits::f32b_apply_sign(b, false), b);
    assert!(fbits::f32b_lt_zero((-4.5f32).to_bits()));
    assert!(!fbits::f32b_lt_zero(4.5f32.to_bits()));
    assert!(!fbits::f32b_lt_zero((-0.0f32).to_bits()));
    assert!(!fbits::f32b_lt_zero(f32::NAN.to_bits()));
    assert_eq!(fbits::f32b_abs((-4.5f32).to_bits()), 4.5f32.to_bits());
}
