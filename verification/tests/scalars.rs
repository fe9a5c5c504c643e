use tessellation::scalar::{
    finite, non_positive, same_number, zero, DEFAULT_MITER_LIMIT, DEFAULT_TOLERANCE,
};
use tessellation::{LyonPoint, LyonVector};

fn at(x: f32, y: f32) -> LyonPoint {
    LyonPoint { x: x.to_bits(), y: y.to_bits() }
}

#[test]
fn default_tolerance_is_one_hundredth() {
    assert_eq!(DEFAULT_TOLERANCE, 0.01f32.to_bits());
    assert_eq!(f32::from_bits(DEFAULT_TOLERANCE), 0.01);
}

#[test]
fn default_miter_limit_is_four() {
    assert_eq!(DEFAULT_MITER_LIMIT, 4.0f32.to_bits());
}

#[test]
fn finite_agrees_with_the_float_on_chosen_patterns() {
    let values = [
        0.0f32,
        -0.0,
        1.0,
        -1.0,
        0.01,
        f32::MIN_POSITIVE,
        f32::MIN_POSITIVE / 2.0,
        f32::MAX,
        f32::MIN,
        f32::INFINITY,
        f32::NEG_INFINITY,
        f32::NAN,
        -f32::NAN,
    ];
    for value in values {
        assert_eq!(finite(value.to_bits()), value.is_finite(), "{value}");
    }
    assert!(!finite(0x7F80_0001));
    assert!(!finite(0xFFFF_FFFF));
    assert!(finite(0x7F7F_FFFF));
    assert!(finite(0x0000_0001));
}

#[test]
fn finite_agrees_with_the_float_on_a_sweep() {
    let mut bits: u32 = 0;
    loop {
        assert_eq!(finite(bits), f32::from_bits(bits).is_finite(), "{bits:#x}");
        match bits.checked_add(0x0001_F3F1) {
            Some(next) => bits = next,
            None => break,
        }
    }
}

#[test]
fn zero_knows_both_zeros() {
    assert!(zero(0.0f32.to_bits()));
    assert!(zero((-0.0f32).to_bits()));
    assert!(!zero(1));
    assert!(!zero(0x8000_0001));
    assert!(!zero(1.0f32.to_bits()));
}

#[test]
fn non_positive_agrees_with_the_float() {
    let values = [
        0.0f32,
        -0.0,
        1.0,
        -1.0,
        2.0,
        f32::MIN_POSITIVE,
        -f32::MIN_POSITIVE,
        f32::MIN_POSITIVE / 2.0,
        -f32::MIN_POSITIVE / 2.0,
        f32::MAX,
        f32::MIN,
        f32::INFINITY,
        f32::NEG_INFINITY,
        f32::NAN,
        -f32::NAN,
    ];
    for value in values {
        assert_eq!(non_positive(value.to_bits()), value <= 0.0, "{value}");
    }
    assert!(!non_positive(0xFF80_0001));
    assert!(non_positive(0xFF80_0000));
    assert!(non_positive(0x8000_0000));
    assert!(!non_positive(0x0000_0001));
}

#[test]
fn non_positive_agrees_with_the_float_on_a_sweep() {
    let mut bits: u32 = 0;
    loop {
        assert_eq!(non_positive(bits), f32::from_bits(bits) <= 0.0, "{bits:#x}");
        match bits.checked_add(0x0001_F3F1) {
            Some(next) => bits = next,
            None => break,
        }
    }
}

#[test]
fn same_number_is_float_equality_away_from_nan() {
    let values = [0.0f32, -0.0, 1.0, -1.0, 0.5, 10.0, f32::INFINITY, f32::NEG_INFINITY, f32::MAX];
    for a in values {
        for b in values {
            assert_eq!(same_number(a.to_bits(), b.to_bits()), a == b, "{a} {b}");
        }
    }
}

#[test]
fn same_number_takes_a_nan_pattern_for_itself() {
    let nan = f32::NAN.to_bits();
    assert!(same_number(nan, nan));
    assert!(!same_number(nan, nan ^ 1));
}

#[test]
fn point_is_finite_when_both_coordinates_are() {
    assert!(at(1.5, -2.0).finite());
    assert!(!at(f32::NAN, 0.0).finite());
    assert!(!at(0.0, f32::INFINITY).finite());
    assert!(!at(f32::NEG_INFINITY, f32::NAN).finite());
}

#[test]
fn vector_is_finite_when_both_components_are() {
    assert!(LyonVector { x: 3.0f32.to_bits(), y: 0.0f32.to_bits() }.finite());
    assert!(!LyonVector { x: f32::NAN.to_bits(), y: 0.0f32.to_bits() }.finite());
    assert!(!LyonVector { x: 0.0f32.to_bits(), y: f32::INFINITY.to_bits() }.finite());
}

#[test]
fn points_coincide_by_position() {
    assert!(at(1.0, 2.0).coincides(&at(1.0, 2.0)));
    assert!(at(0.0, 2.0).coincides(&at(-0.0, 2.0)));
    assert!(at(-0.0, -0.0).coincides(&at(0.0, 0.0)));
    assert!(!at(1.0, 2.0).coincides(&at(2.0, 1.0)));
    assert!(!at(1.0, 2.0).coincides(&at(1.0, 2.000_000_2)));
}
