//! Numbers, sizes and formulas.
use prepare_pass::clip_rect::{MAX_MASK_SIZE, SCALED_MASK_SIZE};
use prepare_pass::geometry::{floor, minus, negate, over, plus, times, value, Expr, Size};
use prepare_pass::model::IndexRange;
use prepare_pass::scalar::{Scalar, INFINITY, MINUS_HALF, MINUS_ONE, ONE, ZERO};
use prepare_pass::segment_build::MIN_BRUSH_SPLIT_AREA;

fn num(x: f32) -> Scalar {
    Scalar { bits: x.to_bits() }
}

fn size(width: f32, height: f32) -> Size {
    Size { width: num(width), height: num(height) }
}

#[test]
fn scalars_order_like_single_precision_numbers() {
    let samples: Vec<f32> = vec![
        f32::NEG_INFINITY,
        -3.5e20,
        -1.0,
        -1.0e-40,
        -0.0,
        0.0,
        1.0e-45,
        0.5,
        1.0,
        4095.0,
        4096.0,
        f32::MAX,
        f32::INFINITY,
        f32::NAN,
        -f32::NAN,
    ];
    for a in &samples {
        assert_eq!(num(*a).is_nan(), a.is_nan());
        for b in &samples {
            assert_eq!(num(*a).is_less(num(*b)), a < b, "{} < {}", a, b);
            assert_eq!(num(*a).is_at_most(num(*b)), a <= b, "{} <= {}", a, b);
            assert_eq!(num(*a).is_same(num(*b)), a == b, "{} == {}", a, b);
        }
    }
}

#[test]
fn larger_and_smaller_bound_both_numbers() {
    assert_eq!(num(2.0).max_of(num(-3.0)), num(2.0));
    assert_eq!(num(2.0).min_of(num(-3.0)), num(-3.0));
    assert_eq!(num(-2.0).max_of(num(-3.0)), num(-2.0));
    assert_eq!(num(-2.0).min_of(num(-3.0)), num(-3.0));
}

#[test]
fn a_number_wins_over_not_a_number() {
    let nan = num(f32::NAN);
    assert_eq!(nan.max_of(num(1.0)), num(1.0));
    assert_eq!(num(1.0).max_of(nan), num(1.0));
    assert_eq!(nan.min_of(num(1.0)), num(1.0));
    assert_eq!(num(1.0).min_of(nan), num(1.0));
}

#[test]
fn constants_encode_their_numbers() {
    assert_eq!(Scalar { bits: ZERO }, num(0.0));
    assert_eq!(Scalar { bits: ONE }, num(1.0));
    assert_eq!(Scalar { bits: MINUS_ONE }, num(-1.0));
    assert_eq!(Scalar { bits: MINUS_HALF }, num(-0.5));
    assert_eq!(Scalar { bits: INFINITY }, num(f32::INFINITY));
    assert_eq!(Scalar { bits: MAX_MASK_SIZE }, num(4096.0));
    assert_eq!(Scalar { bits: SCALED_MASK_SIZE }, num(4095.0));
    assert_eq!(Scalar { bits: MIN_BRUSH_SPLIT_AREA }, num(128.0 * 128.0));
}

#[test]
fn sizes_cover_and_vanish() {
    assert!(size(0.0, 5.0).is_empty());
    assert!(size(5.0, -1.0).is_empty());
    assert!(size(f32::NAN, 5.0).is_empty());
    assert!(!size(0.1, 5.0).is_empty());
    assert!(size(0.0, -0.0).is_zero());
    assert!(!size(0.0, 1.0).is_zero());
    assert!(size(5.0, 5.0).is_covering(size(5.0, 4.0)));
    assert!(!size(5.0, 5.0).is_covering(size(5.0, 6.0)));
}

#[test]
fn formulas_are_built_from_operations() {
    let e = floor(negate(over(
        times(value(num(1.0)), value(num(2.0))),
        minus(plus(value(num(3.0)), Expr::Whole(4)), value(num(5.0))),
    )));
    let product = Expr::Times(
        Box::new(Expr::Value(num(1.0))),
        Box::new(Expr::Value(num(2.0))),
    );
    let sum = Expr::Plus(Box::new(Expr::Value(num(3.0))), Box::new(Expr::Whole(4)));
    let difference = Expr::Minus(Box::new(sum), Box::new(Expr::Value(num(5.0))));
    let quotient = Expr::Over(Box::new(product), Box::new(difference));
    assert_eq!(e, Expr::Floor(Box::new(Expr::Negate(Box::new(quotient)))));
}

#[test]
fn ranges_know_whether_they_are_empty() {
    assert!(IndexRange::empty().is_empty());
    assert!(IndexRange { start: 3, end: 3 }.is_empty());
    assert!(!IndexRange { start: 3, end: 4 }.is_empty());
}
