use minka_fx::overlay::{
    FADE_DAMPING, FADE_DISTANCE, FADE_SPEED, FADE_STIFFNESS, FIRST_STEP, GONE_ALPHA,
    INVISIBLE_ALPHA, MAX_STEP, MIN_STEP, RECT_DAMPING, RECT_DISTANCE, RECT_SPEED, RECT_STIFFNESS,
};
use minka_fx::scalar::{Scalar, ONE, ZERO};
use minka_fx::spring::{Spring, Tolerance};

fn s(x: f32) -> Scalar {
    Scalar { bits: x.to_bits() }
}

fn samples() -> Vec<f32> {
    vec![
        0.0,
        -0.0,
        1.0,
        -1.0,
        0.5,
        1.5,
        -2.25,
        f32::MIN_POSITIVE,
        -f32::MIN_POSITIVE,
        f32::from_bits(1),
        f32::from_bits(0x8000_0001),
        f32::from_bits(0x007f_ffff),
        f32::MAX,
        f32::MIN,
        f32::INFINITY,
        f32::NEG_INFINITY,
        f32::NAN,
        -f32::NAN,
        1234.567,
        0.003,
        0.02,
    ]
}

#[test]
fn patterns_of_the_constants() {
    assert_eq!(ZERO, 0.0f32.to_bits());
    assert_eq!(ONE, 1.0f32.to_bits());
    assert_eq!(RECT_STIFFNESS, 700.0f32.to_bits());
    assert_eq!(RECT_DAMPING, 45.0f32.to_bits());
    assert_eq!(FADE_STIFFNESS, 900.0f32.to_bits());
    assert_eq!(FADE_DAMPING, 60.0f32.to_bits());
    assert_eq!(GONE_ALPHA, 0.02f32.to_bits());
    assert_eq!(INVISIBLE_ALPHA, 0.003f32.to_bits());
    assert_eq!(MIN_STEP, 0.0001f32.to_bits());
    assert_eq!(MAX_STEP, 0.05f32.to_bits());
    assert_eq!(FIRST_STEP, (1.0f32 / 60.0f32).to_bits());
}

#[test]
fn speed_limits_are_ten_times_the_distances() {
    assert_eq!(RECT_DISTANCE, 0.3f32.to_bits());
    assert_eq!(RECT_SPEED, (0.3f32 * 10.0f32).to_bits());
    assert_eq!(FADE_DISTANCE, 0.004f32.to_bits());
    assert_eq!(FADE_SPEED, (0.004f32 * 10.0f32).to_bits());
}

#[test]
fn the_fade_is_critically_damped() {
    assert_eq!(f32::from_bits(FADE_DAMPING), 2.0 * f32::from_bits(FADE_STIFFNESS).sqrt());
}

#[test]
fn order_is_that_of_the_numbers() {
    for a in samples() {
        for b in samples() {
            assert_eq!(s(a).lt(s(b)), a < b, "{a} < {b}");
        }
    }
}

#[test]
fn equal_numbers_are_found_equal() {
    for a in samples() {
        assert_eq!(s(a).finite(), a.is_finite(), "{a}");
        for b in samples() {
            assert_eq!(s(a).same_number(s(b)), a == b, "{a} == {b}");
        }
    }
}

#[test]
fn abs_drops_the_sign() {
    for a in samples() {
        assert_eq!(s(a).abs().bits, a.abs().to_bits(), "{a}");
    }
}

#[test]
fn clamp_stays_in_the_interval() {
    for a in samples() {
        assert_eq!(s(a).clamp(s(0.0), s(1.0)).bits, a.clamp(0.0, 1.0).to_bits(), "{a}");
        assert_eq!(s(a).clamp(s(-1.0), s(1.25)).bits, a.clamp(-1.0, 1.25).to_bits(), "{a}");
    }
}

#[test]
fn springs_start_still_and_snap_still() {
    let mut spring = Spring::new(s(3.0));
    assert_eq!(spring, Spring { value: s(3.0), velocity: s(0.0) });
    spring.velocity = s(8.0);
    spring.snap(s(-2.0));
    assert_eq!(spring, Spring { value: s(-2.0), velocity: s(0.0) });
}

#[test]
fn a_spring_settles_when_near_and_slow() {
    let tolerance = Tolerance { distance: s(0.3), speed: s(3.0) };
    let at = |velocity: f32| Spring { value: s(10.0), velocity: s(velocity) };
    assert!(at(0.0).settled(s(0.0), tolerance));
    assert!(at(-2.9).settled(s(0.29), tolerance));
    assert!(at(2.9).settled(s(-0.29), tolerance));
    assert!(!at(0.0).settled(s(0.3), tolerance));
    assert!(!at(0.0).settled(s(-0.5), tolerance));
    assert!(!at(3.0).settled(s(0.0), tolerance));
    assert!(!at(-3.5).settled(s(0.0), tolerance));
    assert!(!at(f32::NAN).settled(s(0.0), tolerance));
    assert!(!at(0.0).settled(s(f32::NAN), tolerance));
}
