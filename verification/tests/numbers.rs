use graph_engine::real32::Real32;
use graph_engine::threshold::{
    env_threshold, thresholds, DEFAULT_THRESHOLD_DUPLICATE, DEFAULT_THRESHOLD_MERGE,
    DEFAULT_THRESHOLD_RELATE,
};

fn single(number: f32) -> Real32 {
    Real32 { bits: number.to_bits() }
}

#[test]
fn order_is_that_of_the_numbers() {
    let numbers: Vec<f32> = vec![
        f32::NEG_INFINITY,
        f32::MIN,
        -1.5,
        -1.0,
        -f32::MIN_POSITIVE,
        f32::from_bits(0x8000_0001),
        -0.0,
        0.0,
        f32::from_bits(1),
        f32::from_bits(0x007f_ffff),
        f32::MIN_POSITIVE,
        0.75,
        0.92,
        0.985,
        f32::from_bits(1.0f32.to_bits() - 1),
        1.0,
        2.0,
        f32::MAX,
        f32::INFINITY,
        f32::NAN,
        f32::from_bits(0xffc0_0000),
        f32::from_bits(0x7f80_0001),
    ];
    for &a in &numbers {
        for &b in &numbers {
            assert_eq!(single(a).at_least(single(b)), a >= b, "{} {}", a, b);
        }
    }
}

#[test]
fn order_agrees_on_scattered_patterns() {
    let mut state: u32 = 12345;
    let mut previous: u32 = 0;
    for _ in 0..200_000 {
        state = state.wrapping_mul(1664525).wrapping_add(1013904223);
        let a = f32::from_bits(state);
        let b = f32::from_bits(previous);
        assert_eq!(single(a).at_least(single(b)), a >= b);
        previous = state.rotate_left(7);
    }
}

#[test]
fn zeros_are_equal() {
    assert!(single(0.0).at_least(single(-0.0)));
    assert!(single(-0.0).at_least(single(0.0)));
}

#[test]
fn nothing_compares_with_nan() {
    assert!(!single(f32::NAN).at_least(single(0.0)));
    assert!(!single(0.0).at_least(single(f32::NAN)));
    assert!(!single(f32::NAN).at_least(single(f32::NAN)));
}

#[test]
fn default_thresholds_are_the_documented_ones() {
    assert_eq!(DEFAULT_THRESHOLD_MERGE, 0.92f32.to_bits());
    assert_eq!(DEFAULT_THRESHOLD_RELATE, 0.75f32.to_bits());
    assert_eq!(DEFAULT_THRESHOLD_DUPLICATE, 0.985f32.to_bits());
}

#[test]
fn missing_setting_gives_the_default() {
    assert_eq!(env_threshold(None, single(0.92)), single(0.92));
}

#[test]
fn settings_are_clamped() {
    let default = single(0.5);
    for number in [-3.0f32, -0.0, 0.0, 0.25, 1.0, 1.5, f32::INFINITY, f32::NEG_INFINITY] {
        let expected = number.clamp(0.0, 1.0);
        assert_eq!(env_threshold(Some(single(number)), default), single(expected), "{}", number);
    }
    assert_eq!(env_threshold(Some(single(-3.0)), default), single(0.0));
    assert_eq!(env_threshold(Some(single(7.0)), default), single(1.0));
    assert_eq!(env_threshold(Some(single(0.8)), default), single(0.8));
}

#[test]
fn nan_setting_stays_nan() {
    let nan = single(f32::NAN);
    assert_eq!(env_threshold(Some(nan), single(0.5)), nan);
}

#[test]
fn each_threshold_takes_its_own_setting() {
    let limits = thresholds(Some(single(0.1)), Some(single(0.2)), Some(single(0.3)));
    assert_eq!(limits.merge, single(0.1));
    assert_eq!(limits.relate, single(0.2));
    assert_eq!(limits.duplicate, single(0.3));
    let defaults = thresholds(None, None, None);
    assert_eq!(defaults.merge, single(0.92));
    assert_eq!(defaults.relate, single(0.75));
    assert_eq!(defaults.duplicate, single(0.985));
}
