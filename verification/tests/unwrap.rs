use linear_motor::fixed::{Fixed, ONE_RAW};
use linear_motor::unwrap::{unwrap, Unwrapper, PI_RAW, TAU_RAW};
use rand_distr::{Distribution, Uniform};

fn ang(x: f64) -> Fixed {
    Fixed::from_raw((x * ONE_RAW as f64).round() as i64)
}

fn rad(x: Fixed) -> f64 {
    x.raw as f64 / ONE_RAW as f64
}

#[test]
fn test_unwrap() {
    let normal = Uniform::new(-3.0, 3.0);
    let mut rng = rand::thread_rng();

    let mut gt_unwrapped: f64 = 0.0;
    let mut unwrapper = Unwrapper::new();

    for i in 0..10000 {
        let x: f64 = normal.sample(&mut rng);
        gt_unwrapped += x;

        let unwrapped = unwrapper.unwrap(ang(gt_unwrapped % core::f64::consts::TAU));
        assert!(
            (rad(unwrapped) - gt_unwrapped).abs() < 0.01,
            "{}, unwrapped: {}, gt_unwrapped: {}",
            i,
            rad(unwrapped),
            gt_unwrapped
        );
    }
}

#[test]
fn a_full_turn_is_two_half_turns() {
    assert_eq!(TAU_RAW, 2 * PI_RAW);
    assert!((PI_RAW as f64 / ONE_RAW as f64 - core::f64::consts::PI).abs() < 1e-9);
}

#[test]
fn unwrapping_is_exact_in_raw_units() {
    // A true angle that climbs by a little less than half a turn per step,
    // read as its remainder by a full turn, is given back bit for bit.
    let step = PI_RAW - 1;
    let mut truth: i64 = 0;
    let mut unwrapper = Unwrapper::new();
    for _ in 0..1000 {
        truth += step;
        let reading = Fixed::from_raw(truth % TAU_RAW);
        assert_eq!(unwrapper.unwrap(reading).raw, truth);
    }
    for _ in 0..2000 {
        truth -= step;
        let reading = Fixed::from_raw(truth % TAU_RAW);
        assert_eq!(unwrapper.unwrap(reading).raw, truth);
    }
}

#[test]
fn unwrapping_follows_an_arctangent() {
    // Readings between minus half a turn and half a turn, as an
    // arctangent gives them.
    let mut unwrapper = Unwrapper::new();
    let mut truth = 0.0f64;
    for _ in 0..500 {
        truth += 1.0;
        let reading = libm::atan2(truth.sin(), truth.cos());
        let out = unwrapper.unwrap(ang(reading));
        assert!((rad(out) - truth).abs() < 1e-6);
    }
}

#[test]
fn the_step_across_the_wrap() {
    let previous = ang(3.0);
    assert!((rad(unwrap(previous, ang(-3.0))) - (core::f64::consts::TAU - 3.0)).abs() < 1e-8);
    let previous = ang(-3.0);
    assert!((rad(unwrap(previous, ang(3.0))) + (core::f64::consts::TAU - 3.0)).abs() < 1e-8);
    assert_eq!(unwrap(ang(1.0), ang(1.5)), ang(1.5));
}
