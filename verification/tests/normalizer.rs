use linear_motor::fixed::{Fixed, ONE_RAW};
use linear_motor::normalizer::{Normalizer, NormalizerBuilder};
use rand_distr::{Distribution, Normal};

fn num(x: f64) -> Fixed {
    Fixed::from_raw((x * ONE_RAW as f64).round() as i64)
}

fn val(x: Fixed) -> f64 {
    x.raw as f64 / ONE_RAW as f64
}

#[test]
fn test_norm() {
    let normal = Normal::new(5.0, 3.0).unwrap();
    let mut rng = rand::thread_rng();

    let mut b = NormalizerBuilder::new();

    for _ in 0..100000 {
        b.update(num(normal.sample(&mut rng)))
    }

    let n = b.get_normalizer().unwrap();

    assert!((val(n.mean) - 5.0).abs() < 0.1);
    assert!((val(n.std) - 3.0).abs() < 0.1);

    let mut b2 = NormalizerBuilder::new();

    for _ in 0..100000 {
        let normed = n.normalize(num(normal.sample(&mut rng)));
        b2.update(normed);
    }

    let n = b2.get_normalizer().unwrap();
    assert!(val(n.mean).abs() < 0.1);
    assert!((val(n.std) - 1.0).abs() < 0.1);
}

#[test]
fn more_than_two_samples_are_needed() {
    let mut b = NormalizerBuilder::new();
    assert!(b.get_normalizer().is_none());
    b.update(num(1.0));
    assert!(b.get_normalizer().is_none());
    b.update(num(2.0));
    assert_eq!(b.count(), 2);
    assert!(b.get_normalizer().is_none());
    b.update(num(3.0));
    assert_eq!(b.count(), 3);
    assert!(b.get_normalizer().is_some());
}

#[test]
fn mean_and_deviation_of_known_samples() {
    let mut b = NormalizerBuilder::new();
    for x in [2.0, 4.0, 4.0, 4.0, 5.0, 5.0, 7.0, 9.0] {
        b.update(num(x));
    }
    let n = b.get_normalizer().unwrap();
    assert_eq!(n.mean, num(5.0));
    // The sample variance is 32 / 7.
    assert!((val(n.std) - (32.0f64 / 7.0).sqrt()).abs() < 1e-8);
}

#[test]
fn samples_that_are_alike_have_no_deviation() {
    let mut b = NormalizerBuilder::new();
    for _ in 0..10 {
        b.update(num(-1234.5678));
    }
    let n = b.get_normalizer().unwrap();
    assert_eq!(n.mean, num(-1234.5678));
    assert_eq!(n.std, Fixed::zero());
}

#[test]
fn large_readings_do_not_saturate_the_sums() {
    // Four thousand counts of deviation over a hundred thousand samples:
    // the squares add up to far more than one number can hold.
    let mut b = NormalizerBuilder::new();
    for i in 0..100_000 {
        b.update(num(if i % 2 == 0 { 0.0 } else { 4000.0 }));
    }
    let n = b.get_normalizer().unwrap();
    assert!((val(n.mean) - 2000.0).abs() < 1e-6);
    assert!((val(n.std) - 2000.0).abs() < 0.1);
}

#[test]
fn normalizing_takes_off_the_mean_and_divides() {
    let n = Normalizer { mean: num(5.0), std: num(2.0) };
    assert_eq!(n.normalize(num(9.0)), num(2.0));
    assert_eq!(n.normalize(num(4.0)), num(-0.5));
    let flat = Normalizer::new();
    assert_eq!(flat.mean, Fixed::zero());
    assert_eq!(flat.normalize(num(1.0)).raw, i64::MAX);
}
