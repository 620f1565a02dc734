use biquad::{Biquad, Coefficients as FloatCoefficients, ToHertz, Type, Q_BUTTERWORTH_F32};
use linear_motor::config::Config;
use linear_motor::encoder::{Encoder, EncoderCalibrator, EncoderOutput, EncoderState};
use linear_motor::filter::{Coefficients, DirectForm1};
use linear_motor::fixed::{Fixed, ONE_RAW};
use linear_motor::normalizer::Normalizer;
use linear_motor::unwrap::Unwrapper;
use nalgebra::{RowSVector, SMatrix};

fn q(x: f64) -> Fixed {
    Fixed::from_raw((x * ONE_RAW as f64).round() as i64)
}

fn f(x: Fixed) -> f64 {
    x.raw as f64 / ONE_RAW as f64
}

fn low_pass() -> (FloatCoefficients<f32>, Coefficients) {
    let c = FloatCoefficients::<f32>::from_params(Type::LowPass, 8.khz(), 100.hz(), Q_BUTTERWORTH_F32)
        .unwrap();
    let fixed = Coefficients {
        a1: q(c.a1 as f64),
        a2: q(c.a2 as f64),
        b0: q(c.b0 as f64),
        b1: q(c.b1 as f64),
        b2: q(c.b2 as f64),
    };
    (c, fixed)
}

fn plain_encoder(coeffs: Coefficients) -> Encoder {
    let unit = Normalizer { mean: Fixed::zero(), std: Fixed::one() };
    Encoder {
        normalizers: [unit; 8],
        unwraps: [Unwrapper::new(); 4],
        normalized: [Fixed::zero(); 8],
        compensated: [Fixed::zero(); 8],
        unwrapped: [Fixed::zero(); 4],
        position: Fixed::zero(),
        filtered_position: Fixed::zero(),
        velocity: Fixed::zero(),
        last_position: None,
        vel_filter: DirectForm1::new(coeffs),
    }
}

const INPUT: [f32; 8] = [-0.2862, 0.3974, 0.6592, -0.9261, 0.6866, -0.2952, -0.3340, -0.7781];

const WEIGHTS: [[f32; 8]; 8] = [
    [1.1173, -0.8311, 0.2963, -0.3230, 0.0120, 0.0302, 0.0000, 0.0000],
    [-1.0591, 0.9015, -0.3551, 0.2872, -0.0080, -0.0282, 0.0000, 0.0000],
    [0.3346, -0.3011, 0.7365, -0.7179, 0.0443, 0.0641, 0.0000, 0.0000],
    [-0.4202, 0.1919, -0.6281, 0.7852, -0.0504, -0.0697, 0.0000, 0.0000],
    [-0.0926, 0.0768, -0.0518, 0.0827, 1.0994, -0.2049, -0.1680, -0.1636],
    [-0.0895, -0.2740, -0.1790, -0.3050, -0.1038, 1.2927, 0.0032, -0.0015],
    [0.0000, 0.0000, 0.0000, 0.0000, 0.0084, -0.0191, 1.3382, -0.2344],
    [0.0000, 0.0000, 0.0000, 0.0000, -0.0405, 0.1293, -0.2132, 1.4222],
];

const BIAS: [f32; 8] = [-0.0047, -0.0263, -0.0321, -0.0069, -0.0205, -0.0365, -0.0312, -0.0245];

#[test]
fn test_linalg() {
    let input_vec = RowSVector::<f32, 8>::from(INPUT);

    let weight_mat = SMatrix::<f32, 8, 8>::from(WEIGHTS);

    let output = (input_vec + RowSVector::<f32, 8>::from(BIAS)) * weight_mat;

    println!("{:?}", output);

    // The compensation of the sensor gives the same product.
    let mut config = Config::new();
    for j in 0..8 {
        for i in 0..8 {
            config.comp_matrix[j][i] = q(WEIGHTS[j][i] as f64);
        }
        config.comp_bias[j] = q(BIAS[j] as f64);
    }
    let (_, coeffs) = low_pass();
    let mut encoder = plain_encoder(coeffs);
    let mut readings = [Fixed::zero(); 8];
    for i in 0..8 {
        readings[i] = q(INPUT[i] as f64);
    }
    let arguments = encoder.compensate(readings, &config);
    for j in 0..8 {
        assert!((f(encoder.normalized[j]) - INPUT[j] as f64).abs() < 1e-8);
        assert!((f(encoder.compensated[j]) - output[j] as f64).abs() < 1e-5);
    }
    let c = encoder.compensated;
    assert_eq!(arguments[0], (c[0].minus(c[1]), c[2].minus(c[3])));
    assert_eq!(arguments[1], (c[1], c[3]));
    assert_eq!(arguments[2], (c[4], c[5]));
    assert_eq!(arguments[3], (c[6], c[7]));
}

#[test]
fn the_filter_follows_its_floating_point_model() {
    let (float_coeffs, coeffs) = low_pass();
    let mut model = biquad::DirectForm1::<f32>::new(float_coeffs);
    let mut filter = DirectForm1::new(coeffs);
    let mut x = 0.0f64;
    for i in 0..4000 {
        x += ((i as f64) * 0.01).sin() * 0.01;
        let want = model.run(x as f32);
        let got = filter.run(q(x));
        assert!((f(got) - want as f64).abs() < 1e-3, "{} {} {}", i, f(got), want);
    }
}

#[test]
fn the_filter_is_a_difference_equation() {
    let coeffs = Coefficients { a1: q(-0.5), a2: q(0.25), b0: q(1.0), b1: q(2.0), b2: q(3.0) };
    let mut filter = DirectForm1::new(coeffs);
    assert_eq!(filter.run(q(1.0)), q(1.0));
    // y = 1 * 2 + 2 * 1 + 0.5 * 1
    assert_eq!(filter.run(q(2.0)), q(4.5));
    // y = 1 * 0 + 2 * 2 + 3 * 1 + 0.5 * 4.5 - 0.25 * 1
    assert_eq!(filter.run(q(0.0)), q(9.0));
    assert_eq!(filter.x1, q(0.0));
    assert_eq!(filter.x2, q(2.0));
    assert_eq!(filter.y1, q(9.0));
    assert_eq!(filter.y2, q(4.5));
}

#[test]
fn the_velocity_is_the_change_of_the_filtered_position() {
    // A filter that lets everything through.
    let through = Coefficients {
        a1: Fixed::zero(),
        a2: Fixed::zero(),
        b0: Fixed::one(),
        b1: Fixed::zero(),
        b2: Fixed::zero(),
    };
    let mut encoder = plain_encoder(through);
    let zero = Fixed::zero();
    let out = encoder.calculate([q(0.25), q(0.5), q(-0.5), q(1.0)]);
    assert_eq!(out.position, q(0.25));
    assert_eq!(out.filtered_position, q(0.25));
    assert_eq!(out.velocity, zero);
    assert_eq!(encoder.unwrapped, [q(0.25), q(0.5), q(-0.5), q(1.0)]);
    let out = encoder.calculate([q(0.375), q(0.5), q(-0.5), q(1.0)]);
    assert_eq!(out.position, q(0.375));
    assert_eq!(out.velocity, q(1000.0));
    assert_eq!(encoder.last_position, Some(q(0.375)));
    assert_eq!(encoder.velocity, q(1000.0));
}

#[test]
fn the_sensor_calibrates_and_then_runs() {
    let config = Config::new();
    let (_, coeffs) = low_pass();
    let mut state = EncoderState::new();
    let mut readings = [Fixed::zero(); 8];
    for tick in 0..100 {
        for i in 0..8 {
            let phase = tick as f64 * 0.3 + i as f64;
            readings[i] = q(2000.0 + 500.0 * phase.sin());
        }
        assert!(state.update(readings, &config).is_none());
        assert!(state.resolve([Fixed::zero(); 4]).is_none());
    }
    state.calibration_done(coeffs);
    assert!(matches!(state, EncoderState::Running(_)));
    let arguments = state.update(readings, &config).unwrap();
    let mut angles = [Fixed::zero(); 4];
    for k in 0..4 {
        angles[k] = q(libm::atan2(f(arguments[k].0), f(arguments[k].1)));
    }
    let out = state.resolve(angles).unwrap();
    assert_eq!(out.position, angles[0]);
    assert_eq!(out.velocity, Fixed::zero());
    // Ending the calibration again changes nothing.
    state.calibration_done(coeffs);
    assert!(matches!(state, EncoderState::Running(_)));
}

#[test]
fn a_sensor_with_too_few_samples_keeps_calibrating() {
    let config = Config::new();
    let (_, coeffs) = low_pass();
    let mut state = EncoderState::new();
    state.update([q(1.0); 8], &config);
    state.update([q(2.0); 8], &config);
    state.calibration_done(coeffs);
    assert!(matches!(state, EncoderState::Calibrating(_)));
    state.update([q(3.0); 8], &config);
    state.calibration_done(coeffs);
    assert!(matches!(state, EncoderState::Running(_)));
}

#[test]
fn the_calibrator_gives_the_statistics_of_each_channel() {
    let mut calibrator = EncoderCalibrator::new();
    assert!(calibrator.get_normalizers().is_none());
    for x in [1.0, 2.0, 3.0] {
        let mut readings = [Fixed::zero(); 8];
        for i in 0..8 {
            readings[i] = q(x * (i as f64 + 1.0));
        }
        calibrator.update(readings);
    }
    let normalizers = calibrator.get_normalizers().unwrap();
    for i in 0..8 {
        assert_eq!(normalizers[i].mean, q(2.0 * (i as f64 + 1.0)));
        assert!((f(normalizers[i].std) - (i as f64 + 1.0)).abs() < 1e-8);
    }
    let (_, coeffs) = low_pass();
    let encoder = calibrator.get_encoder(coeffs).unwrap();
    assert_eq!(encoder.normalizers[3].mean, q(8.0));
    assert_eq!(encoder.last_position, None);
    assert_eq!(encoder.vel_filter, DirectForm1::new(coeffs));
}

#[test]
fn the_output_scales() {
    let out = EncoderOutput { position: q(2.0), filtered_position: q(-4.0), velocity: q(0.5) };
    let scaled = out.multiply(q(0.5));
    assert_eq!(scaled.position, q(1.0));
    assert_eq!(scaled.filtered_position, q(-2.0));
    assert_eq!(scaled.velocity, q(0.25));
    assert_eq!(EncoderOutput::default().position, Fixed::zero());
}
