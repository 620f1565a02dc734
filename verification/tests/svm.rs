use linear_motor::fixed::{Fixed, ONE_RAW};
use linear_motor::state_machine::VoltageControllerOutput;
use linear_motor::svm::{calculate_svm, IterativeSVM};

fn fixed(x: f64) -> Fixed {
    Fixed::from_raw((x * ONE_RAW as f64).round() as i64)
}

#[test]
fn test_calculate_svm() {
    let (_t_a, _t_b, _t_c, result_valid) = calculate_svm(fixed(1.0), fixed(0.0));
    assert!(result_valid);

    let (_t_a, _t_b, _t_c, result_valid) = calculate_svm(fixed(0.0), fixed(1.0));
    assert!(!result_valid);
}

#[test]
fn test_svm() {
    let mut svm = IterativeSVM::new(0, 255);
    for _ in 0..100 {
        svm.calculate(VoltageControllerOutput {
            driver_enable: true,
            alpha: fixed(1.0),
            beta: fixed(0.0),
        });
    }
    assert!(svm.residuals.iter().all(|x| x.raw.abs() < ONE_RAW));
}

fn frac(x: Fixed) -> f64 {
    x.raw as f64 / ONE_RAW as f64
}

#[test]
fn on_times_of_the_first_sextant() {
    // alpha = 0.5, beta = 0.25: sextant one, so phase a stays off.
    let (t_a, t_b, t_c, valid) = calculate_svm(fixed(0.5), fixed(0.25));
    assert!(valid);
    assert_eq!(t_a.raw, 0);
    let k = 0.25 / 3f64.sqrt();
    assert!((frac(t_b) - (0.5 - k)).abs() < 1e-8);
    assert!((frac(t_c) - (0.5 + k)).abs() < 1e-8);
}

#[test]
fn on_times_start_at_zero_in_every_sextant() {
    let vectors = [
        (0.5, 0.1),
        (0.1, 0.5),
        (-0.3, 0.4),
        (-0.5, 0.1),
        (-0.5, -0.1),
        (-0.1, -0.5),
        (0.2, -0.6),
        (0.5, -0.1),
    ];
    for (alpha, beta) in vectors {
        let (t_a, t_b, t_c, _) = calculate_svm(fixed(alpha), fixed(beta));
        assert!(t_a.raw >= 0 && t_b.raw >= 0 && t_c.raw >= 0);
        assert_eq!(t_a.raw.min(t_b.raw).min(t_c.raw), 0);
    }
}

#[test]
fn validity_is_the_unit_range_of_the_on_times() {
    let vectors = [(1.0, 0.0), (0.0, 1.0), (0.0, 0.8), (0.0, 0.9), (-1.0, 0.0), (0.7, 0.7)];
    for (alpha, beta) in vectors {
        let (t_a, t_b, t_c, valid) = calculate_svm(fixed(alpha), fixed(beta));
        let within = |t: Fixed| t.raw >= 0 && t.raw <= ONE_RAW;
        assert_eq!(valid, within(t_a) && within(t_b) && within(t_c));
    }
    // 2 / sqrt(3) * beta reaches one just above beta = 0.866.
    assert!(calculate_svm(fixed(0.0), fixed(0.86)).3);
    assert!(!calculate_svm(fixed(0.0), fixed(0.87)).3);
}

#[test]
fn residuals_stay_within_half_a_count() {
    let mut svm = IterativeSVM::new(30, 500);
    let request = VoltageControllerOutput {
        driver_enable: true,
        alpha: fixed(0.3337),
        beta: fixed(0.2113),
    };
    let mut counts = [0i64; 3];
    let ticks = 10_000;
    for _ in 0..ticks {
        let before = svm.residuals;
        let command = svm.calculate(request);
        assert!(command.driver_enable);
        for r in svm.residuals.iter() {
            assert!(r.raw >= -ONE_RAW / 2 && r.raw < ONE_RAW / 2);
        }
        counts[0] += (command.u_duty - 30) as i64;
        counts[1] += (command.v_duty - 30) as i64;
        counts[2] += (command.w_duty - 30) as i64;
        let _ = before;
    }
    // The counts switched on follow the ideal ones to within one count,
    // however long the request lasts.
    let (t_a, t_b, t_c, _) = calculate_svm(request.alpha, request.beta);
    for (sum, t) in counts.iter().zip([t_a, t_b, t_c]) {
        let ideal = frac(t) * 500.0 * ticks as f64;
        assert!((*sum as f64 - ideal).abs() <= 1.0);
    }
}

#[test]
fn duties_hold_the_dead_time() {
    let mut svm = IterativeSVM::new(30, 500);
    let command = svm.calculate(VoltageControllerOutput {
        driver_enable: true,
        alpha: fixed(0.5),
        beta: fixed(0.0),
    });
    assert!(command.driver_enable);
    assert_eq!(command.u_duty, 30);
    assert_eq!(command.v_duty, 280);
    assert_eq!(command.w_duty, 280);
    assert_eq!(command.to_array(), [30, 280, 280]);
}

#[test]
fn a_duty_that_reaches_the_period_disables_the_drive() {
    let mut svm = IterativeSVM::new(30, 500);
    let command = svm.calculate(VoltageControllerOutput {
        driver_enable: true,
        alpha: fixed(0.95),
        beta: fixed(0.0),
    });
    // 475 counts and 30 of dead time reach beyond 500.
    assert!(!command.driver_enable);
    assert_eq!(command.v_duty, 505);
}

#[test]
fn a_request_that_does_not_ask_for_the_drive_leaves_it_off() {
    let mut svm = IterativeSVM::new(30, 500);
    let command = svm.calculate(VoltageControllerOutput {
        driver_enable: false,
        alpha: fixed(0.5),
        beta: fixed(0.0),
    });
    assert!(!command.driver_enable);
    assert_eq!(command.v_duty, 280);
    assert_eq!(command.applied(), [0, 0, 0]);
}

#[test]
fn a_vector_that_cannot_be_modulated_leaves_the_drive_off() {
    let mut svm = IterativeSVM::new(0, 500);
    let command = svm.calculate(VoltageControllerOutput {
        driver_enable: true,
        alpha: fixed(0.0),
        beta: fixed(1.0),
    });
    assert!(!command.driver_enable);
}
