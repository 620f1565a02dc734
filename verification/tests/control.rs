use linear_motor::calibration::{
    EncoderCalibration, EncoderCalibrationController, EncoderCalibrationState,
};
use linear_motor::common::to_controller_update;
use linear_motor::config::Config;
use linear_motor::encoder::EncoderOutput;
use linear_motor::fixed::{Fixed, ONE_RAW};
use linear_motor::foc::{FieldOrientedControl, PosController};
use linear_motor::open_loop_velocity::OpenLoopVelocityController;
use linear_motor::open_loop_voltage::OpenLoopVoltageController;
use linear_motor::pid::{DQCurrentController, PController, PIController};
use linear_motor::state_machine::{Controller, ControllerUpdate, PWMCommand, VoltageController};
use linear_motor::transforms::{
    AlphaBetaCurrents, AlphaBetaVoltages, DQCurrents, DQVoltages, PhaseCurrents, Rotation,
};

fn n(x: f64) -> Fixed {
    Fixed::from_raw((x * ONE_RAW as f64).round() as i64)
}

fn v(x: Fixed) -> f64 {
    x.raw as f64 / ONE_RAW as f64
}

fn turn(angle: f64) -> Rotation {
    let (s, c) = libm::sincos(angle);
    Rotation { sin: n(s), cos: n(c) }
}

fn at_rest(bus_voltage: f64, position: Option<f64>) -> ControllerUpdate {
    ControllerUpdate {
        phase_currents: PhaseCurrents { u: Fixed::zero(), v: Fixed::zero(), w: Fixed::zero() },
        bus_voltage: n(bus_voltage),
        position: position.map(|p| EncoderOutput {
            position: n(p),
            filtered_position: n(p),
            velocity: Fixed::zero(),
        }),
    }
}

/// Runs the drive open-loop against a sensor that reads the commanded
/// position plus `offset` millimetres, until the calibration is done.
fn calibrate(controller: &mut Controller, config: &Config, offset: f64) -> usize {
    let mut ticks = 0;
    loop {
        let commanded = match &controller.voltage_controller {
            VoltageController::Cal(c) => {
                if c.is_done() {
                    return ticks;
                }
                v(c.open_loop.get_position(config))
            }
            VoltageController::Foc(_) => return ticks,
        };
        let update = at_rest(20.0, Some(commanded + offset));
        let angle = controller.angle(&update, config);
        controller.update(&update, config, turn(v(angle)));
        ticks += 1;
        assert!(ticks < 10_000_000);
    }
}

fn short_stroke() -> Config {
    let mut config = Config::new();
    // A stroke of one millimetre keeps the run short.
    config.calibration_length = n(1.0);
    config
}

#[test]
fn the_settings_start_as_documented() {
    let config = Config::new();
    assert_eq!(config.motor_len_per_cycle, n(19.0));
    assert_eq!(config.encoder_len_per_cycle, n(2.34375));
    assert_eq!(config.calibration_length, n(100.0));
    assert_eq!(config.uvlo, n(10.0));
    assert_eq!(config.curr_limit, n(22.5));
    assert_eq!(config.hard_curr_limit, n(35.0));
    assert_eq!(config.pos_controller_k_p, n(40.0));
    assert_eq!(config.comp_matrix[0][0], n(1.1173));
    assert_eq!(config.comp_matrix[7][6], n(-0.2132));
    assert_eq!(config.comp_bias[7], n(-0.0489));
}

#[test]
fn the_drive_starts_with_the_period_and_dead_time_of_its_settings() {
    let controller = Controller::new(&Config::new());
    assert_eq!(controller.svm.cycle_time, 500);
    assert_eq!(controller.svm.dead_time, 30);
    assert!(!controller.encoder_ready());
    assert!(matches!(
        controller.voltage_controller,
        VoltageController::Cal(c) if c.state == EncoderCalibrationState::Start(0)
    ));
}

#[test]
fn the_calibration_waits_before_it_moves() {
    let config = short_stroke();
    let mut cal = EncoderCalibrationController::new();
    let update = at_rest(20.0, None);
    for tick in 0..1000 {
        let out = cal.update(&update, &config, turn(0.0));
        assert!(!out.driver_enable);
        assert_eq!(cal.state, EncoderCalibrationState::Start(tick + 1));
        assert_eq!(cal.open_loop.position, Fixed::zero());
    }
    let out = cal.update(&update, &config, turn(0.0));
    assert!(!out.driver_enable);
    assert_eq!(cal.state, EncoderCalibrationState::ToEndstop);
    let out = cal.update(&update, &config, turn(0.0));
    assert!(out.driver_enable);
    // At angle zero the voltage lies along beta: 0.5 V of 20 V.
    assert_eq!(out.alpha, Fixed::zero());
    assert_eq!(out.beta, n(0.025));
    assert_eq!(cal.open_loop.position.raw, 2147484);
    assert!(!cal.encoder_ready());
    assert!(!cal.is_done());
    assert!(cal.get_calib().is_none());
}

#[test]
fn the_calibration_goes_through_its_states_in_order() {
    let config = short_stroke();
    let mut cal = EncoderCalibrationController::new();
    let mut seen = vec![cal.state];
    let mut ticks = 0;
    while seen.len() < 9 {
        let commanded = v(cal.open_loop.get_position(&config));
        let update = at_rest(20.0, Some(commanded + 0.25));
        cal.update(&update, &config, turn(v(cal.open_loop.position)));
        let kind = std::mem::discriminant(&cal.state);
        if kind != std::mem::discriminant(seen.last().unwrap()) {
            seen.push(cal.state);
        }
        ticks += 1;
        assert!(ticks < 100_000);
    }
    assert_eq!(
        seen[1..].to_vec(),
        vec![
            EncoderCalibrationState::ToEndstop,
            EncoderCalibrationState::Calib1,
            EncoderCalibrationState::Calib2,
            EncoderCalibrationState::Done1,
            EncoderCalibrationState::Done2,
            EncoderCalibrationState::Done1,
            EncoderCalibrationState::Done2,
            EncoderCalibrationState::Done1,
        ]
    );
}

#[test]
fn a_constant_offset_is_calibrated_exactly() {
    let config = short_stroke();
    let mut controller = Controller::new(&config);
    calibrate(&mut controller, &config, 0.25);
    let cal = match &controller.voltage_controller {
        VoltageController::Cal(c) => *c,
        VoltageController::Foc(_) => panic!("left the calibration too early"),
    };
    assert!(cal.is_done());
    assert!(cal.encoder_ready());
    let [l, r] = cal.get_calib_raw().unwrap();
    assert_eq!(l.mean, n(0.25));
    assert_eq!(r.mean, n(0.25));
    assert_eq!(l.std, Fixed::zero());
    assert_eq!(cal.get_calib().unwrap().offset, n(0.25));
}

#[test]
fn backlash_cancels_in_the_mean_of_the_two_directions() {
    let config = short_stroke();
    let mut cal = EncoderCalibrationController::new();
    let mut ticks = 0;
    while !cal.is_done() {
        let commanded = v(cal.open_loop.get_position(&config));
        // The sensor lags by a tenth of a millimetre against the motion.
        let lag = match cal.state {
            EncoderCalibrationState::Calib1 => 0.1,
            EncoderCalibrationState::Calib2 => -0.1,
            _ => 0.0,
        };
        let update = at_rest(20.0, Some(commanded + 0.5 + lag));
        cal.update(&update, &config, turn(v(cal.open_loop.position)));
        ticks += 1;
        assert!(ticks < 100_000);
    }
    let offset = cal.get_calib().unwrap().offset;
    assert!((v(offset) - 0.5).abs() < 1e-8);
}

#[test]
fn the_drive_hands_over_to_field_oriented_control() {
    let config = short_stroke();
    let mut controller = Controller::new(&config);
    calibrate(&mut controller, &config, 0.25);
    let update = at_rest(20.0, Some(0.25));
    let angle = controller.angle(&update, &config);
    // The measured position is the offset, so the angle is zero.
    assert_eq!(angle, Fixed::zero());
    controller.update(&update, &config, turn(0.0));
    match &controller.voltage_controller {
        VoltageController::Foc(foc) => {
            assert_eq!(foc.cal.offset, n(0.25));
            assert_eq!(foc.pos_controller.pos_setpoint, n(-50.0));
        }
        VoltageController::Cal(_) => panic!("still calibrating"),
    }
    assert!(controller.encoder_ready());
    // Field-oriented control is never left.
    controller.update(&update, &config, turn(0.0));
    assert!(matches!(controller.voltage_controller, VoltageController::Foc(_)));
}

#[test]
fn handing_over_needs_a_calibration() {
    let config = Config::new();
    let mut vc = VoltageController::Cal(EncoderCalibrationController::new());
    vc.enter_foc(&config);
    assert!(matches!(vc, VoltageController::Cal(_)));
}

#[test]
fn undervoltage_locks_the_drive_out() {
    let config = short_stroke();
    let mut controller = Controller::new(&config);
    // Past the wait the calibration enables the drive at 20 V.
    let update = at_rest(20.0, None);
    let mut enabled = false;
    for _ in 0..1100 {
        let angle = controller.angle(&update, &config);
        enabled = controller.update(&update, &config, turn(v(angle))).driver_enable;
    }
    assert!(enabled);
    // Below the threshold the very next command is disabled.
    let low = at_rest(9.9, None);
    let angle = controller.angle(&low, &config);
    let command = controller.update(&low, &config, turn(v(angle)));
    assert!(!command.driver_enable);
    assert_eq!(command.applied(), [0, 0, 0]);
    // At the threshold itself the drive runs again.
    let edge = at_rest(10.0, None);
    let angle = controller.angle(&edge, &config);
    assert!(controller.update(&edge, &config, turn(v(angle))).driver_enable);
}

#[test]
fn undervoltage_locks_field_oriented_control_out_too() {
    let config = short_stroke();
    let mut controller = Controller::new(&config);
    calibrate(&mut controller, &config, 0.0);
    let update = at_rest(5.0, Some(0.0));
    let angle = controller.angle(&update, &config);
    let command = controller.update(&update, &config, turn(v(angle)));
    assert!(matches!(controller.voltage_controller, VoltageController::Foc(_)));
    assert!(!command.driver_enable);
}

#[test]
fn overcurrent_switches_the_drive_off() {
    let config = Config::new();
    let command = PWMCommand { driver_enable: true, u_duty: 100, v_duty: 200, w_duty: 300 };
    let mut update = at_rest(20.0, None);
    update.phase_currents = PhaseCurrents { u: n(10.0), v: n(-34.9), w: n(24.9) };
    assert!(command.within_current_limit(&update, &config).driver_enable);
    assert_eq!(command.within_current_limit(&update, &config).applied(), [100, 200, 300]);
    update.phase_currents.v = n(-35.1);
    let limited = command.within_current_limit(&update, &config);
    assert!(!limited.driver_enable);
    assert_eq!(limited.u_duty, 100);
    assert_eq!(limited.applied(), [0, 0, 0]);
}

#[test]
fn phase_currents() {
    let mut currents = PhaseCurrents { u: n(1.0), v: n(-3.0), w: n(2.0) };
    assert_eq!(currents.sum_currents(), Fixed::zero());
    assert_eq!(currents.max_magnitude(), n(3.0));
    assert_eq!(currents.normalize(), PhaseCurrents { u: n(1.0), v: n(-3.0), w: n(2.0) });
    let ab = currents.clarke_transform();
    assert_eq!(ab.alpha, n(1.0));
    assert!((v(ab.beta) + 5.0 / 3f64.sqrt()).abs() < 1e-8);
}

#[test]
fn park_and_its_inverse() {
    let currents = AlphaBetaCurrents { alpha: n(3.0), beta: n(4.0) };
    let still = Rotation { sin: Fixed::zero(), cos: Fixed::one() };
    assert_eq!(currents.park_transform(still), DQCurrents { d: n(4.0), q: n(3.0) });
    let quarter = Rotation { sin: Fixed::one(), cos: Fixed::zero() };
    assert_eq!(currents.park_transform(quarter), DQCurrents { d: n(3.0), q: n(-4.0) });
    let voltages = DQVoltages { d: n(4.0), q: n(3.0) };
    assert_eq!(
        voltages.inv_park_transform(still),
        AlphaBetaVoltages { alpha: n(3.0), beta: n(4.0) }
    );
    // Turning there and back gives the vector back.
    let r = turn(0.7);
    let dq = currents.park_transform(r);
    let back = DQVoltages { d: dq.d, q: dq.q }.inv_park_transform(r);
    assert!((v(back.alpha) - 3.0).abs() < 1e-8);
    assert!((v(back.beta) - 4.0).abs() < 1e-8);
    assert_eq!(DQCurrents::default(), DQCurrents { d: Fixed::zero(), q: Fixed::zero() });
}

#[test]
fn voltages_become_duties() {
    let update = at_rest(20.0, None);
    let out = AlphaBetaVoltages { alpha: n(7.5), beta: n(-15.0) }
        .to_voltage_controller_output(&update);
    assert!(out.driver_enable);
    assert_eq!(out.alpha, n(0.5));
    assert_eq!(out.beta, n(-1.0));
}

#[test]
fn controllers() {
    let p = PController::new(n(2.0));
    assert_eq!(p.update(n(1.5)), n(3.0));
    let mut pi = PIController::new(n(0.5), n(2.0));
    // 2 * 1 + 0.5 * 1
    assert_eq!(pi.update(n(1.0), false), n(2.5));
    // 2 * 1 + 0.5 * 2
    assert_eq!(pi.update(n(1.0), false), n(3.0));
    // Saturated: the sum of the errors is frozen at 2.
    assert_eq!(pi.update(n(1.0), true), n(3.0));
    assert_eq!(pi.i_error, n(2.0));
}

#[test]
fn each_axis_freezes_on_its_own() {
    let mut config = Config::new();
    config.current_controller_k_p = n(2.0);
    config.current_controller_k_i = n(0.5);
    let mut controller = DQCurrentController::new(&config);
    let inputs = DQCurrents { d: n(1.0), q: n(1.0) };
    let requests = DQCurrents { d: Fixed::zero(), q: n(3.0) };
    let out = controller.update(&inputs, &requests, true, false, &config);
    // d: error -1, frozen: -(2 * -1 + 0.5 * 0) = 2
    assert_eq!(out.d, n(2.0));
    // q: error 2: -(2 * 2 + 0.5 * 2) = -5
    assert_eq!(out.q, n(-5.0));
    assert_eq!(controller.d_controller.i_error, Fixed::zero());
    assert_eq!(controller.q_controller.i_error, n(2.0));
    // A change of the gains keeps the sums.
    config.current_controller_k_i = n(1.0);
    let out = controller.update(&inputs, &requests, false, true, &config);
    assert_eq!(controller.d_controller.i_error, n(-1.0));
    assert_eq!(controller.q_controller.i_error, n(2.0));
    assert_eq!(out.d, n(3.0));
    assert_eq!(out.q, n(-6.0));
}

#[test]
fn the_cascade_limits_the_current_it_asks_for() {
    let mut config = Config::new();
    config.pos_controller_k_p = n(40.0);
    config.vel_controller_k_p = n(0.1);
    config.vel_controller_k_i = Fixed::zero();
    let mut foc = FieldOrientedControl::new(EncoderCalibration { offset: Fixed::zero() }, &config);
    // 50 mm from the setpoint: the velocity asked for is -2000 mm/s, the
    // current 200 A, which is held at the limit.
    let update = at_rest(20.0, Some(0.0));
    let angle = foc.angle(&update, &config);
    assert_eq!(angle, Fixed::zero());
    foc.update(&update, &config, turn(0.0));
    assert_eq!(foc.pos_controller.vel_setpoint, n(-2000.0));
    assert_eq!(foc.q_req, n(22.5));
    assert_eq!(foc.encoder_output.position, Fixed::zero());
    assert_eq!(foc.dq_currents, DQCurrents::default());
}

#[test]
fn the_position_loop_and_the_velocity_loop() {
    let mut config = Config::new();
    config.pos_controller_k_p = n(2.0);
    config.vel_controller_k_p = n(0.5);
    config.vel_controller_k_i = n(0.25);
    let encoder =
        EncoderOutput { position: n(4.0), filtered_position: n(4.0), velocity: n(2.0) };
    let mut foc = FieldOrientedControl::new(EncoderCalibration { offset: Fixed::zero() }, &config);
    foc.pos_controller = PosController {
        vel_controller: PIController::new(Fixed::zero(), Fixed::zero()),
        pos_controller: PController::new(Fixed::zero()),
        pos_setpoint: n(10.0),
        vel_setpoint: Fixed::zero(),
    };
    let mut update = at_rest(20.0, None);
    update.position = Some(encoder);
    foc.update(&update, &config, turn(0.0));
    // The velocity asked for is 2 * (10 - 4) = 12; the error is 2 - 12 =
    // -10; the current asked for is 0.5 * -10 + 0.25 * -10 = -7.5.
    assert_eq!(foc.pos_controller.vel_setpoint, n(12.0));
    assert_eq!(foc.pos_controller.vel_controller.i_error, n(-10.0));
    assert_eq!(foc.q_req, n(-7.5));
}

#[test]
fn open_loop_commutation() {
    let config = Config::new();
    let update = at_rest(10.0, None);
    let mut open = OpenLoopVoltageController::new();
    let quarter = Rotation { sin: Fixed::one(), cos: Fixed::zero() };
    // 0.5 V of 10 V, rounded down to the raw unit.
    let duty = Fixed::from_raw(214748364);
    let out = open.process_position(n(1.5), &update, &config, quarter);
    assert_eq!(out.alpha, duty);
    assert_eq!(out.beta, Fixed::zero());
    assert_eq!(open.position, n(1.5));
    let out = open.process_velocity(n(0.25), &update, &config, quarter);
    assert_eq!(out.alpha, duty);
    assert_eq!(open.position, n(1.75));
    // One electrical turn is one motor cycle of travel.
    open.position = Fixed::from_raw(linear_motor::unwrap::TAU_RAW);
    assert_eq!(open.get_position(&config), n(19.0));
    let mut by_velocity = OpenLoopVelocityController::new();
    let out = by_velocity.process(n(0.5), &update, &config, quarter);
    assert_eq!(out.alpha, duty);
    assert_eq!(by_velocity.position, n(0.5));
}

#[test]
fn the_angle_of_a_position() {
    let config = Config::new();
    let cal = EncoderCalibration { offset: n(1.0) };
    // Half a motor cycle beyond the offset is half a turn.
    let angle = cal.to_angle(n(10.5), &config);
    assert!((v(angle) - core::f64::consts::PI).abs() < 1e-8);
}

#[test]
fn readings_become_measurements() {
    let config = Config::new();
    let mut adc = [0u16; 16];
    adc[9] = 2048;
    adc[10] = 2048 + 62;
    adc[11] = 2048 - 62;
    adc[12] = 2048;
    adc[13] = 2256;
    let update = to_controller_update(&adc, None, &config);
    // 62 counts of 4096 at 3.3 V and 5 mV/A are just short of 10 A.
    let amperes = 62.0 / 4096.0 * 3.3 / 0.005;
    assert!((v(update.phase_currents.u) - amperes).abs() < 1e-5);
    assert!((v(update.phase_currents.v) + amperes).abs() < 1e-5);
    assert_eq!(update.phase_currents.w, Fixed::zero());
    assert!((v(update.bus_voltage) - 2256.0 / 4096.0 * 3.3 * 11.0).abs() < 1e-6);
    assert!(update.position.is_none());
    let turn = EncoderOutput {
        position: Fixed::from_raw(linear_motor::unwrap::TAU_RAW),
        filtered_position: Fixed::zero(),
        velocity: Fixed::zero(),
    };
    let update = to_controller_update(&adc, Some(turn), &config);
    // One turn of the sensor is one of its cycles of travel.
    assert!((v(update.position.unwrap().position) - 2.34375).abs() < 1e-8);
}
