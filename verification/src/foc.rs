//! Field-oriented control: a position loop that commands a velocity, a
//! velocity loop that commands a current, and two current loops in the
//! rotating frame that command the voltage.

use vstd::prelude::*;
use crate::calibration::EncoderCalibration;
use crate::config::Config;
use crate::encoder::EncoderOutput;
use crate::fixed::Fixed;
use crate::pid::{DQCurrentController, PController, PIController};
use crate::state_machine::{ControllerUpdate, VoltageControllerOutput};
use crate::transforms::{DQCurrents, DQVoltages, Rotation, VOLTAGE_SCALE_RAW};

verus! {

/// The raw value of the position setpoint a new controller starts with, in
/// millimetres.
pub const INITIAL_SETPOINT_RAW: i64 = -214748364800;

/// Whether a voltage lies beyond what a duty of one can give.
pub open spec fn beyond_scale(v: Fixed) -> bool {
    v.raw > VOLTAGE_SCALE_RAW || v.raw < -VOLTAGE_SCALE_RAW
}

/// The value `x` held within `-limit ..= limit`.
pub open spec fn limited(x: Fixed, limit: Fixed) -> Fixed {
    x.max(limit.neg()).min(limit)
}

/// The position loop and the velocity loop.
#[derive(Clone, Copy, Debug, PartialEq, Eq, Structural)]
pub struct PosController {
    pub vel_controller: PIController,
    pub pos_controller: PController,
    pub pos_setpoint: Fixed,
    pub vel_setpoint: Fixed,
}

impl PosController {
    /// The velocity that the position loop asks for.
    pub open spec fn velocity_request(&self, encoder: &EncoderOutput, config: &Config) -> Fixed {
        (PController { k_p: config.pos_controller_k_p }).update(
            self.pos_setpoint.minus(encoder.filtered_position),
        )
    }

    /// The error that the velocity loop is given.
    pub open spec fn velocity_error(&self, encoder: &EncoderOutput, config: &Config) -> Fixed {
        encoder.velocity.minus(self.velocity_request(encoder, config))
    }

    /// The velocity loop with the gains of `config`.
    pub open spec fn tuned(&self, config: &Config) -> PIController {
        self.vel_controller.with_gains(config.vel_controller_k_i, config.vel_controller_k_p)
    }

    /// The current that the velocity loop asks for.
    pub open spec fn current_request(&self, encoder: &EncoderOutput, config: &Config) -> Fixed {
        self.tuned(config).output(self.velocity_error(encoder, config), false)
    }

    /// The controller after one tick.
    pub open spec fn advanced(&self, encoder: &EncoderOutput, config: &Config) -> PosController {
        PosController {
            vel_controller: PIController {
                i_error: self.tuned(config).integrated(self.velocity_error(encoder, config), false),
                ..self.tuned(config)
            },
            pos_controller: PController { k_p: config.pos_controller_k_p },
            pos_setpoint: self.pos_setpoint,
            vel_setpoint: self.velocity_request(encoder, config),
        }
    }

    /// Runs both loops for one tick and gives the current to ask for. The
    /// gains are read from `config`.
    pub fn update(&mut self, encoder: &EncoderOutput, config: &Config) -> (r: Fixed)
        ensures
            r == old(self).current_request(encoder, config),
            *final(self) == old(self).advanced(encoder, config),
    {
        self.vel_controller.k_i = config.vel_controller_k_i;
        self.vel_controller.p_controller.k_p = config.vel_controller_k_p;
        self.pos_controller.k_p = config.pos_controller_k_p;
        let velocity_setpoint = self.pos_controller.update(
            self.pos_setpoint.minus(encoder.filtered_position),
        );
        self.vel_setpoint = velocity_setpoint;
        self.vel_controller.update(encoder.velocity.minus(self.vel_setpoint), false)
    }
}

/// The cascade, with what it last measured and asked for.
#[derive(Clone, Copy, Debug, PartialEq, Eq, Structural)]
pub struct FieldOrientedControl {
    pub cal: EncoderCalibration,
    pub current_controller: DQCurrentController,
    /// The currents in the rotating frame on the last tick.
    pub dq_currents: DQCurrents,
    /// The current asked for along q on the last tick.
    pub q_req: Fixed,
    pub pos_controller: PosController,
    /// The sensor output of the last tick.
    pub encoder_output: EncoderOutput,
    /// Whether the voltage asked for along d on the last tick lay beyond
    /// the scale.
    pub d_saturated: bool,
    /// Whether the voltage asked for along q on the last tick lay beyond
    /// the scale.
    pub q_saturated: bool,
}

impl FieldOrientedControl {
    /// The cascade at rest, with the gains of `config`.
    pub open spec fn spec_new(cal: EncoderCalibration, config: &Config) -> FieldOrientedControl {
        let current = PIController {
            k_i: config.current_controller_k_i,
            i_error: Fixed::zero(),
            p_controller: PController { k_p: config.current_controller_k_p },
        };
        FieldOrientedControl {
            cal,
            current_controller: DQCurrentController { d_controller: current, q_controller: current },
            dq_currents: DQCurrents::spec_default(),
            q_req: Fixed::zero(),
            pos_controller: PosController {
                vel_controller: PIController {
                    k_i: config.vel_controller_k_i,
                    i_error: Fixed::zero(),
                    p_controller: PController { k_p: config.vel_controller_k_p },
                },
                pos_controller: PController { k_p: config.pos_controller_k_p },
                pos_setpoint: Fixed { raw: INITIAL_SETPOINT_RAW },
                vel_setpoint: Fixed::zero(),
            },
            encoder_output: EncoderOutput::spec_default(),
            d_saturated: false,
            q_saturated: false,
        }
    }

    /// The electrical angle at the measured position of `update`: the angle
    /// whose sine and cosine `update` is to be given.
    pub open spec fn spec_angle(&self, update: &ControllerUpdate, config: &Config) -> Fixed
        recommends
            update.position is Some,
    {
        self.cal.to_angle(update.position->0.position, config)
    }

    /// The measured currents in the rotating frame.
    pub open spec fn measured(update: &ControllerUpdate, rotation: Rotation) -> DQCurrents {
        update.phase_currents.clarke_transform().park_transform(rotation)
    }

    /// The current asked for along q: what the velocity loop asks for, held
    /// within the current limit.
    pub open spec fn q_request(&self, update: &ControllerUpdate, config: &Config) -> Fixed
        recommends
            update.position is Some,
    {
        limited(self.pos_controller.current_request(&update.position->0, config), config.curr_limit)
    }

    /// A current loop with the gains of `config`.
    pub open spec fn tuned(axis: PIController, config: &Config) -> PIController {
        axis.with_gains(config.current_controller_k_i, config.current_controller_k_p)
    }

    /// The voltages that the current loops ask for. No current is asked for
    /// along d.
    pub open spec fn voltage_request(
        &self,
        update: &ControllerUpdate,
        config: &Config,
        rotation: Rotation,
    ) -> DQVoltages
        recommends
            update.position is Some,
    {
        let m = Self::measured(update, rotation);
        DQVoltages {
            d: Self::tuned(self.current_controller.d_controller, config).output(
                DQCurrentController::axis_error(m.d, Fixed::zero()),
                self.d_saturated,
            ).neg(),
            q: Self::tuned(self.current_controller.q_controller, config).output(
                DQCurrentController::axis_error(m.q, self.q_request(update, config)),
                self.q_saturated,
            ).neg(),
        }
    }

    /// The voltage request of one tick, in the stationary frame.
    pub open spec fn output(
        &self,
        update: &ControllerUpdate,
        config: &Config,
        rotation: Rotation,
    ) -> VoltageControllerOutput
        recommends
            update.position is Some,
    {
        self.voltage_request(update, config, rotation).inv_park_transform(
            rotation,
        ).to_voltage_controller_output(update)
    }

    /// The cascade after one tick. The sum of the errors of an axis takes
    /// in the error of the tick unless the voltage of that axis lay beyond
    /// the scale on the tick before.
    pub open spec fn advanced(
        &self,
        update: &ControllerUpdate,
        config: &Config,
        rotation: Rotation,
    ) -> FieldOrientedControl
        recommends
            update.position is Some,
    {
        let m = Self::measured(update, rotation);
        let d = Self::tuned(self.current_controller.d_controller, config);
        let q = Self::tuned(self.current_controller.q_controller, config);
        let v = self.voltage_request(update, config, rotation);
        FieldOrientedControl {
            cal: self.cal,
            current_controller: DQCurrentController {
                d_controller: PIController {
                    i_error: d.integrated(
                        DQCurrentController::axis_error(m.d, Fixed::zero()),
                        self.d_saturated,
                    ),
                    ..d
                },
                q_controller: PIController {
                    i_error: q.integrated(
                        DQCurrentController::axis_error(m.q, self.q_request(update, config)),
                        self.q_saturated,
                    ),
                    ..q
                },
            },
            dq_currents: m,
            q_req: self.q_request(update, config),
            pos_controller: self.pos_controller.advanced(&update.position->0, config),
            encoder_output: update.position->0,
            d_saturated: beyond_scale(v.d),
            q_saturated: beyond_scale(v.q),
        }
    }

    #[verifier::when_used_as_spec(spec_new)]
    pub fn new(cal: EncoderCalibration, config: &Config) -> (r: FieldOrientedControl)
        ensures
            r == FieldOrientedControl::spec_new(cal, config),
    {
        FieldOrientedControl {
            cal,
            current_controller: DQCurrentController::new(config),
            dq_currents: DQCurrents::default(),
            q_req: Fixed::zero(),
            pos_controller: PosController {
                vel_controller: PIController::new(
                    config.vel_controller_k_i,
                    config.vel_controller_k_p,
                ),
                pos_controller: PController::new(config.pos_controller_k_p),
                pos_setpoint: Fixed::from_raw(INITIAL_SETPOINT_RAW),
                vel_setpoint: Fixed::zero(),
            },
            encoder_output: EncoderOutput::default(),
            d_saturated: false,
            q_saturated: false,
        }
    }

    #[verifier::when_used_as_spec(spec_angle)]
    pub fn angle(&self, update: &ControllerUpdate, config: &Config) -> (r: Fixed)
        requires
            update.position is Some,
        ensures
            r == self.spec_angle(update, config),
    {
        match update.position {
            Some(measured) => self.cal.to_angle(measured.position, config),
            None => Fixed::zero(),
        }
    }

    /// Runs the cascade for one tick. `rotation` holds the sine and the
    /// cosine of `self.angle(update, config)`.
    pub fn update(&mut self, update: &ControllerUpdate, config: &Config, rotation: Rotation) -> (r:
        VoltageControllerOutput)
        requires
            update.position is Some,
        ensures
            r == old(self).output(update, config, rotation),
            *final(self) == old(self).advanced(update, config, rotation),
    {
        let encoder_output = match update.position {
            Some(measured) => measured,
            None => EncoderOutput::default(),
        };
        self.encoder_output = encoder_output;
        let dq_currents = update.phase_currents.clarke_transform().park_transform(rotation);
        let q = self.pos_controller.update(&encoder_output, config);
        let q = q.max(config.curr_limit.neg()).min(config.curr_limit);
        let voltage_request = self.current_controller.update(
            &dq_currents,
            &DQCurrents { d: Fixed::zero(), q },
            self.d_saturated,
            self.q_saturated,
            config,
        );
        self.dq_currents = dq_currents;
        self.q_req = q;
        self.d_saturated = voltage_request.d.raw > VOLTAGE_SCALE_RAW || voltage_request.d.raw
            < -VOLTAGE_SCALE_RAW;
        self.q_saturated = voltage_request.q.raw > VOLTAGE_SCALE_RAW || voltage_request.q.raw
            < -VOLTAGE_SCALE_RAW;
        voltage_request.inv_park_transform(rotation).to_voltage_controller_output(update)
    }
}

/// The current asked for along q never exceeds the current limit in
/// magnitude, whatever the sensor says.
pub proof fn lemma_current_request_is_limited(
    foc: FieldOrientedControl,
    update: ControllerUpdate,
    config: Config,
)
    requires
        update.position is Some,
        config.curr_limit.raw >= 0,
    ensures
        -config.curr_limit.raw <= foc.q_request(&update, &config).raw <= config.curr_limit.raw,
{
}

/// An axis whose voltage lay beyond the scale keeps its sum of errors
/// while the other axis takes in its error: the two freeze apart.
pub proof fn lemma_axes_freeze_apart(
    foc: FieldOrientedControl,
    update: ControllerUpdate,
    config: Config,
    rotation: Rotation,
)
    requires
        update.position is Some,
    ensures
        foc.d_saturated ==> foc.advanced(
            &update,
            &config,
            rotation,
        ).current_controller.d_controller.i_error == foc.current_controller.d_controller.i_error,
        foc.q_saturated ==> foc.advanced(
            &update,
            &config,
            rotation,
        ).current_controller.q_controller.i_error == foc.current_controller.q_controller.i_error,
        !foc.d_saturated ==> foc.advanced(
            &update,
            &config,
            rotation,
        ).current_controller.d_controller.i_error
            == foc.current_controller.d_controller.i_error.plus(
            DQCurrentController::axis_error(
                FieldOrientedControl::measured(&update, rotation).d,
                Fixed::zero(),
            ),
        ),
        !foc.q_saturated ==> foc.advanced(
            &update,
            &config,
            rotation,
        ).current_controller.q_controller.i_error
            == foc.current_controller.q_controller.i_error.plus(
            DQCurrentController::axis_error(
                FieldOrientedControl::measured(&update, rotation).q,
                foc.q_request(&update, &config),
            ),
        ),
{
}

/// A change of the gains of the current loops changes the gains and
/// nothing else: the sums of the errors go on from where they were.
pub proof fn lemma_gains_reload(
    foc: FieldOrientedControl,
    update: ControllerUpdate,
    config: Config,
    k_p: Fixed,
    k_i: Fixed,
    rotation: Rotation,
)
    requires
        update.position is Some,
    ensures
        ({
            let tuned = Config { current_controller_k_p: k_p, current_controller_k_i: k_i, ..config };
            let a = foc.advanced(&update, &config, rotation).current_controller;
            let b = foc.advanced(&update, &tuned, rotation).current_controller;
            &&& b.d_controller.k_i == k_i
            &&& b.d_controller.p_controller.k_p == k_p
            &&& b.q_controller.k_i == k_i
            &&& b.q_controller.p_controller.k_p == k_p
            &&& b.d_controller.i_error == a.d_controller.i_error
            &&& b.q_controller.i_error == a.q_controller.i_error
        }),
{
}

} // verus!
