//! The drive as a whole: the controller that asks for the voltage, the
//! modulator behind it, the interlocks, and the values that pass between
//! the stages on every tick.

use vstd::prelude::*;
use crate::calibration::{EncoderCalibration, EncoderCalibrationController};
use crate::config::Config;
use crate::encoder::EncoderOutput;
use crate::fixed::Fixed;
use crate::foc::FieldOrientedControl;
use crate::svm::IterativeSVM;
use crate::transforms::{PhaseCurrents, Rotation};

verus! {

/// What the drive has measured on one tick. The position is absent until
/// the sensor has finished calibrating.
#[derive(Clone, Copy, Debug, PartialEq, Eq, Structural)]
pub struct ControllerUpdate {
    pub phase_currents: PhaseCurrents,
    /// The bus voltage, in volts.
    pub bus_voltage: Fixed,
    /// The position and velocity of the mover, in millimetres.
    pub position: Option<EncoderOutput>,
}

/// A two-axis voltage request, as fractions of the bus voltage.
#[derive(Clone, Copy, Debug, PartialEq, Eq, Structural)]
pub struct VoltageControllerOutput {
    pub driver_enable: bool,
    pub alpha: Fixed,
    pub beta: Fixed,
}

/// The switch timings of one tick, in timer counts.
#[derive(Clone, Copy, Debug, PartialEq, Eq, Structural)]
pub struct PWMCommand {
    pub driver_enable: bool,
    pub u_duty: u16,
    pub v_duty: u16,
    pub w_duty: u16,
}

impl PWMCommand {
    /// The three duties in phase order.
    pub fn to_array(&self) -> (r: [u16; 3])
        ensures
            r@ == seq![self.u_duty, self.v_duty, self.w_duty],
    {
        [self.u_duty, self.v_duty, self.w_duty]
    }

    /// The command with the drive switched off where a phase current
    /// exceeds the hard limit in magnitude.
    pub open spec fn spec_within_current_limit(
        self,
        update: &ControllerUpdate,
        config: &Config,
    ) -> PWMCommand {
        PWMCommand {
            driver_enable: self.driver_enable && !(update.phase_currents.max_magnitude().raw
                > config.hard_curr_limit.raw),
            ..self
        }
    }

    /// The duties to put on the switches: the duties of the command while
    /// the drive is enabled, and zero otherwise.
    pub open spec fn spec_applied(&self) -> [u16; 3] {
        if self.driver_enable {
            [self.u_duty, self.v_duty, self.w_duty]
        } else {
            [0u16, 0u16, 0u16]
        }
    }

    #[verifier::when_used_as_spec(spec_within_current_limit)]
    pub fn within_current_limit(self, update: &ControllerUpdate, config: &Config) -> (r:
        PWMCommand)
        ensures
            r == self.spec_within_current_limit(update, config),
    {
        let over = update.phase_currents.max_magnitude().raw > config.hard_curr_limit.raw;
        PWMCommand {
            driver_enable: self.driver_enable && !over,
            u_duty: self.u_duty,
            v_duty: self.v_duty,
            w_duty: self.w_duty,
        }
    }

    #[verifier::when_used_as_spec(spec_applied)]
    pub fn applied(&self) -> (r: [u16; 3])
        ensures
            r == self.spec_applied(),
    {
        if self.driver_enable {
            [self.u_duty, self.v_duty, self.w_duty]
        } else {
            [0u16, 0u16, 0u16]
        }
    }
}

/// The controller that asks for the voltage: the calibration first, then
/// field-oriented control, and never back.
#[derive(Clone, Copy)]
pub enum VoltageController {
    Cal(EncoderCalibrationController),
    Foc(FieldOrientedControl),
}

impl VoltageController {
    /// Whether the controller needs a measured position from now on.
    pub open spec fn spec_encoder_ready(&self) -> bool {
        match self {
            VoltageController::Cal(c) => c.encoder_ready(),
            VoltageController::Foc(_) => true,
        }
    }

    /// Whether a calibration is at hand: the controller calibrates and each
    /// of its accumulators has taken in more than two errors.
    pub open spec fn calibrated(&self) -> bool {
        self matches VoltageController::Cal(c) && c.calib1_builder.samples().len() > 2
            && c.calib2_builder.samples().len() > 2
    }

    /// The field-oriented control that the calibration at hand gives.
    pub open spec fn entered(&self, config: &Config) -> FieldOrientedControl
        recommends
            self.calibrated(),
    {
        FieldOrientedControl::new(
            EncoderCalibration {
                offset: EncoderCalibrationController::offset_of(
                    self->Cal_0.calib1_builder.samples(),
                    self->Cal_0.calib2_builder.samples(),
                ),
            },
            config,
        )
    }

    /// Whether the next tick hands over to field-oriented control: the
    /// calibration has run its course and is at hand.
    pub open spec fn hands_over(&self) -> bool {
        self.calibrated() && self->Cal_0.is_done()
    }

    /// The angle whose sine and cosine the next tick is to be given: the
    /// commanded angle while the drive calibrates, the electrical angle at
    /// the measured position afterwards.
    pub open spec fn spec_angle(&self, update: &ControllerUpdate, config: &Config) -> Fixed {
        match self {
            VoltageController::Cal(c) => if self.hands_over() {
                self.entered(config).angle(update, config)
            } else {
                c.open_loop.position
            },
            VoltageController::Foc(f) => f.angle(update, config),
        }
    }

    /// The voltage request of the next tick.
    pub open spec fn output(
        &self,
        update: &ControllerUpdate,
        config: &Config,
        rotation: Rotation,
    ) -> VoltageControllerOutput {
        match self {
            VoltageController::Cal(c) => if self.hands_over() {
                self.entered(config).output(update, config, rotation)
            } else {
                c.output(rotation, update, config)
            },
            VoltageController::Foc(f) => f.output(update, config, rotation),
        }
    }

    /// Whether one tick takes this controller to `next`.
    pub open spec fn steps_to(
        &self,
        next: &VoltageController,
        update: &ControllerUpdate,
        config: &Config,
        rotation: Rotation,
    ) -> bool {
        match self {
            VoltageController::Cal(c) => if self.hands_over() {
                *next == VoltageController::Foc(
                    self.entered(config).advanced(update, config, rotation),
                )
            } else {
                next matches VoltageController::Cal(c2) && c.steps_to(&c2, update, config)
            },
            VoltageController::Foc(f) => *next == VoltageController::Foc(
                f.advanced(update, config, rotation),
            ),
        }
    }

    #[verifier::when_used_as_spec(spec_encoder_ready)]
    pub fn encoder_ready(&self) -> (r: bool)
        ensures
            r == self.spec_encoder_ready(),
    {
        match self {
            VoltageController::Cal(c) => c.encoder_ready(),
            VoltageController::Foc(_) => true,
        }
    }

    #[verifier::when_used_as_spec(spec_angle)]
    pub fn angle(&self, update: &ControllerUpdate, config: &Config) -> (r: Fixed)
        requires
            self.encoder_ready() ==> update.position is Some,
        ensures
            r == self.spec_angle(update, config),
    {
        match self {
            VoltageController::Cal(c) => {
                if c.is_done() {
                    match c.get_calib() {
                        Some(cal) => FieldOrientedControl::new(cal, config).angle(update, config),
                        None => c.open_loop.position,
                    }
                } else {
                    c.open_loop.position
                }
            },
            VoltageController::Foc(f) => f.angle(update, config),
        }
    }

    /// Hands over to field-oriented control if a calibration is at hand;
    /// otherwise the controller stays as it is.
    pub fn enter_foc(&mut self, config: &Config)
        ensures
            *final(self) == if old(self).calibrated() {
                VoltageController::Foc(old(self).entered(config))
            } else {
                *old(self)
            },
    {
        let next = match self {
            VoltageController::Cal(cal) => cal.get_calib(),
            VoltageController::Foc(_) => None,
        };
        match next {
            Some(cal) => {
                *self = VoltageController::Foc(FieldOrientedControl::new(cal, config));
            },
            None => {},
        }
    }

    /// Runs one tick. A calibration that has run its course hands over
    /// first. `rotation` holds the sine and the cosine of
    /// `self.angle(update, config)`.
    pub fn update(&mut self, update: &ControllerUpdate, config: &Config, rotation: Rotation) -> (r:
        VoltageControllerOutput)
        requires
            old(self).encoder_ready() ==> update.position is Some,
        ensures
            r == old(self).output(update, config, rotation),
            old(self).steps_to(final(self), update, config, rotation),
    {
        let done = match self {
            VoltageController::Cal(cal) => cal.is_done(),
            VoltageController::Foc(_) => false,
        };
        if done {
            self.enter_foc(config);
        }
        match self {
            VoltageController::Cal(cal) => cal.update(update, config, rotation),
            VoltageController::Foc(foc) => foc.update(update, config, rotation),
        }
    }
}

/// The whole drive: the voltage controller and the modulator behind it.
pub struct Controller {
    pub svm: IterativeSVM,
    pub voltage_controller: VoltageController,
}

impl Controller {
    /// Whether the controller needs a measured position from now on.
    pub open spec fn spec_encoder_ready(&self) -> bool {
        self.voltage_controller.encoder_ready()
    }

    /// The angle whose sine and cosine the next tick is to be given.
    pub open spec fn spec_angle(&self, update: &ControllerUpdate, config: &Config) -> Fixed {
        self.voltage_controller.angle(update, config)
    }

    /// Whether the bus voltage is too low to drive.
    pub open spec fn locked_out(update: &ControllerUpdate, config: &Config) -> bool {
        update.bus_voltage.raw < config.uvlo.raw
    }

    /// The switch timings of the next tick: what the modulator makes of the
    /// voltage request, with the drive switched off while the bus voltage is
    /// below the lockout threshold.
    pub open spec fn command(
        &self,
        update: &ControllerUpdate,
        config: &Config,
        rotation: Rotation,
    ) -> PWMCommand {
        let made = self.svm.command(self.voltage_controller.output(update, config, rotation));
        PWMCommand {
            driver_enable: made.driver_enable && !Self::locked_out(update, config),
            ..made
        }
    }

    /// A drive that starts to calibrate. The period is the clock over the
    /// switching frequency, in whole counts; the dead time is brought to the
    /// nearest count.
    pub fn new(config: &Config) -> (r: Controller)
        ensures
            r.svm.cycle_time == config.switching_clock_frequency.over(
                config.switching_frequency,
            ).trunc_u16(),
            r.svm.dead_time == config.cycle_deadtime.times(
                config.switching_clock_frequency,
            ).round_u16(),
            r.svm.residuals@ == seq![Fixed::zero(), Fixed::zero(), Fixed::zero()],
            r.voltage_controller matches VoltageController::Cal(c) && {
                &&& c.state == crate::calibration::EncoderCalibrationState::Start(0)
                &&& c.position_target == Fixed::zero()
                &&& c.open_loop.position == Fixed::zero()
                &&& c.calib1_builder.samples() == Seq::<Fixed>::empty()
                &&& c.calib2_builder.samples() == Seq::<Fixed>::empty()
            },
    {
        let cycle_time = config.switching_clock_frequency.over(config.switching_frequency);
        let dead_time_cycles = config.cycle_deadtime.times(config.switching_clock_frequency);
        Controller {
            svm: IterativeSVM::new(dead_time_cycles.round_u16(), cycle_time.trunc_u16()),
            voltage_controller: VoltageController::Cal(EncoderCalibrationController::new()),
        }
    }

    #[verifier::when_used_as_spec(spec_encoder_ready)]
    pub fn encoder_ready(&self) -> (r: bool)
        ensures
            r == self.spec_encoder_ready(),
    {
        self.voltage_controller.encoder_ready()
    }

    #[verifier::when_used_as_spec(spec_angle)]
    pub fn angle(&self, update: &ControllerUpdate, config: &Config) -> (r: Fixed)
        requires
            self.encoder_ready() ==> update.position is Some,
        ensures
            r == self.spec_angle(update, config),
    {
        self.voltage_controller.angle(update, config)
    }

    /// Runs one tick: the voltage controller, the modulator, and last of
    /// all the undervoltage lockout, which no earlier stage can overrule.
    /// `rotation` holds the sine and the cosine of
    /// `self.angle(update, config)`.
    pub fn update(&mut self, update: &ControllerUpdate, config: &Config, rotation: Rotation) -> (r:
        PWMCommand)
        requires
            old(self).encoder_ready() ==> update.position is Some,
        ensures
            r == old(self).command(update, config, rotation),
            final(self).svm == old(self).svm.advanced(
                old(self).voltage_controller.output(update, config, rotation),
            ),
            old(self).voltage_controller.steps_to(
                &final(self).voltage_controller,
                update,
                config,
                rotation,
            ),
            Self::locked_out(update, config) ==> !r.driver_enable,
    {
        let voltage_output = self.voltage_controller.update(update, config, rotation);
        let mut command = self.svm.calculate(voltage_output);
        if update.bus_voltage.raw < config.uvlo.raw {
            command.driver_enable = false;
        }
        command
    }
}

/// Below the lockout threshold the drive is off, whatever state the
/// controller is in and whatever it measures.
pub proof fn lemma_undervoltage_locks_out(
    controller: Controller,
    update: ControllerUpdate,
    config: Config,
    rotation: Rotation,
)
    requires
        update.bus_voltage.raw < config.uvlo.raw,
    ensures
        !controller.command(&update, &config, rotation).driver_enable,
{
}

/// A phase current beyond the hard limit switches the drive off, whatever
/// the command was.
pub proof fn lemma_overcurrent_switches_off(
    command: PWMCommand,
    update: ControllerUpdate,
    config: Config,
)
    requires
        update.phase_currents.max_magnitude().raw > config.hard_curr_limit.raw,
    ensures
        !command.within_current_limit(&update, &config).driver_enable,
        command.within_current_limit(&update, &config).applied()@ == seq![0u16, 0u16, 0u16],
{
}

/// Field-oriented control is never left: after any tick it is still in
/// charge.
pub proof fn lemma_foc_is_final(
    before: VoltageController,
    after: VoltageController,
    update: ControllerUpdate,
    config: Config,
    rotation: Rotation,
)
    requires
        before is Foc,
        before.steps_to(&after, &update, &config, rotation),
    ensures
        after is Foc,
{
}

} // verus!
