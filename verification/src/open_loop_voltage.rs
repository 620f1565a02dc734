//! Open-loop commutation: a voltage vector of fixed magnitude that turns
//! with a commanded electrical angle.

use vstd::prelude::*;
use crate::config::Config;
use crate::fixed::Fixed;
use crate::state_machine::{ControllerUpdate, VoltageControllerOutput};
use crate::transforms::Rotation;
use crate::unwrap::TAU_RAW;

verus! {

/// The output of open-loop commutation at the angle of `rotation`: the
/// open-loop voltage as a fraction of the bus voltage, along the sine on
/// alpha and along the cosine on beta.
pub open spec fn open_loop_output(
    rotation: Rotation,
    update: &ControllerUpdate,
    config: &Config,
) -> VoltageControllerOutput {
    let request_duty = config.open_loop_voltage.over(update.bus_voltage);
    VoltageControllerOutput {
        driver_enable: true,
        alpha: rotation.sin.times(request_duty),
        beta: rotation.cos.times(request_duty),
    }
}

/// Drives the motor without feedback.
#[derive(Clone, Copy, Debug, PartialEq, Eq, Structural)]
pub struct OpenLoopVoltageController {
    /// The commanded electrical angle, in radians.
    pub position: Fixed,
}

impl OpenLoopVoltageController {
    /// The commanded position in millimetres.
    pub open spec fn spec_get_position(&self, config: &Config) -> Fixed {
        self.position.over(Fixed { raw: TAU_RAW }).times(config.motor_len_per_cycle)
    }

    /// A controller at angle zero.
    pub fn new() -> (r: OpenLoopVoltageController)
        ensures
            r.position == Fixed::zero(),
    {
        OpenLoopVoltageController { position: Fixed::zero() }
    }

    #[verifier::when_used_as_spec(spec_get_position)]
    pub fn get_position(&self, config: &Config) -> (r: Fixed)
        ensures
            r == self.spec_get_position(config),
    {
        self.position.over(Fixed::from_raw(TAU_RAW)).times(config.motor_len_per_cycle)
    }

    /// Applies the voltage at the commanded angle, then advances the angle
    /// by `velocity_req` radians. `rotation` holds the sine and the cosine
    /// of the angle before it advances.
    pub fn process_velocity(
        &mut self,
        velocity_req: Fixed,
        update: &ControllerUpdate,
        config: &Config,
        rotation: Rotation,
    ) -> (r: VoltageControllerOutput)
        ensures
            r == open_loop_output(rotation, update, config),
            final(self).position == old(self).position.plus(velocity_req),
    {
        let position = self.position;
        let output = self.process_position(position, update, config, rotation);
        self.position = self.position.plus(velocity_req);
        output
    }

    /// Applies the voltage at the angle `position_req`, which becomes the
    /// commanded angle. `rotation` holds the sine and the cosine of
    /// `position_req`.
    pub fn process_position(
        &mut self,
        position_req: Fixed,
        update: &ControllerUpdate,
        config: &Config,
        rotation: Rotation,
    ) -> (r: VoltageControllerOutput)
        ensures
            r == open_loop_output(rotation, update, config),
            final(self).position == position_req,
    {
        let request_duty = config.open_loop_voltage.over(update.bus_voltage);
        let alpha = rotation.sin.times(request_duty);
        let beta = rotation.cos.times(request_duty);
        self.position = position_req;
        VoltageControllerOutput { driver_enable: true, alpha, beta }
    }
}

} // verus!
