//! Open-loop commutation at a commanded velocity.

use vstd::prelude::*;
use crate::config::Config;
use crate::fixed::Fixed;
use crate::open_loop_voltage::open_loop_output;
use crate::state_machine::{ControllerUpdate, VoltageControllerOutput};
use crate::transforms::Rotation;

verus! {

/// Turns the voltage vector by a commanded step on every tick.
#[derive(Clone, Copy, Debug, PartialEq, Eq, Structural)]
pub struct OpenLoopVelocityController {
    /// The electrical angle, in radians.
    pub position: Fixed,
}

impl OpenLoopVelocityController {
    /// A controller at angle zero.
    pub fn new() -> (r: OpenLoopVelocityController)
        ensures
            r.position == Fixed::zero(),
    {
        OpenLoopVelocityController { position: Fixed::zero() }
    }

    /// Applies the voltage at the present angle, then advances the angle by
    /// `velocity_req` radians. `rotation` holds the sine and the cosine of
    /// the angle before it advances.
    pub fn process(
        &mut self,
        velocity_req: Fixed,
        update: &ControllerUpdate,
        config: &Config,
        rotation: Rotation,
    ) -> (r: VoltageControllerOutput)
        ensures
            r == open_loop_output(rotation, update, config),
            final(self).position == old(self).position.plus(velocity_req),
    {
        let request_duty = config.open_loop_voltage.over(update.bus_voltage);
        let alpha = rotation.sin.times(request_duty);
        let beta = rotation.cos.times(request_duty);
        self.position = self.position.plus(velocity_req);
        VoltageControllerOutput { driver_enable: true, alpha, beta }
    }
}

} // verus!
