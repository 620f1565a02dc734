//! Proportional and proportional-integral controllers.

use vstd::prelude::*;
use crate::config::Config;
use crate::fixed::Fixed;
use crate::transforms::{DQCurrents, DQVoltages};

verus! {

/// A proportional controller.
#[derive(Clone, Copy, Debug, PartialEq, Eq, Structural)]
pub struct PController {
    pub k_p: Fixed,
}

impl PController {
    /// The gain times the error.
    pub open spec fn spec_update(&self, error: Fixed) -> Fixed {
        self.k_p.times(error)
    }

    pub fn new(k_p: Fixed) -> (r: PController)
        ensures
            r.k_p == k_p,
    {
        PController { k_p }
    }

    #[verifier::when_used_as_spec(spec_update)]
    pub fn update(&self, error: Fixed) -> (r: Fixed)
        ensures
            r == self.spec_update(error),
    {
        self.k_p.times(error)
    }
}

/// A proportional-integral controller. The sum of the errors lasts across
/// changes of the gains.
#[derive(Clone, Copy, Debug, PartialEq, Eq, Structural)]
pub struct PIController {
    pub k_i: Fixed,
    pub i_error: Fixed,
    pub p_controller: PController,
}

impl PIController {
    /// The sum of the errors after a tick: it takes in the error unless the
    /// output is saturated.
    pub open spec fn integrated(&self, error: Fixed, saturated: bool) -> Fixed {
        if saturated {
            self.i_error
        } else {
            self.i_error.plus(error)
        }
    }

    /// The output of a tick: the proportional part plus the integral gain
    /// times the sum of the errors.
    pub open spec fn output(&self, error: Fixed, saturated: bool) -> Fixed {
        self.p_controller.update(error).plus(self.k_i.times(self.integrated(error, saturated)))
    }

    pub fn new(k_i: Fixed, k_p: Fixed) -> (r: PIController)
        ensures
            r == (PIController { k_i, i_error: Fixed::zero(), p_controller: PController { k_p } }),
    {
        PIController { k_i, i_error: Fixed::zero(), p_controller: PController::new(k_p) }
    }

    /// Takes in the error of one tick and gives the output. While the
    /// output is saturated the sum of the errors is frozen.
    pub fn update(&mut self, error: Fixed, saturated: bool) -> (r: Fixed)
        ensures
            r == old(self).output(error, saturated),
            final(self).i_error == old(self).integrated(error, saturated),
            final(self).k_i == old(self).k_i,
            final(self).p_controller == old(self).p_controller,
    {
        if !saturated {
            self.i_error = self.i_error.plus(error);
        }
        self.p_controller.update(error).plus(self.k_i.times(self.i_error))
    }

    /// The controller with the given gains and the same sum of errors.
    pub open spec fn with_gains(&self, k_i: Fixed, k_p: Fixed) -> PIController {
        PIController { k_i, i_error: self.i_error, p_controller: PController { k_p } }
    }
}

/// The two current controllers of the rotating frame.
#[derive(Clone, Copy, Debug, PartialEq, Eq, Structural)]
pub struct DQCurrentController {
    pub d_controller: PIController,
    pub q_controller: PIController,
}

impl DQCurrentController {
    pub fn new(config: &Config) -> (r: DQCurrentController)
        ensures
            r.d_controller == (PIController {
                k_i: config.current_controller_k_i,
                i_error: Fixed::zero(),
                p_controller: PController { k_p: config.current_controller_k_p },
            }),
            r.q_controller == r.d_controller,
    {
        let k_p = config.current_controller_k_p;
        let k_i = config.current_controller_k_i;
        DQCurrentController {
            d_controller: PIController::new(k_i, k_p),
            q_controller: PIController::new(k_i, k_p),
        }
    }

    /// The error that an axis controller is given: the request less the
    /// measured current.
    pub open spec fn axis_error(input: Fixed, request: Fixed) -> Fixed {
        input.minus(request).neg()
    }

    /// Takes in the measured and the requested currents and gives the
    /// voltages to apply. The gains are read from `config`. Each axis has
    /// its own saturation flag, which freezes the sum of the errors of that
    /// axis alone.
    pub fn update(
        &mut self,
        current_inputs: &DQCurrents,
        current_requests: &DQCurrents,
        d_saturated: bool,
        q_saturated: bool,
        config: &Config,
    ) -> (r: DQVoltages)
        ensures
            ({
                let k_i = config.current_controller_k_i;
                let k_p = config.current_controller_k_p;
                let d = old(self).d_controller.with_gains(k_i, k_p);
                let q = old(self).q_controller.with_gains(k_i, k_p);
                let d_error = Self::axis_error(current_inputs.d, current_requests.d);
                let q_error = Self::axis_error(current_inputs.q, current_requests.q);
                &&& r.d == d.output(d_error, d_saturated).neg()
                &&& r.q == q.output(q_error, q_saturated).neg()
                &&& final(self).d_controller == (PIController {
                    i_error: d.integrated(d_error, d_saturated),
                    ..d
                })
                &&& final(self).q_controller == (PIController {
                    i_error: q.integrated(q_error, q_saturated),
                    ..q
                })
            }),
    {
        self.d_controller.k_i = config.current_controller_k_i;
        self.q_controller.k_i = config.current_controller_k_i;
        self.d_controller.p_controller.k_p = config.current_controller_k_p;
        self.q_controller.p_controller.k_p = config.current_controller_k_p;
        let d_error = current_inputs.d.minus(current_requests.d).neg();
        let q_error = current_inputs.q.minus(current_requests.q).neg();
        let d = self.d_controller.update(d_error, d_saturated).neg();
        let q = self.q_controller.update(q_error, q_saturated).neg();
        DQVoltages { d, q }
    }
}

} // verus!
