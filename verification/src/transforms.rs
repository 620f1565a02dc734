//! The frames of reference of field-oriented control, and the transforms
//! between them.

use vstd::prelude::*;
use crate::fixed::Fixed;
use crate::state_machine::{ControllerUpdate, VoltageControllerOutput};
use crate::svm::ONE_BY_SQRT3_RAW;

verus! {

/// The raw value of the voltage that a duty of one stands for, in volts.
pub const VOLTAGE_SCALE_RAW: i64 = 64424509440;

/// The sine and the cosine of an angle, as the caller has computed them.
#[derive(Clone, Copy, Debug, PartialEq, Eq, Structural)]
pub struct Rotation {
    pub sin: Fixed,
    pub cos: Fixed,
}

/// Currents in the two-axis stationary frame, in amperes.
#[derive(Clone, Copy, Debug, PartialEq, Eq, Structural)]
pub struct AlphaBetaCurrents {
    pub alpha: Fixed,
    pub beta: Fixed,
}

/// The three phase currents, in amperes.
#[derive(Clone, Copy, Debug, PartialEq, Eq, Structural)]
pub struct PhaseCurrents {
    pub u: Fixed,
    pub v: Fixed,
    pub w: Fixed,
}

/// Currents in the rotating frame, in amperes.
#[derive(Clone, Copy, Debug, PartialEq, Eq, Structural)]
pub struct DQCurrents {
    pub d: Fixed,
    pub q: Fixed,
}

/// Voltages in the rotating frame, in volts.
#[derive(Clone, Copy, Debug, PartialEq, Eq, Structural)]
pub struct DQVoltages {
    pub d: Fixed,
    pub q: Fixed,
}

/// Voltages in the two-axis stationary frame, in volts.
#[derive(Clone, Copy, Debug, PartialEq, Eq, Structural)]
pub struct AlphaBetaVoltages {
    pub alpha: Fixed,
    pub beta: Fixed,
}

impl PhaseCurrents {
    /// The currents in the stationary frame: the first phase along alpha,
    /// the difference of the other two, over the root of three, along beta.
    pub open spec fn spec_clarke_transform(&self) -> AlphaBetaCurrents {
        AlphaBetaCurrents {
            alpha: self.u,
            beta: Fixed { raw: ONE_BY_SQRT3_RAW }.times(self.v.minus(self.w)),
        }
    }

    /// The sum of the three currents.
    pub open spec fn spec_sum_currents(&self) -> Fixed {
        self.u.plus(self.v).plus(self.w)
    }

    /// The largest of the three currents.
    pub open spec fn spec_max(&self) -> Fixed {
        self.u.max(self.v).max(self.w)
    }

    /// The smallest of the three currents.
    pub open spec fn spec_min(&self) -> Fixed {
        self.u.min(self.v).min(self.w)
    }

    /// The largest magnitude among the three currents.
    pub open spec fn spec_max_magnitude(&self) -> Fixed {
        self.spec_max().max(self.spec_min().neg())
    }

    #[verifier::when_used_as_spec(spec_clarke_transform)]
    pub fn clarke_transform(&self) -> (r: AlphaBetaCurrents)
        ensures
            r == self.spec_clarke_transform(),
    {
        AlphaBetaCurrents {
            alpha: self.u,
            beta: Fixed::from_raw(ONE_BY_SQRT3_RAW).times(self.v.minus(self.w)),
        }
    }

    /// The currents as they are.
    pub fn normalize(&mut self) -> (r: PhaseCurrents)
        ensures
            r == *old(self),
            *final(self) == *old(self),
    {
        PhaseCurrents { u: self.u, v: self.v, w: self.w }
    }

    #[verifier::when_used_as_spec(spec_sum_currents)]
    pub fn sum_currents(&self) -> (r: Fixed)
        ensures
            r == self.spec_sum_currents(),
    {
        self.u.plus(self.v).plus(self.w)
    }

    fn max(&self) -> (r: Fixed)
        ensures
            r == self.spec_max(),
    {
        self.u.max(self.v).max(self.w)
    }

    fn min(&self) -> (r: Fixed)
        ensures
            r == self.spec_min(),
    {
        self.u.min(self.v).min(self.w)
    }

    #[verifier::when_used_as_spec(spec_max_magnitude)]
    pub fn max_magnitude(&self) -> (r: Fixed)
        ensures
            r == self.spec_max_magnitude(),
    {
        self.max().max(self.min().neg())
    }
}

impl DQCurrents {
    /// No current on either axis.
    pub open spec fn spec_default() -> DQCurrents {
        DQCurrents { d: Fixed::zero(), q: Fixed::zero() }
    }
}

impl Default for DQCurrents {
    fn default() -> (r: DQCurrents)
        ensures
            r == DQCurrents::spec_default(),
    {
        DQCurrents { d: Fixed::zero(), q: Fixed::zero() }
    }
}

impl AlphaBetaCurrents {
    /// The currents in the frame that is turned by the angle of `rotation`.
    pub open spec fn spec_park_transform(&self, rotation: Rotation) -> DQCurrents {
        DQCurrents {
            d: self.beta.times(rotation.cos).plus(self.alpha.times(rotation.sin)),
            q: self.alpha.times(rotation.cos).minus(self.beta.times(rotation.sin)),
        }
    }

    #[verifier::when_used_as_spec(spec_park_transform)]
    pub fn park_transform(&self, rotation: Rotation) -> (r: DQCurrents)
        ensures
            r == self.spec_park_transform(rotation),
    {
        DQCurrents {
            d: self.beta.times(rotation.cos).plus(self.alpha.times(rotation.sin)),
            q: self.alpha.times(rotation.cos).minus(self.beta.times(rotation.sin)),
        }
    }
}

impl AlphaBetaVoltages {
    /// The voltages as fractions of the voltage scale, with the drive
    /// enabled.
    pub open spec fn spec_to_voltage_controller_output(
        &self,
        update: &ControllerUpdate,
    ) -> VoltageControllerOutput {
        VoltageControllerOutput {
            driver_enable: true,
            alpha: self.alpha.over(Fixed { raw: VOLTAGE_SCALE_RAW }),
            beta: self.beta.over(Fixed { raw: VOLTAGE_SCALE_RAW }),
        }
    }

    #[verifier::when_used_as_spec(spec_to_voltage_controller_output)]
    pub fn to_voltage_controller_output(&self, update: &ControllerUpdate) -> (r:
        VoltageControllerOutput)
        ensures
            r == self.spec_to_voltage_controller_output(update),
    {
        let scale = Fixed::from_raw(VOLTAGE_SCALE_RAW);
        VoltageControllerOutput {
            driver_enable: true,
            alpha: self.alpha.over(scale),
            beta: self.beta.over(scale),
        }
    }
}

impl DQVoltages {
    /// The voltages in the stationary frame, the rotating frame being
    /// turned by the angle of `rotation`.
    pub open spec fn spec_inv_park_transform(&self, rotation: Rotation) -> AlphaBetaVoltages {
        AlphaBetaVoltages {
            alpha: self.q.times(rotation.cos).plus(self.d.times(rotation.sin)),
            beta: self.d.times(rotation.cos).minus(self.q.times(rotation.sin)),
        }
    }

    #[verifier::when_used_as_spec(spec_inv_park_transform)]
    pub fn inv_park_transform(&self, rotation: Rotation) -> (r: AlphaBetaVoltages)
        ensures
            r == self.spec_inv_park_transform(rotation),
    {
        AlphaBetaVoltages {
            alpha: self.q.times(rotation.cos).plus(self.d.times(rotation.sin)),
            beta: self.d.times(rotation.cos).minus(self.q.times(rotation.sin)),
        }
    }
}

/// With no turn at all, both transforms leave the two axes as they are:
/// alpha along q and beta along d.
pub proof fn lemma_transforms_at_zero_angle(currents: AlphaBetaCurrents, voltages: DQVoltages)
    ensures
        currents.park_transform(Rotation { sin: Fixed::zero(), cos: Fixed::one() }) == (DQCurrents {
            d: currents.beta,
            q: currents.alpha,
        }),
        voltages.inv_park_transform(Rotation { sin: Fixed::zero(), cos: Fixed::one() }) == (
        AlphaBetaVoltages { alpha: voltages.q, beta: voltages.d }),
{
    let one = Fixed::one();
    let zero = Fixed::zero();
    assert forall|x: Fixed| #[trigger] x.times(one) == x && #[trigger] x.times(zero) == zero by {
        assert(x.raw * 4294967296 / 4294967296 == x.raw);
        assert(x.raw * 0 == 0);
    }
}

} // verus!
