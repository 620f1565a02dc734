//! A second-order recursive filter in direct form 1.

use vstd::prelude::*;
use crate::fixed::Fixed;

verus! {

/// The coefficients of a second-order section, normalized so that the
/// weight of the output itself is one.
#[derive(Clone, Copy, Debug, PartialEq, Eq, Structural)]
pub struct Coefficients {
    pub a1: Fixed,
    pub a2: Fixed,
    pub b0: Fixed,
    pub b1: Fixed,
    pub b2: Fixed,
}

/// A second-order section with its two last inputs and outputs.
#[derive(Clone, Copy, Debug, PartialEq, Eq, Structural)]
pub struct DirectForm1 {
    pub y1: Fixed,
    pub y2: Fixed,
    pub x1: Fixed,
    pub x2: Fixed,
    pub coeffs: Coefficients,
}

impl DirectForm1 {
    /// A section at rest.
    pub open spec fn spec_new(coeffs: Coefficients) -> DirectForm1 {
        DirectForm1 {
            y1: Fixed::zero(),
            y2: Fixed::zero(),
            x1: Fixed::zero(),
            x2: Fixed::zero(),
            coeffs,
        }
    }

    /// The output for `input`: the weighted inputs less the weighted past
    /// outputs.
    pub open spec fn output(&self, input: Fixed) -> Fixed {
        self.coeffs.b0.times(input).plus(self.coeffs.b1.times(self.x1)).plus(
            self.coeffs.b2.times(self.x2),
        ).minus(self.coeffs.a1.times(self.y1)).minus(self.coeffs.a2.times(self.y2))
    }

    /// The section after it has taken in `input`.
    pub open spec fn advanced(&self, input: Fixed) -> DirectForm1 {
        DirectForm1 {
            y1: self.output(input),
            y2: self.y1,
            x1: input,
            x2: self.x1,
            coeffs: self.coeffs,
        }
    }

    #[verifier::when_used_as_spec(spec_new)]
    pub fn new(coeffs: Coefficients) -> (r: DirectForm1)
        ensures
            r == DirectForm1::spec_new(coeffs),
    {
        DirectForm1 {
            y1: Fixed::zero(),
            y2: Fixed::zero(),
            x1: Fixed::zero(),
            x2: Fixed::zero(),
            coeffs,
        }
    }

    /// Takes in one input and gives the filtered output.
    pub fn run(&mut self, input: Fixed) -> (r: Fixed)
        ensures
            r == old(self).output(input),
            *final(self) == old(self).advanced(input),
    {
        let out = self.coeffs.b0.times(input).plus(self.coeffs.b1.times(self.x1)).plus(
            self.coeffs.b2.times(self.x2),
        ).minus(self.coeffs.a1.times(self.y1)).minus(self.coeffs.a2.times(self.y2));
        self.x2 = self.x1;
        self.x1 = input;
        self.y2 = self.y1;
        self.y1 = out;
        out
    }
}

} // verus!
