//! The position sensor: eight raw channels in, a continuous position and a
//! filtered velocity out.
//!
//! While the drive calibrates, the channels only feed their statistics.
//! Afterwards each reading is normalized and compensated for cross-talk,
//! the caller takes the arctangents of the four channel pairs, and the
//! first angle is unwrapped, filtered and differenced.

use vstd::prelude::*;
use crate::config::Config;
use crate::filter::{Coefficients, DirectForm1};
use crate::fixed::Fixed;
use crate::normalizer::{is_normalizer_of, taken_in, Normalizer, NormalizerBuilder};
use crate::unwrap::{
    in_angle_range,
    lemma_unwrap_of_principal,
    same_direction,
    unwrapped,
    within_half_turn,
    Unwrapper,
    PI_RAW,
};

verus! {

/// The rate of the control loop, in ticks per second.
pub const TICK_RATE: i32 = 8000;

/// What the sensor says of the mover on one tick.
#[derive(Clone, Copy, Debug, PartialEq, Eq, Structural)]
pub struct EncoderOutput {
    pub position: Fixed,
    pub filtered_position: Fixed,
    pub velocity: Fixed,
}

impl EncoderOutput {
    /// The output at rest at the origin.
    pub open spec fn spec_default() -> EncoderOutput {
        EncoderOutput {
            position: Fixed::zero(),
            filtered_position: Fixed::zero(),
            velocity: Fixed::zero(),
        }
    }

    /// The output with every quantity scaled by `factor`.
    pub open spec fn spec_multiply(&self, factor: Fixed) -> EncoderOutput {
        EncoderOutput {
            position: self.position.times(factor),
            filtered_position: self.filtered_position.times(factor),
            velocity: self.velocity.times(factor),
        }
    }

    #[verifier::when_used_as_spec(spec_multiply)]
    pub fn multiply(&self, factor: Fixed) -> (r: EncoderOutput)
        ensures
            r == self.spec_multiply(factor),
    {
        EncoderOutput {
            position: self.position.times(factor),
            filtered_position: self.filtered_position.times(factor),
            velocity: self.velocity.times(factor),
        }
    }
}

impl Default for EncoderOutput {
    fn default() -> (r: EncoderOutput)
        ensures
            r == EncoderOutput::spec_default(),
    {
        EncoderOutput {
            position: Fixed::zero(),
            filtered_position: Fixed::zero(),
            velocity: Fixed::zero(),
        }
    }
}

/// Gathers the statistics of every channel while the drive calibrates.
#[derive(Clone, Copy)]
pub struct EncoderCalibrator {
    normalizers: [NormalizerBuilder; 8],
}

impl EncoderCalibrator {
    /// The samples that channel `i` has taken in.
    pub closed spec fn channel(&self, i: int) -> Seq<Fixed> {
        self.normalizers[i].samples()
    }

    /// Whether every channel has taken in more than two samples.
    pub open spec fn ready(&self) -> bool {
        forall|i: int| 0 <= i < 8 ==> (#[trigger] self.channel(i)).len() > 2
    }

    /// A calibrator that has seen nothing.
    pub fn new() -> (r: EncoderCalibrator)
        ensures
            forall|i: int| 0 <= i < 8 ==> #[trigger] r.channel(i) == Seq::<Fixed>::empty(),
    {
        let b = NormalizerBuilder::new();
        EncoderCalibrator { normalizers: [b, b, b, b, b, b, b, b] }
    }

    /// Gives each channel its reading.
    pub fn update(&mut self, encoder_values: [Fixed; 8])
        ensures
            forall|i: int|
                0 <= i < 8 ==> #[trigger] final(self).channel(i) == taken_in(
                    old(self).channel(i),
                    encoder_values[i],
                ),
    {
        let mut i: usize = 0;
        while i < 8
            invariant
                i <= 8,
                forall|j: int|
                    0 <= j < i ==> #[trigger] self.channel(j) == taken_in(
                        old(self).channel(j),
                        encoder_values[j],
                    ),
                forall|j: int| i <= j < 8 ==> #[trigger] self.channel(j) == old(self).channel(j),
            decreases 8 - i,
        {
            let ghost start = *self;
            let mut b = self.normalizers[i];
            b.update(encoder_values[i]);
            self.normalizers[i] = b;
            assert(self.normalizers@ == start.normalizers@.update(i as int, b));
            assert forall|j: int| 0 <= j < 8 implies #[trigger] self.channel(j) == (if j == i {
                taken_in(start.channel(j), encoder_values[j])
            } else {
                start.channel(j)
            }) by {
                assert(self.normalizers[j] == if j == i {
                    b
                } else {
                    start.normalizers[j]
                });
            }
            i += 1;
        }
    }

    /// The statistics of every channel, once each has more than two
    /// samples.
    pub fn get_normalizers(&self) -> (r: Option<[Normalizer; 8]>)
        ensures
            r is Some <==> self.ready(),
            r matches Some(ns) ==> forall|i: int|
                0 <= i < 8 ==> is_normalizer_of(Some(#[trigger] ns[i]), self.channel(i)),
    {
        let mut normalizers = [Normalizer::new(); 8];
        let mut i: usize = 0;
        while i < 8
            invariant
                i <= 8,
                forall|j: int| 0 <= j < i ==> (#[trigger] self.channel(j)).len() > 2,
                forall|j: int|
                    0 <= j < i ==> is_normalizer_of(
                        Some(#[trigger] normalizers[j]),
                        self.channel(j),
                    ),
            decreases 8 - i,
        {
            match self.normalizers[i].get_normalizer() {
                Some(n) => {
                    normalizers[i] = n;
                },
                None => {
                    assert(self.channel(i as int).len() <= 2);
                    return None;
                },
            }
            i += 1;
        }
        Some(normalizers)
    }

    /// The running sensor that the statistics give, with a velocity filter
    /// of the given coefficients, once every channel has more than two
    /// samples.
    pub fn get_encoder(&self, coeffs: Coefficients) -> (r: Option<Encoder>)
        ensures
            r is Some <==> self.ready(),
            r matches Some(e) ==> {
                &&& forall|i: int|
                    0 <= i < 8 ==> is_normalizer_of(
                        Some(#[trigger] e.normalizers[i]),
                        self.channel(i),
                    )
                &&& e.at_rest(coeffs)
            },
    {
        match self.get_normalizers() {
            Some(normalizers) => {
                let zero = Fixed::zero();
                Some(
                    Encoder {
                        normalizers,
                        unwraps: [Unwrapper::new(); 4],
                        normalized: [zero; 8],
                        compensated: [zero; 8],
                        unwrapped: [zero; 4],
                        position: zero,
                        filtered_position: zero,
                        velocity: zero,
                        last_position: None,
                        vel_filter: DirectForm1::new(coeffs),
                    },
                )
            },
            None => None,
        }
    }
}

/// The weighted sum of the first `upto` channels: each normalized value
/// plus its offset, times its weight.
pub open spec fn weighted_sum(
    weights: Seq<Fixed>,
    values: Seq<Fixed>,
    bias: Seq<Fixed>,
    upto: int,
) -> Fixed
    decreases upto,
{
    if upto <= 0 {
        Fixed::zero()
    } else {
        weighted_sum(weights, values, bias, upto - 1).plus(
            values[upto - 1].plus(bias[upto - 1]).times(weights[upto - 1]),
        )
    }
}

/// The two arguments, opposite side first, of the arctangent that gives
/// angle `k` from the compensated channels.
pub open spec fn angle_arguments(compensated: Seq<Fixed>, k: int) -> (Fixed, Fixed) {
    if k == 0 {
        (compensated[0].minus(compensated[1]), compensated[2].minus(compensated[3]))
    } else if k == 1 {
        (compensated[1], compensated[3])
    } else if k == 2 {
        (compensated[4], compensated[5])
    } else {
        (compensated[6], compensated[7])
    }
}

/// The running sensor.
#[derive(Clone, Copy)]
pub struct Encoder {
    pub normalizers: [Normalizer; 8],
    pub unwraps: [Unwrapper; 4],
    pub normalized: [Fixed; 8],
    pub compensated: [Fixed; 8],
    pub unwrapped: [Fixed; 4],
    pub position: Fixed,
    pub filtered_position: Fixed,
    pub velocity: Fixed,
    pub last_position: Option<Fixed>,
    pub vel_filter: DirectForm1,
}

impl Encoder {
    /// Whether the sensor has taken in no reading yet: all angles and
    /// outputs are zero and the filter is at rest.
    pub open spec fn at_rest(&self, coeffs: Coefficients) -> bool {
        &&& forall|k: int| 0 <= k < 4 ==> (#[trigger] self.unwraps[k]).previous() == Fixed::zero()
        &&& forall|i: int| 0 <= i < 8 ==> #[trigger] self.normalized[i] == Fixed::zero()
        &&& forall|i: int| 0 <= i < 8 ==> #[trigger] self.compensated[i] == Fixed::zero()
        &&& forall|k: int| 0 <= k < 4 ==> #[trigger] self.unwrapped[k] == Fixed::zero()
        &&& self.position == Fixed::zero()
        &&& self.filtered_position == Fixed::zero()
        &&& self.velocity == Fixed::zero()
        &&& self.last_position is None
        &&& self.vel_filter == DirectForm1::new(coeffs)
    }

    /// Normalizes the readings, removes the cross-talk between channels,
    /// and gives the arguments of the four arctangents, opposite side
    /// first.
    pub fn compensate(&mut self, encoder_values: [Fixed; 8], config: &Config) -> (r: [(
        Fixed,
        Fixed,
    ); 4])
        ensures
            forall|i: int|
                0 <= i < 8 ==> #[trigger] final(self).normalized[i] == old(self).normalizers[i].normalize(encoder_values[i]),
            forall|j: int|
                0 <= j < 8 ==> #[trigger] final(self).compensated[j] == weighted_sum(
                    config.comp_matrix[j]@,
                    final(self).normalized@,
                    config.comp_bias@,
                    8,
                ),
            forall|k: int|
                0 <= k < 4 ==> #[trigger] r[k] == angle_arguments(final(self).compensated@, k),
            final(self).normalizers == old(self).normalizers,
            final(self).unwraps == old(self).unwraps,
            final(self).unwrapped == old(self).unwrapped,
            final(self).position == old(self).position,
            final(self).filtered_position == old(self).filtered_position,
            final(self).velocity == old(self).velocity,
            final(self).last_position == old(self).last_position,
            final(self).vel_filter == old(self).vel_filter,
    {
        let mut normalized = [Fixed::zero(); 8];
        let mut i: usize = 0;
        while i < 8
            invariant
                i <= 8,
                *self == *old(self),
                forall|j: int|
                    0 <= j < i ==> #[trigger] normalized[j] == self.normalizers[j].normalize(
                        encoder_values[j],
                    ),
            decreases 8 - i,
        {
            normalized[i] = self.normalizers[i].normalize(encoder_values[i]);
            i += 1;
        }
        let mut compensated = [Fixed::zero(); 8];
        let mut j: usize = 0;
        while j < 8
            invariant
                j <= 8,
                forall|m: int|
                    0 <= m < j ==> #[trigger] compensated[m] == weighted_sum(
                        config.comp_matrix[m]@,
                        normalized@,
                        config.comp_bias@,
                        8,
                    ),
            decreases 8 - j,
        {
            let mut sum = Fixed::zero();
            let mut i: usize = 0;
            while i < 8
                invariant
                    i <= 8,
                    j < 8,
                    sum == weighted_sum(
                        config.comp_matrix[j as int]@,
                        normalized@,
                        config.comp_bias@,
                        i as int,
                    ),
                decreases 8 - i,
            {
                sum = sum.plus(normalized[i].plus(config.comp_bias[i]).times(config.comp_matrix[j][i]));
                i += 1;
            }
            compensated[j] = sum;
            j += 1;
        }
        self.normalized = normalized;
        self.compensated = compensated;
        [
            (compensated[0].minus(compensated[1]), compensated[2].minus(compensated[3])),
            (compensated[1], compensated[3]),
            (compensated[4], compensated[5]),
            (compensated[6], compensated[7]),
        ]
    }

    /// The velocity that follows a filtered position: its change since the
    /// last tick times the tick rate, or zero on the first tick.
    pub open spec fn velocity_after(last: Option<Fixed>, filtered: Fixed) -> Fixed {
        match last {
            Some(l) => filtered.minus(l).times(Fixed::from_int(TICK_RATE)),
            None => Fixed::zero(),
        }
    }

    /// Takes in the four angles of this tick. Each is unwrapped; the first
    /// is the position, which is filtered and differenced for the velocity.
    pub fn calculate(&mut self, angles: [Fixed; 4]) -> (r: EncoderOutput)
        ensures
            forall|k: int|
                0 <= k < 4 ==> #[trigger] final(self).unwrapped[k] == unwrapped(
                    old(self).unwraps[k].previous(),
                    angles[k],
                ),
            forall|k: int|
                0 <= k < 4 ==> (#[trigger] final(self).unwraps[k]).previous() == final(self).unwrapped[k],
            r.position == final(self).unwrapped[0],
            r.filtered_position == old(self).vel_filter.output(r.position),
            r.velocity == Self::velocity_after(old(self).last_position, r.filtered_position),
            final(self).position == r.position,
            final(self).filtered_position == r.filtered_position,
            final(self).velocity == r.velocity,
            final(self).last_position == Some(r.filtered_position),
            final(self).vel_filter == old(self).vel_filter.advanced(r.position),
            final(self).normalizers == old(self).normalizers,
            final(self).normalized == old(self).normalized,
            final(self).compensated == old(self).compensated,
    {
        let mut u0 = self.unwraps[0];
        let mut u1 = self.unwraps[1];
        let mut u2 = self.unwraps[2];
        let mut u3 = self.unwraps[3];
        let unwrap1 = u0.unwrap(angles[0]);
        let unwrap2 = u1.unwrap(angles[1]);
        let unwrap3 = u2.unwrap(angles[2]);
        let unwrap4 = u3.unwrap(angles[3]);
        self.unwraps = [u0, u1, u2, u3];
        self.unwrapped = [unwrap1, unwrap2, unwrap3, unwrap4];
        self.position = unwrap1;
        self.filtered_position = self.vel_filter.run(self.position);
        self.velocity = match self.last_position {
            Some(last_pos) => self.filtered_position.minus(last_pos).times(Fixed::from_int(TICK_RATE)),
            None => Fixed::zero(),
        };
        self.last_position = Some(self.filtered_position);
        EncoderOutput {
            position: unwrap1,
            filtered_position: self.filtered_position,
            velocity: self.velocity,
        }
    }
}

/// The sensor in either of its two phases.
#[derive(Clone, Copy)]
pub enum EncoderState {
    Calibrating(EncoderCalibrator),
    Running(Encoder),
}

impl EncoderState {
    /// A sensor that starts to calibrate.
    pub fn new() -> (r: EncoderState)
        ensures
            r matches EncoderState::Calibrating(c) && forall|i: int|
                0 <= i < 8 ==> #[trigger] c.channel(i) == Seq::<Fixed>::empty(),
    {
        EncoderState::Calibrating(EncoderCalibrator::new())
    }

    /// Takes in the readings of one tick. A calibrating sensor adds them to
    /// its statistics and gives nothing; a running one compensates them and
    /// gives the arguments of the four arctangents.
    pub fn update(&mut self, encoder_values: [Fixed; 8], config: &Config) -> (r: Option<
        [(Fixed, Fixed); 4],
    >)
        ensures
            match *old(self) {
                EncoderState::Calibrating(before) => {
                    &&& r is None
                    &&& *final(self) matches EncoderState::Calibrating(after)
                    &&& forall|i: int|
                        0 <= i < 8 ==> #[trigger] after.channel(i) == taken_in(
                            before.channel(i),
                            encoder_values[i],
                        )
                },
                EncoderState::Running(before) => {
                    &&& *final(self) matches EncoderState::Running(after)
                    &&& r matches Some(args)
                    &&& forall|k: int|
                        0 <= k < 4 ==> #[trigger] args[k] == angle_arguments(after.compensated@, k)
                    &&& forall|j: int|
                        0 <= j < 8 ==> #[trigger] after.compensated[j] == weighted_sum(
                            config.comp_matrix[j]@,
                            after.normalized@,
                            config.comp_bias@,
                            8,
                        )
                    &&& forall|i: int|
                        0 <= i < 8 ==> #[trigger] after.normalized[i]
                            == before.normalizers[i].normalize(encoder_values[i])
                    &&& after.normalizers == before.normalizers
                    &&& after.unwraps == before.unwraps
                    &&& after.last_position == before.last_position
                    &&& after.vel_filter == before.vel_filter
                },
            },
    {
        match self {
            EncoderState::Calibrating(calibrator) => {
                calibrator.update(encoder_values);
                None
            },
            EncoderState::Running(encoder) => Some(encoder.compensate(encoder_values, config)),
        }
    }

    /// Takes in the four angles of this tick. A running sensor gives its
    /// output; a calibrating one gives nothing and stays as it is.
    pub fn resolve(&mut self, angles: [Fixed; 4]) -> (r: Option<EncoderOutput>)
        ensures
            match *old(self) {
                EncoderState::Calibrating(before) => r is None && *final(self) == *old(self),
                EncoderState::Running(before) => {
                    &&& *final(self) matches EncoderState::Running(after)
                    &&& r matches Some(out)
                    &&& out.position == unwrapped(before.unwraps[0].previous(), angles[0])
                    &&& out.filtered_position == before.vel_filter.output(out.position)
                    &&& out.velocity == Encoder::velocity_after(
                        before.last_position,
                        out.filtered_position,
                    )
                    &&& after.last_position == Some(out.filtered_position)
                    &&& after.vel_filter == before.vel_filter.advanced(out.position)
                    &&& forall|k: int|
                        0 <= k < 4 ==> (#[trigger] after.unwraps[k]).previous() == unwrapped(
                            before.unwraps[k].previous(),
                            angles[k],
                        )
                    &&& after.normalizers == before.normalizers
                },
            },
    {
        match self {
            EncoderState::Calibrating(_) => None,
            EncoderState::Running(encoder) => Some(encoder.calculate(angles)),
        }
    }

    /// Ends the calibration: a calibrating sensor whose channels have each
    /// taken in more than two samples starts to run, at rest, with a
    /// velocity filter of the given coefficients. Any other sensor stays as
    /// it is.
    pub fn calibration_done(&mut self, coeffs: Coefficients)
        ensures
            match *old(self) {
                EncoderState::Calibrating(c) => if c.ready() {
                    &&& *final(self) matches EncoderState::Running(e)
                    &&& e.at_rest(coeffs)
                    &&& forall|i: int|
                        0 <= i < 8 ==> is_normalizer_of(
                            Some(#[trigger] e.normalizers[i]),
                            c.channel(i),
                        )
                } else {
                    *final(self) == *old(self)
                },
                EncoderState::Running(_) => *final(self) == *old(self),
            },
    {
        let next = match self {
            EncoderState::Calibrating(calibrator) => calibrator.get_encoder(coeffs),
            EncoderState::Running(_) => None,
        };
        match next {
            Some(encoder) => {
                *self = EncoderState::Running(encoder);
            },
            None => {},
        }
    }
}

/// The position is continuous across wraps: as long as the true angle
/// moves by less than half a turn per tick, and the first angle handed in
/// is its value between minus half a turn and half a turn, the position
/// given out is the true angle, with no jump where the reading wraps.
pub proof fn lemma_position_is_continuous(
    before: Encoder,
    angles: [Fixed; 4],
    truth: Fixed,
    position: Fixed,
)
    requires
        in_angle_range(before.unwraps[0].previous()),
        in_angle_range(truth),
        within_half_turn(truth, before.unwraps[0].previous()),
        same_direction(angles[0], truth),
        -PI_RAW <= angles[0].raw <= PI_RAW,
        position == unwrapped(before.unwraps[0].previous(), angles[0]),
    ensures
        position == truth,
{
    lemma_unwrap_of_principal(before.unwraps[0].previous(), truth, angles[0]);
}

} // verus!
