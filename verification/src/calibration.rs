//! The calibration that finds the offset between the commanded and the
//! measured position with no reference to start from.
//!
//! The motor is driven open-loop to the end of the calibration stroke and
//! back. On the way back and on the second way out, the error between the
//! commanded position and the measured one is recorded, one direction per
//! accumulator, so that backlash cancels in the mean of the two. After
//! that the motor keeps moving to and fro to hold its place.

use vstd::prelude::*;
use crate::config::Config;
use crate::fixed::Fixed;
use crate::normalizer::{is_normalizer_of, mean_of, taken_in, Normalizer, NormalizerBuilder};
use crate::open_loop_voltage::{open_loop_output, OpenLoopVoltageController};
use crate::state_machine::{ControllerUpdate, VoltageControllerOutput};
use crate::transforms::Rotation;
use crate::unwrap::TAU_RAW;

verus! {

/// The number of ticks the drive waits before it moves.
pub const WAIT_TICKS: u32 = 1000;

/// The raw value of the open-loop step per tick, in radians.
pub const STEP_RAW: i64 = 2147484;

/// The raw value of the number two.
pub const TWO_RAW: i64 = 8589934592;

/// Where the calibration stands.
#[derive(Clone, Copy, Debug, PartialEq, Eq, Structural)]
pub enum EncoderCalibrationState {
    /// Waiting, with the number of ticks waited.
    Start(u32),
    /// Moving out to the end of the stroke.
    ToEndstop,
    /// Moving back, recording into the first accumulator.
    Calib1,
    /// Moving out, recording into the second accumulator.
    Calib2,
    /// Calibrated, moving back.
    Done1,
    /// Calibrated, moving out.
    Done2,
}

/// The offset between the measured and the commanded position, in
/// millimetres.
#[derive(Clone, Copy, Debug, PartialEq, Eq, Structural)]
pub struct EncoderCalibration {
    pub offset: Fixed,
}

impl EncoderCalibration {
    /// The electrical angle at the measured position `encoder_value`.
    pub open spec fn spec_to_angle(&self, encoder_value: Fixed, config: &Config) -> Fixed {
        encoder_value.minus(self.offset).over(config.motor_len_per_cycle).times(
            Fixed { raw: TAU_RAW },
        )
    }

    #[verifier::when_used_as_spec(spec_to_angle)]
    pub fn to_angle(&self, encoder_value: Fixed, config: &Config) -> (r: Fixed)
        ensures
            r == self.spec_to_angle(encoder_value, config),
    {
        encoder_value.minus(self.offset).over(config.motor_len_per_cycle).times(
            Fixed::from_raw(TAU_RAW),
        )
    }
}

/// The length of the calibration stroke as an electrical angle.
pub open spec fn stroke_angle(config: &Config) -> Fixed {
    config.calibration_length.over(config.motor_len_per_cycle).times(Fixed { raw: TAU_RAW })
}

/// The direction in which a state moves the motor: out is one, back is
/// minus one, and the waiting state does not move.
pub open spec fn direction(state: EncoderCalibrationState) -> int {
    match state {
        EncoderCalibrationState::Start(_) => 0,
        EncoderCalibrationState::ToEndstop => 1,
        EncoderCalibrationState::Calib1 => -1,
        EncoderCalibrationState::Calib2 => 1,
        EncoderCalibrationState::Done1 => -1,
        EncoderCalibrationState::Done2 => 1,
    }
}

/// The open-loop step of a tick in a state.
pub open spec fn step(state: EncoderCalibrationState) -> Fixed {
    Fixed { raw: (STEP_RAW * direction(state)) as i64 }
}

/// Whether the commanded angle `position` has crossed `target` in the
/// direction of `state`.
pub open spec fn crossed(state: EncoderCalibrationState, position: Fixed, target: Fixed) -> bool {
    if direction(state) > 0 {
        position.raw > target.raw
    } else {
        position.raw < target.raw
    }
}

/// The state that follows `state` when the commanded angle is `position`
/// and the target is `target`.
pub open spec fn next_state(
    state: EncoderCalibrationState,
    position: Fixed,
    target: Fixed,
) -> EncoderCalibrationState {
    match state {
        EncoderCalibrationState::Start(wait) => if wait >= WAIT_TICKS {
            EncoderCalibrationState::ToEndstop
        } else {
            EncoderCalibrationState::Start((wait + 1) as u32)
        },
        EncoderCalibrationState::ToEndstop => if crossed(state, position, target) {
            EncoderCalibrationState::Calib1
        } else {
            state
        },
        EncoderCalibrationState::Calib1 => if crossed(state, position, target) {
            EncoderCalibrationState::Calib2
        } else {
            state
        },
        EncoderCalibrationState::Calib2 => if crossed(state, position, target) {
            EncoderCalibrationState::Done1
        } else {
            state
        },
        EncoderCalibrationState::Done1 => if crossed(state, position, target) {
            EncoderCalibrationState::Done2
        } else {
            state
        },
        EncoderCalibrationState::Done2 => if crossed(state, position, target) {
            EncoderCalibrationState::Done1
        } else {
            state
        },
    }
}

/// The target that follows: on a change of state, the end of the stroke
/// for a state that moves out and zero for one that moves back.
pub open spec fn next_target(
    state: EncoderCalibrationState,
    position: Fixed,
    target: Fixed,
    config: &Config,
) -> Fixed {
    let next = next_state(state, position, target);
    if next == state || next is Start {
        target
    } else if direction(next) > 0 {
        stroke_angle(config)
    } else {
        Fixed::zero()
    }
}

/// Drives the calibration.
#[derive(Clone, Copy)]
pub struct EncoderCalibrationController {
    pub state: EncoderCalibrationState,
    /// The angle at which the present state ends, in radians.
    pub position_target: Fixed,
    pub open_loop: OpenLoopVoltageController,
    /// The errors recorded while moving back.
    pub calib1_builder: NormalizerBuilder,
    /// The errors recorded while moving out.
    pub calib2_builder: NormalizerBuilder,
}

impl EncoderCalibrationController {
    /// Whether the state records the error of the sensor, and so needs a
    /// measured position.
    pub open spec fn spec_encoder_ready(&self) -> bool {
        !(self.state is Start) && !(self.state is ToEndstop)
    }

    /// Whether the calibration has run its course.
    pub open spec fn spec_is_done(&self) -> bool {
        self.state is Done1 || self.state is Done2
    }

    /// The error between the measured and the commanded position, in
    /// millimetres.
    pub open spec fn error_of(&self, update: &ControllerUpdate, config: &Config) -> Fixed
        recommends
            update.position is Some,
    {
        update.position->0.position.minus(self.open_loop.get_position(config))
    }

    /// The offset that the errors of the two directions give: the mean of
    /// their means.
    pub open spec fn offset_of(first: Seq<Fixed>, second: Seq<Fixed>) -> Fixed {
        mean_of(first).plus(mean_of(second)).over(Fixed { raw: TWO_RAW })
    }

    /// Whether one tick with the measurements `update` takes this
    /// controller to `next`: the state advances when the commanded angle has
    /// crossed the target, the commanded angle moves on by the step of the
    /// state, and the error of the tick goes into the accumulator of a
    /// recording state.
    pub open spec fn steps_to(&self, next: &Self, update: &ControllerUpdate, config: &Config) -> bool {
        &&& next.state == next_state(self.state, self.open_loop.position, self.position_target)
        &&& next.position_target == next_target(
            self.state,
            self.open_loop.position,
            self.position_target,
            config,
        )
        &&& next.open_loop.position == self.open_loop.position.plus(step(self.state))
        &&& next.calib1_builder.samples() == if self.state is Calib1 {
            taken_in(self.calib1_builder.samples(), self.error_of(update, config))
        } else {
            self.calib1_builder.samples()
        }
        &&& next.calib2_builder.samples() == if self.state is Calib2 {
            taken_in(self.calib2_builder.samples(), self.error_of(update, config))
        } else {
            self.calib2_builder.samples()
        }
    }

    /// The voltage request of one tick: that of open-loop commutation at
    /// the angle of `rotation`, with the drive enabled in every state but
    /// `Start`.
    pub open spec fn output(
        &self,
        rotation: Rotation,
        update: &ControllerUpdate,
        config: &Config,
    ) -> VoltageControllerOutput {
        VoltageControllerOutput {
            driver_enable: !(self.state is Start),
            ..open_loop_output(rotation, update, config)
        }
    }

    /// A controller that has yet to wait.
    pub fn new() -> (r: EncoderCalibrationController)
        ensures
            r.state == EncoderCalibrationState::Start(0),
            r.position_target == Fixed::zero(),
            r.open_loop.position == Fixed::zero(),
            r.calib1_builder.samples() == Seq::<Fixed>::empty(),
            r.calib2_builder.samples() == Seq::<Fixed>::empty(),
    {
        EncoderCalibrationController {
            state: EncoderCalibrationState::Start(0),
            position_target: Fixed::zero(),
            open_loop: OpenLoopVoltageController::new(),
            calib1_builder: NormalizerBuilder::new(),
            calib2_builder: NormalizerBuilder::new(),
        }
    }

    #[verifier::when_used_as_spec(spec_encoder_ready)]
    pub fn encoder_ready(&self) -> (r: bool)
        ensures
            r == self.spec_encoder_ready(),
    {
        match self.state {
            EncoderCalibrationState::Calib1
            | EncoderCalibrationState::Calib2
            | EncoderCalibrationState::Done1
            | EncoderCalibrationState::Done2 => true,
            _ => false,
        }
    }

    #[verifier::when_used_as_spec(spec_is_done)]
    pub fn is_done(&self) -> (r: bool)
        ensures
            r == self.spec_is_done(),
    {
        match self.state {
            EncoderCalibrationState::Done1 | EncoderCalibrationState::Done2 => true,
            _ => false,
        }
    }

    /// The statistics of the two directions, once each accumulator has
    /// taken in more than two errors.
    pub fn get_calib_raw(&self) -> (r: Option<[Normalizer; 2]>)
        ensures
            r is Some <==> self.calib1_builder.samples().len() > 2
                && self.calib2_builder.samples().len() > 2,
            r matches Some(pair) ==> is_normalizer_of(Some(pair[0]), self.calib1_builder.samples())
                && is_normalizer_of(Some(pair[1]), self.calib2_builder.samples()),
    {
        let l = self.calib1_builder.get_normalizer();
        let r = self.calib2_builder.get_normalizer();
        match (l, r) {
            (Some(l), Some(r)) => Some([l, r]),
            _ => None,
        }
    }

    /// The calibration, once each accumulator has taken in more than two
    /// errors: the mean of the mean errors of the two directions.
    pub fn get_calib(&self) -> (r: Option<EncoderCalibration>)
        ensures
            r is Some <==> self.calib1_builder.samples().len() > 2
                && self.calib2_builder.samples().len() > 2,
            r matches Some(cal) ==> cal.offset == Self::offset_of(
                self.calib1_builder.samples(),
                self.calib2_builder.samples(),
            ),
    {
        match self.get_calib_raw() {
            Some(pair) => {
                let offset = pair[0].mean.plus(pair[1].mean).over(Fixed::from_raw(TWO_RAW));
                Some(EncoderCalibration { offset })
            },
            None => None,
        }
    }

    /// Runs one tick of the calibration. `rotation` holds the sine and the
    /// cosine of the commanded angle `open_loop.position` as it is before
    /// the call.
    ///
    /// The state advances when the commanded angle has crossed the target.
    /// While the state is `Calib1` or `Calib2` the error of this tick goes
    /// into the accumulator of that state. The voltage is that of open-loop
    /// commutation; the drive is enabled in every state but `Start`.
    pub fn update(&mut self, update: &ControllerUpdate, config: &Config, rotation: Rotation) -> (r:
        VoltageControllerOutput)
        requires
            old(self).state is Calib1 || old(self).state is Calib2 ==> update.position is Some,
        ensures
            old(self).steps_to(final(self), update, config),
            r == old(self).output(rotation, update, config),
    {
        let cal_length = config.calibration_length.over(config.motor_len_per_cycle).times(
            Fixed::from_raw(TAU_RAW),
        );
        let zero = Fixed::zero();
        let position = self.open_loop.position;
        let target = self.position_target;
        let dir: i64;
        match self.state {
            EncoderCalibrationState::Start(wait) => {
                if wait >= WAIT_TICKS {
                    self.state = EncoderCalibrationState::ToEndstop;
                    self.position_target = cal_length;
                } else {
                    self.state = EncoderCalibrationState::Start(wait + 1);
                }
                dir = 0;
            },
            EncoderCalibrationState::ToEndstop => {
                if position.raw > target.raw {
                    self.state = EncoderCalibrationState::Calib1;
                    self.position_target = zero;
                }
                dir = 1;
            },
            EncoderCalibrationState::Calib1 => {
                let error = match update.position {
                    Some(measured) => measured.position.minus(self.open_loop.get_position(config)),
                    None => zero,
                };
                if position.raw < target.raw {
                    self.state = EncoderCalibrationState::Calib2;
                    self.position_target = cal_length;
                }
                dir = -1;
                self.calib1_builder.update(error);
            },
            EncoderCalibrationState::Calib2 => {
                let error = match update.position {
                    Some(measured) => measured.position.minus(self.open_loop.get_position(config)),
                    None => zero,
                };
                if position.raw > target.raw {
                    self.state = EncoderCalibrationState::Done1;
                    self.position_target = zero;
                }
                dir = 1;
                self.calib2_builder.update(error);
            },
            EncoderCalibrationState::Done1 => {
                if position.raw < target.raw {
                    self.state = EncoderCalibrationState::Done2;
                    self.position_target = cal_length;
                }
                dir = -1;
            },
            EncoderCalibrationState::Done2 => {
                if position.raw > target.raw {
                    self.state = EncoderCalibrationState::Done1;
                    self.position_target = zero;
                }
                dir = 1;
            },
        }
        let velocity = Fixed::from_raw(STEP_RAW * dir);
        let mut v_out = self.open_loop.process_velocity(velocity, update, config, rotation);
        if dir == 0 {
            v_out.driver_enable = false;
        }
        v_out
    }
}

/// Errors that are all alike, more than two per direction, calibrate to
/// that very offset, as long as twice the offset can be represented.
pub proof fn lemma_constant_error_calibrates(first: Seq<Fixed>, second: Seq<Fixed>, c: Fixed)
    requires
        first.len() > 2,
        second.len() > 2,
        forall|i: int| 0 <= i < first.len() ==> first[i] == c,
        forall|i: int| 0 <= i < second.len() ==> second[i] == c,
        -0x2000_0000_0000_0000 <= c.raw <= 0x2000_0000_0000_0000,
    ensures
        EncoderCalibrationController::offset_of(first, second) == c,
{
    crate::normalizer::lemma_constant_samples(first, c);
    crate::normalizer::lemma_constant_samples(second, c);
    let twice = c.plus(c);
    assert(twice.raw == 2 * c.raw);
    assert((2 * c.raw) * 4294967296 == c.raw * 8589934592);
    assert(c.raw * 8589934592 / 8589934592 == c.raw);
}

/// Where the calibration stands and where it is headed: its state, the
/// commanded angle, and the angle at which the state ends.
pub struct Course {
    pub state: EncoderCalibrationState,
    pub position: Fixed,
    pub target: Fixed,
}

impl EncoderCalibrationController {
    /// The course that the controller is on.
    pub open spec fn course(&self) -> Course {
        Course {
            state: self.state,
            position: self.open_loop.position,
            target: self.position_target,
        }
    }
}

/// The course after one tick.
pub open spec fn course_after(c: Course, config: &Config) -> Course {
    Course {
        state: next_state(c.state, c.position, c.target),
        position: c.position.plus(step(c.state)),
        target: next_target(c.state, c.position, c.target, config),
    }
}

/// The course after `n` ticks.
pub open spec fn course_after_ticks(c: Course, config: &Config, n: nat) -> Course
    decreases n,
{
    if n == 0 {
        c
    } else {
        course_after(course_after_ticks(c, config, (n - 1) as nat), config)
    }
}

/// A tick of the controller is a tick of its course.
pub proof fn lemma_controller_follows_course(
    before: EncoderCalibrationController,
    after: EncoderCalibrationController,
    update: ControllerUpdate,
    config: Config,
)
    requires
        before.steps_to(&after, &update, &config),
    ensures
        after.course() == course_after(before.course(), &config),
{
}

/// Ticks add up.
pub proof fn lemma_course_ticks_add(c: Course, config: &Config, a: nat, b: nat)
    ensures
        course_after_ticks(c, config, a + b) == course_after_ticks(
            course_after_ticks(c, config, a),
            config,
            b,
        ),
    decreases b,
{
    if b > 0 {
        lemma_course_ticks_add(c, config, a, (b - 1) as nat);
        assert((a + b - 1) as nat == a + ((b - 1) as nat));
    }
}

/// Whether an angle is so far from the ends of the number range that a
/// few steps beyond it do not saturate.
pub open spec fn in_stroke_range(a: Fixed) -> bool {
    -0x1000_0000_0000_0000 <= a.raw <= 0x1000_0000_0000_0000
}

/// The raw angle after `k` steps in the direction of `state`.
pub open spec fn moved(position: Fixed, state: EncoderCalibrationState, k: int) -> int {
    position.raw + k * direction(state) * STEP_RAW
}

/// The state that follows a moving state once its target is crossed.
pub open spec fn following(state: EncoderCalibrationState) -> EncoderCalibrationState {
    match state {
        EncoderCalibrationState::Start(_) => EncoderCalibrationState::ToEndstop,
        EncoderCalibrationState::ToEndstop => EncoderCalibrationState::Calib1,
        EncoderCalibrationState::Calib1 => EncoderCalibrationState::Calib2,
        EncoderCalibrationState::Calib2 => EncoderCalibrationState::Done1,
        EncoderCalibrationState::Done1 => EncoderCalibrationState::Done2,
        EncoderCalibrationState::Done2 => EncoderCalibrationState::Done1,
    }
}

/// The number of ticks that a moving state lasts from `position`: one more
/// than it takes to cross the target.
pub open spec fn ticks_to_cross(c: Course) -> nat {
    let ahead = if direction(c.state) > 0 {
        c.target.raw - c.position.raw
    } else {
        c.position.raw - c.target.raw
    };
    if ahead < 0 {
        1
    } else {
        (ahead / (STEP_RAW as int) + 2) as nat
    }
}

/// While its target is not crossed, a moving state lasts and the angle
/// moves on by one step per tick.
proof fn lemma_course_moves(c: Course, config: &Config, k: nat)
    requires
        !(c.state is Start),
        in_stroke_range(c.position),
        in_stroke_range(c.target),
        k < ticks_to_cross(c),
    ensures
        course_after_ticks(c, config, k) == (Course {
            state: c.state,
            position: Fixed { raw: moved(c.position, c.state, k as int) as i64 },
            target: c.target,
        }),
        -0x2000_0000_0000_0000 <= moved(c.position, c.state, k as int) <= 0x2000_0000_0000_0000,
    decreases k,
{
    let d = direction(c.state);
    assert(d == 1 || d == -1);
    if k > 0 {
        lemma_course_moves(c, config, (k - 1) as nat);
        let before = course_after_ticks(c, config, (k - 1) as nat);
        assert(moved(c.position, c.state, k as int) == moved(c.position, c.state, k - 1) + d
            * STEP_RAW) by (nonlinear_arith)
            requires
                moved(c.position, c.state, k as int) == c.position.raw + k * d * STEP_RAW,
                moved(c.position, c.state, k - 1) == c.position.raw + (k - 1) * d * STEP_RAW,
        ;
        assert(!crossed(before.state, before.position, before.target)) by {
            let ahead = if d > 0 {
                c.target.raw - c.position.raw
            } else {
                c.position.raw - c.target.raw
            };
            assert(ahead >= 0);
            assert(k - 1 <= ahead / (STEP_RAW as int));
            assert((k - 1) * STEP_RAW <= ahead) by (nonlinear_arith)
                requires
                    0 <= k - 1 <= ahead / (STEP_RAW as int),
                    ahead >= 0,
                    STEP_RAW == 2147484,
            ;
            assert((k - 1) * d * STEP_RAW == d * ((k - 1) * STEP_RAW)) by (nonlinear_arith);
        }
    } else {
        assert(moved(c.position, c.state, 0) == c.position.raw) by (nonlinear_arith)
            requires
                moved(c.position, c.state, 0) == c.position.raw + 0 * direction(c.state)
                    * STEP_RAW,
        ;
    }
    let ahead = if d > 0 {
        c.target.raw - c.position.raw
    } else {
        c.position.raw - c.target.raw
    };
    assert(k * STEP_RAW <= 0x1000_0000_0000_0000 + 0x1000_0000_0000_0000 + 2 * STEP_RAW) by {
        if ahead >= 0 {
            assert(k <= ahead / (STEP_RAW as int) + 1);
            assert(k * STEP_RAW <= ahead + STEP_RAW) by (nonlinear_arith)
                requires
                    0 <= k <= ahead / (STEP_RAW as int) + 1,
                    ahead >= 0,
                    STEP_RAW == 2147484,
            ;
        } else {
            assert(k == 0);
        }
    }
    assert(k * d * STEP_RAW == d * (k * STEP_RAW)) by (nonlinear_arith);
}

/// A moving state ends after the ticks it takes to cross its target: the
/// state that follows begins, headed the other way.
proof fn lemma_course_turns(c: Course, config: &Config)
    requires
        !(c.state is Start),
        in_stroke_range(c.position),
        in_stroke_range(c.target),
    ensures
        ({
            let n = ticks_to_cross(c);
            let after = course_after_ticks(c, config, n);
            &&& after.state == following(c.state)
            &&& after.position.raw == moved(c.position, c.state, n as int)
            &&& after.target == if direction(following(c.state)) > 0 {
                stroke_angle(config)
            } else {
                Fixed::zero()
            }
        }),
{
    let n = ticks_to_cross(c);
    let k = (n - 1) as nat;
    lemma_course_moves(c, config, k);
    let before = course_after_ticks(c, config, k);
    let d = direction(c.state);
    assert(d == 1 || d == -1);
    let ahead = if d > 0 {
        c.target.raw - c.position.raw
    } else {
        c.position.raw - c.target.raw
    };
    assert(crossed(before.state, before.position, before.target)) by {
        if ahead >= 0 {
            assert(k == ahead / (STEP_RAW as int) + 1);
            assert(k * STEP_RAW > ahead) by (nonlinear_arith)
                requires
                    k == ahead / (STEP_RAW as int) + 1,
                    ahead >= 0,
                    STEP_RAW == 2147484,
            ;
        } else {
            assert(k == 0);
        }
        assert(k * d * STEP_RAW == d * (k * STEP_RAW)) by (nonlinear_arith);
    }
    assert(moved(c.position, c.state, n as int) == moved(c.position, c.state, k as int) + d
        * STEP_RAW) by (nonlinear_arith)
        requires
            n == k + 1,
            moved(c.position, c.state, n as int) == c.position.raw + n * d * STEP_RAW,
            moved(c.position, c.state, k as int) == c.position.raw + k * d * STEP_RAW,
    ;
}

/// The wait lasts its ticks and then gives way to the first stroke.
proof fn lemma_course_waits(c: Course, config: &Config, k: nat)
    requires
        c.state matches EncoderCalibrationState::Start(w) && w + k <= WAIT_TICKS,
    ensures
        course_after_ticks(c, config, k) == (Course {
            state: EncoderCalibrationState::Start((c.state->Start_0 + k) as u32),
            ..c
        }),
    decreases k,
{
    if k > 0 {
        lemma_course_waits(c, config, (k - 1) as nat);
    }
}

/// The course on which a calibration starts.
pub open spec fn first_course() -> Course {
    Course {
        state: EncoderCalibrationState::Start(0),
        position: Fixed::zero(),
        target: Fixed::zero(),
    }
}

/// The number of ticks from the start of the calibration to the first
/// recording state: the wait, and the stroke out.
pub open spec fn ticks_to_first_recording(config: &Config) -> nat {
    (WAIT_TICKS + 1) as nat + ticks_to_cross(
        Course {
            state: EncoderCalibrationState::ToEndstop,
            position: Fixed::zero(),
            target: stroke_angle(config),
        },
    )
}

/// The number of ticks from the start of the calibration to the second
/// recording state.
pub open spec fn ticks_to_second_recording(config: &Config) -> nat {
    let first = ticks_to_first_recording(config);
    first + ticks_to_cross(course_after_ticks(first_course(), config, first))
}

/// The number of ticks from the start of the calibration to its end.
pub open spec fn ticks_to_done(config: &Config) -> nat {
    let second = ticks_to_second_recording(config);
    second + ticks_to_cross(course_after_ticks(first_course(), config, second))
}

/// A calibration always comes to its end: from its start it waits, moves
/// out to the end of the stroke, back and out again, and is then done,
/// whatever the sensor reads on the way. On the way back it is in the
/// first recording state and on the second way out in the second, each for
/// at least three ticks, so that each accumulator takes in more than two
/// errors.
pub proof fn lemma_calibration_ends(config: &Config)
    requires
        0 <= stroke_angle(config).raw <= 0x0800_0000_0000_0000,
    ensures
        course_after_ticks(first_course(), config, ticks_to_done(config)).state
            == EncoderCalibrationState::Done1,
        ticks_to_first_recording(config) + 3 <= ticks_to_second_recording(config),
        ticks_to_second_recording(config) + 3 <= ticks_to_done(config),
        forall|n: nat|
            ticks_to_first_recording(config) <= n < ticks_to_second_recording(config)
                ==> (#[trigger] course_after_ticks(first_course(), config, n)).state
                == EncoderCalibrationState::Calib1,
        forall|n: nat|
            ticks_to_second_recording(config) <= n < ticks_to_done(config) ==> (
            #[trigger] course_after_ticks(first_course(), config, n)).state
                == EncoderCalibrationState::Calib2,
        forall|n: nat|
            n < ticks_to_first_recording(config) ==> !((#[trigger] course_after_ticks(
                first_course(),
                config,
                n,
            )).state is Calib1) && !(course_after_ticks(first_course(), config, n).state is Calib2),
{
    let zero = Fixed::zero();
    let stroke = stroke_angle(config);
    let c0 = first_course();
    let wait = WAIT_TICKS as nat;
    lemma_course_waits(c0, config, wait);
    let waited = course_after_ticks(c0, config, wait);
    assert(waited.state == EncoderCalibrationState::Start(WAIT_TICKS));
    let c1 = course_after_ticks(c0, config, wait + 1);
    assert(c1 == course_after(waited, config));
    assert(c1 == (Course {
        state: EncoderCalibrationState::ToEndstop,
        position: zero,
        target: stroke,
    }));
    let out = ticks_to_cross(c1);
    lemma_course_turns(c1, config);
    let c2 = course_after_ticks(c1, config, out);
    assert(out == (stroke.raw as int) / (STEP_RAW as int) + 2);
    assert(2 * STEP_RAW <= out * STEP_RAW <= stroke.raw + 2 * STEP_RAW) by (nonlinear_arith)
        requires
            out == (stroke.raw as int) / (STEP_RAW as int) + 2,
            stroke.raw >= 0,
            STEP_RAW == 2147484,
    ;
    assert(moved(c1.position, c1.state, out as int) == out * STEP_RAW) by (nonlinear_arith)
        requires
            moved(c1.position, c1.state, out as int) == 0 + out * 1 * STEP_RAW,
    ;
    assert(c2.state == EncoderCalibrationState::Calib1);
    assert(c2.target == zero);
    lemma_course_ticks_add(c0, config, wait + 1, out);
    let first = ticks_to_first_recording(config);
    assert(first == wait + 1 + out);
    assert(c2 == course_after_ticks(c0, config, first));
    let back = ticks_to_cross(c2);
    lemma_course_turns(c2, config);
    let c3 = course_after_ticks(c2, config, back);
    assert(back == (c2.position.raw as int) / (STEP_RAW as int) + 2);
    assert(back >= 3 && c2.position.raw < back * STEP_RAW <= c2.position.raw + 2 * STEP_RAW)
        by (nonlinear_arith)
        requires
            back == (c2.position.raw as int) / (STEP_RAW as int) + 2,
            c2.position.raw >= 2 * STEP_RAW,
            STEP_RAW == 2147484,
    ;
    assert(moved(c2.position, c2.state, back as int) == c2.position.raw - back * STEP_RAW)
        by (nonlinear_arith)
        requires
            moved(c2.position, c2.state, back as int) == c2.position.raw + back * (-1) * STEP_RAW,
    ;
    assert(c3.state == EncoderCalibrationState::Calib2);
    assert(c3.target == stroke);
    lemma_course_ticks_add(c0, config, first, back);
    let second = ticks_to_second_recording(config);
    assert(second == first + back);
    assert(c3 == course_after_ticks(c0, config, second));
    let again = ticks_to_cross(c3);
    lemma_course_turns(c3, config);
    let c4 = course_after_ticks(c3, config, again);
    assert(c4.state == EncoderCalibrationState::Done1);
    assert(again >= 3) by {
        let ahead = stroke.raw - c3.position.raw;
        assert(ahead >= 0);
        assert(again == ahead / (STEP_RAW as int) + 2);
        assert(c3.position.raw <= -1);
        // The way back overshoots zero, and the stroke is not negative.
        assert(c3.position.raw == c2.position.raw - back * STEP_RAW);
        assert(c2.position.raw == out * STEP_RAW);
        assert((out - back) * STEP_RAW == out * STEP_RAW - back * STEP_RAW) by (nonlinear_arith);
        assert(out - back <= -1) by (nonlinear_arith)
            requires
                (out - back) * STEP_RAW <= -1,
                STEP_RAW == 2147484,
        ;
        assert(ahead >= STEP_RAW) by (nonlinear_arith)
            requires
                ahead == stroke.raw - (out - back) * STEP_RAW,
                stroke.raw >= 0,
                out - back <= -1,
                STEP_RAW == 2147484,
        ;
        assert(ahead / (STEP_RAW as int) >= 1) by (nonlinear_arith)
            requires
                ahead >= STEP_RAW,
                STEP_RAW == 2147484,
        ;
    }
    lemma_course_ticks_add(c0, config, second, again);
    assert forall|n: nat| first <= n < second implies (#[trigger] course_after_ticks(
        c0,
        config,
        n,
    )).state == EncoderCalibrationState::Calib1 by {
        lemma_course_moves(c2, config, (n - first) as nat);
        lemma_course_ticks_add(c0, config, first, (n - first) as nat);
        assert(first + ((n - first) as nat) == n);
    }
    assert forall|n: nat| second <= n < ticks_to_done(config) implies (
    #[trigger] course_after_ticks(c0, config, n)).state == EncoderCalibrationState::Calib2 by {
        lemma_course_moves(c3, config, (n - second) as nat);
        lemma_course_ticks_add(c0, config, second, (n - second) as nat);
        assert(second + ((n - second) as nat) == n);
    }
    assert forall|n: nat| n < first implies !((#[trigger] course_after_ticks(
        c0,
        config,
        n,
    )).state is Calib1) && !(course_after_ticks(c0, config, n).state is Calib2) by {
        if n <= wait {
            lemma_course_waits(c0, config, n);
        } else {
            lemma_course_moves(c1, config, (n - wait - 1) as nat);
            lemma_course_ticks_add(c0, config, wait + 1, (n - wait - 1) as nat);
            assert(wait + 1 + ((n - wait - 1) as nat) == n);
        }
    }
}

/// Whether `run` is a run of the controller: each controller comes from
/// the one before it by one tick, with the measurements of that tick.
pub open spec fn is_run(
    run: Seq<EncoderCalibrationController>,
    updates: Seq<ControllerUpdate>,
    config: &Config,
) -> bool {
    &&& run.len() == updates.len() + 1
    &&& forall|i: int|
        0 <= i < updates.len() ==> (#[trigger] run[i]).steps_to(&run[i + 1], &updates[i], config)
}

/// Whether a controller is as `new` gives it.
pub open spec fn is_fresh(c: EncoderCalibrationController) -> bool {
    &&& c.course() == first_course()
    &&& c.calib1_builder.samples().len() == 0
    &&& c.calib2_builder.samples().len() == 0
}

/// After `n` ticks of a run the controller is on the course that `n`
/// ticks give.
proof fn lemma_run_follows_course(
    run: Seq<EncoderCalibrationController>,
    updates: Seq<ControllerUpdate>,
    config: &Config,
    n: nat,
)
    requires
        is_run(run, updates, config),
        run[0].course() == first_course(),
        n <= updates.len(),
    ensures
        run[n as int].course() == course_after_ticks(first_course(), config, n),
    decreases n,
{
    if n > 0 {
        lemma_run_follows_course(run, updates, config, (n - 1) as nat);
        assert(run[n - 1].steps_to(&run[n - 1 + 1], &updates[n - 1], config));
    }
}

/// From tick `from` on, for as long as the controller is in a recording
/// state, the accumulator of that state takes in one error per tick until
/// it holds three; it never loses any.
proof fn lemma_run_records(
    run: Seq<EncoderCalibrationController>,
    updates: Seq<ControllerUpdate>,
    config: &Config,
    from: nat,
    n: nat,
    first: bool,
)
    requires
        is_run(run, updates, config),
        from <= n <= updates.len(),
        forall|k: int|
            from <= k < n ==> (#[trigger] run[k]).state == if first {
                EncoderCalibrationState::Calib1
            } else {
                EncoderCalibrationState::Calib2
            },
    ensures
        ({
            let held = if first {
                run[n as int].calib1_builder.samples().len()
            } else {
                run[n as int].calib2_builder.samples().len()
            };
            held >= 3 || held >= n - from
        }),
    decreases n - from,
{
    if n > from {
        lemma_run_records(run, updates, config, from, (n - 1) as nat, first);
        assert(run[n - 1].steps_to(&run[n - 1 + 1], &updates[n - 1], config));
    }
}

/// An accumulator never loses an error in the course of a run.
proof fn lemma_run_keeps(
    run: Seq<EncoderCalibrationController>,
    updates: Seq<ControllerUpdate>,
    config: &Config,
    from: nat,
    n: nat,
)
    requires
        is_run(run, updates, config),
        from <= n <= updates.len(),
    ensures
        run[n as int].calib1_builder.samples().len() >= run[from as int].calib1_builder.samples().len(),
        run[n as int].calib2_builder.samples().len() >= run[from as int].calib2_builder.samples().len(),
    decreases n - from,
{
    if n > from {
        lemma_run_keeps(run, updates, config, from, (n - 1) as nat);
        assert(run[n - 1].steps_to(&run[n - 1 + 1], &updates[n - 1], config));
    }
}

/// Every run of a fresh controller that is long enough comes to the end of
/// the calibration with a calibration at hand, whatever the sensor has
/// read: the controller is done, and each accumulator holds more than two
/// errors.
pub proof fn lemma_every_run_calibrates(
    run: Seq<EncoderCalibrationController>,
    updates: Seq<ControllerUpdate>,
    config: &Config,
)
    requires
        is_run(run, updates, config),
        is_fresh(run[0]),
        0 <= stroke_angle(config).raw <= 0x0800_0000_0000_0000,
        ticks_to_done(config) <= updates.len(),
    ensures
        run[ticks_to_done(config) as int].is_done(),
        run[ticks_to_done(config) as int].calib1_builder.samples().len() > 2,
        run[ticks_to_done(config) as int].calib2_builder.samples().len() > 2,
{
    let first = ticks_to_first_recording(config);
    let second = ticks_to_second_recording(config);
    let done = ticks_to_done(config);
    lemma_calibration_ends(config);
    lemma_run_follows_course(run, updates, config, done);
    assert forall|k: int| first <= k < second implies (#[trigger] run[k]).state
        == EncoderCalibrationState::Calib1 by {
        lemma_run_follows_course(run, updates, config, k as nat);
        assert(course_after_ticks(first_course(), config, k as nat).state
            == EncoderCalibrationState::Calib1);
    }
    assert forall|k: int| second <= k < done implies (#[trigger] run[k]).state
        == EncoderCalibrationState::Calib2 by {
        lemma_run_follows_course(run, updates, config, k as nat);
        assert(course_after_ticks(first_course(), config, k as nat).state
            == EncoderCalibrationState::Calib2);
    }
    lemma_run_records(run, updates, config, first, second, true);
    lemma_run_keeps(run, updates, config, second, done);
    lemma_run_records(run, updates, config, second, done, false);
}

/// Whether every error in `errors` is `c`.
pub open spec fn all_are(errors: Seq<Fixed>, c: Fixed) -> bool {
    forall|j: int| 0 <= j < errors.len() ==> errors[j] == c
}

/// Where every recorded error is `c`, the accumulators hold nothing but
/// `c`.
proof fn lemma_run_records_constant(
    run: Seq<EncoderCalibrationController>,
    updates: Seq<ControllerUpdate>,
    config: &Config,
    c: Fixed,
    n: nat,
)
    requires
        is_run(run, updates, config),
        is_fresh(run[0]),
        n <= updates.len(),
        forall|i: int|
            0 <= i < updates.len() && ((#[trigger] run[i]).state is Calib1 || run[i].state
                is Calib2) ==> run[i].error_of(&updates[i], config) == c,
    ensures
        all_are(run[n as int].calib1_builder.samples(), c),
        all_are(run[n as int].calib2_builder.samples(), c),
    decreases n,
{
    if n > 0 {
        lemma_run_records_constant(run, updates, config, c, (n - 1) as nat);
        assert(run[n - 1].steps_to(&run[n - 1 + 1], &updates[n - 1], config));
    }
}

/// With a sensor that reads the commanded position plus a constant
/// offset, every run of a fresh controller that is long enough calibrates
/// to that very offset.
pub proof fn lemma_constant_offset_is_found(
    run: Seq<EncoderCalibrationController>,
    updates: Seq<ControllerUpdate>,
    config: &Config,
    c: Fixed,
)
    requires
        is_run(run, updates, config),
        is_fresh(run[0]),
        0 <= stroke_angle(config).raw <= 0x0800_0000_0000_0000,
        ticks_to_done(config) <= updates.len(),
        -0x2000_0000_0000_0000 <= c.raw <= 0x2000_0000_0000_0000,
        forall|i: int|
            0 <= i < updates.len() && ((#[trigger] run[i]).state is Calib1 || run[i].state
                is Calib2) ==> run[i].error_of(&updates[i], config) == c,
    ensures
        run[ticks_to_done(config) as int].is_done(),
        EncoderCalibrationController::offset_of(
            run[ticks_to_done(config) as int].calib1_builder.samples(),
            run[ticks_to_done(config) as int].calib2_builder.samples(),
        ) == c,
{
    let done = ticks_to_done(config);
    lemma_every_run_calibrates(run, updates, config);
    lemma_run_records_constant(run, updates, config, c, done);
    lemma_constant_error_calibrates(
        run[done as int].calib1_builder.samples(),
        run[done as int].calib2_builder.samples(),
        c,
    );
}

/// The settings that the drive starts with have a stroke for which every
/// run calibrates: a little over thirty-three radians.
pub proof fn lemma_default_stroke_calibrates()
    ensures
        33 * 4294967296 <= stroke_angle(&Config::new()).raw <= 34 * 4294967296,
        0 <= stroke_angle(&Config::new()).raw <= 0x0800_0000_0000_0000,
{
    let config = Config::new();
    assert(config.calibration_length.raw == 429496729600);
    assert(config.motor_len_per_cycle.raw == 81604378624);
    let cycles = config.calibration_length.over(config.motor_len_per_cycle);
    assert(cycles.raw == (429496729600 * 4294967296) / 81604378624);
    assert(cycles.raw == 22605091031);
}

} // verus!
