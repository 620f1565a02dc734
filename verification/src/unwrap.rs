//! Phase unwrapping: a continuous angle from readings that wrap around.

use vstd::prelude::*;
use crate::fixed::Fixed;

verus! {

/// The raw value of half a turn.
pub const PI_RAW: i64 = 13493037705;

/// The raw value of a full turn: exactly two half turns.
pub const TAU_RAW: i64 = 26986075410;

/// Half a turn, in radians.
pub open spec fn pi() -> Fixed {
    Fixed { raw: PI_RAW }
}

/// A full turn, in radians.
pub open spec fn tau() -> Fixed {
    Fixed { raw: TAU_RAW }
}

/// The step from `previous` to `reading`, both taken within one turn and
/// the difference brought back by a turn where it exceeds half a turn.
pub open spec fn wrapped_step(previous: Fixed, reading: Fixed) -> Fixed {
    let d = reading.rem(tau()).minus(previous.rem(tau()));
    if d.raw > PI_RAW {
        d.minus(tau())
    } else if d.raw < -PI_RAW {
        d.plus(tau())
    } else {
        d
    }
}

/// The continuous angle that follows `previous` when the sensor reads
/// `reading`.
pub open spec fn unwrapped(previous: Fixed, reading: Fixed) -> Fixed {
    previous.plus(wrapped_step(previous, reading))
}

/// The continuous angle that follows `previous_angle` when the sensor reads
/// `new_angle`.
pub fn unwrap(previous_angle: Fixed, new_angle: Fixed) -> (r: Fixed)
    ensures
        r == unwrapped(previous_angle, new_angle),
{
    let turn = Fixed::from_raw(TAU_RAW);
    let d = new_angle.rem(turn).minus(previous_angle.rem(turn));
    let offset = if d.raw > PI_RAW {
        d.minus(turn)
    } else if d.raw < -PI_RAW {
        d.plus(turn)
    } else {
        d
    };
    previous_angle.plus(offset)
}

/// Follows one angle channel across wraps.
#[derive(Clone, Copy, Debug)]
pub struct Unwrapper {
    previous: Fixed,
}

impl Unwrapper {
    /// The last continuous angle given out; zero at the start.
    pub closed spec fn previous(&self) -> Fixed {
        self.previous
    }

    /// An unwrapper at angle zero.
    pub fn new() -> (r: Unwrapper)
        ensures
            r.previous() == Fixed::zero(),
    {
        Unwrapper { previous: Fixed::zero() }
    }

    /// Takes in a reading and gives the continuous angle.
    pub fn unwrap(&mut self, value: Fixed) -> (r: Fixed)
        ensures
            r == unwrapped(old(self).previous(), value),
            final(self).previous() == r,
    {
        let result = unwrap(self.previous, value);
        self.previous = result;
        result
    }
}

/// Whether an angle is far enough from the ends of the number range that
/// a step of a turn and a half cannot saturate.
pub open spec fn in_angle_range(a: Fixed) -> bool {
    -0x2000_0000_0000_0000 <= a.raw <= 0x2000_0000_0000_0000
}

/// Whether two angles are less than half a turn apart.
pub open spec fn within_half_turn(a: Fixed, b: Fixed) -> bool {
    -PI_RAW < a.raw - b.raw < PI_RAW
}

/// Whether two angles differ by whole turns.
pub open spec fn same_direction(a: Fixed, b: Fixed) -> bool {
    (a.raw - b.raw) % (TAU_RAW as int) == 0
}

/// If the true angle has moved by less than half a turn, any reading of it
/// that lies, within one turn, less than a turn and a half from the
/// previous angle unwraps to the true angle exactly.
pub proof fn lemma_unwrap_follows(previous: Fixed, truth: Fixed, reading: Fixed)
    requires
        in_angle_range(previous),
        in_angle_range(truth),
        within_half_turn(truth, previous),
        same_direction(reading, truth),
        -3 * PI_RAW < reading.rem(tau()).raw - previous.rem(tau()).raw < 3 * PI_RAW,
    ensures
        unwrapped(previous, reading) == truth,
{
    let t = TAU_RAW as int;
    let r = reading.rem(tau()).raw as int;
    let p = previous.rem(tau()).raw as int;
    assert((reading.raw - r) % t == 0);
    assert((previous.raw - p) % t == 0);
    let delta = truth.raw - previous.raw;
    assert((r - p - delta) % t == 0);
}

/// A reading taken as the remainder of the true angle by a full turn
/// unwraps to the true angle.
pub proof fn lemma_unwrap_of_remainder(previous: Fixed, truth: Fixed)
    requires
        in_angle_range(previous),
        in_angle_range(truth),
        within_half_turn(truth, previous),
    ensures
        unwrapped(previous, truth.rem(tau())) == truth,
{
    let reading = truth.rem(tau());
    assert(reading.rem(tau()) == reading);
    lemma_unwrap_follows(previous, truth, reading);
}

/// A reading between minus half a turn and half a turn, as an arctangent
/// gives it, unwraps to the true angle.
pub proof fn lemma_unwrap_of_principal(previous: Fixed, truth: Fixed, reading: Fixed)
    requires
        in_angle_range(previous),
        in_angle_range(truth),
        within_half_turn(truth, previous),
        same_direction(reading, truth),
        -PI_RAW <= reading.raw <= PI_RAW,
    ensures
        unwrapped(previous, reading) == truth,
{
    assert(reading.rem(tau()) == reading);
    lemma_unwrap_follows(previous, truth, reading);
}

/// The continuous angles that an unwrapper starting at `start` gives for
/// `readings`.
pub open spec fn unwrap_all(start: Fixed, readings: Seq<Fixed>) -> Seq<Fixed>
    decreases readings.len(),
{
    if readings.len() == 0 {
        Seq::empty()
    } else {
        let before = unwrap_all(start, readings.drop_last());
        let previous = if before.len() == 0 {
            start
        } else {
            before.last()
        };
        before.push(unwrapped(previous, readings.last()))
    }
}

/// Whether each angle of `truth` is less than half a turn from the one
/// before it, the first one from `start`, and all are in range.
pub open spec fn is_continuous_from(start: Fixed, truth: Seq<Fixed>) -> bool {
    &&& in_angle_range(start)
    &&& forall|i: int| 0 <= i < truth.len() ==> in_angle_range(#[trigger] truth[i])
    &&& truth.len() > 0 ==> within_half_turn(truth[0], start)
    &&& forall|i: int| 0 < i < truth.len() ==> within_half_turn(#[trigger] truth[i], truth[i - 1])
}

/// The readings of `truth`: each angle taken within one turn.
pub open spec fn wrapped(truth: Seq<Fixed>) -> Seq<Fixed> {
    Seq::new(truth.len(), |i: int| truth[i].rem(tau()))
}

/// Unwrapping the wrapped readings of a sequence of angles that never moves
/// by half a turn or more gives the sequence back, however often it has
/// wrapped.
pub proof fn lemma_unwrap_reconstructs(start: Fixed, truth: Seq<Fixed>)
    requires
        is_continuous_from(start, truth),
    ensures
        unwrap_all(start, wrapped(truth)) == truth,
    decreases truth.len(),
{
    if truth.len() > 0 {
        let head = truth.drop_last();
        assert(is_continuous_from(start, head)) by {
            assert forall|i: int| 0 < i < head.len() implies within_half_turn(
                #[trigger] head[i],
                head[i - 1],
            ) by {
                assert(within_half_turn(truth[i], truth[i - 1]));
            }
        }
        lemma_unwrap_reconstructs(start, head);
        assert(wrapped(truth).drop_last() =~= wrapped(head));
        let previous = if head.len() == 0 {
            start
        } else {
            head.last()
        };
        assert(within_half_turn(truth.last(), previous)) by {
            if head.len() > 0 {
                assert(within_half_turn(truth[truth.len() - 1], truth[truth.len() - 2]));
            }
        }
        assert(in_angle_range(previous)) by {
            if head.len() > 0 {
                assert(in_angle_range(truth[truth.len() - 2]));
            }
        }
        assert(in_angle_range(truth[truth.len() - 1]));
        lemma_unwrap_of_remainder(previous, truth.last());
        assert(wrapped(truth).last() == truth.last().rem(tau()));
        assert(unwrap_all(start, wrapped(truth)) =~= truth);
    } else {
        assert(unwrap_all(start, wrapped(truth)) =~= truth);
    }
}

} // verus!
