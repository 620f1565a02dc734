//! Space-vector modulation with dead-time insertion and error-feedback
//! rounding.
//!
//! A voltage request in the stationary frame falls into one of six sextants.
//! Each sextant is spanned by two active switching vectors; their on-times
//! follow in closed form, and the three phase on-times are placed
//! cumulatively from the phase that stays off. Scaled to timer counts, each
//! on-time is rounded with the error carried into the next tick.

use vstd::prelude::*;
use crate::fixed::{Fixed, HALF_RAW, ONE_RAW};
use crate::state_machine::{PWMCommand, VoltageControllerOutput};

verus! {

/// The raw value of `1 / sqrt(3)`.
pub const ONE_BY_SQRT3_RAW: i64 = 2479700525;

/// The raw value of `2 / sqrt(3)`.
pub const TWO_BY_SQRT3_RAW: i64 = 4959401049;

/// `beta / sqrt(3)`.
pub open spec fn third_root_of(beta: Fixed) -> Fixed {
    Fixed { raw: ONE_BY_SQRT3_RAW }.times(beta)
}

/// `2 * beta / sqrt(3)`.
pub open spec fn two_third_roots_of(beta: Fixed) -> Fixed {
    Fixed { raw: TWO_BY_SQRT3_RAW }.times(beta)
}

/// The sextant, counted from one, that holds the vector `(alpha, beta)`.
pub open spec fn sextant(alpha: Fixed, beta: Fixed) -> int {
    let kb = third_root_of(beta);
    if beta.raw >= 0 {
        if alpha.raw >= 0 {
            if kb.raw > alpha.raw {
                2
            } else {
                1
            }
        } else {
            if kb.neg().raw > alpha.raw {
                3
            } else {
                2
            }
        }
    } else {
        if alpha.raw >= 0 {
            if kb.neg().raw > alpha.raw {
                5
            } else {
                6
            }
        } else {
            if kb.raw > alpha.raw {
                4
            } else {
                5
            }
        }
    }
}

/// The on-times of the two active vectors that span the sextant of
/// `(alpha, beta)`, the earlier vector first.
pub open spec fn vector_times(alpha: Fixed, beta: Fixed) -> (Fixed, Fixed) {
    let kb = third_root_of(beta);
    let tb = two_third_roots_of(beta);
    let s = sextant(alpha, beta);
    if s == 1 {
        (alpha.minus(kb), tb)
    } else if s == 2 {
        (alpha.plus(kb), alpha.neg().plus(kb))
    } else if s == 3 {
        (tb, alpha.neg().minus(kb))
    } else if s == 4 {
        (alpha.neg().plus(kb), tb.neg())
    } else if s == 5 {
        (alpha.neg().minus(kb), alpha.minus(kb))
    } else {
        (tb.neg(), alpha.plus(kb))
    }
}

/// The on-times of the phases `(a, b, c)`: the phase that stays off is at
/// zero, the next one adds one vector time, the last one adds both.
pub open spec fn on_times(alpha: Fixed, beta: Fixed) -> (Fixed, Fixed, Fixed) {
    let (x, y) = vector_times(alpha, beta);
    let zero = Fixed::zero();
    let s = sextant(alpha, beta);
    if s == 1 {
        (zero, x, x.plus(y))
    } else if s == 2 {
        (y, zero, y.plus(x))
    } else if s == 3 {
        (x.plus(y), zero, x)
    } else if s == 4 {
        (y.plus(x), y, zero)
    } else if s == 5 {
        (x, x.plus(y), zero)
    } else {
        (zero, y.plus(x), y)
    }
}

/// Whether an on-time lies in `[0, 1]`.
pub open spec fn in_unit(t: Fixed) -> bool {
    0 <= t.raw <= ONE_RAW
}

/// Whether the request `(alpha, beta)` can be modulated: all three phase
/// on-times lie in `[0, 1]`.
pub open spec fn modulable(alpha: Fixed, beta: Fixed) -> bool {
    let (a, b, c) = on_times(alpha, beta);
    in_unit(a) && in_unit(b) && in_unit(c)
}

/// Whether no intermediate value of the modulation of `(alpha, beta)`
/// saturates.
pub open spec fn in_working_range(alpha: Fixed, beta: Fixed) -> bool {
    &&& -0x1000_0000_0000_0000 <= alpha.raw <= 0x1000_0000_0000_0000
    &&& -0x1000_0000_0000_0000 <= beta.raw <= 0x1000_0000_0000_0000
}

/// Computes the three phase on-times of the request `(alpha, beta)`, each a
/// fraction of the switching period, and whether all of them lie in `[0, 1]`.
pub fn calculate_svm(alpha: Fixed, beta: Fixed) -> (r: (Fixed, Fixed, Fixed, bool))
    ensures
        (r.0, r.1, r.2) == on_times(alpha, beta),
        r.3 == modulable(alpha, beta),
{
    let zero = Fixed::zero();
    let kb = Fixed::from_raw(ONE_BY_SQRT3_RAW).times(beta);
    let tb = Fixed::from_raw(TWO_BY_SQRT3_RAW).times(beta);
    let sextant: u8 = if beta.raw >= 0 {
        if alpha.raw >= 0 {
            if kb.raw > alpha.raw {
                2
            } else {
                1
            }
        } else {
            if kb.neg().raw > alpha.raw {
                3
            } else {
                2
            }
        }
    } else {
        if alpha.raw >= 0 {
            if kb.neg().raw > alpha.raw {
                5
            } else {
                6
            }
        } else {
            if kb.raw > alpha.raw {
                4
            } else {
                5
            }
        }
    };
    assert(sextant as int == self::sextant(alpha, beta));
    let t_a: Fixed;
    let t_b: Fixed;
    let t_c: Fixed;
    if sextant == 1 {
        let t1 = alpha.minus(kb);
        let t2 = tb;
        t_a = zero;
        t_b = t1;
        t_c = t_b.plus(t2);
    } else if sextant == 2 {
        let t2 = alpha.plus(kb);
        let t3 = alpha.neg().plus(kb);
        t_b = zero;
        t_a = t3;
        t_c = t_a.plus(t2);
    } else if sextant == 3 {
        let t3 = tb;
        let t4 = alpha.neg().minus(kb);
        t_b = zero;
        t_c = t3;
        t_a = t_c.plus(t4);
    } else if sextant == 4 {
        let t4 = alpha.neg().plus(kb);
        let t5 = tb.neg();
        t_c = zero;
        t_b = t5;
        t_a = t_b.plus(t4);
    } else if sextant == 5 {
        let t5 = alpha.neg().minus(kb);
        let t6 = alpha.minus(kb);
        t_c = zero;
        t_a = t5;
        t_b = t_a.plus(t6);
    } else {
        let t6 = tb.neg();
        let t1 = alpha.plus(kb);
        t_a = zero;
        t_c = t1;
        t_b = t_c.plus(t6);
    }
    let result_valid = t_a.raw >= 0 && t_a.raw <= ONE_RAW && t_b.raw >= 0 && t_b.raw <= ONE_RAW
        && t_c.raw >= 0 && t_c.raw <= ONE_RAW;
    (t_a, t_b, t_c, result_valid)
}

/// In the working range both vector times are non-negative, so the phase
/// on-times are non-negative, the smallest of them is zero, and a request
/// can be modulated exactly when its largest on-time is at most one.
pub proof fn lemma_on_times_start_at_zero(alpha: Fixed, beta: Fixed)
    requires
        in_working_range(alpha, beta),
    ensures
        vector_times(alpha, beta).0.raw >= 0,
        vector_times(alpha, beta).1.raw >= 0,
        on_times(alpha, beta).0.raw >= 0,
        on_times(alpha, beta).1.raw >= 0,
        on_times(alpha, beta).2.raw >= 0,
        on_times(alpha, beta).0.raw == 0 || on_times(alpha, beta).1.raw == 0 || on_times(
            alpha,
            beta,
        ).2.raw == 0,
        modulable(alpha, beta) <==> on_times(alpha, beta).0.max(on_times(alpha, beta).1).max(
            on_times(alpha, beta).2,
        ).raw <= ONE_RAW,
{
    let kb = third_root_of(beta);
    let tb = two_third_roots_of(beta);
    assert(beta.raw >= 0 ==> kb.raw >= 0 && tb.raw >= 0);
    assert(beta.raw < 0 ==> kb.raw <= 0 && tb.raw <= 0);
    assert(-0x1000_0000_0000_0000 <= kb.raw <= 0x1000_0000_0000_0000);
    assert(-0x2000_0000_0000_0000 <= tb.raw <= 0x2000_0000_0000_0000);
}

/// The unit vector along the first phase can be modulated; the unit vector
/// at a right angle to it cannot.
pub proof fn lemma_unit_vectors()
    ensures
        modulable(Fixed::one(), Fixed::zero()),
        !modulable(Fixed::zero(), Fixed::one()),
{
    assert(third_root_of(Fixed::zero()).raw == 0);
    assert(two_third_roots_of(Fixed::zero()).raw == 0);
    assert(third_root_of(Fixed::one()).raw == ONE_BY_SQRT3_RAW);
    assert(two_third_roots_of(Fixed::one()).raw == TWO_BY_SQRT3_RAW);
}

/// The ideal on-time of a phase in timer counts: the fraction `t` of a
/// period of `cycle_time` counts.
pub open spec fn ideal_counts(t: Fixed, cycle_time: u16) -> Fixed {
    t.times(Fixed::from_int(cycle_time as i32))
}

/// The counts a phase is switched on for: the ideal counts plus the error
/// carried over, rounded to the nearest whole count.
pub open spec fn rounded_counts(t: Fixed, residual: Fixed, cycle_time: u16) -> u16 {
    ideal_counts(t, cycle_time).plus(residual).round_u16()
}

/// The error carried into the next tick: the old one plus what rounding
/// left over this time.
pub open spec fn next_residual(t: Fixed, residual: Fixed, cycle_time: u16) -> Fixed {
    residual.plus(
        ideal_counts(t, cycle_time).minus(
            Fixed::from_int(rounded_counts(t, residual, cycle_time) as i32),
        ),
    )
}

/// The duty of a phase: its rounded counts plus the dead time, clamped
/// into `u16`.
pub open spec fn duty_of(counts: u16, dead_time: u16) -> u16 {
    if counts as int + dead_time as int > u16::MAX as int {
        u16::MAX
    } else {
        (counts + dead_time) as u16
    }
}

/// Whether a residual is at most half a count in magnitude.
pub open spec fn settled(residual: Fixed) -> bool {
    -HALF_RAW <= residual.raw < HALF_RAW
}

/// Rounding with error feedback keeps the residual within half a count as
/// long as the on-time lies in `[0, 1]`; the rounded counts then never
/// exceed the period, and what is carried over is exactly what rounding
/// left.
pub proof fn lemma_residual_stays_settled(t: Fixed, residual: Fixed, cycle_time: u16)
    requires
        in_unit(t),
        settled(residual),
    ensures
        settled(next_residual(t, residual, cycle_time)),
        rounded_counts(t, residual, cycle_time) <= cycle_time,
        ideal_counts(t, cycle_time).raw == t.raw * cycle_time,
        next_residual(t, residual, cycle_time).raw == residual.raw + ideal_counts(
            t,
            cycle_time,
        ).raw - rounded_counts(t, residual, cycle_time) * ONE_RAW,
{
    let scale = Fixed::from_int(cycle_time as i32);
    assert(scale.raw == cycle_time * ONE_RAW);
    let c = cycle_time as int;
    let p = t.raw as int * scale.raw as int;
    assert(p == (t.raw as int * c) * ONE_RAW as int) by (nonlinear_arith)
        requires
            p == t.raw as int * scale.raw as int,
            scale.raw as int == c * ONE_RAW as int,
    ;
    assert(0 <= t.raw as int * c <= ONE_RAW as int * c) by (nonlinear_arith)
        requires
            0 <= t.raw as int <= ONE_RAW as int,
            0 <= c,
    ;
    let ideal = ideal_counts(t, cycle_time);
    assert(ideal.raw == t.raw * c);
}

/// A modulator that remembers, per phase, the error its rounding has left.
#[derive(Debug)]
pub struct IterativeSVM {
    /// The rounding error carried over, per phase, in timer counts.
    pub residuals: [Fixed; 3],
    /// The dead time added to every duty, in timer counts.
    pub dead_time: u16,
    /// The switching period, in timer counts.
    pub cycle_time: u16,
}

impl IterativeSVM {
    /// Whether each residual is at most half a count in magnitude.
    pub open spec fn residuals_settled(&self) -> bool {
        settled(self.residuals[0]) && settled(self.residuals[1]) && settled(self.residuals[2])
    }

    /// A modulator with no error carried over.
    pub fn new(dead_time: u16, cycle_time: u16) -> (r: IterativeSVM)
        ensures
            r.dead_time == dead_time,
            r.cycle_time == cycle_time,
            r.residuals@ == seq![Fixed::zero(), Fixed::zero(), Fixed::zero()],
            r.residuals_settled(),
    {
        IterativeSVM { residuals: [Fixed::zero(), Fixed::zero(), Fixed::zero()], dead_time, cycle_time }
    }

    /// The switch timings for `request`.
    ///
    /// The drive is enabled only if the request asks for it, the request can
    /// be modulated, and every rounded on-time plus the dead time ends before
    /// the period does. The duties are given either way.
    pub open spec fn command(&self, request: VoltageControllerOutput) -> PWMCommand {
        let (t_a, t_b, t_c) = on_times(request.alpha, request.beta);
        let c = self.cycle_time;
        let d = self.dead_time;
        let n_a = rounded_counts(t_a, self.residuals[0], c);
        let n_b = rounded_counts(t_b, self.residuals[1], c);
        let n_c = rounded_counts(t_c, self.residuals[2], c);
        PWMCommand {
            driver_enable: request.driver_enable && modulable(request.alpha, request.beta) && n_a
                + d < c && n_b + d < c && n_c + d < c,
            u_duty: duty_of(n_a, d),
            v_duty: duty_of(n_b, d),
            w_duty: duty_of(n_c, d),
        }
    }

    /// The modulator after it has modulated `request`: each residual has
    /// taken in what rounding left over.
    pub open spec fn advanced(&self, request: VoltageControllerOutput) -> IterativeSVM {
        let (t_a, t_b, t_c) = on_times(request.alpha, request.beta);
        let c = self.cycle_time;
        IterativeSVM {
            residuals: [
                next_residual(t_a, self.residuals[0], c),
                next_residual(t_b, self.residuals[1], c),
                next_residual(t_c, self.residuals[2], c),
            ],
            dead_time: self.dead_time,
            cycle_time: self.cycle_time,
        }
    }

    /// Turns a voltage request into the switch timings of this tick, and
    /// carries the rounding errors over. As long as the requests can be
    /// modulated the residuals stay settled.
    pub fn calculate(&mut self, request: VoltageControllerOutput) -> (r: PWMCommand)
        ensures
            r == old(self).command(request),
            *final(self) == old(self).advanced(request),
            modulable(request.alpha, request.beta) && old(self).residuals_settled()
                ==> final(self).residuals_settled(),
    {
        let (t_a, t_b, t_c, result_valid) = calculate_svm(request.alpha, request.beta);
        let scale = Fixed::from_int(self.cycle_time as i32);
        let t_a = t_a.times(scale);
        let t_b = t_b.times(scale);
        let t_c = t_c.times(scale);
        let r_a = self.residuals[0];
        let r_b = self.residuals[1];
        let r_c = self.residuals[2];
        let n_a = t_a.plus(r_a).round_u16();
        let n_b = t_b.plus(r_b).round_u16();
        let n_c = t_c.plus(r_c).round_u16();
        proof {
            let (f_a, f_b, f_c) = on_times(request.alpha, request.beta);
            if modulable(request.alpha, request.beta) && self.residuals_settled() {
                lemma_residual_stays_settled(f_a, r_a, self.cycle_time);
                lemma_residual_stays_settled(f_b, r_b, self.cycle_time);
                lemma_residual_stays_settled(f_c, r_c, self.cycle_time);
            }
        }
        self.residuals = [
            r_a.plus(t_a.minus(Fixed::from_int(n_a as i32))),
            r_b.plus(t_b.minus(Fixed::from_int(n_b as i32))),
            r_c.plus(t_c.minus(Fixed::from_int(n_c as i32))),
        ];
        let dead: u32 = self.dead_time as u32;
        let cycle: u32 = self.cycle_time as u32;
        let fits = n_a as u32 + dead < cycle && n_b as u32 + dead < cycle && n_c as u32 + dead
            < cycle;
        assert(self.residuals@ =~= old(self).advanced(request).residuals@);
        PWMCommand {
            driver_enable: result_valid && request.driver_enable && fits,
            u_duty: with_dead_time(n_a, self.dead_time),
            v_duty: with_dead_time(n_b, self.dead_time),
            w_duty: with_dead_time(n_c, self.dead_time),
        }
    }
}

/// Whatever the residuals, a request that cannot be modulated, or that
/// does not ask for the drive, leaves the drive disabled.
pub proof fn lemma_unmodulable_is_disabled(svm: IterativeSVM, request: VoltageControllerOutput)
    requires
        !modulable(request.alpha, request.beta) || !request.driver_enable,
    ensures
        !svm.command(request).driver_enable,
{
}

/// While the drive is enabled, every duty ends before the period does and
/// holds at least the dead time.
pub proof fn lemma_enabled_duties_fit(svm: IterativeSVM, request: VoltageControllerOutput)
    requires
        svm.command(request).driver_enable,
    ensures
        svm.dead_time <= svm.command(request).u_duty < svm.cycle_time,
        svm.dead_time <= svm.command(request).v_duty < svm.cycle_time,
        svm.dead_time <= svm.command(request).w_duty < svm.cycle_time,
{
}

/// With settled residuals and a request that can be modulated, the counts
/// switched on so far differ from the ideal ones by what the residual has
/// changed: the error never adds up.
pub proof fn lemma_counts_follow_ideal(svm: IterativeSVM, request: VoltageControllerOutput)
    requires
        svm.residuals_settled(),
        modulable(request.alpha, request.beta),
    ensures
        ({
            let (t_a, t_b, t_c) = on_times(request.alpha, request.beta);
            let c = svm.cycle_time;
            let next = svm.advanced(request);
            &&& rounded_counts(t_a, svm.residuals[0], c) * ONE_RAW == t_a.raw * c
                + svm.residuals[0].raw - next.residuals[0].raw
            &&& rounded_counts(t_b, svm.residuals[1], c) * ONE_RAW == t_b.raw * c
                + svm.residuals[1].raw - next.residuals[1].raw
            &&& rounded_counts(t_c, svm.residuals[2], c) * ONE_RAW == t_c.raw * c
                + svm.residuals[2].raw - next.residuals[2].raw
            &&& next.residuals_settled()
        }),
{
    let (t_a, t_b, t_c) = on_times(request.alpha, request.beta);
    lemma_residual_stays_settled(t_a, svm.residuals[0], svm.cycle_time);
    lemma_residual_stays_settled(t_b, svm.residuals[1], svm.cycle_time);
    lemma_residual_stays_settled(t_c, svm.residuals[2], svm.cycle_time);
}

/// Adds the dead time to the rounded counts of a phase.
fn with_dead_time(counts: u16, dead_time: u16) -> (r: u16)
    ensures
        r == duty_of(counts, dead_time),
{
    let wide: u32 = counts as u32 + dead_time as u32;
    if wide > 65535 {
        u16::MAX
    } else {
        wide as u16
    }
}

/// The modulator after it has modulated `request` on `n` ticks in a row.
pub open spec fn advanced_by(svm: IterativeSVM, request: VoltageControllerOutput, n: nat) -> IterativeSVM
    decreases n,
{
    if n == 0 {
        svm
    } else {
        advanced_by(svm, request, (n - 1) as nat).advanced(request)
    }
}

/// The counts that phase `phase` has been switched on for over `n` ticks
/// of the same request.
pub open spec fn counts_so_far(
    svm: IterativeSVM,
    request: VoltageControllerOutput,
    phase: int,
    n: nat,
) -> int
    decreases n,
{
    if n == 0 {
        0
    } else {
        let before = advanced_by(svm, request, (n - 1) as nat);
        let (t_a, t_b, t_c) = on_times(request.alpha, request.beta);
        let t = if phase == 0 {
            t_a
        } else if phase == 1 {
            t_b
        } else {
            t_c
        };
        counts_so_far(svm, request, phase, (n - 1) as nat) + rounded_counts(
            t,
            before.residuals[phase],
            svm.cycle_time,
        )
    }
}

/// However long a request that can be modulated is repeated, the
/// residuals stay within half a count, and the counts switched on differ
/// from the ideal ones by less than one count: the rounding error never
/// adds up.
pub proof fn lemma_residuals_never_drift(
    svm: IterativeSVM,
    request: VoltageControllerOutput,
    phase: int,
    n: nat,
)
    requires
        svm.residuals_settled(),
        modulable(request.alpha, request.beta),
        0 <= phase < 3,
    ensures
        advanced_by(svm, request, n).residuals_settled(),
        advanced_by(svm, request, n).cycle_time == svm.cycle_time,
        ({
            let (t_a, t_b, t_c) = on_times(request.alpha, request.beta);
            let t = if phase == 0 {
                t_a
            } else if phase == 1 {
                t_b
            } else {
                t_c
            };
            let ideal = n * (t.raw * svm.cycle_time);
            let error = counts_so_far(svm, request, phase, n) * ONE_RAW - ideal;
            &&& error == svm.residuals[phase].raw - advanced_by(svm, request, n).residuals[phase].raw
            &&& -ONE_RAW < error < ONE_RAW
        }),
    decreases n,
{
    let (t_a, t_b, t_c) = on_times(request.alpha, request.beta);
    let t = if phase == 0 {
        t_a
    } else if phase == 1 {
        t_b
    } else {
        t_c
    };
    let per_tick = t.raw * svm.cycle_time;
    if n > 0 {
        lemma_residuals_never_drift(svm, request, phase, (n - 1) as nat);
        let before = advanced_by(svm, request, (n - 1) as nat);
        lemma_counts_follow_ideal(before, request);
        assert(n * per_tick == (n - 1) * per_tick + per_tick) by (nonlinear_arith);
        let c = counts_so_far(svm, request, phase, (n - 1) as nat);
        let r = rounded_counts(t, before.residuals[phase], svm.cycle_time) as int;
        assert((c + r) * ONE_RAW == c * ONE_RAW + r * ONE_RAW) by (nonlinear_arith);
    } else {
        assert(0 * per_tick == 0);
    }
}

} // verus!
