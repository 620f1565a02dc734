//! Streaming statistics of a sensor channel, and the normalization they
//! give.
//!
//! A [`NormalizerBuilder`] sums the deviations of its samples from the first
//! one, and their squares, and divides only when asked for the result. Its
//! model is the sequence of the samples it has taken in.

use vstd::prelude::*;
use crate::fixed::{clamp_i128, floor_div, floor_div_i128, sat, Fixed, ONE_RAW};

verus! {

/// The deviation of a sample from the anchor, as a raw value.
pub open spec fn deviation(x: Fixed, anchor: Fixed) -> int {
    x.minus(anchor).raw as int
}

/// The square of a raw value, as a raw value.
pub open spec fn squared(d: int) -> int {
    floor_div(d * d, ONE_RAW as int)
}

/// The sum of the deviations of `samples` from `anchor`.
pub open spec fn sum_deviations(samples: Seq<Fixed>, anchor: Fixed) -> int
    decreases samples.len(),
{
    if samples.len() == 0 {
        0
    } else {
        sum_deviations(samples.drop_last(), anchor) + deviation(samples.last(), anchor)
    }
}

/// The sum of the squared deviations of `samples` from `anchor`.
pub open spec fn sum_squares(samples: Seq<Fixed>, anchor: Fixed) -> int
    decreases samples.len(),
{
    if samples.len() == 0 {
        0
    } else {
        sum_squares(samples.drop_last(), anchor) + squared(deviation(samples.last(), anchor))
    }
}

/// The mean deviation of `samples` from their first one, as a raw value.
pub open spec fn mean_deviation(samples: Seq<Fixed>) -> int
    recommends
        samples.len() > 0,
{
    floor_div(sum_deviations(samples, samples[0]), samples.len() as int)
}

/// The mean of `samples`.
pub open spec fn mean_of(samples: Seq<Fixed>) -> Fixed
    recommends
        samples.len() > 0,
{
    samples[0].plus(Fixed { raw: sat(mean_deviation(samples)) as i64 })
}

/// The sample variance of `samples`: the squared deviations less `n` times
/// the squared mean deviation, over `n - 1`.
pub open spec fn variance_of(samples: Seq<Fixed>) -> Fixed
    recommends
        samples.len() > 1,
{
    let n = samples.len() as int;
    Fixed {
        raw: sat(
            floor_div(
                sum_squares(samples, samples[0]) - n * squared(mean_deviation(samples)),
                n - 1,
            ),
        ) as i64,
    }
}

/// The largest magnitude of a deviation.
pub open spec fn deviation_limit() -> int {
    0x8000_0000_0000_0000
}

/// The largest squared deviation.
pub open spec fn square_limit() -> int {
    0x4000_0000_0000_0000_0000_0000
}

proof fn lemma_deviation_bounds(x: Fixed, anchor: Fixed)
    ensures
        -deviation_limit() <= deviation(x, anchor) <= deviation_limit(),
        0 <= squared(deviation(x, anchor)) <= square_limit(),
{
    let d = deviation(x, anchor);
    assert(0 <= d * d <= 0x8000_0000_0000_0000 * 0x8000_0000_0000_0000) by (nonlinear_arith)
        requires
            -0x8000_0000_0000_0000 <= d <= 0x8000_0000_0000_0000,
    ;
}

proof fn lemma_sum_push(samples: Seq<Fixed>, x: Fixed, anchor: Fixed)
    ensures
        sum_deviations(samples.push(x), anchor) == sum_deviations(samples, anchor) + deviation(
            x,
            anchor,
        ),
        sum_squares(samples.push(x), anchor) == sum_squares(samples, anchor) + squared(
            deviation(x, anchor),
        ),
{
    assert(samples.push(x).drop_last() =~= samples);
}

/// The mean deviation of bounded sums is bounded like one deviation.
proof fn lemma_mean_bounds(ex: int, n: int)
    requires
        n > 0,
        -n * deviation_limit() <= ex <= n * deviation_limit(),
    ensures
        -deviation_limit() <= floor_div(ex, n) <= deviation_limit(),
        0 <= squared(floor_div(ex, n)) <= square_limit(),
{
    let b = deviation_limit();
    let q = ex / n;
    vstd::arithmetic::div_mod::lemma_fundamental_div_mod(ex, n);
    vstd::arithmetic::div_mod::lemma_mod_bound(ex, n);
    assert(-b <= q <= b) by (nonlinear_arith)
        requires
            n > 0,
            -n * b <= ex <= n * b,
            ex == n * q + (ex % n),
            0 <= ex % n < n,
    ;
    assert(0 <= q * q <= 0x8000_0000_0000_0000 * 0x8000_0000_0000_0000) by (nonlinear_arith)
        requires
            -0x8000_0000_0000_0000 <= q <= 0x8000_0000_0000_0000,
    ;
}

/// A mean and a standard deviation by which readings are normalized.
#[derive(Clone, Copy, Debug, PartialEq, Eq, Structural)]
pub struct Normalizer {
    pub mean: Fixed,
    pub std: Fixed,
}

impl Normalizer {
    /// The normalizer with zero mean and zero deviation.
    pub open spec fn spec_new() -> Normalizer {
        Normalizer { mean: Fixed::zero(), std: Fixed::zero() }
    }

    /// The reading less the mean, over the standard deviation.
    pub open spec fn spec_normalize(&self, value: Fixed) -> Fixed {
        value.minus(self.mean).over(self.std)
    }

    #[verifier::when_used_as_spec(spec_new)]
    pub fn new() -> (r: Normalizer)
        ensures
            r == Normalizer::spec_new(),
    {
        Normalizer { mean: Fixed::zero(), std: Fixed::zero() }
    }

    #[verifier::when_used_as_spec(spec_normalize)]
    pub fn normalize(&self, value: Fixed) -> (r: Fixed)
        ensures
            r == self.spec_normalize(value),
    {
        value.minus(self.mean).over(self.std)
    }
}

/// The statistics of `samples`, once there are more than two of them.
pub open spec fn is_normalizer_of(r: Option<Normalizer>, samples: Seq<Fixed>) -> bool {
    match r {
        Some(nz) => {
            &&& samples.len() > 2
            &&& nz.mean == mean_of(samples)
            &&& nz.std.is_sqrt_of(variance_of(samples))
        },
        None => samples.len() <= 2,
    }
}

/// The samples of a builder that held `samples` and is given `x`: a builder
/// that holds `u32::MAX` samples takes in no more.
pub open spec fn taken_in(samples: Seq<Fixed>, x: Fixed) -> Seq<Fixed> {
    if samples.len() < u32::MAX {
        samples.push(x)
    } else {
        samples
    }
}

/// Running sums over the samples of one channel.
#[derive(Clone, Copy)]
pub struct NormalizerBuilder {
    n: u32,
    k: Fixed,
    ex: i128,
    ex2: i128,
    seen: Ghost<Seq<Fixed>>,
}

impl NormalizerBuilder {
    #[verifier::type_invariant]
    spec fn inv(self) -> bool {
        let s = self.seen@;
        &&& self.n as nat == s.len()
        &&& s.len() > 0 ==> self.k == s[0]
        &&& s.len() > 0 ==> self.ex as int == sum_deviations(s, s[0])
        &&& s.len() > 0 ==> self.ex2 as int == sum_squares(s, s[0])
        &&& s.len() == 0 ==> self.ex == 0 && self.ex2 == 0
        &&& -(self.n as int) * deviation_limit() <= self.ex as int <= self.n as int
            * deviation_limit()
        &&& 0 <= self.ex2 as int <= self.n as int * square_limit()
    }

    /// The samples taken in so far, oldest first.
    pub closed spec fn samples(&self) -> Seq<Fixed> {
        self.seen@
    }

    /// A builder that has seen nothing.
    pub fn new() -> (r: NormalizerBuilder)
        ensures
            r.samples() == Seq::<Fixed>::empty(),
    {
        NormalizerBuilder { n: 0, k: Fixed::zero(), ex: 0, ex2: 0, seen: Ghost(Seq::empty()) }
    }

    /// The number of samples taken in.
    pub fn count(&self) -> (r: u32)
        ensures
            r as nat == self.samples().len(),
    {
        proof {
            use_type_invariant(self);
        }
        self.n
    }

    /// Takes in one sample. A builder that holds `u32::MAX` samples takes in
    /// no more.
    pub fn update(&mut self, x: Fixed)
        ensures
            final(self).samples() == taken_in(old(self).samples(), x),
    {
        proof {
            use_type_invariant(&*self);
        }
        if self.n == u32::MAX {
            return ;
        }
        let anchor = if self.n == 0 {
            x
        } else {
            self.k
        };
        let d: i128 = x.minus(anchor).raw as i128;
        proof {
            lemma_deviation_bounds(x, anchor);
            lemma_sum_push(self.seen@, x, anchor);
            let n = self.n as int;
            assert((n + 1) * deviation_limit() == n * deviation_limit() + deviation_limit())
                by (nonlinear_arith);
            assert((n + 1) * square_limit() == n * square_limit() + square_limit())
                by (nonlinear_arith);
            assert(n * deviation_limit() <= 0xffff_ffff * deviation_limit()) by (nonlinear_arith)
                requires
                    0 <= n <= 0xffff_ffff,
            ;
            assert(n * square_limit() <= 0xffff_ffff * square_limit()) by (nonlinear_arith)
                requires
                    0 <= n <= 0xffff_ffff,
            ;
            if self.n == 0 {
                assert(self.seen@.push(x)[0] == x);
            } else {
                assert(self.seen@.push(x)[0] == self.seen@[0]);
            }
        }
        let sq: i128 = (d * d) / 4294967296;
        let next = NormalizerBuilder {
            n: self.n + 1,
            k: anchor,
            ex: self.ex + d,
            ex2: self.ex2 + sq,
            seen: Ghost(self.seen@.push(x)),
        };
        *self = next;
    }

    /// The mean and the standard deviation of the samples taken in, once
    /// there are more than two of them.
    pub fn get_normalizer(&self) -> (r: Option<Normalizer>)
        ensures
            is_normalizer_of(r, self.samples()),
    {
        proof {
            use_type_invariant(self);
        }
        if self.n <= 2 {
            return None;
        }
        let n: i128 = self.n as i128;
        proof {
            lemma_mean_bounds(self.ex as int, n as int);
            assert(n * deviation_limit() <= 0xffff_ffff * deviation_limit()) by (nonlinear_arith)
                requires
                    0 <= n <= 0xffff_ffff,
            ;
            assert(n * square_limit() <= 0xffff_ffff * square_limit()) by (nonlinear_arith)
                requires
                    0 <= n <= 0xffff_ffff,
            ;
        }
        let m: i128 = floor_div_i128(self.ex, n);
        assert(0 <= m * m <= 0x8000_0000_0000_0000 * 0x8000_0000_0000_0000) by (nonlinear_arith)
            requires
                -0x8000_0000_0000_0000 <= m <= 0x8000_0000_0000_0000,
        ;
        let msq: i128 = (m * m) / 4294967296;
        assert(0 <= n * msq <= 0xffff_ffff * 0x4000_0000_0000_0000_0000_0000) by (nonlinear_arith)
            requires
                0 <= n <= 0xffff_ffff,
                0 <= msq <= 0x4000_0000_0000_0000_0000_0000,
        ;
        let spread: i128 = self.ex2 - n * msq;
        let variance = Fixed { raw: clamp_i128(floor_div_i128(spread, n - 1)) };
        let mean = self.k.plus(Fixed { raw: clamp_i128(m) });
        Some(Normalizer { mean, std: variance.sqrt() })
    }
}

/// Samples that are all alike have that value as their mean and no
/// deviation.
pub proof fn lemma_constant_samples(samples: Seq<Fixed>, c: Fixed)
    requires
        samples.len() > 2,
        forall|i: int| 0 <= i < samples.len() ==> samples[i] == c,
    ensures
        mean_of(samples) == c,
        variance_of(samples).raw == 0,
        forall|r: Option<Normalizer>| #[trigger]
            is_normalizer_of(r, samples) ==> r == Some(Normalizer { mean: c, std: Fixed::zero() }),
{
    lemma_constant_sums(samples, c);
    assert(samples[0] == c);
    assert(mean_deviation(samples) == 0);
    assert(squared(0) == 0);
    assert(variance_of(samples).raw == 0) by {
        let n = samples.len() as int;
        assert(n * 0 == 0);
        assert(floor_div(0, n - 1) == 0);
    }
    assert forall|r: Option<Normalizer>| #[trigger] is_normalizer_of(r, samples) implies r == Some(
        Normalizer { mean: c, std: Fixed::zero() },
    ) by {
        if is_normalizer_of(r, samples) {
            assert(r is Some);
            assert(r->0.std.raw == 0);
        }
    }
}

proof fn lemma_constant_sums(samples: Seq<Fixed>, c: Fixed)
    requires
        forall|i: int| 0 <= i < samples.len() ==> samples[i] == c,
    ensures
        sum_deviations(samples, c) == 0,
        sum_squares(samples, c) == 0,
    decreases samples.len(),
{
    if samples.len() > 0 {
        lemma_constant_sums(samples.drop_last(), c);
        assert(deviation(samples.last(), c) == 0);
        assert(squared(0) == 0);
    }
}

} // verus!
