//! Saturating Q32.32 fixed-point arithmetic.
//!
//! A [`Fixed`] holds the real number `raw / 2^32`. Every operation is total:
//! a result that does not fit is clamped to the nearest representable value,
//! and a division by zero gives the largest magnitude of the dividend's sign.

use vstd::prelude::*;

verus! {

/// The raw value of the number one.
pub const ONE_RAW: i64 = 4294967296;

/// The raw value of one half.
pub const HALF_RAW: i64 = 2147483648;

/// A real number in Q32.32: the value is `raw / 2^32`.
#[derive(Clone, Copy, Debug, PartialEq, Eq, Structural)]
pub struct Fixed {
    pub raw: i64,
}

/// Clamps an integer into the range of `i64`.
pub open spec fn sat(x: int) -> int {
    if x < i64::MIN as int {
        i64::MIN as int
    } else if x > i64::MAX as int {
        i64::MAX as int
    } else {
        x
    }
}

/// The quotient of `n` by a positive `d`, rounded toward minus infinity.
pub open spec fn floor_div(n: int, d: int) -> int
    recommends
        d > 0,
{
    n / d
}

/// The largest integer whose square does not exceed `n`.
pub open spec fn is_floor_sqrt(n: int, r: int) -> bool {
    0 <= r && r * r <= n && n < (r + 1) * (r + 1)
}

/// `floor_div` of a negative numerator, by way of a quotient of naturals.
pub proof fn lemma_floor_div_negative(n: int, d: int)
    requires
        n < 0,
        d > 0,
    ensures
        floor_div(n, d) == -((-n + d - 1) / d),
{
    let m = -n + d - 1;
    let q = m / d;
    let r = m % d;
    vstd::arithmetic::div_mod::lemma_fundamental_div_mod(m, d);
    vstd::arithmetic::div_mod::lemma_mod_bound(m, d);
    // n == -q * d + (d - 1 - r), with 0 <= d - 1 - r < d
    assert(m == d * q + r);
    assert(n == d * (-q) + (d - 1 - r)) by (nonlinear_arith)
        requires
            m == d * q + r,
            m == -n + d - 1,
    ;
    vstd::arithmetic::div_mod::lemma_fundamental_div_mod_converse(n, d, -q, d - 1 - r);
}

/// Clamps a wide integer into `i64`.
pub(crate) fn clamp_i128(x: i128) -> (r: i64)
    ensures
        r as int == sat(x as int),
{
    if x < -9223372036854775808i128 {
        i64::MIN
    } else if x > 9223372036854775807i128 {
        i64::MAX
    } else {
        x as i64
    }
}

/// Divides by a positive divisor, rounding toward minus infinity.
pub(crate) fn floor_div_i128(n: i128, d: i128) -> (q: i128)
    requires
        d > 0,
        -0x4000_0000_0000_0000_0000_0000_0000_0000 <= n <= 0x4000_0000_0000_0000_0000_0000_0000_0000,
        d <= 0x1_0000_0000_0000_0000,
    ensures
        q as int == floor_div(n as int, d as int),
{
    if n >= 0 {
        n / d
    } else {
        proof {
            lemma_floor_div_negative(n as int, d as int);
            let m = -(n as int) + d as int - 1;
            vstd::arithmetic::div_mod::lemma_div_pos_is_pos(m, d as int);
            vstd::arithmetic::div_mod::lemma_div_is_ordered_by_denominator(m, 1, d as int);
            assert(m / 1 == m);
        }
        let m: i128 = -n + d - 1;
        -(m / d)
    }
}

impl Fixed {
    /// The number zero.
    pub open spec fn spec_zero() -> Fixed {
        Fixed { raw: 0 }
    }

    /// The number one.
    pub open spec fn spec_one() -> Fixed {
        Fixed { raw: ONE_RAW }
    }

    /// The whole number `i`.
    pub open spec fn spec_from_int(i: i32) -> Fixed {
        Fixed { raw: (i as int * ONE_RAW as int) as i64 }
    }

    /// The saturated sum.
    pub open spec fn spec_plus(self, rhs: Fixed) -> Fixed {
        Fixed { raw: sat(self.raw as int + rhs.raw as int) as i64 }
    }

    /// The saturated difference.
    pub open spec fn spec_minus(self, rhs: Fixed) -> Fixed {
        Fixed { raw: sat(self.raw as int - rhs.raw as int) as i64 }
    }

    /// The saturated negation.
    pub open spec fn spec_neg(self) -> Fixed {
        Fixed { raw: sat(-(self.raw as int)) as i64 }
    }

    /// The saturated product, rounded toward minus infinity.
    pub open spec fn spec_times(self, rhs: Fixed) -> Fixed {
        Fixed { raw: sat(floor_div(self.raw as int * rhs.raw as int, ONE_RAW as int)) as i64 }
    }

    /// The saturated quotient, rounded toward minus infinity; a division by
    /// zero saturates by the sign of the dividend.
    pub open spec fn spec_over(self, rhs: Fixed) -> Fixed {
        if rhs.raw == 0 {
            if self.raw > 0 {
                Fixed { raw: i64::MAX }
            } else if self.raw < 0 {
                Fixed { raw: i64::MIN }
            } else {
                Fixed { raw: 0 }
            }
        } else if rhs.raw > 0 {
            Fixed { raw: sat(floor_div(self.raw as int * ONE_RAW as int, rhs.raw as int)) as i64 }
        } else {
            Fixed {
                raw: sat(floor_div(-(self.raw as int) * ONE_RAW as int, -(rhs.raw as int))) as i64,
            }
        }
    }

    /// The remainder with the sign of the dividend; zero for a zero modulus.
    pub open spec fn spec_rem(self, modulus: Fixed) -> Fixed {
        if modulus.raw == 0 {
            Fixed { raw: 0 }
        } else {
            let m: int = if modulus.raw > 0 {
                modulus.raw as int
            } else {
                -(modulus.raw as int)
            };
            if self.raw >= 0 {
                Fixed { raw: (self.raw as int % m) as i64 }
            } else {
                Fixed { raw: (-((-(self.raw as int)) % m)) as i64 }
            }
        }
    }

    /// The smaller of two numbers.
    pub open spec fn spec_min(self, rhs: Fixed) -> Fixed {
        if self.raw <= rhs.raw {
            self
        } else {
            rhs
        }
    }

    /// The larger of two numbers.
    pub open spec fn spec_max(self, rhs: Fixed) -> Fixed {
        if self.raw >= rhs.raw {
            self
        } else {
            rhs
        }
    }

    /// The nearest whole number, halves rounded up, clamped into `u16`.
    pub open spec fn spec_round_u16(self) -> u16 {
        let q = floor_div(self.raw as int + HALF_RAW as int, ONE_RAW as int);
        if q < 0 {
            0u16
        } else if q > u16::MAX as int {
            u16::MAX
        } else {
            q as u16
        }
    }

    /// The whole part, rounded toward zero, clamped into `u16`.
    pub open spec fn spec_trunc_u16(self) -> u16 {
        if self.raw < 0 {
            0u16
        } else {
            let q = self.raw as int / ONE_RAW as int;
            if q > u16::MAX as int {
                u16::MAX
            } else {
                q as u16
            }
        }
    }

    /// Whether `self` is the square root of `of`, rounded toward zero:
    /// the raw root is the integer square root of `of.raw * 2^32`.
    pub open spec fn is_sqrt_of(self, of: Fixed) -> bool {
        if of.raw <= 0 {
            self.raw == 0
        } else {
            is_floor_sqrt(of.raw as int * ONE_RAW as int, self.raw as int)
        }
    }

    #[verifier::when_used_as_spec(spec_zero)]
    pub fn zero() -> (r: Fixed)
        ensures
            r == Fixed::spec_zero(),
    {
        Fixed { raw: 0 }
    }

    #[verifier::when_used_as_spec(spec_one)]
    pub fn one() -> (r: Fixed)
        ensures
            r == Fixed::spec_one(),
    {
        Fixed { raw: ONE_RAW }
    }

    /// The number with the given raw value.
    pub fn from_raw(raw: i64) -> (r: Fixed)
        ensures
            r.raw == raw,
    {
        Fixed { raw }
    }

    #[verifier::when_used_as_spec(spec_from_int)]
    pub fn from_int(i: i32) -> (r: Fixed)
        ensures
            r == Fixed::spec_from_int(i),
            r.raw as int == i as int * ONE_RAW as int,
    {
        let wide: i64 = i as i64;
        Fixed { raw: wide * ONE_RAW }
    }

    #[verifier::when_used_as_spec(spec_plus)]
    pub fn plus(self, rhs: Fixed) -> (r: Fixed)
        ensures
            r == self.spec_plus(rhs),
    {
        let wide: i128 = self.raw as i128 + rhs.raw as i128;
        Fixed { raw: clamp_i128(wide) }
    }

    #[verifier::when_used_as_spec(spec_minus)]
    pub fn minus(self, rhs: Fixed) -> (r: Fixed)
        ensures
            r == self.spec_minus(rhs),
    {
        let wide: i128 = self.raw as i128 - rhs.raw as i128;
        Fixed { raw: clamp_i128(wide) }
    }

    #[verifier::when_used_as_spec(spec_neg)]
    pub fn neg(self) -> (r: Fixed)
        ensures
            r == self.spec_neg(),
    {
        let wide: i128 = -(self.raw as i128);
        Fixed { raw: clamp_i128(wide) }
    }

    #[verifier::when_used_as_spec(spec_times)]
    pub fn times(self, rhs: Fixed) -> (r: Fixed)
        ensures
            r == self.spec_times(rhs),
    {
        let a: i128 = self.raw as i128;
        let b: i128 = rhs.raw as i128;
        assert(-0x4000_0000_0000_0000_0000_0000_0000_0000 <= a * b
            <= 0x4000_0000_0000_0000_0000_0000_0000_0000) by (nonlinear_arith)
            requires
                -0x8000_0000_0000_0000 <= a <= 0x8000_0000_0000_0000,
                -0x8000_0000_0000_0000 <= b <= 0x8000_0000_0000_0000,
        ;
        let p: i128 = a * b;
        let q: i128 = if p >= 0 {
            p / 4294967296
        } else {
            -((-p + 4294967295) / 4294967296)
        };
        Fixed { raw: clamp_i128(q) }
    }

    #[verifier::when_used_as_spec(spec_over)]
    pub fn over(self, rhs: Fixed) -> (r: Fixed)
        ensures
            r == self.spec_over(rhs),
    {
        if rhs.raw == 0 {
            if self.raw > 0 {
                Fixed { raw: i64::MAX }
            } else if self.raw < 0 {
                Fixed { raw: i64::MIN }
            } else {
                Fixed { raw: 0 }
            }
        } else {
            let a: i128 = self.raw as i128;
            let b: i128 = rhs.raw as i128;
            if b > 0 {
                let q: i128 = floor_div_i128(a * 4294967296, b);
                Fixed { raw: clamp_i128(q) }
            } else {
                let q: i128 = floor_div_i128((-a) * 4294967296, -b);
                Fixed { raw: clamp_i128(q) }
            }
        }
    }

    #[verifier::when_used_as_spec(spec_rem)]
    pub fn rem(self, modulus: Fixed) -> (r: Fixed)
        ensures
            r == self.spec_rem(modulus),
    {
        if modulus.raw == 0 {
            Fixed { raw: 0 }
        } else {
            let m: i128 = if modulus.raw > 0 {
                modulus.raw as i128
            } else {
                -(modulus.raw as i128)
            };
            if self.raw >= 0 {
                let a: i128 = self.raw as i128;
                Fixed { raw: (a % m) as i64 }
            } else {
                let a: i128 = -(self.raw as i128);
                Fixed { raw: (-(a % m)) as i64 }
            }
        }
    }

    #[verifier::when_used_as_spec(spec_min)]
    pub fn min(self, rhs: Fixed) -> (r: Fixed)
        ensures
            r == self.spec_min(rhs),
    {
        if self.raw <= rhs.raw {
            self
        } else {
            rhs
        }
    }

    #[verifier::when_used_as_spec(spec_max)]
    pub fn max(self, rhs: Fixed) -> (r: Fixed)
        ensures
            r == self.spec_max(rhs),
    {
        if self.raw >= rhs.raw {
            self
        } else {
            rhs
        }
    }

    #[verifier::when_used_as_spec(spec_round_u16)]
    pub fn round_u16(self) -> (r: u16)
        ensures
            r == self.spec_round_u16(),
    {
        let shifted: i128 = self.raw as i128 + 2147483648;
        if shifted < 0 {
            proof {
                lemma_floor_div_negative(shifted as int, ONE_RAW as int);
            }
            0
        } else {
            let q: i128 = shifted / 4294967296;
            if q > 65535 {
                u16::MAX
            } else {
                q as u16
            }
        }
    }

    #[verifier::when_used_as_spec(spec_trunc_u16)]
    pub fn trunc_u16(self) -> (r: u16)
        ensures
            r == self.spec_trunc_u16(),
    {
        if self.raw < 0 {
            0
        } else {
            let q: i64 = self.raw / ONE_RAW;
            if q > 65535 {
                u16::MAX
            } else {
                q as u16
            }
        }
    }

    /// The square root, rounded toward zero; zero for a negative number.
    pub fn sqrt(self) -> (r: Fixed)
        ensures
            r.is_sqrt_of(self),
    {
        if self.raw <= 0 {
            return Fixed { raw: 0 };
        }
        let n: u128 = (self.raw as u128) * 4294967296;
        // Bisection on [lo, hi): lo * lo <= n < hi * hi.
        let mut lo: u128 = 0;
        let mut hi: u128 = 0x1_0000_0000_0000;
        assert(n < hi * hi) by (nonlinear_arith)
            requires
                n < 0x8000_0000_0000_0000 * 4294967296,
                hi == 0x1_0000_0000_0000,
        ;
        while hi - lo > 1
            invariant
                lo < hi <= 0x1_0000_0000_0000,
                lo * lo <= n,
                n < hi * hi,
            decreases hi - lo,
        {
            let mid: u128 = lo + (hi - lo) / 2;
            assert(mid * mid <= 0x1_0000_0000_0000 * 0x1_0000_0000_0000) by (nonlinear_arith)
                requires
                    mid <= 0x1_0000_0000_0000,
            ;
            if mid * mid <= n {
                lo = mid;
            } else {
                hi = mid;
            }
        }
        assert(lo < 0x8000_0000_0000_0000) by (nonlinear_arith)
            requires
                lo * lo <= n,
                n < 0x8000_0000_0000_0000 * 4294967296,
        ;
        Fixed { raw: lo as i64 }
    }
}

} // verus!
