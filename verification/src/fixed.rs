//! Decimal fixed-point numbers.
//!
//! Every real quantity of the drawing surface (coordinates, sizes, matrix
//! coefficients, colour channels) is held as a whole number of billionths.
//! Arithmetic saturates at the ends of the representable range, so no
//! operation can overflow or fail.

use vstd::prelude::*;

verus! {

/// Number of raw units in one whole.
pub const SCALE: i64 = 1_000_000_000;

/// A real number stored as `raw` billionths.
#[derive(Clone, Copy, Debug, PartialEq, Eq, Structural)]
pub struct Fixed {
    pub raw: i64,
}

/// The nearest representable raw value to the mathematical integer `v`.
pub open spec fn clamp(v: int) -> i64 {
    if v < i64::MIN {
        i64::MIN
    } else if v > i64::MAX {
        i64::MAX
    } else {
        v as i64
    }
}

/// The nearest `i32` to the mathematical integer `v`.
pub open spec fn clamp_i32(v: int) -> i32 {
    if v < i32::MIN {
        i32::MIN
    } else if v > i32::MAX {
        i32::MAX
    } else {
        v as i32
    }
}

/// The nearest `u32` to the mathematical integer `v`.
pub open spec fn clamp_u32(v: int) -> u32 {
    if v < 0 {
        0
    } else if v > u32::MAX {
        u32::MAX
    } else {
        v as u32
    }
}

/// The nearest raw value to a wide integer.
pub(crate) fn clamp_wide(v: i128) -> (r: i64)
    ensures
        r == clamp(v as int),
{
    if v < i64::MIN as i128 {
        i64::MIN
    } else if v > i64::MAX as i128 {
        i64::MAX
    } else {
        v as i64
    }
}

/// Quotient rounded towards negative infinity, for a positive divisor.
pub(crate) fn floor_div(n: i128, d: i128) -> (q: i128)
    requires
        d > 0,
        -0x4000_0000_0000_0000_0000_0000_0000_0000 <= n,
        n <= 0x4000_0000_0000_0000_0000_0000_0000_0000,
        d <= 0x4000_0000_0000_0000_0000_0000_0000_0000,
    ensures
        q == n as int / d as int,
{
    if n >= 0 {
        n / d
    } else {
        let m: i128 = -n;
        let up: i128 = (m + (d - 1)) / d;
        proof {
            let ni = n as int;
            let di = d as int;
            let ui = up as int;
            assert(ui == (-ni + di - 1) / di);
            assert(ni / di == -ui) by (nonlinear_arith)
                requires
                    di > 0,
                    ni < 0,
                    ui == (-ni + di - 1) / di,
            {
                let k = (-ni + di - 1) / di;
                let r = (-ni + di - 1) % di;
                assert(-ni + di - 1 == k * di + r);
                assert(0 <= r < di);
                assert(ni == (-k) * di + (di - 1 - r));
                assert(0 <= di - 1 - r < di);
                vstd::arithmetic::div_mod::lemma_fundamental_div_mod_converse(
                    ni,
                    di,
                    -k,
                    di - 1 - r,
                );
            }
        }
        -up
    }
}

impl Fixed {
    /// Zero.
    pub open spec fn spec_zero() -> Fixed {
        Fixed { raw: 0 }
    }

    /// One.
    pub open spec fn spec_one() -> Fixed {
        Fixed { raw: SCALE }
    }

    /// The whole number `n`.
    pub open spec fn spec_from_int(n: i32) -> Fixed {
        Fixed { raw: (n * SCALE) as i64 }
    }

    /// Saturating sum.
    pub open spec fn spec_plus(self, other: Fixed) -> Fixed {
        Fixed { raw: clamp(self.raw + other.raw) }
    }

    /// Saturating difference.
    pub open spec fn spec_minus(self, other: Fixed) -> Fixed {
        Fixed { raw: clamp(self.raw - other.raw) }
    }

    /// Saturating negation.
    pub open spec fn spec_negated(self) -> Fixed {
        Fixed { raw: clamp(-self.raw) }
    }

    /// Saturating absolute value.
    pub open spec fn spec_magnitude(self) -> Fixed {
        if self.raw < 0 {
            self.spec_negated()
        } else {
            self
        }
    }

    /// The larger of two numbers.
    pub open spec fn spec_larger(self, other: Fixed) -> Fixed {
        if self.raw >= other.raw {
            self
        } else {
            other
        }
    }

    /// Saturating product, rounded towards negative infinity.
    pub open spec fn spec_times(self, other: Fixed) -> Fixed {
        Fixed { raw: clamp((self.raw * other.raw) / (SCALE as int)) }
    }

    /// Saturating quotient by a positive number, rounded towards negative
    /// infinity.
    pub open spec fn spec_over(self, divisor: Fixed) -> Fixed
        recommends
            divisor.raw > 0,
    {
        Fixed { raw: clamp((self.raw * SCALE) / (divisor.raw as int)) }
    }

    /// The largest whole number not above `self`.
    pub open spec fn spec_floor(self) -> int {
        (self.raw as int) / (SCALE as int)
    }

    /// The smallest whole number not below `self`.
    pub open spec fn spec_ceil(self) -> int {
        (self.raw + SCALE - 1) / (SCALE as int)
    }

    /// What `self` exceeds its floor by: raw units in `0 .. SCALE`.
    pub open spec fn spec_fraction(self) -> Fixed {
        Fixed { raw: ((self.raw as int) % (SCALE as int)) as i64 }
    }

    /// Zero.
    pub fn zero() -> (r: Fixed)
        ensures
            r == Fixed::spec_zero(),
    {
        Fixed { raw: 0 }
    }

    /// One.
    pub fn one() -> (r: Fixed)
        ensures
            r == Fixed::spec_one(),
    {
        Fixed { raw: SCALE }
    }

    /// The number of `raw` billionths.
    pub fn from_raw(raw: i64) -> (r: Fixed)
        ensures
            r.raw == raw,
    {
        Fixed { raw }
    }

    /// The whole number `n`.
    pub fn from_int(n: i32) -> (r: Fixed)
        ensures
            r == Fixed::spec_from_int(n),
            r.raw == n * SCALE,
    {
        let wide: i64 = n as i64;
        Fixed { raw: wide * SCALE }
    }

    /// The sum, saturated.
    pub fn plus(self, other: Fixed) -> (r: Fixed)
        ensures
            r == self.spec_plus(other),
    {
        Fixed { raw: clamp_wide(self.raw as i128 + other.raw as i128) }
    }

    /// The difference, saturated.
    pub fn minus(self, other: Fixed) -> (r: Fixed)
        ensures
            r == self.spec_minus(other),
    {
        Fixed { raw: clamp_wide(self.raw as i128 - other.raw as i128) }
    }

    /// The negation, saturated.
    pub fn negated(self) -> (r: Fixed)
        ensures
            r == self.spec_negated(),
    {
        Fixed { raw: clamp_wide(-(self.raw as i128)) }
    }

    /// The absolute value, saturated.
    pub fn magnitude(self) -> (r: Fixed)
        ensures
            r == self.spec_magnitude(),
            r.raw >= 0,
    {
        if self.raw < 0 {
            self.negated()
        } else {
            self
        }
    }

    /// The larger of two numbers.
    pub fn larger(self, other: Fixed) -> (r: Fixed)
        ensures
            r == self.spec_larger(other),
    {
        if self.raw >= other.raw {
            self
        } else {
            other
        }
    }

    /// The product, rounded towards negative infinity and saturated.
    pub fn times(self, other: Fixed) -> (r: Fixed)
        ensures
            r == self.spec_times(other),
    {
        let a: i128 = self.raw as i128;
        let b: i128 = other.raw as i128;
        assert(-0x4000_0000_0000_0000_0000_0000_0000_0000 <= a * b
            <= 0x4000_0000_0000_0000_0000_0000_0000_0000) by (nonlinear_arith)
            requires
                -0x8000_0000_0000_0000 <= a <= 0x7fff_ffff_ffff_ffff,
                -0x8000_0000_0000_0000 <= b <= 0x7fff_ffff_ffff_ffff,
        ;
        let product: i128 = a * b;
        Fixed { raw: clamp_wide(floor_div(product, SCALE as i128)) }
    }

    /// The quotient by a positive number, rounded towards negative infinity
    /// and saturated.
    pub fn over(self, divisor: Fixed) -> (r: Fixed)
        requires
            divisor.raw > 0,
        ensures
            r == self.spec_over(divisor),
    {
        let a: i128 = self.raw as i128;
        let scaled: i128 = a * 1_000_000_000;
        Fixed { raw: clamp_wide(floor_div(scaled, divisor.raw as i128)) }
    }

    /// The largest whole number not above `self`.
    pub fn floor(self) -> (r: i64)
        ensures
            r == self.spec_floor(),
    {
        floor_div(self.raw as i128, SCALE as i128) as i64
    }

    /// The smallest whole number not below `self`.
    pub fn ceil(self) -> (r: i64)
        ensures
            r == self.spec_ceil(),
    {
        floor_div(self.raw as i128 + (SCALE as i128 - 1), SCALE as i128) as i64
    }

    /// What `self` exceeds its floor by.
    pub fn fraction(self) -> (r: Fixed)
        ensures
            r == self.spec_fraction(),
            0 <= r.raw < SCALE,
            self.raw == self.spec_floor() * SCALE + r.raw,
    {
        let whole: i64 = self.floor();
        Fixed { raw: (self.raw as i128 - (whole as i128) * (SCALE as i128)) as i64 }
    }
}

/// The nearest `i32` to a 64-bit integer.
pub fn saturate_i32(v: i64) -> (r: i32)
    ensures
        r == clamp_i32(v as int),
{
    if v < i32::MIN as i64 {
        i32::MIN
    } else if v > i32::MAX as i64 {
        i32::MAX
    } else {
        v as i32
    }
}

/// The nearest `u32` to a 64-bit integer.
pub fn saturate_u32(v: i64) -> (r: u32)
    ensures
        r == clamp_u32(v as int),
{
    if v < 0 {
        0
    } else if v > u32::MAX as i64 {
        u32::MAX
    } else {
        v as u32
    }
}

} // verus!
