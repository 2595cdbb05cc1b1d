//! The protocol's deterministic numeric type: a signed fixed-point number
//! with 48 integer bits and 16 fractional bits, stored as a raw `i64`.
//!
//! Floating point is banned on the consensus path because its rounding is not
//! guaranteed bit-identical across hardware. The bit split and the overflow
//! policy (saturate, never wrap or trap) are part of the consensus contract:
//! every conforming node must compute exactly the same raw bits.

use vstd::prelude::*;

verus! {

/// Number of fractional bits in the protocol's fixed-point format.
pub const FRAC_BITS: u32 = 16;

/// The scale factor `2^FRAC_BITS`.
pub const FX_SCALE: i64 = 65536;

/// A deterministic fixed-point number: `raw` counts units of `2^-16`.
#[derive(Clone, Copy, Debug, PartialEq, Eq, Structural)]
pub struct FixedPoint {
    pub raw: i64,
}

/// Clamps a mathematical integer into the `i64` range.
pub open spec fn sat64(x: int) -> int {
    if x > i64::MAX as int {
        i64::MAX as int
    } else if x < i64::MIN as int {
        i64::MIN as int
    } else {
        x
    }
}

/// Saturating addition on raw fixed-point values.
pub open spec fn fx_add(a: int, b: int) -> int {
    sat64(a + b)
}

/// Saturating multiplication on raw fixed-point values: the exact product is
/// rescaled by `2^16` rounding toward negative infinity, then clamped.
pub open spec fn fx_mul(a: int, b: int) -> int {
    sat64((a * b) / (FX_SCALE as int))
}

impl FixedPoint {
    /// The raw bits as a mathematical integer.
    pub open spec fn v(self) -> int {
        self.raw as int
    }

    pub fn zero() -> (r: FixedPoint)
        ensures
            r.raw == 0,
    {
        FixedPoint { raw: 0 }
    }

    /// The fixed-point representation of a small integer.
    pub fn from_int(n: i32) -> (r: FixedPoint)
        ensures
            r.raw == n * (FX_SCALE as int),
    {
        FixedPoint { raw: (n as i64) * FX_SCALE }
    }

    /// Builds a value directly from its raw bits.
    pub fn from_raw(raw: i64) -> (r: FixedPoint)
        ensures
            r.raw == raw,
    {
        FixedPoint { raw }
    }

    /// Saturating addition, the protocol's only addition.
    pub fn add_sat(self, other: FixedPoint) -> (r: FixedPoint)
        ensures
            r.v() == fx_add(self.v(), other.v()),
    {
        let s: i128 = (self.raw as i128) + (other.raw as i128);
        if s > i64::MAX as i128 {
            FixedPoint { raw: i64::MAX }
        } else if s < i64::MIN as i128 {
            FixedPoint { raw: i64::MIN }
        } else {
            FixedPoint { raw: s as i64 }
        }
    }

    /// Saturating fixed-point multiplication, the protocol's only
    /// multiplication: exact integer product, floor-rescale, clamp.
    pub fn mul_sat(self, other: FixedPoint) -> (r: FixedPoint)
        ensures
            r.v() == fx_mul(self.v(), other.v()),
    {
        let neg: bool = (self.raw < 0) != (other.raw < 0);
        let ma: u128 = abs_to_u128(self.raw);
        let mb: u128 = abs_to_u128(other.raw);
        proof {
            lemma_abs_mul_bound(self.raw as int, other.raw as int, ma as int, mb as int);
        }
        let mp: u128 = ma * mb;
        if neg {
            let q: u128 = (mp + 65535) / 65536;
            proof {
                lemma_product_sign_neg(self.raw as int, other.raw as int, ma as int, mb as int);
                lemma_neg_floor_div(mp as int, 65536);
            }
            if q >= 9223372036854775808u128 {
                proof {
                    lemma_sat_low(self.v() * other.v() / (FX_SCALE as int), q as int);
                }
                FixedPoint { raw: i64::MIN }
            } else {
                FixedPoint { raw: -(q as i64) }
            }
        } else {
            let q: u128 = mp / 65536;
            proof {
                lemma_product_sign_pos(self.raw as int, other.raw as int, ma as int, mb as int);
            }
            if q > i64::MAX as u128 {
                FixedPoint { raw: i64::MAX }
            } else {
                FixedPoint { raw: q as i64 }
            }
        }
    }

    /// Numeric comparison of two fixed-point values.
    pub fn ge(self, other: FixedPoint) -> (r: bool)
        ensures
            r == (self.v() >= other.v()),
    {
        self.raw >= other.raw
    }
}

/// The absolute value of an `i64`, widened so that `i64::MIN` is exact.
fn abs_to_u128(x: i64) -> (r: u128)
    ensures
        x >= 0 ==> r == x as int,
        x < 0 ==> r == -(x as int),
{
    if x >= 0 {
        x as u128
    } else {
        let w: i128 = x as i128;
        (-w) as u128
    }
}

/// The product of two absolute values of `i64`s stays below `2^126`.
proof fn lemma_abs_mul_bound(a: int, b: int, ma: int, mb: int)
    requires
        ma == if a >= 0 { a } else { -a },
        mb == if b >= 0 { b } else { -b },
        i64::MIN <= a <= i64::MAX,
        i64::MIN <= b <= i64::MAX,
    ensures
        0 <= ma * mb <= 0x40000000000000000000000000000000,
{
    assert(0 <= ma <= 0x8000000000000000);
    assert(0 <= mb <= 0x8000000000000000);
    assert(ma * mb <= 0x8000000000000000 * 0x8000000000000000) by (nonlinear_arith)
        requires
            0 <= ma <= 0x8000000000000000,
            0 <= mb <= 0x8000000000000000,
    ;
    assert(0 <= ma * mb) by (nonlinear_arith)
        requires
            0 <= ma,
            0 <= mb,
    ;
}

/// When the signs differ, the true product is the negated magnitude product.
proof fn lemma_product_sign_neg(a: int, b: int, ma: int, mb: int)
    requires
        ma == if a >= 0 { a } else { -a },
        mb == if b >= 0 { b } else { -b },
        (a < 0) != (b < 0),
    ensures
        a * b == -(ma * mb),
    decreases 0int,
{
    assert(a * b == -(ma * mb)) by (nonlinear_arith)
        requires
            ma == if a >= 0 { a } else { -a },
            mb == if b >= 0 { b } else { -b },
            (a < 0) != (b < 0),
    ;
}

/// When the signs agree, the true product is the magnitude product.
proof fn lemma_product_sign_pos(a: int, b: int, ma: int, mb: int)
    requires
        ma == if a >= 0 { a } else { -a },
        mb == if b >= 0 { b } else { -b },
        (a < 0) == (b < 0),
    ensures
        a * b == ma * mb,
{
    assert(a * b == ma * mb) by (nonlinear_arith)
        requires
            ma == if a >= 0 { a } else { -a },
            mb == if b >= 0 { b } else { -b },
            (a < 0) == (b < 0),
    ;
}

/// Division of a negated non-negative integer rounds the same way as the
/// rounded-up division of the magnitude, negated: `(-m)/d == -((m+d-1)/d)`.
proof fn lemma_neg_floor_div(m: int, d: int)
    requires
        m >= 0,
        d > 0,
    ensures
        (-m) / d == -((m + d - 1) / d),
{
    let q = m / d;
    let r = m % d;
    vstd::arithmetic::div_mod::lemma_fundamental_div_mod(m, d);
    vstd::arithmetic::div_mod::lemma_mod_bound(m, d);
    if r == 0 {
        assert(-m == (-q) * d + 0) by (nonlinear_arith)
            requires
                m == d * q + r,
                r == 0,
        ;
        vstd::arithmetic::div_mod::lemma_fundamental_div_mod_converse(-m, d, -q, 0);
        assert(m + d - 1 == q * d + (d - 1)) by (nonlinear_arith)
            requires
                m == d * q + r,
                r == 0,
        ;
        vstd::arithmetic::div_mod::lemma_fundamental_div_mod_converse(m + d - 1, d, q, d - 1);
    } else {
        assert(-m == (-q - 1) * d + (d - r)) by (nonlinear_arith)
            requires
                m == d * q + r,
        ;
        vstd::arithmetic::div_mod::lemma_fundamental_div_mod_converse(-m, d, -q - 1, d - r);
        assert(m + d - 1 == (q + 1) * d + (r - 1)) by (nonlinear_arith)
            requires
                m == d * q + r,
        ;
        vstd::arithmetic::div_mod::lemma_fundamental_div_mod_converse(m + d - 1, d, q + 1, r - 1);
    }
}

/// A quotient magnitude at or above `2^63` saturates the negated result.
proof fn lemma_sat_low(x: int, q: int)
    requires
        x == -q,
        q >= 0x8000000000000000,
    ensures
        sat64(x) == i64::MIN as int,
{
}

} // verus!
