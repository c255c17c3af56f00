//! Signed fixed-point scalar with 12 fractional bits on an `i32` backing
//! integer.  All arithmetic is total: overflow wraps silently, exactly as the
//! two's-complement hardware the renderer targets would wrap it.
//!
//! Angles for `sin`/`cos` are measured in revolutions (1.0 is a full turn).

use vstd::prelude::*;

verus! {

/// Number of fractional bits.
pub const FRAC_BITS: u32 = 12;

/// 2^FRAC_BITS, the raw representation of 1.0.
pub const ONE_RAW: i32 = 4096;

/// Wraps a mathematical integer into the value range of `i32`,
/// two's-complement style.
pub open spec fn fx_wrap(x: int) -> int {
    if x % 0x1_0000_0000 > i32::MAX as int {
        x % 0x1_0000_0000 - 0x1_0000_0000
    } else {
        x % 0x1_0000_0000
    }
}

/// Sign of an integer: -1, 0 or 1.
pub open spec fn sign_of(x: int) -> int {
    if x < 0 {
        -1
    } else if x > 0 {
        1
    } else {
        0
    }
}

/// Magnitude of an integer.
pub open spec fn mag(x: int) -> int {
    if x < 0 {
        -x
    } else {
        x
    }
}

/// Truncating (round-toward-zero) division, the semantics of hardware
/// signed division.  `d` must not be 0 for the result to be meaningful.
pub open spec fn tdiv(x: int, d: int) -> int {
    if sign_of(x) == sign_of(d) {
        mag(x) / mag(d)
    } else {
        -(mag(x) / mag(d))
    }
}

/// Raw result of fixed-point addition.
pub open spec fn fx_add(a: int, b: int) -> int {
    fx_wrap(a + b)
}

/// Raw result of fixed-point subtraction.
pub open spec fn fx_sub(a: int, b: int) -> int {
    fx_wrap(a - b)
}

/// Raw result of fixed-point multiplication: the double-width product,
/// floor-shifted right by the fractional bits, wrapped to 32 bits.
pub open spec fn fx_mul(a: int, b: int) -> int {
    fx_wrap((a * b) / 4096)
}

/// Raw result of multiplying a fixed-point value by a plain integer.
pub open spec fn fx_mul_int(a: int, k: int) -> int {
    fx_wrap(a * k)
}

/// Raw result of fixed-point division: the numerator pre-shifted left by the
/// fractional bits, then divided (truncating) by the raw divisor.
pub open spec fn fx_div(a: int, b: int) -> int {
    fx_wrap(tdiv(a * 4096, b))
}

/// Raw result of dividing a fixed-point value by a plain integer
/// (truncating division on the raw value).
pub open spec fn fx_div_int(a: int, k: int) -> int {
    fx_wrap(tdiv(a, k))
}

/// Integer part of a raw fixed-point value, rounding toward zero.
pub open spec fn fx_trunc(a: int) -> int {
    tdiv(a, 4096)
}

/// Raw fixed-point value of the integer `v`.
pub open spec fn fx_from_int(v: int) -> int {
    fx_wrap(v * 4096)
}

/// Raw result of the cosine approximation.  The angle is folded into one
/// period (the representation of `[0, 1)` revolutions), re-centered, and run
/// through a two-step odd polynomial; every step is exact fixed-point
/// arithmetic, so the result is a function of the raw bits alone.
#[verifier::opaque]
pub open spec fn fx_cos(a: int) -> int {
    let m = a % 4096;
    let t = if m + 1024 >= 4096 {
        m + 1024 - 4096
    } else {
        m + 1024
    };
    let x0 = t - 2048;
    let x1 = fx_mul(x0, fx_mul_int(fx_sub(fx_wrap(mag(x0)), 2048), 16));
    fx_add(x1, fx_div_int(fx_mul_int(fx_mul(x1, fx_sub(fx_wrap(mag(x1)), 4096)), 9), 40))
}

/// Raw result of the sine approximation: cosine shifted by a quarter turn.
#[verifier::opaque]
pub open spec fn fx_sin(a: int) -> int {
    fx_cos(fx_sub(a, 1024))
}

/// The trigonometric approximations are exact at angle zero.
pub proof fn lemma_trig_zero()
    ensures
        fx_cos(0) == 4096,
        fx_sin(0) == 0,
{
    reveal(fx_cos);
    reveal(fx_sin);
    assert(0int % 4096 == 0);
    assert(fx_wrap(1024) == 1024);
    assert(fx_sub(fx_wrap(mag(-1024)), 2048) == -1024);
    assert(fx_mul_int(-1024, 16) == -16384);
    assert((-1024 * -16384) / 4096 == 4096);
    assert(fx_mul(-1024, -16384) == 4096);
    assert(fx_sub(fx_wrap(mag(4096)), 4096) == 0);
    assert(fx_mul(4096, 0) == 0);
    assert(fx_div_int(fx_mul_int(0, 9), 40) == 0);
    assert(fx_add(4096, 0) == 4096);
    assert(fx_cos(0) == 4096);
    assert(fx_sub(0, 1024) == -1024);
    assert(-1024int % 4096 == 3072);
    assert(fx_sub(fx_wrap(mag(-2048)), 2048) == 0);
    assert(fx_mul_int(0, 16) == 0);
    assert(fx_mul(-2048, 0) == 0);
    assert(fx_sub(fx_wrap(mag(0)), 4096) == -4096);
    assert(fx_mul(0, -4096) == 0);
    assert(fx_add(0, 0) == 0);
    assert(fx_cos(-1024) == 0);
}

/// A wrapped value always lands in `i32` range.
pub proof fn lemma_fx_wrap_range(x: int)
    ensures
        -0x8000_0000 <= fx_wrap(x) <= 0x7fff_ffff,
{
    assert(0 <= x % 0x1_0000_0000 < 0x1_0000_0000);
}

/// Wrapping turns exact negation into two's-complement negation: for any
/// double-width value, the wraps of `d` and `-d` are negatives of each
/// other — except at the asymmetric point `i32::MIN`, which is its own
/// two's-complement negation.
pub proof fn lemma_fx_wrap_negation(d: int)
    requires
        -0xffff_ffff <= d <= 0xffff_ffff,
        fx_wrap(d) != -0x8000_0000,
    ensures
        fx_wrap(-d) == -fx_wrap(d),
{
    if d == 0 {
        assert(0int % 0x1_0000_0000 == 0);
    } else if d > 0 {
        assert(d % 0x1_0000_0000 == d);
        assert((-d) % 0x1_0000_0000 == -d + 0x1_0000_0000);
    } else {
        assert(d % 0x1_0000_0000 == d + 0x1_0000_0000);
        assert((-d) % 0x1_0000_0000 == -d);
    }
}

/// Wrapping is the identity on values already in `i32` range.
pub proof fn lemma_fx_wrap_id(x: int)
    requires
        -0x8000_0000 <= x <= 0x7fff_ffff,
    ensures
        fx_wrap(x) == x,
{
    if x >= 0 {
        assert(x % 0x1_0000_0000 == x);
    } else {
        assert(x % 0x1_0000_0000 == x + 0x1_0000_0000);
    }
}

/// A fixed-point number; `raw` holds the value scaled by 2^FRAC_BITS.
#[derive(Clone, Copy, Debug, PartialEq, Eq, Structural)]
pub struct Fixed {
    pub raw: i32,
}

/// Wraps an `i64` into `i32` range, two's-complement style; the workhorse
/// behind every arithmetic method.
fn wrap_to_i32(q: i64) -> (r: i32)
    ensures
        r as int == fx_wrap(q as int),
{
    let m: i64 = q.checked_rem_euclid(0x1_0000_0000).unwrap();
    if m > 0x7fff_ffff {
        (m - 0x1_0000_0000) as i32
    } else {
        m as i32
    }
}

/// Wraps an `i64` directly into a `Fixed`.
fn wrap_fixed(q: i64) -> (r: Fixed)
    ensures
        r.raw as int == fx_wrap(q as int),
{
    Fixed { raw: wrap_to_i32(q) }
}

/// The truncating-division spec `tdiv` agrees with the case split that
/// `checked_div` is specified by, and never grows the magnitude.
proof fn lemma_tdiv_checked(x: int, d: int)
    requires
        d != 0,
    ensures
        tdiv(x, d) == if x == 0 {
            0int
        } else if x > 0 && d > 0 {
            x / d
        } else if x < 0 && d < 0 {
            (x * -1) / (d * -1)
        } else if x < 0 {
            ((x * -1) / d) * -1
        } else {
            (x / (d * -1)) * -1
        },
        mag(tdiv(x, d)) <= mag(x),
{
    assert(mag(x) / mag(d) <= mag(x) && mag(x) / mag(d) >= 0) by (nonlinear_arith)
        requires
            d != 0,
    ;
}

impl Fixed {
    /// The value 0.
    pub fn zero() -> (r: Fixed)
        ensures
            r.raw == 0,
    {
        Fixed { raw: 0 }
    }

    /// The value 1.
    pub fn one() -> (r: Fixed)
        ensures
            r.raw == ONE_RAW,
    {
        Fixed { raw: ONE_RAW }
    }

    /// Builds a fixed-point number directly from its raw representation.
    pub fn from_raw(raw: i32) -> (r: Fixed)
        ensures
            r.raw == raw,
    {
        Fixed { raw }
    }

    /// The fixed-point representation of the integer `v`.
    pub fn from_int(v: i32) -> (r: Fixed)
        ensures
            r.raw as int == fx_from_int(v as int),
    {
        proof {
            assert((v as int) * 4096 <= 0x7fff_ffff_ffff_ffff && (v as int) * 4096
                >= -0x8000_0000_0000_0000) by (nonlinear_arith)
                requires
                    -0x8000_0000 <= v as int <= 0x7fff_ffff,
            ;
        }
        wrap_fixed((v as i64) * 4096i64)
    }

    /// Total addition; wraps on overflow.
    pub fn add(self, rhs: Fixed) -> (r: Fixed)
        ensures
            r.raw as int == fx_add(self.raw as int, rhs.raw as int),
    {
        wrap_fixed(self.raw as i64 + rhs.raw as i64)
    }

    /// Total subtraction; wraps on overflow.
    pub fn sub(self, rhs: Fixed) -> (r: Fixed)
        ensures
            r.raw as int == fx_sub(self.raw as int, rhs.raw as int),
    {
        wrap_fixed(self.raw as i64 - rhs.raw as i64)
    }

    /// Total negation; wraps on overflow (of `i32::MIN`).
    pub fn neg(self) -> (r: Fixed)
        ensures
            r.raw as int == fx_wrap(-(self.raw as int)),
    {
        wrap_fixed(-(self.raw as i64))
    }

    /// Total absolute value; wraps on overflow (of `i32::MIN`).
    pub fn abs(self) -> (r: Fixed)
        ensures
            r.raw as int == fx_wrap(mag(self.raw as int)),
    {
        if self.raw < 0 {
            self.neg()
        } else {
            self
        }
    }

    /// Total multiplication: exact double-width product, floor-shifted down
    /// by the fractional bits, wrapped to 32 bits.
    pub fn mul(self, rhs: Fixed) -> (r: Fixed)
        ensures
            r.raw as int == fx_mul(self.raw as int, rhs.raw as int),
    {
        proof {
            lemma_i32_product_fits(self.raw as int, rhs.raw as int);
        }
        let p: i64 = (self.raw as i64) * (rhs.raw as i64);
        proof {
            assert(i64::MIN as int <= (p as int) / 4096 <= i64::MAX as int) by (nonlinear_arith)
                requires
                    i64::MIN as int <= p as int <= i64::MAX as int,
            ;
        }
        let q: i64 = p.checked_div_euclid(4096i64).unwrap();
        Fixed { raw: wrap_to_i32(q) }
    }

    /// Multiplication by a plain integer.
    pub fn mul_int(self, k: i32) -> (r: Fixed)
        ensures
            r.raw as int == fx_mul_int(self.raw as int, k as int),
    {
        proof {
            lemma_i32_product_fits(self.raw as int, k as int);
        }
        wrap_fixed((self.raw as i64) * (k as i64))
    }

    /// Fixed-point division (numerator pre-shifted, truncating).
    pub fn div(self, rhs: Fixed) -> (r: Fixed)
        requires
            rhs.raw != 0,
        ensures
            r.raw as int == fx_div(self.raw as int, rhs.raw as int),
    {
        proof {
            assert((self.raw as int) * 4096 <= 0x7fff_ffff_ffff_ffff && (self.raw as int) * 4096
                >= -0x8000_0000_0000_0000) by (nonlinear_arith)
                requires
                    -0x8000_0000 <= self.raw as int <= 0x7fff_ffff,
            ;
        }
        let n: i64 = (self.raw as i64) * 4096i64;
        proof {
            lemma_tdiv_checked(n as int, rhs.raw as int);
        }
        let q: i64 = n.checked_div(rhs.raw as i64).unwrap();
        Fixed { raw: wrap_to_i32(q) }
    }

    /// Division of the raw value by a plain integer (truncating).
    pub fn div_int(self, k: i32) -> (r: Fixed)
        requires
            k != 0,
        ensures
            r.raw as int == fx_div_int(self.raw as int, k as int),
    {
        proof {
            lemma_tdiv_checked(self.raw as int, k as int);
        }
        let q: i64 = (self.raw as i64).checked_div(k as i64).unwrap();
        Fixed { raw: wrap_to_i32(q) }
    }

    /// Cosine of an angle measured in revolutions (1.0 is a full turn).
    /// A fixed-point polynomial approximation; exact on quarter turns.
    pub fn cos(self) -> (r: Fixed)
        ensures
            r.raw as int == fx_cos(self.raw as int),
    {
        proof {
            reveal(fx_cos);
        }
        let m: i32 = self.raw.checked_rem_euclid(4096).unwrap();
        let t: i32 = if m + 1024 >= 4096 {
            m + 1024 - 4096
        } else {
            m + 1024
        };
        let x0 = Fixed { raw: t - 2048 };
        let x1 = x0.mul(x0.abs().sub(Fixed { raw: 2048 }).mul_int(16));
        x1.add(x1.mul(x1.abs().sub(Fixed { raw: 4096 })).mul_int(9).div_int(40))
    }

    /// Sine of an angle measured in revolutions: cosine a quarter turn back.
    pub fn sin(self) -> (r: Fixed)
        ensures
            r.raw as int == fx_sin(self.raw as int),
    {
        proof {
            reveal(fx_sin);
        }
        self.sub(Fixed { raw: 1024 }).cos()
    }

    /// Integer part, rounding toward zero.
    pub fn trunc(self) -> (r: i32)
        ensures
            r as int == fx_trunc(self.raw as int),
            -524288 <= r <= 524288,
    {
        proof {
            lemma_tdiv_checked(self.raw as int, 4096);
            assert(mag(self.raw as int) / 4096 <= 524288) by (nonlinear_arith)
                requires
                    mag(self.raw as int) <= 0x8000_0000,
            ;
        }
        let q: i64 = (self.raw as i64).checked_div(4096i64).unwrap();
        q as i32
    }
}

/// The product of two values in `i32` range fits in an `i64`.
proof fn lemma_i32_product_fits(a: int, b: int)
    requires
        -0x8000_0000 <= a <= 0x7fff_ffff,
        -0x8000_0000 <= b <= 0x7fff_ffff,
    ensures
        -0x8000_0000_0000_0000 <= a * b <= 0x7fff_ffff_ffff_ffff,
        a * b <= 0x4000_0000_0000_0000,
        a * b >= -0x4000_0000_0000_0000,
{
    assert(-0x4000_0000_0000_0000 <= a * b <= 0x4000_0000_0000_0000) by (nonlinear_arith)
        requires
            -0x8000_0000 <= a <= 0x7fff_ffff,
            -0x8000_0000 <= b <= 0x7fff_ffff,
    ;
}

} // verus!
