//! Saturating Q31.32 fixed-point arithmetic.
//!
//! Every sample, frequency, coefficient and intermediate value of this
//! library is an `i64` holding `SCALE` units per 1.0.  All operations
//! saturate at the `i64` range instead of overflowing, and division by
//! zero saturates toward the sign of the dividend, so every function in
//! this module is total: no input panics and no input is rejected.

use vstd::prelude::*;
use vstd::arithmetic::mul::*;

verus! {

/// One unit of the Q31.32 format: the integer that stands for 1.0.
pub const SCALE: i64 = 4294967296;

/// Magnitude of a mathematical integer.
pub open spec fn abs_s(a: int) -> int {
    if a >= 0 {
        a
    } else {
        -a
    }
}

/// Saturation into the `i64` range.
pub open spec fn sat64(x: int) -> int {
    if x > i64::MAX as int {
        i64::MAX as int
    } else if x < i64::MIN as int {
        i64::MIN as int
    } else {
        x
    }
}

/// Division truncating toward zero, as the hardware division of the
/// executable code does.  Unspecified divisor sign handling never arises:
/// every caller splits into magnitudes first.
pub open spec fn tdiv(a: int, b: int) -> int
    recommends
        b != 0,
{
    if (a < 0) == (b < 0) {
        abs_s(a) / abs_s(b)
    } else {
        -(abs_s(a) / abs_s(b))
    }
}

/// The saturating fixed-point product `(a * b) / SCALE`.
pub open spec fn qmul_s(a: int, b: int) -> int {
    sat64(tdiv(a * b, SCALE as int))
}

/// The saturating fixed-point quotient `(a * SCALE) / b`; a zero divisor
/// saturates toward the sign of the dividend, standing in for an infinity.
pub open spec fn qdiv_s(a: int, b: int) -> int {
    if b == 0 {
        if a > 0 {
            i64::MAX as int
        } else if a < 0 {
            i64::MIN as int
        } else {
            0
        }
    } else {
        sat64(tdiv(a * (SCALE as int), b))
    }
}

/// The saturating integer quotient `a / d`, truncating toward zero.
pub open spec fn divc_s(a: int, d: int) -> int {
    sat64(tdiv(a, d))
}

/// Fractional-part remainder: `a` modulo one unit, with the sign of `a`,
/// the truncating behaviour of a hardware `%`.
pub open spec fn frac1_s(a: int) -> int {
    if a >= 0 {
        a % (SCALE as int)
    } else {
        -((-a) % (SCALE as int))
    }
}

pub open spec fn imin(a: int, b: int) -> int {
    if a <= b {
        a
    } else {
        b
    }
}

pub open spec fn imax(a: int, b: int) -> int {
    if a >= b {
        a
    } else {
        b
    }
}

/// The magnitude and the sign of a product distribute over its factors.
proof fn lemma_abs_mul(a: int, b: int)
    ensures
        abs_s(a * b) == abs_s(a) * abs_s(b),
        a != 0 && b != 0 ==> ((a * b < 0) <==> ((a < 0) != (b < 0))),
{
    assert(abs_s(a * b) == abs_s(a) * abs_s(b) && (a != 0 && b != 0 ==> ((a * b < 0) <==> ((a
        < 0) != (b < 0))))) by (nonlinear_arith);
}

fn mag(a: i64) -> (m: u64)
    ensures
        m as int == abs_s(a as int),
{
    if a >= 0 {
        a as u64
    } else {
        (-(a as i128)) as u64
    }
}

fn from_mag(neg: bool, m: u128) -> (r: i64)
    ensures
        r as int == sat64(
            if neg {
                -(m as int)
            } else {
                m as int
            },
        ),
{
    if neg {
        if m >= 9223372036854775808u128 {
            i64::MIN
        } else {
            (-(m as i128)) as i64
        }
    } else {
        if m >= 9223372036854775808u128 {
            i64::MAX
        } else {
            m as i64
        }
    }
}

/// Saturating fixed-point multiplication.
pub fn qmul(a: i64, b: i64) -> (r: i64)
    ensures
        r as int == qmul_s(a as int, b as int),
{
    let neg: bool = (a < 0) != (b < 0);
    let ma: u128 = mag(a) as u128;
    let mb: u128 = mag(b) as u128;
    proof {
        lemma_mul_upper_bound(ma as int, 0x8000_0000_0000_0000, mb as int, 0x8000_0000_0000_0000);
        lemma_abs_mul(a as int, b as int);
    }
    let p: u128 = ma * mb;
    let q: u128 = p / 4294967296u128;
    from_mag(neg, q)
}

/// Saturating fixed-point division, total in the divisor.
pub fn qdiv(a: i64, b: i64) -> (r: i64)
    ensures
        r as int == qdiv_s(a as int, b as int),
{
    if b == 0 {
        if a > 0 {
            i64::MAX
        } else if a < 0 {
            i64::MIN
        } else {
            0
        }
    } else {
        let neg: bool = (a < 0) != (b < 0);
        let ma: u128 = mag(a) as u128;
        let mb: u128 = mag(b) as u128;
        proof {
            lemma_mul_upper_bound(ma as int, 0x8000_0000_0000_0000, SCALE as int, 0x1_0000_0000);
            lemma_abs_mul(a as int, SCALE as int);
        }
        let p: u128 = ma * 4294967296u128;
        let q: u128 = p / mb;
        from_mag(neg, q)
    }
}

/// Saturating integer division by a positive constant, truncating toward
/// zero.
pub fn divc(a: i64, d: i64) -> (r: i64)
    requires
        d > 0,
    ensures
        r as int == divc_s(a as int, d as int),
{
    let ma: u128 = mag(a) as u128;
    let q: u128 = ma / (d as u128);
    from_mag(a < 0, q)
}

/// Fractional-part remainder, keeping the sign of the argument.
pub fn qfrac(a: i64) -> (r: i64)
    ensures
        r as int == frac1_s(a as int),
{
    let m: u64 = mag(a) % 4294967296u64;
    if a < 0 {
        -(m as i64)
    } else {
        m as i64
    }
}

/// Narrow a wide intermediate sum back into the saturating `i64` range.
pub fn sat_narrow(x: i128) -> (r: i64)
    ensures
        r as int == sat64(x as int),
{
    if x > i64::MAX as i128 {
        i64::MAX
    } else if x < i64::MIN as i128 {
        i64::MIN
    } else {
        x as i64
    }
}

} // verus!
