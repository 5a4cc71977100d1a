//! Fixed-point numeric kernels: sine, cosine, base-two logarithm and
//! exponential, and a square root.
//!
//! Each kernel is an ordinary verified function whose contract names its
//! exact result through a spec-level twin, so the filter and decay
//! contracts built on top of them pin every computed value.  The
//! trigonometric kernels evaluate Taylor polynomials that are accurate
//! over the angular-frequency range the filter can request (the cutoff
//! clamp keeps that range inside [0, 4*pi/5]) and merely stay bounded
//! elsewhere.

use vstd::prelude::*;
use vstd::arithmetic::div_mod::{
    lemma_basic_div,
    lemma_div_is_ordered,
    lemma_div_multiples_vanish,
    lemma_div_nonincreasing,
};
use vstd::arithmetic::mul::{lemma_mul_inequality, lemma_mul_upper_bound};
use vstd::arithmetic::power2::{lemma2_to64, lemma2_to64_rest, lemma_pow2_strictly_increases, pow2};
use crate::fixed::{divc, divc_s, imax, imin, qmul, qmul_s, sat64, SCALE};

verus! {

/// The natural logarithm of two in Q31.32 units.
pub const LN2: i64 = 2977044472;

/// The degree-13 Taylor polynomial of the sine, evaluated in saturating
/// Q31.32 arithmetic and clamped into [-1, 1].
pub open spec fn sin_s(x: int) -> int {
    let x2 = qmul_s(x, x);
    let x3 = qmul_s(x2, x);
    let x5 = qmul_s(x3, x2);
    let x7 = qmul_s(x5, x2);
    let x9 = qmul_s(x7, x2);
    let x11 = qmul_s(x9, x2);
    let x13 = qmul_s(x11, x2);
    let sum = x - divc_s(x3, 6) + divc_s(x5, 120) - divc_s(x7, 5040) + divc_s(x9, 362880) - divc_s(
        x11,
        39916800,
    ) + divc_s(x13, 6227020800);
    imax(imin(sum, SCALE as int), -(SCALE as int))
}

/// The degree-14 Taylor polynomial of the cosine, evaluated in saturating
/// Q31.32 arithmetic and clamped into [-1, 1].
pub open spec fn cos_s(x: int) -> int {
    let x2 = qmul_s(x, x);
    let x4 = qmul_s(x2, x2);
    let x6 = qmul_s(x4, x2);
    let x8 = qmul_s(x6, x2);
    let x10 = qmul_s(x8, x2);
    let x12 = qmul_s(x10, x2);
    let x14 = qmul_s(x12, x2);
    let sum = (SCALE as int) - divc_s(x2, 2) + divc_s(x4, 24) - divc_s(x6, 720) + divc_s(
        x8,
        40320,
    ) - divc_s(x10, 3628800) + divc_s(x12, 479001600) - divc_s(x14, 87178291200);
    imax(imin(sum, SCALE as int), -(SCALE as int))
}

/// Sine of an angle given in Q31.32 radians, clamped into one unit.
pub fn sin_q(x: i64) -> (r: i64)
    ensures
        r as int == sin_s(x as int),
        -(SCALE as int) <= (r as int) && (r as int) <= SCALE as int,
{
    let x2: i64 = qmul(x, x);
    let x3: i64 = qmul(x2, x);
    let x5: i64 = qmul(x3, x2);
    let x7: i64 = qmul(x5, x2);
    let x9: i64 = qmul(x7, x2);
    let x11: i64 = qmul(x9, x2);
    let x13: i64 = qmul(x11, x2);
    let t3: i64 = divc(x3, 6);
    let t5: i64 = divc(x5, 120);
    let t7: i64 = divc(x7, 5040);
    let t9: i64 = divc(x9, 362880);
    let t11: i64 = divc(x11, 39916800);
    let t13: i64 = divc(x13, 6227020800);
    let sum: i128 = x as i128 - t3 as i128 + t5 as i128 - t7 as i128 + t9 as i128 - t11 as i128
        + t13 as i128;
    if sum > SCALE as i128 {
        SCALE
    } else if sum < -(SCALE as i128) {
        -SCALE
    } else {
        sum as i64
    }
}

/// Cosine of an angle given in Q31.32 radians, clamped into one unit.
pub fn cos_q(x: i64) -> (r: i64)
    ensures
        r as int == cos_s(x as int),
        -(SCALE as int) <= (r as int) && (r as int) <= SCALE as int,
{
    let x2: i64 = qmul(x, x);
    let x4: i64 = qmul(x2, x2);
    let x6: i64 = qmul(x4, x2);
    let x8: i64 = qmul(x6, x2);
    let x10: i64 = qmul(x8, x2);
    let x12: i64 = qmul(x10, x2);
    let x14: i64 = qmul(x12, x2);
    let t2: i64 = divc(x2, 2);
    let t4: i64 = divc(x4, 24);
    let t6: i64 = divc(x6, 720);
    let t8: i64 = divc(x8, 40320);
    let t10: i64 = divc(x10, 3628800);
    let t12: i64 = divc(x12, 479001600);
    let t14: i64 = divc(x14, 87178291200);
    let sum: i128 = SCALE as i128 - t2 as i128 + t4 as i128 - t6 as i128 + t8 as i128 - t10 as i128
        + t12 as i128 - t14 as i128;
    if sum > SCALE as i128 {
        SCALE
    } else if sum < -(SCALE as i128) {
        -SCALE
    } else {
        sum as i64
    }
}

/// `r` is the integer square root of `n`.
pub open spec fn is_sqrt(n: int, r: int) -> bool {
    0 <= r && r * r <= n && n < (r + 1) * (r + 1)
}

/// The integer square root, as the unique root the predicate admits.
pub open spec fn isqrt_s(n: int) -> int
    recommends
        n >= 0,
{
    choose|r: int| is_sqrt(n, r)
}

proof fn lemma_sqrt_unique(n: int, r1: int, r2: int)
    by (nonlinear_arith)
    requires
        is_sqrt(n, r1),
        is_sqrt(n, r2),
    ensures
        r1 == r2,
{
}

/// Integer square root by bisection.
pub fn isqrt(n: u128) -> (r: u64)
    ensures
        is_sqrt(n as int, r as int),
        r as int == isqrt_s(n as int),
{
    let mut lo: u128 = 0;
    let mut hi: u128 = 18446744073709551616u128;
    proof {
        assert((18446744073709551616 as int) * (18446744073709551616 as int) > n as int)
            by (nonlinear_arith);
    }
    while hi - lo > 1
        invariant
            lo < hi,
            hi <= 18446744073709551616u128,
            (lo as int) * (lo as int) <= n as int,
            (n as int) < (hi as int) * (hi as int),
        decreases hi - lo,
    {
        let mid: u128 = lo + (hi - lo) / 2;
        proof {
            lemma_mul_upper_bound(
                mid as int,
                0xffff_ffff_ffff_ffff,
                mid as int,
                0xffff_ffff_ffff_ffff,
            );
        }
        if mid * mid <= n {
            lo = mid;
        } else {
            hi = mid;
        }
    }
    proof {
        assert(is_sqrt(n as int, lo as int));
        assert(exists|r: int| is_sqrt(n as int, r));
        lemma_sqrt_unique(n as int, lo as int, isqrt_s(n as int));
    }
    lo as u64
}

/// The Q31.32 square root: the root of `x` units is the integer root of
/// `x * SCALE`, and a negative argument is treated as zero.
pub open spec fn sqrt_q_s(x: int) -> int {
    isqrt_s(imax(x, 0) * (SCALE as int))
}

/// Square root in Q31.32 units.
pub fn sqrt_q(x: i64) -> (r: i64)
    ensures
        r as int == sqrt_q_s(x as int),
        0 <= (r as int) && (r as int) < 281474976710656,
{
    let xx: u128 = if x <= 0 {
        0u128
    } else {
        (x as u128) * 4294967296u128
    };
    proof {
        if x > 0 {
            lemma_mul_upper_bound(x as int, 0x8000_0000_0000_0000, SCALE as int, 0x1_0000_0000);
        }
    }
    let r: u64 = isqrt(xx);
    proof {
        assert(xx as int == imax(x as int, 0) * (SCALE as int));
        if r as int >= 281474976710656 {
            lemma_mul_inequality(281474976710656, r as int, r as int);
            lemma_mul_upper_bound(
                imax(x as int, 0),
                0x8000_0000_0000_0000,
                SCALE as int,
                0x1_0000_0000,
            );
            assert((281474976710656 as int) * (281474976710656 as int) > (0x8000_0000_0000_0000 as int)
                * (0x1_0000_0000 as int));
            assert(false);
        }
    }
    r as i64
}

/// How many times the mantissa loop halves its argument before it lies
/// under two units.
pub open spec fn norm_exp_s(y: int) -> int
    recommends
        y >= SCALE as int,
    decreases y,
{
    if y < 2 * (SCALE as int) {
        0
    } else {
        norm_exp_s(y / 2) + 1
    }
}

/// The mantissa in [1, 2) units that the halving loop leaves.
pub open spec fn norm_mant_s(y: int) -> int
    recommends
        y >= SCALE as int,
    decreases y,
{
    if y < 2 * (SCALE as int) {
        y
    } else {
        norm_mant_s(y / 2)
    }
}

fn log2_norm(y: u64) -> (r: (u64, u64))
    requires
        y >= 4294967296,
    ensures
        r.0 as int == norm_exp_s(y as int),
        r.1 as int == norm_mant_s(y as int),
        4294967296 <= r.1 < 8589934592,
        (r.1 as int) * pow2(r.0 as nat) <= y as int,
        r.0 <= 31,
    decreases y,
{
    if y < 8589934592 {
        proof {
            lemma2_to64();
        }
        (0, y)
    } else {
        let (e, m) = log2_norm(y / 2);
        proof {
            lemma2_to64();
            lemma2_to64_rest();
            // m * pow2(e + 1) == 2 * (m * pow2(e)) <= 2 * (y / 2) <= y
            assert((m as int) * pow2((e + 1) as nat) == 2 * ((m as int) * pow2(e as nat)))
                by (nonlinear_arith)
                requires
                    pow2((e + 1) as nat) == 2 * pow2(e as nat),
            {
            }
            assert(pow2((e + 1) as nat) == 2 * pow2(e as nat)) by {
                vstd::arithmetic::power2::lemma_pow2_adds(e as nat, 1);
                lemma2_to64();
            }
            // rule out e + 1 > 31: mantissa at least one unit forces the
            // product past y
            if e >= 31 {
                lemma_mul_inequality(4294967296, m as int, pow2(e as nat) as int);
                lemma_pow2_strictly_increases(31, e as nat);
                assert(false);
            }
        }
        (e + 1, m)
    }
}

/// Thirty-two bits of a base-two logarithm's fraction by repeated
/// squaring of a mantissa in [1, 2) units.
pub open spec fn frac_iter_s(f: int, y: int, k: nat) -> int
    decreases k,
{
    if k == 0 {
        f
    } else {
        let y2 = (y * y) / (SCALE as int);
        if y2 >= 2 * (SCALE as int) {
            frac_iter_s(2 * f + 1, y2 / 2, (k - 1) as nat)
        } else {
            frac_iter_s(2 * f, y2, (k - 1) as nat)
        }
    }
}

fn log2_frac(f: u64, y: u64, k: u64) -> (r: u64)
    requires
        4294967296 <= y < 8589934592,
        k <= 32,
        (f as int) < pow2((64 - k) as nat),
    ensures
        r as int == frac_iter_s(f as int, y as int, k as nat),
        (r as int) < (f as int + 1) * pow2(k as nat),
    decreases k,
{
    if k == 0 {
        proof {
            lemma2_to64();
        }
        f
    } else {
        proof {
            lemma_mul_upper_bound(y as int, 0x1_ffff_ffff, y as int, 0x1_ffff_ffff);
            lemma_div_is_ordered(
                (y as int) * (y as int),
                (0x1_ffff_ffff as int) * 0x1_ffff_ffff,
                4294967296,
            );
            lemma_mul_inequality(4294967296, y as int, y as int);
            lemma_div_is_ordered(
                (4294967296 as int) * 4294967296,
                (y as int) * (y as int),
                4294967296,
            );
            lemma_div_multiples_vanish(4294967296, 4294967296);
        }
        let y2w: u128 = (y as u128) * (y as u128) / 4294967296u128;
        let y2: u64 = y2w as u64;
        proof {
            lemma2_to64();
            lemma2_to64_rest();
            assert(pow2((64 - k) as nat) <= pow2(63nat)) by {
                if k >= 2 {
                    lemma_pow2_strictly_increases((64 - k) as nat, 63nat);
                }
            }
            assert(pow2((64 - (k - 1)) as nat) == 2 * pow2((64 - k) as nat)) by {
                vstd::arithmetic::power2::lemma_pow2_adds((64 - k) as nat, 1);
            }
        }
        if y2 >= 8589934592 {
            let rr: u64 = log2_frac(2 * f + 1, y2 / 2, k - 1);
            proof {
                assert((rr as int) < (f as int + 1) * pow2(k as nat)) by (nonlinear_arith)
                    requires
                        (rr as int) < ((2 * (f as int) + 1) + 1) * pow2((k - 1) as nat),
                        pow2(k as nat) == 2 * pow2((k - 1) as nat),
                {
                }
            }
            rr
        } else {
            let rr: u64 = log2_frac(2 * f, y2, k - 1);
            proof {
                assert((rr as int) < (f as int + 1) * pow2(k as nat)) by (nonlinear_arith)
                    requires
                        (rr as int) < (2 * (f as int) + 1) * pow2((k - 1) as nat),
                        pow2(k as nat) == 2 * pow2((k - 1) as nat),
                        pow2((k - 1) as nat) >= 1,
                {
                }
                assert(pow2((k - 1) as nat) >= 1) by {
                    vstd::arithmetic::power2::lemma_pow2_pos((k - 1) as nat);
                }
            }
            rr
        }
    }
}

/// The base-two logarithm in Q31.32 units: the octave count of the
/// argument plus thirty-two fraction bits from repeated squaring.
pub open spec fn log2_s(x: int) -> int
    recommends
        x >= SCALE as int,
{
    norm_exp_s(x) * (SCALE as int) + frac_iter_s(0, norm_mant_s(x), 32)
}

/// Base-two logarithm in Q31.32 units, for arguments of at least one
/// unit.
pub fn log2_q(x: i64) -> (r: i64)
    requires
        x >= SCALE,
    ensures
        r as int == log2_s(x as int),
        0 <= (r as int) && (r as int) < 32 * (SCALE as int),
{
    let nm: (u64, u64) = log2_norm(x as u64);
    let e: u64 = nm.0;
    let m: u64 = nm.1;
    proof {
        lemma2_to64();
    }
    let f: u64 = log2_frac(0, m, 32);
    proof {
        assert(norm_exp_s(x as int) >= 0) by {
            lemma_norm_exp_nonneg(x as int);
        }
    }
    (e as i64) * SCALE + (f as i64)
}

proof fn lemma_norm_exp_nonneg(y: int)
    ensures
        norm_exp_s(y) >= 0,
    decreases y,
{
    if y >= 2 * (SCALE as int) {
        lemma_norm_exp_nonneg(y / 2);
    }
}

/// The exponential Taylor polynomial to degree nine, in saturating
/// Q31.32 arithmetic, clamped to be nonnegative.
pub open spec fn exp_taylor_s(z: int) -> int {
    let z2 = qmul_s(z, z);
    let z3 = qmul_s(z2, z);
    let z4 = qmul_s(z3, z);
    let z5 = qmul_s(z4, z);
    let z6 = qmul_s(z5, z);
    let z7 = qmul_s(z6, z);
    let z8 = qmul_s(z7, z);
    let z9 = qmul_s(z8, z);
    let sum = (SCALE as int) + z + divc_s(z2, 2) + divc_s(z3, 6) + divc_s(z4, 24) + divc_s(z5, 120)
        + divc_s(z6, 720) + divc_s(z7, 5040) + divc_s(z8, 40320) + divc_s(z9, 362880);
    imax(sat64(sum), 0)
}

/// A Q31.32 product of factors within one unit stays within the smaller
/// factor.
proof fn lemma_qmul_unit(a: int, b: int)
    requires
        0 <= a <= SCALE as int,
        0 <= b <= SCALE as int,
    ensures
        0 <= qmul_s(a, b) <= b,
{
    lemma_mul_upper_bound(a, SCALE as int, b, b);
    if b > 0 {
        lemma_div_is_ordered(a * b, (SCALE as int) * b, SCALE as int);
        lemma_div_multiples_vanish(b, SCALE as int);
    } else {
        lemma_mul_upper_bound(a, SCALE as int, b, 0);
    }
    vstd::arithmetic::mul::lemma_mul_nonnegative(a, b);
    vstd::arithmetic::div_mod::lemma_div_pos_is_pos(a * b, SCALE as int);
}

/// The exponential Taylor polynomial; on [0, 1] units the result lies
/// between one and ten units.
#[verifier::rlimit(60)]
pub fn exp_taylor(z: i64) -> (r: i64)
    ensures
        r as int == exp_taylor_s(z as int),
        r >= 0,
        0 <= z <= SCALE ==> (SCALE as int) <= (r as int) && (r as int) <= 10 * (SCALE as int),
{
    let z2: i64 = qmul(z, z);
    let z3: i64 = qmul(z2, z);
    let z4: i64 = qmul(z3, z);
    let z5: i64 = qmul(z4, z);
    let z6: i64 = qmul(z5, z);
    let z7: i64 = qmul(z6, z);
    let z8: i64 = qmul(z7, z);
    let z9: i64 = qmul(z8, z);
    let t2: i64 = divc(z2, 2);
    let t3: i64 = divc(z3, 6);
    let t4: i64 = divc(z4, 24);
    let t5: i64 = divc(z5, 120);
    let t6: i64 = divc(z6, 720);
    let t7: i64 = divc(z7, 5040);
    let t8: i64 = divc(z8, 40320);
    let t9: i64 = divc(z9, 362880);
    let sum: i128 = SCALE as i128 + z as i128 + t2 as i128 + t3 as i128 + t4 as i128 + t5 as i128
        + t6 as i128 + t7 as i128 + t8 as i128 + t9 as i128;
    proof {
        if 0 <= z <= SCALE {
            lemma_qmul_unit(z as int, z as int);
            lemma_qmul_unit(z2 as int, z as int);
            lemma_qmul_unit(z3 as int, z as int);
            lemma_qmul_unit(z4 as int, z as int);
            lemma_qmul_unit(z5 as int, z as int);
            lemma_qmul_unit(z6 as int, z as int);
            lemma_qmul_unit(z7 as int, z as int);
            lemma_qmul_unit(z8 as int, z as int);
            lemma_divc_unit(z2 as int, 2);
            lemma_divc_unit(z3 as int, 6);
            lemma_divc_unit(z4 as int, 24);
            lemma_divc_unit(z5 as int, 120);
            lemma_divc_unit(z6 as int, 720);
            lemma_divc_unit(z7 as int, 5040);
            lemma_divc_unit(z8 as int, 40320);
            lemma_divc_unit(z9 as int, 362880);
        }
    }
    let r: i64 = if sum > i64::MAX as i128 {
        i64::MAX
    } else if sum < 0 {
        0
    } else {
        sum as i64
    };
    r
}

proof fn lemma_divc_unit(a: int, d: int)
    requires
        0 <= a <= SCALE as int,
        d >= 1,
    ensures
        0 <= divc_s(a, d) <= a,
{
    lemma_div_nonincreasing(a, d);
    vstd::arithmetic::div_mod::lemma_div_pos_is_pos(a, d);
}

fn pow2_u128(k: u64) -> (r: u128)
    requires
        k <= 63,
    ensures
        r == pow2(k as nat),
        r >= 1,
    decreases k,
{
    if k == 0 {
        proof {
            lemma2_to64();
        }
        1
    } else {
        let p: u128 = pow2_u128(k - 1);
        proof {
            lemma2_to64();
            lemma2_to64_rest();
            if k - 1 < 63 {
                lemma_pow2_strictly_increases((k - 1) as nat, 63nat);
            }
            vstd::arithmetic::power2::lemma_pow2_adds((k - 1) as nat, 1);
        }
        2 * p
    }
}

/// The base-two exponential in Q31.32 units: octave shifts of the
/// exponential Taylor polynomial of the fractional part, saturating
/// upward and truncating toward zero downward.
pub open spec fn exp2_s(e: int) -> int {
    let s = SCALE as int;
    if e >= 0 {
        let n = e / s;
        let g = e % s;
        sat64(exp_taylor_s(qmul_s(g, LN2 as int)) * (pow2(n as nat) as int))
    } else {
        let m = -e;
        let n = m / s;
        let g = m % s;
        if g == 0 {
            exp_taylor_s(0) / (pow2(n as nat) as int)
        } else {
            exp_taylor_s(qmul_s(s - g, LN2 as int)) / (pow2((n + 1) as nat) as int)
        }
    }
}

/// Base-two exponential in Q31.32 units, total over the whole `i64`
/// range.
pub fn exp2_q(e: i64) -> (r: i64)
    ensures
        r as int == exp2_s(e as int),
        r >= 0,
{
    if e >= 0 {
        let eu: u64 = e as u64;
        let n: u64 = eu / 4294967296u64;
        let g: u64 = eu % 4294967296u64;
        let z: i64 = qmul(g as i64, LN2);
        proof {
            lemma_qmul_unit(g as int, LN2 as int);
        }
        let val: i64 = exp_taylor(z);
        if n >= 63 {
            proof {
                lemma2_to64();
                lemma2_to64_rest();
                if n > 63 {
                    lemma_pow2_strictly_increases(63nat, n as nat);
                }
                lemma_mul_inequality(SCALE as int, val as int, pow2(n as nat) as int);
                lemma_mul_inequality(pow2(63nat) as int, pow2(n as nat) as int, SCALE as int);
            }
            i64::MAX
        } else {
            let p: u128 = pow2_u128(n);
            proof {
                lemma2_to64();
                lemma2_to64_rest();
                if n < 63 {
                    lemma_pow2_strictly_increases(n as nat, 63nat);
                }
                lemma_mul_upper_bound(val as int, 10 * (SCALE as int), p as int, pow2(63nat) as int);
            }
            let wide: u128 = (val as u128) * p;
            if wide > i64::MAX as u128 {
                i64::MAX
            } else {
                wide as i64
            }
        }
    } else {
        let m: u64 = (-(e as i128)) as u64;
        let n: u64 = m / 4294967296u64;
        let g: u64 = m % 4294967296u64;
        if g == 0 {
            let val: i64 = exp_taylor(0);
            proof {
                lemma2_to64();
                lemma2_to64_rest();
            }
            if n >= 63 {
                proof {
                    if n > 63 {
                        lemma_pow2_strictly_increases(63nat, n as nat);
                    }
                    lemma_basic_div(val as int, pow2(n as nat) as int);
                }
                0
            } else {
                let p: u128 = pow2_u128(n);
                ((val as u128) / p) as i64
            }
        } else {
            let z: i64 = qmul(SCALE - g as i64, LN2);
            proof {
                lemma_qmul_unit((SCALE - g as i64) as int, LN2 as int);
            }
            let val: i64 = exp_taylor(z);
            let sh: u64 = n + 1;
            proof {
                lemma2_to64();
                lemma2_to64_rest();
            }
            if sh >= 63 {
                proof {
                    if sh > 63 {
                        lemma_pow2_strictly_increases(63nat, sh as nat);
                    }
                    lemma_basic_div(val as int, pow2(sh as nat) as int);
                }
                0
            } else {
                let p: u128 = pow2_u128(sh);
                ((val as u128) / p) as i64
            }
        }
    }
}

} // verus!
