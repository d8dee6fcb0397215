//! Signed fixed-point scalars.
//!
//! Every geometric quantity in this library (coordinates, matrix entries,
//! rotation sines and cosines, zoom factors, angles) is an `i64` counting
//! units of `1/SCALE`.  Products are scaled back down with division that
//! rounds toward minus infinity, which is exactly what `/` means on `int`
//! in specifications (Euclidean division by the positive constant `SCALE`),
//! so the executable routines below can be given exact contracts.

use vstd::prelude::*;
use vstd::arithmetic::div_mod::lemma_fundamental_div_mod;
use vstd::arithmetic::div_mod::lemma_fundamental_div_mod_converse;
use vstd::arithmetic::div_mod::lemma_div_is_ordered;
use vstd::arithmetic::div_mod::lemma_div_is_ordered_by_denominator;
use vstd::arithmetic::div_mod::lemma_div_nonincreasing;

verus! {

/// Number of fixed-point units per 1.0; the representation of one.
pub const SCALE: i64 = 65536;

/// Largest magnitude a stored scalar may take (2^38, about 4.2 million
/// units): chosen so that a scaled product of two well-formed scalars and
/// a four-term dot product of such products always fit in the intermediate
/// 128-bit arithmetic used by the executable code.
pub const FP_BOUND: i64 = 274877906944;

/// A scalar small enough to be stored in the library's data structures.
pub open spec fn fp_wf(x: int) -> bool {
    -FP_BOUND <= x <= FP_BOUND
}

/// The fixed-point product: the exact integer product, scaled back down,
/// rounded toward minus infinity.
pub open spec fn fp_mul(a: int, b: int) -> int {
    (a * b) / (SCALE as int)
}

/// Floor division of `p` by `d` for a signed dividend, via unsigned
/// machine division on the magnitude.  The result never grows in
/// magnitude.
pub fn div_floor(p: i128, d: u64) -> (r: i128)
    requires
        1 <= d,
        -0x40000000000000000000000000000000 < p < 0x40000000000000000000000000000000,
    ensures
        r == p as int / d as int,
        p >= 0 ==> 0 <= r <= p,
        p < 0 ==> p <= r <= 0,
{
    if p >= 0 {
        let q: u128 = (p as u128) / (d as u128);
        proof {
            lemma_div_nonincreasing(p as int, d as int);
            vstd::arithmetic::div_mod::lemma_div_pos_is_pos(p as int, d as int);
        }
        q as i128
    } else {
        let n: u128 = (-p) as u128;
        let q: u128 = n / (d as u128);
        let rem: u128 = n % (d as u128);
        proof {
            lemma_fundamental_div_mod(n as int, d as int);
            lemma_div_nonincreasing(n as int, d as int);
        }
        if rem == 0 {
            proof {
                assert((-(q as int)) * (d as int) == -((d as int) * (q as int)))
                    by (nonlinear_arith);
                lemma_fundamental_div_mod_converse(p as int, d as int, -(q as int), 0);
            }
            -(q as i128)
        } else {
            proof {
                assert((-(q as int) - 1) * (d as int)
                    == -((d as int) * (q as int)) - (d as int)) by (nonlinear_arith);
                lemma_fundamental_div_mod_converse(
                    p as int,
                    d as int,
                    -(q as int) - 1,
                    d as int - rem as int,
                );
                // The floored quotient still has magnitude at most |p|:
                // q + 1 <= n, split on whether n is 1 or d is 1.
                if d == 1 {
                    assert(rem as int == 0);  // contradiction with this branch
                } else {
                    if n == 1 {
                        vstd::arithmetic::div_mod::lemma_basic_div(1, d as int);
                    } else {
                        lemma_div_is_ordered_by_denominator(n as int, 2, d as int);
                        lemma_fundamental_div_mod(n as int, 2);
                    }
                }
            }
            -(q as i128) - 1
        }
    }
}

/// Fixed-point product of two well-formed scalars, kept wide: the result
/// always fits comfortably in an `i128` (magnitude at most 2^60).
pub fn fp_mul_wide(a: i64, b: i64) -> (r: i128)
    requires
        fp_wf(a as int),
        fp_wf(b as int),
    ensures
        r == fp_mul(a as int, b as int),
        -0x1000000000000000 <= r <= 0x1000000000000000,
{
    proof {
        assert((a as int) * (b as int) <= 0x10000000000000000000
            && (a as int) * (b as int) >= -0x10000000000000000000) by (nonlinear_arith)
            requires
                -0x4000000000 <= a as int <= 0x4000000000,
                -0x4000000000 <= b as int <= 0x4000000000,
        ;
    }
    let p: i128 = (a as i128) * (b as i128);
    let r: i128 = div_floor(p, 65536);
    proof {
        lemma_div_is_ordered(p as int, 0x10000000000000000000, 65536);
        lemma_div_is_ordered(-0x10000000000000000000, p as int, 65536);
        lemma_fundamental_div_mod_converse(0x10000000000000000000, 65536, 0x1000000000000000, 0);
        lemma_fundamental_div_mod_converse(-0x10000000000000000000, 65536, -0x1000000000000000, 0);
    }
    r
}

/// Fixed-point product of an already widened scalar with a well-formed
/// one; used for chained blending products whose intermediate values
/// outgrow the storable range but stay far inside `i128`.
pub fn fp_mul_wide2(a: i128, b: i64) -> (r: i128)
    requires
        -0x1000000000000000 <= a <= 0x1000000000000000,
        fp_wf(b as int),
    ensures
        r == fp_mul(a as int, b as int),
        -0x400000000000000000000 <= r <= 0x400000000000000000000,
{
    proof {
        assert((a as int) * (b as int) <= 0x4000000000000000000000000
            && (a as int) * (b as int) >= -0x4000000000000000000000000) by (nonlinear_arith)
            requires
                -0x1000000000000000 <= a as int <= 0x1000000000000000,
                -0x4000000000 <= b as int <= 0x4000000000,
        ;
    }
    let p: i128 = a * (b as i128);
    let r: i128 = div_floor(p, 65536);
    proof {
        lemma_div_is_ordered(p as int, 0x4000000000000000000000000, 65536);
        lemma_div_is_ordered(-0x4000000000000000000000000, p as int, 65536);
        lemma_fundamental_div_mod_converse(
            0x4000000000000000000000000, 65536, 0x400000000000000000000, 0);
        lemma_fundamental_div_mod_converse(
            -0x4000000000000000000000000, 65536, -0x400000000000000000000, 0);
    }
    r
}

/// Fixed-point product narrowed back to a storable scalar; the caller
/// must know that the mathematical result is storable.
pub fn fp_mul_i64(a: i64, b: i64) -> (r: i64)
    requires
        fp_wf(a as int),
        fp_wf(b as int),
        fp_wf(fp_mul(a as int, b as int)),
    ensures
        r == fp_mul(a as int, b as int),
        fp_wf(r as int),
{
    let w: i128 = fp_mul_wide(a, b);
    w as i64
}

/// Fixed-point reciprocal of a positive scalar: the representation of
/// `1/b`, rounded toward minus infinity.  Always storable.
pub fn fp_recip(b: i64) -> (r: i64)
    requires
        1 <= b,
    ensures
        r == (SCALE as int * SCALE as int) / b as int,
        0 <= r <= SCALE as int * SCALE as int,
        fp_wf(r as int),
{
    let q: u64 = 4294967296u64 / (b as u64);
    proof {
        lemma_div_nonincreasing(4294967296, b as int);
        vstd::arithmetic::div_mod::lemma_div_pos_is_pos(4294967296, b as int);
    }
    q as i64
}

/// Floor division of a storable scalar by a small positive constant,
/// e.g. the pointer-motion sensitivity divisor.
pub fn div_floor_i64(x: i64, d: u64) -> (r: i64)
    requires
        1 <= d,
        fp_wf(x as int),
    ensures
        r == x as int / d as int,
        fp_wf(r as int),
{
    let w: i128 = div_floor(x as i128, d);
    w as i64
}

/// The product of two scalars in the unit interval `[0, SCALE]` stays in
/// the unit interval.
pub proof fn lemma_fp_mul_unit(a: int, b: int)
    requires
        0 <= a <= SCALE as int,
        0 <= b <= SCALE as int,
    ensures
        0 <= fp_mul(a, b) <= SCALE as int,
{
    assert(a * b <= 65536int * 65536 && a * b >= 0) by (nonlinear_arith)
        requires
            0 <= a <= 65536,
            0 <= b <= 65536,
    ;
    lemma_div_is_ordered(a * b, 65536int * 65536, 65536);
    lemma_div_is_ordered(0, a * b, 65536);
    lemma_fundamental_div_mod_converse(65536int * 65536, 65536, 65536, 0);
    lemma_fundamental_div_mod_converse(0, 65536, 0, 0);
}

/// Multiplying a scalar by the representation of one gives it back
/// exactly, and multiplying by zero gives zero, whatever the scalar.
pub proof fn lemma_fp_mul_one_zero(a: int)
    ensures
        fp_mul(a, SCALE as int) == a,
        fp_mul(SCALE as int, a) == a,
        fp_mul(a, 0) == 0,
        fp_mul(0, a) == 0,
{
    lemma_fundamental_div_mod_converse(a * (SCALE as int), 65536, a, 0);
    lemma_fundamental_div_mod_converse((SCALE as int) * a, 65536, a, 0);
    assert(a * 0 == 0);
    assert(0 * a == 0);
    lemma_fundamental_div_mod_converse(0, 65536, 0, 0);
}

} // verus!
