//! Fixed-point trigonometry and exponentials for the filter coefficient
//! formulas: a rational sine approximation on [0, pi], the half-angle
//! cosine, and a cubic-fraction base-2 exponential. Each function's
//! contract states its exact integer value and its range; the
//! approximation error against the real functions is below a third of a
//! percent, the engine's documented coefficient precision.

use vstd::prelude::*;

verus! {

use crate::fixed::Fx;
use crate::fixed::FP_ONE;
use crate::fixed::fx_mul_spec;
use crate::fixed::fx_ratio_spec;
use crate::fixed::fx_mul;
use crate::fixed::fx_ratio;
use crate::fixed::pow2_small;
use crate::fixed::lemma_fx_mul_mag;
use vstd::arithmetic::power2::pow2;

/// Pi in Q16.16.
pub const FX_PI: i64 = 205887;

/// Two pi in Q16.16.
pub const FX_TWO_PI: i64 = 411774;

/// Pi squared in Q16.16.
pub const FX_PI_SQ: i64 = 646814;

/// log2(10) in Q16.16.
pub const FX_LOG2_10: i64 = 217705;

/// The sine of `x` (Q16.16 radians, `0 <= x <= pi`), by the rational
/// approximation `16 x (pi - x) / (5 pi^2 - 4 x (pi - x))`.
pub open spec fn sin_q_spec(x: int) -> int {
    let t = fx_mul_spec(x, FX_PI - x);
    fx_ratio_spec(16 * t, 5 * FX_PI_SQ - 4 * t)
}

/// The cosine of `x` (Q16.16 radians, `0 <= x <= pi`), via the
/// half-angle identity `cos x = 1 - 2 sin^2(x/2)`.
pub open spec fn cos_q_spec(x: int) -> int {
    let s = sin_q_spec(x / 2);
    FP_ONE - 2 * fx_mul_spec(s, s)
}

/// The argument product of the sine approximation stays below a quarter
/// of pi squared, which keeps its numerator below its denominator.
proof fn lemma_sin_arg_bound(x: int)
    requires
        0 <= x <= FX_PI,
    ensures
        0 <= fx_mul_spec(x, FX_PI - x) <= 161702,
{
    assert(0 <= x * (FX_PI - x) && 4 * (x * (FX_PI - x)) <= FX_PI * FX_PI) by (nonlinear_arith)
        requires
            0 <= x <= FX_PI,
    ;
    assert(FX_PI * FX_PI == 42389456769) by (nonlinear_arith)
        requires
            FX_PI == 205887,
    ;
    vstd::arithmetic::div_mod::lemma_div_is_ordered(x * (FX_PI - x), 10597364192, FP_ONE as int);
    vstd::arithmetic::div_mod::lemma_fundamental_div_mod_converse(10597364192, 65536, 161702, 61920);
    vstd::arithmetic::div_mod::lemma_div_pos_is_pos(x * (FX_PI - x), FP_ONE as int);
}

/// Executable sine on [0, pi]; the result lies in [0, 1].
pub fn sin_q(x: Fx) -> (r: Fx)
    requires
        0 <= x <= FX_PI,
    ensures
        r == sin_q_spec(x as int),
        0 <= r <= FP_ONE,
{
    let t: Fx = fx_mul(x, FX_PI - x);
    proof {
        lemma_sin_arg_bound(x as int);
    }
    let num: Fx = 16 * t;
    let den: Fx = 5 * FX_PI_SQ - 4 * t;
    let r: Fx = fx_ratio(num, den);
    proof {
        // numerator at most denominator, so the ratio is at most one
        assert(num * (FP_ONE as int) <= den * (FP_ONE as int) && 0 <= num * (FP_ONE as int))
            by (nonlinear_arith)
            requires
                0 <= num as int <= den as int,
                FP_ONE == 65536,
        ;
        vstd::arithmetic::div_mod::lemma_div_is_ordered(
            num as int * (FP_ONE as int),
            den as int * (FP_ONE as int),
            den as int,
        );
        vstd::arithmetic::div_mod::lemma_div_multiples_vanish(FP_ONE as int, den as int);
        vstd::arithmetic::div_mod::lemma_div_pos_is_pos(num as int * (FP_ONE as int), den as int);
    }
    r
}

/// Executable cosine on [0, pi]; the result lies in [-1, 1].
pub fn cos_q(x: Fx) -> (r: Fx)
    requires
        0 <= x <= FX_PI,
    ensures
        r == cos_q_spec(x as int),
        -FP_ONE <= r <= FP_ONE,
{
    let s: Fx = sin_q(x / 2);
    let sq: Fx = fx_mul(s, s);
    proof {
        lemma_fx_mul_mag(s as int, s as int);
        vstd::arithmetic::div_mod::lemma_div_pos_is_pos((s as int) * (s as int), FP_ONE as int);
        assert(0 <= (s as int) * (s as int)) by (nonlinear_arith);
    }
    FP_ONE - 2 * sq
}

/// The cubic fraction of the base-2 exponential: `2^f` for
/// `0 <= f < 1`, as `1 + f (c1 + f (c2 + f c3))` with the engine's
/// Q16.16 coefficients.
pub open spec fn exp2_frac_spec(f: int) -> int {
    FP_ONE + fx_mul_spec(45426 + fx_mul_spec(15743 + fx_mul_spec(3408, f), f), f)
}

/// `2^(y / FP_ONE)` in Q16.16, for `|y|` at most ten octaves: whole
/// octaves by shifting, the fractional part by the cubic fraction, and
/// negative arguments via the reciprocal.
pub open spec fn exp2_q_spec(y: int) -> int {
    if y >= 0 {
        exp2_frac_spec(y % (FP_ONE as int)) * pow2((y / (FP_ONE as int)) as nat)
    } else {
        let inv = exp2_frac_spec((-y) % (FP_ONE as int)) * pow2(((-y) / (FP_ONE as int)) as nat);
        fx_ratio_spec(FP_ONE as int, inv)
    }
}

/// The cubic fraction stays within one octave above one; each Horner
/// stage stays small.
proof fn lemma_exp2_frac_bounds(f: int)
    requires
        0 <= f < FP_ONE,
    ensures
        0 <= fx_mul_spec(3408, f) <= 3408,
        0 <= fx_mul_spec(15743 + fx_mul_spec(3408, f), f) <= 19151,
        0 <= fx_mul_spec(45426 + fx_mul_spec(15743 + fx_mul_spec(3408, f), f), f) <= 64577,
        FP_ONE <= exp2_frac_spec(f) <= 2 * FP_ONE,
{
    lemma_fx_mul_mag(3408, f);
    vstd::arithmetic::div_mod::lemma_div_pos_is_pos(3408 * f, FP_ONE as int);
    assert(0 <= 3408 * f) by (nonlinear_arith)
        requires
            f >= 0,
    ;
    let c3 = fx_mul_spec(3408, f);
    lemma_fx_mul_mag(15743 + c3, f);
    assert(0 <= (15743 + c3) * f) by (nonlinear_arith)
        requires
            f >= 0,
            c3 >= 0,
    ;
    vstd::arithmetic::div_mod::lemma_div_pos_is_pos((15743 + c3) * f, FP_ONE as int);
    let c2 = fx_mul_spec(15743 + c3, f);
    lemma_fx_mul_mag(45426 + c2, f);
    assert(0 <= (45426 + c2) * f) by (nonlinear_arith)
        requires
            f >= 0,
            c2 >= 0,
    ;
    vstd::arithmetic::div_mod::lemma_div_pos_is_pos((45426 + c2) * f, FP_ONE as int);
}

/// Executable `2^(y / FP_ONE)`; the result is positive and at most
/// `2^11` in real units.
pub fn exp2_q(y: Fx) -> (r: Fx)
    requires
        -10 * FP_ONE <= y <= 10 * FP_ONE,
    ensures
        r == exp2_q_spec(y as int),
        0 < r <= 0x8000000,
{
    if y >= 0 {
        let n: u32 = (y / FP_ONE) as u32;
        let f: Fx = y % FP_ONE;
        proof {
            vstd::arithmetic::div_mod::lemma_mod_bound(y as int, FP_ONE as int);
            vstd::arithmetic::div_mod::lemma_div_pos_is_pos(y as int, FP_ONE as int);
            vstd::arithmetic::div_mod::lemma_div_is_ordered(y as int, 10 * FP_ONE as int, FP_ONE as int);
            vstd::arithmetic::div_mod::lemma_div_multiples_vanish(10, FP_ONE as int);
            lemma_exp2_frac_bounds(f as int);
        }
        let p: Fx = FP_ONE + fx_mul(45426 + fx_mul(15743 + fx_mul(3408, f), f), f);
        let sh: u64 = pow2_small(n);
        proof {
            vstd::arithmetic::power2::lemma2_to64();
            if n < 10 {
                vstd::arithmetic::power2::lemma_pow2_strictly_increases(n as nat, 10nat);
            }
            assert(p as int * pow2(n as nat) <= 131072 * 1024 && p as int * pow2(n as nat) > 0)
                by (nonlinear_arith)
                requires
                    0 < p as int <= 131072,
                    0 < pow2(n as nat) <= 1024,
            ;
        }
        p * (sh as i64)
    } else {
        let m: Fx = -y;
        let n: u32 = (m / FP_ONE) as u32;
        let f: Fx = m % FP_ONE;
        proof {
            vstd::arithmetic::div_mod::lemma_mod_bound(m as int, FP_ONE as int);
            vstd::arithmetic::div_mod::lemma_div_pos_is_pos(m as int, FP_ONE as int);
            vstd::arithmetic::div_mod::lemma_div_is_ordered(m as int, 10 * FP_ONE as int, FP_ONE as int);
            vstd::arithmetic::div_mod::lemma_div_multiples_vanish(10, FP_ONE as int);
            lemma_exp2_frac_bounds(f as int);
        }
        let p: Fx = FP_ONE + fx_mul(45426 + fx_mul(15743 + fx_mul(3408, f), f), f);
        let sh: u64 = pow2_small(n);
        proof {
            vstd::arithmetic::power2::lemma2_to64();
            if n < 10 {
                vstd::arithmetic::power2::lemma_pow2_strictly_increases(n as nat, 10nat);
            }
            assert(p as int * pow2(n as nat) <= 131072 * 1024 && p as int * pow2(n as nat)
                >= 65536) by (nonlinear_arith)
                requires
                    65536 <= p as int <= 131072,
                    1 <= pow2(n as nat) <= 1024,
            ;
        }
        let inv: Fx = p * (sh as i64);
        let r: Fx = fx_ratio(FP_ONE, inv);
        proof {
            // one scaled up and divided by at most 2^27 stays positive
            vstd::arithmetic::div_mod::lemma_div_is_ordered_by_denominator(
                (FP_ONE as int) * (FP_ONE as int),
                inv as int,
                134217728,
            );
            vstd::arithmetic::div_mod::lemma_fundamental_div_mod_converse(
                4294967296,
                134217728,
                32,
                0,
            );
            vstd::arithmetic::div_mod::lemma_div_is_ordered_by_denominator(
                (FP_ONE as int) * (FP_ONE as int),
                FP_ONE as int,
                inv as int,
            );
            vstd::arithmetic::div_mod::lemma_div_multiples_vanish(FP_ONE as int, FP_ONE as int);
        }
        r
    }
}

} // verus!
