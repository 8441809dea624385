//! Q16.16 fixed-point arithmetic for the render path.
//!
//! Every amplitude, gain, frequency and envelope level in the engine is an
//! `Fx`: an `i64` that carries a real number scaled by `FP_ONE` (65536).
//! All operations clamp their result into `[-FX_MAX, FX_MAX]`, so no
//! arithmetic on the render path can overflow or panic; within that range
//! the contracts state the exact integer value of every result.
//!
//! The control context writes parameters as IEEE 754 single-precision bit
//! patterns; `f32_bits_to_fx` gives those bits an exact integer meaning
//! here, truncating toward zero below the 2^-16 resolution and saturating
//! at the representable range.

use vstd::prelude::*;

verus! {

use vstd::arithmetic::power2::pow2;
use vstd::arithmetic::power2::lemma_pow2_unfold;
use vstd::arithmetic::power2::lemma_pow2_pos;

/// The fixed-point carrier type: value v stands for the real number v / 65536.
pub type Fx = i64;

/// One (1.0) in Q16.16.
pub const FP_ONE: i64 = 65536;

/// Largest magnitude an `Fx` may carry (2^47, i.e. about 2.1 * 10^9 in real units).
pub const FX_MAX: i64 = 0x8000_0000_0000;

/// A value the engine's arithmetic can produce: magnitude at most `FX_MAX`.
pub open spec fn fx_bounded(v: int) -> bool {
    -FX_MAX <= v <= FX_MAX
}

/// Saturation of an unbounded intermediate into the representable range.
pub open spec fn fx_clamp(v: int) -> int {
    if v > FX_MAX {
        FX_MAX as int
    } else if v < -FX_MAX {
        -FX_MAX as int
    } else {
        v
    }
}

/// Division by a positive divisor, truncated toward zero (the rounding the
/// engine uses everywhere, matching Rust's integer `/`).
pub open spec fn div_trunc(p: int, d: int) -> int {
    if p >= 0 {
        p / d
    } else {
        -((-p) / d)
    }
}

/// The product of two fixed-point values: scale down by `FP_ONE`, saturate.
pub open spec fn fx_mul_spec(a: int, b: int) -> int {
    fx_clamp(div_trunc(a * b, FP_ONE as int))
}

/// The saturating sum of two fixed-point values.
pub open spec fn fx_add_spec(a: int, b: int) -> int {
    fx_clamp(a + b)
}

/// The fixed-point quotient `num / den` (for positive `den`): scale the
/// numerator up by `FP_ONE`, divide truncating toward zero, saturate.
pub open spec fn fx_ratio_spec(num: int, den: int) -> int {
    fx_clamp(div_trunc(num * (FP_ONE as int), den))
}

/// Division of a fixed-point value by a plain integer count.
pub open spec fn fx_div_int_spec(a: int, d: int) -> int {
    div_trunc(a, d)
}

/// Saturate an `i128` intermediate into the fixed-point range.
pub fn fx_clamp128(v: i128) -> (r: Fx)
    ensures
        r == fx_clamp(v as int),
        fx_bounded(r as int),
{
    if v > FX_MAX as i128 {
        FX_MAX
    } else if v < -FX_MAX as i128 {
        -FX_MAX
    } else {
        v as i64
    }
}

/// Fixed-point multiplication.
pub fn fx_mul(a: Fx, b: Fx) -> (r: Fx)
    requires
        fx_bounded(a as int),
        fx_bounded(b as int),
    ensures
        r == fx_mul_spec(a as int, b as int),
        fx_bounded(r as int),
{
    proof {
        assert((a as int) * (b as int) <= (FX_MAX as int) * (FX_MAX as int) && (a as int) * (
        b as int) >= -((FX_MAX as int) * (FX_MAX as int))) by (nonlinear_arith)
            requires
                -FX_MAX <= a as int <= FX_MAX,
                -FX_MAX <= b as int <= FX_MAX,
        ;
    }
    let p: i128 = (a as i128) * (b as i128);
    let q: i128 = p / (FP_ONE as i128);
    fx_clamp128(q)
}

/// Fixed-point (saturating) addition.
pub fn fx_add(a: Fx, b: Fx) -> (r: Fx)
    requires
        fx_bounded(a as int),
        fx_bounded(b as int),
    ensures
        r == fx_add_spec(a as int, b as int),
        fx_bounded(r as int),
{
    let s: i128 = (a as i128) + (b as i128);
    fx_clamp128(s)
}

/// The saturating difference of two fixed-point values.
pub open spec fn fx_sub_spec(a: int, b: int) -> int {
    fx_clamp(a - b)
}

/// Fixed-point (saturating) subtraction.
pub fn fx_sub(a: Fx, b: Fx) -> (r: Fx)
    requires
        fx_bounded(a as int),
        fx_bounded(b as int),
    ensures
        r == fx_sub_spec(a as int, b as int),
        fx_bounded(r as int),
{
    let s: i128 = (a as i128) - (b as i128);
    fx_clamp128(s)
}

/// Fixed-point division `num / den` by a positive denominator.
pub fn fx_ratio(num: Fx, den: Fx) -> (r: Fx)
    requires
        fx_bounded(num as int),
        den > 0,
    ensures
        r == fx_ratio_spec(num as int, den as int),
        fx_bounded(r as int),
{
    proof {
        assert(-(FX_MAX as int) * 65536 <= (num as int) * (FP_ONE as int) <= (FX_MAX as int)
            * 65536) by (nonlinear_arith)
            requires
                -FX_MAX <= num as int <= FX_MAX,
                FP_ONE == 65536,
                FX_MAX == 0x8000_0000_0000,
        ;
    }
    let p: i128 = (num as i128) * (FP_ONE as i128);
    let q: i128 = p / (den as i128);
    fx_clamp128(q)
}

/// Divide a fixed-point value by a positive integer count (used by the
/// final voice normalization).
pub fn fx_div_int(a: Fx, d: u64) -> (r: Fx)
    requires
        fx_bounded(a as int),
        d > 0,
    ensures
        r == fx_div_int_spec(a as int, d as int),
        fx_bounded(r as int),
{
    let q: i64 = ((a as i128) / (d as i128)) as i64;
    proof {
        if a >= 0 {
            vstd::arithmetic::div_mod::lemma_div_nonincreasing(a as int, d as int);
            vstd::arithmetic::div_mod::lemma_div_pos_is_pos(a as int, d as int);
        } else {
            vstd::arithmetic::div_mod::lemma_div_nonincreasing(-a as int, d as int);
            vstd::arithmetic::div_mod::lemma_div_pos_is_pos(-a as int, d as int);
        }
    }
    q
}

/// Remainder by a positive divisor with the dividend's sign (the
/// rounding of Rust's `%`), used by the phase accumulator.
pub open spec fn rem_trunc(p: int, d: int) -> int {
    if p >= 0 {
        p % d
    } else {
        -((-p) % d)
    }
}

/// Wrap a phase value into `(-FP_ONE, FP_ONE)`: the fractional part of a
/// cycle count, keeping the sign of the accumulator.
pub fn fx_wrap_phase(v: Fx) -> (r: Fx)
    requires
        fx_bounded(v as int),
    ensures
        r == rem_trunc(v as int, FP_ONE as int),
        -FP_ONE < r < FP_ONE,
{
    let r: i64 = v % FP_ONE;
    proof {
        if v >= 0 {
            vstd::arithmetic::div_mod::lemma_mod_bound(v as int, FP_ONE as int);
        } else {
            vstd::arithmetic::div_mod::lemma_mod_bound(-v as int, FP_ONE as int);
        }
    }
    r
}

/// Bring a plain integer (a sample count, a velocity) into fixed point.
pub open spec fn int_to_fx_spec(v: int) -> int {
    fx_clamp(v * (FP_ONE as int))
}

/// Bring a plain unsigned integer into fixed point, saturating.
pub fn u64_to_fx(v: u64) -> (r: Fx)
    ensures
        r == int_to_fx_spec(v as int),
        fx_bounded(r as int),
{
    if v > (FX_MAX / FP_ONE) as u64 {
        proof {
            assert((v as int) * (FP_ONE as int) > FX_MAX as int) by (nonlinear_arith)
                requires
                    v as int > (FX_MAX / FP_ONE) as int,
                    FX_MAX == 0x8000_0000_0000,
                    FP_ONE == 65536,
            ;
        }
        FX_MAX
    } else {
        v as i64 * FP_ONE
    }
}

/// What the control side's `value as u64` cast means here: truncate the
/// fixed-point value toward zero and saturate negative values at zero, as
/// Rust's float-to-unsigned cast does.
pub open spec fn fx_to_u64_spec(v: int) -> int {
    if v <= 0 {
        0
    } else {
        v / (FP_ONE as int)
    }
}

/// Truncate a fixed-point value to a plain unsigned integer.
pub fn fx_to_u64(v: Fx) -> (r: u64)
    requires
        fx_bounded(v as int),
    ensures
        r == fx_to_u64_spec(v as int),
        r <= (FX_MAX / FP_ONE) as u64,
{
    if v <= 0 {
        0u64
    } else {
        proof {
            vstd::arithmetic::div_mod::lemma_div_is_ordered(v as int, FX_MAX as int, FP_ONE as int);
        }
        (v / FP_ONE) as u64
    }
}

/// 2^k for small k, as an executable value.
pub fn pow2_small(k: u32) -> (r: u64)
    requires
        k <= 47,
    ensures
        r == pow2(k as nat),
        1 <= r <= 0x8000_0000_0000,
{
    let mut i: u32 = 0;
    let mut r: u64 = 1;
    proof {
        vstd::arithmetic::power2::lemma2_to64();
    }
    while i < k
        invariant
            i <= k <= 47,
            r == pow2(i as nat),
            1 <= r,
            r <= 0x8000_0000_0000,
        decreases k - i,
    {
        proof {
            lemma_pow2_unfold((i + 1) as nat);
            vstd::arithmetic::power2::lemma2_to64_rest();
            if i + 1 < 47 {
                vstd::arithmetic::power2::lemma_pow2_strictly_increases((i + 1) as nat, 47nat);
            }
        }
        r = r * 2;
        i = i + 1;
    }
    r
}

/// The exact meaning this engine gives to an IEEE 754 single-precision bit
/// pattern: the represented real number, scaled by `FP_ONE`, truncated
/// toward zero and saturated at `FX_MAX`. A NaN pattern maps to zero and
/// an infinity to the saturation bound.
pub open spec fn f32_bits_to_fx_spec(bits: int) -> int {
    let sign = bits / 0x8000_0000;
    let e = (bits / 0x80_0000) % 256;
    let m = bits % 0x80_0000;
    let mag = if e == 255 {
        if m != 0 {
            0
        } else {
            FX_MAX as int
        }
    } else if e == 0 {
        0
    } else if e >= 134 {
        if e - 134 >= 24 {
            FX_MAX as int
        } else {
            (0x80_0000 + m) * pow2((e - 134) as nat)
        }
    } else {
        if 134 - e >= 24 {
            0
        } else {
            (0x80_0000 + m) / pow2((134 - e) as nat) as int
        }
    };
    if sign == 0 {
        mag
    } else {
        -mag
    }
}

/// Decode an IEEE 754 single-precision bit pattern into fixed point.
pub fn f32_bits_to_fx(bits: u32) -> (r: Fx)
    ensures
        r == f32_bits_to_fx_spec(bits as int),
        fx_bounded(r as int),
{
    let sign: u32 = bits / 0x8000_0000;
    let e: u32 = (bits / 0x80_0000) % 256;
    let m: u32 = bits % 0x80_0000;
    let mag: u64 = if e == 255 {
        if m != 0 {
            0
        } else {
            FX_MAX as u64
        }
    } else if e == 0 {
        0
    } else if e >= 134 {
        if e - 134 >= 24 {
            FX_MAX as u64
        } else {
            let p: u64 = pow2_small(e - 134);
            proof {
                lemma_pow2_pos((e - 134) as nat);
                vstd::arithmetic::power2::lemma2_to64();
                if e - 134 < 23 {
                    vstd::arithmetic::power2::lemma_pow2_strictly_increases((e - 134) as nat, 23nat);
                }
                assert((0x80_0000 + m as int) * pow2((e - 134) as nat) < 0x8000_0000_0000)
                    by (nonlinear_arith)
                    requires
                        0x80_0000 + m as int <= 0xff_ffff,
                        1 <= pow2((e - 134) as nat) <= 0x80_0000,
                ;
            }
            (0x80_0000 + m) as u64 * p
        }
    } else {
        if 134 - e >= 24 {
            0
        } else {
            let p: u64 = pow2_small(134 - e);
            proof {
                lemma_pow2_pos((134 - e) as nat);
                vstd::arithmetic::div_mod::lemma_div_nonincreasing(
                    (0x80_0000 + m) as int,
                    pow2((134 - e) as nat) as int,
                );
                vstd::arithmetic::div_mod::lemma_div_pos_is_pos(
                    (0x80_0000 + m) as int,
                    pow2((134 - e) as nat) as int,
                );
            }
            (0x80_0000 + m) as u64 / p
        }
    };
    if sign == 0 {
        mag as i64
    } else {
        -(mag as i64)
    }
}

/// Multiplying by one is exact.
pub proof fn lemma_fx_mul_one(a: int)
    requires
        fx_bounded(a),
    ensures
        fx_mul_spec(a, FP_ONE as int) == a,
{
    if a >= 0 {
        vstd::arithmetic::div_mod::lemma_div_multiples_vanish(a, FP_ONE as int);
        assert(a * (FP_ONE as int) == (FP_ONE as int) * a) by (nonlinear_arith);
    } else {
        vstd::arithmetic::div_mod::lemma_div_multiples_vanish(-a, FP_ONE as int);
        assert(-(a * (FP_ONE as int)) == (FP_ONE as int) * (-a)) by (nonlinear_arith);
    }
}

/// Multiplying by zero gives zero.
pub proof fn lemma_fx_mul_zero(a: int)
    ensures
        fx_mul_spec(a, 0) == 0,
{
    assert(a * 0 == 0) by (nonlinear_arith);
    vstd::arithmetic::div_mod::lemma_div_of0(FP_ONE as int);
}

/// A factor of magnitude at most one never increases a value's magnitude.
/// This is what keeps the feedback paths of the effects stable.
pub proof fn lemma_fx_mul_mag(a: int, b: int)
    requires
        fx_bounded(a),
        -FP_ONE <= b <= FP_ONE,
    ensures
        -(if a >= 0 { a } else { -a }) <= fx_mul_spec(a, b) <= (if a >= 0 { a } else { -a }),
{
    let p = a * b;
    let abs_a = if a >= 0 { a } else { -a };
    assert(-(abs_a * (FP_ONE as int)) <= p <= abs_a * (FP_ONE as int)) by (nonlinear_arith)
        requires
            -FP_ONE <= b <= FP_ONE,
            abs_a == (if a >= 0 { a } else { -a }),
            p == a * b,
            FP_ONE == 65536,
    ;
    if p >= 0 {
        vstd::arithmetic::div_mod::lemma_div_is_ordered(p, abs_a * (FP_ONE as int), FP_ONE as int);
        vstd::arithmetic::div_mod::lemma_div_multiples_vanish(abs_a, FP_ONE as int);
        assert(abs_a * (FP_ONE as int) == (FP_ONE as int) * abs_a) by (nonlinear_arith);
        vstd::arithmetic::div_mod::lemma_div_pos_is_pos(p, FP_ONE as int);
    } else {
        vstd::arithmetic::div_mod::lemma_div_is_ordered(-p, abs_a * (FP_ONE as int), FP_ONE as int);
        vstd::arithmetic::div_mod::lemma_div_multiples_vanish(abs_a, FP_ONE as int);
        assert(abs_a * (FP_ONE as int) == (FP_ONE as int) * abs_a) by (nonlinear_arith);
        vstd::arithmetic::div_mod::lemma_div_pos_is_pos(-p, FP_ONE as int);
    }
}

/// The fixed-point product does not depend on the order of its factors.
pub proof fn lemma_fx_mul_comm(a: int, b: int)
    ensures
        fx_mul_spec(a, b) == fx_mul_spec(b, a),
{
    assert(a * b == b * a) by (nonlinear_arith);
}

/// Negating one factor negates the product exactly: the rounding and
/// the saturation are both symmetric about zero.
pub proof fn lemma_fx_mul_neg(a: int, b: int)
    ensures
        fx_mul_spec(-a, b) == -fx_mul_spec(a, b),
{
    assert((-a) * b == -(a * b)) by (nonlinear_arith);
}

/// For a fixed nonnegative value, the product grows with the factor.
/// This is the monotonicity of the attack ramp.
pub proof fn lemma_fx_mul_monotone(a: int, b1: int, b2: int)
    requires
        0 <= a,
        fx_bounded(a),
        0 <= b1 <= b2,
    ensures
        0 <= fx_mul_spec(a, b1) <= fx_mul_spec(a, b2),
{
    assert(0 <= a * b1 <= a * b2) by (nonlinear_arith)
        requires
            0 <= a,
            0 <= b1 <= b2,
    ;
    vstd::arithmetic::div_mod::lemma_div_is_ordered(a * b1, a * b2, FP_ONE as int);
    vstd::arithmetic::div_mod::lemma_div_pos_is_pos(a * b1, FP_ONE as int);
}

} // verus!
