//! Q32.32 signed fixed-point arithmetic.
//!
//! A value `x: i64` stands for the real number `x / 2^32`. All products and
//! quotients round toward negative infinity (floor), which is exactly the
//! rounding of Euclidean division by a positive divisor, so every operation
//! here has an exact integer specification.

use vstd::prelude::*;

verus! {

use vstd::arithmetic::power2::pow2;

/// The fixed-point representation of 1.0.
pub const FX_ONE: i64 = 4294967296;
/// The fixed-point representation of 0.5.
pub const FX_HALF: i64 = 2147483648;
/// The fixed-point representation of 0.25.
pub const FX_QUARTER: i64 = 1073741824;

/// The widest sample rate the library accepts, one million hertz.
pub const MAX_RATE_FX: i64 = 4294967296000000;

/// The default sample rate, 44100 Hz.
pub const DEFAULT_RATE_FX: i64 = 189408057753600;

/// Clamping a mathematical integer into `[lo, hi]`.
pub open spec fn clamp_spec(x: int, lo: int, hi: int) -> int {
    if x < lo {
        lo
    } else if x > hi {
        hi
    } else {
        x
    }
}

/// The fixed-point product: floor(a * b / 2^32).
pub open spec fn fx_mul_spec(a: int, b: int) -> int {
    (a * b) / (FX_ONE as int)
}

/// The fixed-point quotient: floor(a * 2^32 / b), for b > 0.
pub open spec fn fx_div_spec(a: int, b: int) -> int {
    (a * (FX_ONE as int)) / b
}

/// Clamps `x` into `[lo, hi]`.
pub fn fx_clamp(x: i64, lo: i64, hi: i64) -> (r: i64)
    requires
        lo <= hi,
    ensures
        r == clamp_spec(x as int, lo as int, hi as int),
{
    if x < lo {
        lo
    } else if x > hi {
        hi
    } else {
        x
    }
}

/// Fixed-point multiplication, exact to the floor rounding.
pub fn fx_mul(a: i64, b: i64) -> (r: i64)
    requires
        i64::MIN <= fx_mul_spec(a as int, b as int) <= i64::MAX,
    ensures
        r == fx_mul_spec(a as int, b as int),
{
    proof {
        assert(i64::MIN * i64::MAX <= a * b <= i64::MIN * i64::MIN) by (nonlinear_arith)
            requires
                i64::MIN <= a <= i64::MAX,
                i64::MIN <= b <= i64::MAX,
        ;
    }
    let p: i128 = (a as i128) * (b as i128);
    let q: i128 = p.checked_div_euclid(FX_ONE as i128).unwrap();
    q as i64
}

/// Fixed-point division by a positive divisor, exact to the floor rounding.
pub fn fx_div(a: i64, b: i64) -> (r: i64)
    requires
        b >= 1,
        i64::MIN <= fx_div_spec(a as int, b as int) <= i64::MAX,
    ensures
        r == fx_div_spec(a as int, b as int),
{
    proof {
        assert(i64::MIN * (FX_ONE as int) <= a * (FX_ONE as int) <= i64::MAX * (FX_ONE as int))
            by (nonlinear_arith)
            requires
                i64::MIN <= a <= i64::MAX,
        ;
    }
    let p: i128 = (a as i128) * (FX_ONE as i128);
    let q: i128 = p.checked_div_euclid(b as i128).unwrap();
    q as i64
}

/// Floor division of a negated non-negative integer, made explicit.
pub proof fn lemma_div_of_neg(x: int, d: int)
    requires
        0 <= x,
        0 < d,
    ensures
        (-x) / d == if x % d == 0 {
            -(x / d)
        } else {
            -(x / d) - 1
        },
{
    vstd::arithmetic::div_mod::lemma_fundamental_div_mod(x, d);
    vstd::arithmetic::div_mod::lemma_mod_bound(x, d);
    if x % d == 0 {
        assert((-(x / d)) * d + 0 == -x) by (nonlinear_arith)
            requires
                x == d * (x / d),
        ;
        vstd::arithmetic::div_mod::lemma_fundamental_div_mod_converse_div(-x, d, -(x / d), 0);
    } else {
        assert((-(x / d) - 1) * d + (d - x % d) == -x) by (nonlinear_arith)
            requires
                x == d * (x / d) + x % d,
        ;
        vstd::arithmetic::div_mod::lemma_fundamental_div_mod_converse_div(
            -x,
            d,
            -(x / d) - 1,
            d - x % d,
        );
    }
}

/// Bounds of a fixed-point product from bounds of its factors.
pub proof fn lemma_fx_mul_bounds(a: int, b: int, aa: int, bb: int)
    requires
        -aa <= a <= aa,
        -bb <= b <= bb,
    ensures
        fx_mul_spec(a, b) <= (aa * bb) / (FX_ONE as int),
        fx_mul_spec(a, b) >= -((aa * bb) / (FX_ONE as int)) - 1,
{
    assert(-(aa * bb) <= a * b <= aa * bb) by (nonlinear_arith)
        requires
            -aa <= a <= aa,
            -bb <= b <= bb,
    ;
    assert(0 <= aa * bb) by (nonlinear_arith)
        requires
            -(aa * bb) <= a * b <= aa * bb,
    ;
    vstd::arithmetic::div_mod::lemma_div_is_ordered(a * b, aa * bb, FX_ONE as int);
    vstd::arithmetic::div_mod::lemma_div_is_ordered(-(aa * bb), a * b, FX_ONE as int);
    lemma_div_of_neg(aa * bb, FX_ONE as int);
}

/// A product of factors in `[0, ONE]` stays in `[0, min(a, b)]`.
pub proof fn lemma_fx_mul_unit(a: int, b: int)
    requires
        0 <= a,
        0 <= b <= FX_ONE as int,
    ensures
        0 <= fx_mul_spec(a, b) <= a,
        b == FX_ONE as int ==> fx_mul_spec(a, b) == a,
{
    assert(0 <= a * b <= a * (FX_ONE as int)) by (nonlinear_arith)
        requires
            0 <= a,
            0 <= b <= FX_ONE as int,
    ;
    vstd::arithmetic::div_mod::lemma_div_pos_is_pos(a * b, FX_ONE as int);
    vstd::arithmetic::div_mod::lemma_div_is_ordered(a * b, a * (FX_ONE as int), FX_ONE as int);
    vstd::arithmetic::div_mod::lemma_div_by_multiple(a, FX_ONE as int);
}

/// Monotonicity of the fixed-point product in both factors, for non-negative
/// operands.
pub proof fn lemma_fx_mul_mono(a: int, b: int, a2: int, b2: int)
    requires
        0 <= a <= a2,
        0 <= b <= b2,
    ensures
        fx_mul_spec(a, b) <= fx_mul_spec(a2, b2),
{
    assert(a * b <= a2 * b2) by (nonlinear_arith)
        requires
            0 <= a <= a2,
            0 <= b <= b2,
    ;
    vstd::arithmetic::div_mod::lemma_div_is_ordered(a * b, a2 * b2, FX_ONE as int);
}

/// Bounds of a fixed-point quotient when the divisor is at least one.
pub proof fn lemma_fx_div_bounds(a: int, b: int)
    requires
        0 <= a,
        FX_ONE as int <= b,
    ensures
        0 <= fx_div_spec(a, b) <= a,
{
    assert(0 <= a * (FX_ONE as int)) by (nonlinear_arith)
        requires
            0 <= a,
    ;
    vstd::arithmetic::div_mod::lemma_div_pos_is_pos(a * (FX_ONE as int), b);
    vstd::arithmetic::div_mod::lemma_div_is_ordered_by_denominator(
        a * (FX_ONE as int),
        FX_ONE as int,
        b,
    );
    vstd::arithmetic::div_mod::lemma_div_by_multiple(a, FX_ONE as int);
}

/// One eighth, the width of each segment of the `exp2`/`log2` tables.
pub const FX_EIGHTH: i64 = 536870912;

/// Taylor coefficient ln(2) for the binary exponential.
pub const EXP2_C1: i64 = 2977044472;

/// Taylor coefficient ln(2)^2 / 2 for the binary exponential.
pub const EXP2_C2: i64 = 1031764991;

/// Taylor coefficient ln(2)^3 / 6 for the binary exponential.
pub const EXP2_C3: i64 = 238388332;

/// 1 / ln(2), converting a natural logarithm to a binary one.
pub const INV_LN2: i64 = 6196328019;

/// One third, a Mercator-series coefficient for the binary logarithm.
pub const LOG_THIRD: i64 = 1431655765;

/// Table of 2^(j/8) for j in 0..8, the segment anchors of `exp2`/`log2`.
pub open spec fn exp2_frac_at(j: int) -> int {
    if j <= 0 {
        4294967296
    } else if j == 1 {
        4683695048
    } else if j == 2 {
        5107605667
    } else if j == 3 {
        5569883475
    } else if j == 4 {
        6074001000
    } else if j == 5 {
        6623745059
    } else if j == 6 {
        7223245206
    } else {
        7877004752
    }
}

/// Table lookup for 2^(j/8).
pub fn exp2_frac_entry(j: i64) -> (r: i64)
    requires
        0 <= j <= 7,
    ensures
        r == exp2_frac_at(j as int),
{
    if j == 0 {
        4294967296
    } else if j == 1 {
        4683695048
    } else if j == 2 {
        5107605667
    } else if j == 3 {
        5569883475
    } else if j == 4 {
        6074001000
    } else if j == 5 {
        6623745059
    } else if j == 6 {
        7223245206
    } else {
        7877004752
    }
}

/// The cubic Taylor polynomial for 2^(g / 2^32), valid on one table segment,
/// g in [0, FX_EIGHTH).
pub open spec fn exp2_poly_spec(g: int) -> int {
    FX_ONE + fx_mul_spec(
        g,
        EXP2_C1 as int + fx_mul_spec(g, EXP2_C2 as int + fx_mul_spec(g, EXP2_C3 as int)),
    )
}

/// The mantissa part of the binary exponential of x: table anchor times
/// polynomial correction, for the fractional bits f = x mod 2^32.
pub open spec fn exp2_mantissa_spec(f: int) -> int {
    let j = f / (FX_EIGHTH as int);
    let g = f % (FX_EIGHTH as int);
    fx_mul_spec(exp2_frac_at(j), exp2_poly_spec(g))
}

/// The fixed-point binary exponential 2^(x / 2^32), scaled by 2^32.
pub open spec fn exp2_spec(x: int) -> int {
    let n = x / (FX_ONE as int);
    let m = exp2_mantissa_spec(x % (FX_ONE as int));
    if n >= 0 {
        m * pow2(n as nat)
    } else {
        m / pow2((-n) as nat) as int
    }
}

/// The mantissa of the binary exponential stays within one octave.
pub proof fn lemma_exp2_mantissa_bounds(f: int)
    requires
        0 <= f < FX_ONE as int,
    ensures
        FX_ONE as int <= exp2_mantissa_spec(f) < 2 * (FX_ONE as int),
{
    let j = f / (FX_EIGHTH as int);
    let g = f % (FX_EIGHTH as int);
    vstd::arithmetic::div_mod::lemma_mod_bound(f, FX_EIGHTH as int);
    assert(0 <= j <= 7) by {
        vstd::arithmetic::div_mod::lemma_div_pos_is_pos(f, FX_EIGHTH as int);
        vstd::arithmetic::div_mod::lemma_div_is_ordered(f, FX_ONE as int - 1, FX_EIGHTH as int);
    }
    let i3 = fx_mul_spec(g, EXP2_C3 as int);
    lemma_fx_mul_bounds(g, EXP2_C3 as int, FX_EIGHTH as int, EXP2_C3 as int);
    lemma_fx_mul_unit(EXP2_C3 as int, g);
    assert(g * (EXP2_C3 as int) >= 0) by (nonlinear_arith)
        requires
            g >= 0,
    ;
    vstd::arithmetic::div_mod::lemma_div_pos_is_pos(g * (EXP2_C3 as int), FX_ONE as int);
    let i2 = fx_mul_spec(g, EXP2_C2 as int + i3);
    lemma_fx_mul_bounds(g, EXP2_C2 as int + i3, FX_EIGHTH as int, EXP2_C2 as int + 29798542);
    assert(g * (EXP2_C2 as int + i3) >= 0) by (nonlinear_arith)
        requires
            g >= 0,
            EXP2_C2 as int + i3 >= 0,
    ;
    vstd::arithmetic::div_mod::lemma_div_pos_is_pos(g * (EXP2_C2 as int + i3), FX_ONE as int);
    let i1 = fx_mul_spec(g, EXP2_C1 as int + i2);
    lemma_fx_mul_bounds(g, EXP2_C1 as int + i2, FX_EIGHTH as int, EXP2_C1 as int + 132695442);
    assert(g * (EXP2_C1 as int + i2) >= 0) by (nonlinear_arith)
        requires
            g >= 0,
            EXP2_C1 as int + i2 >= 0,
    ;
    vstd::arithmetic::div_mod::lemma_div_pos_is_pos(g * (EXP2_C1 as int + i2), FX_ONE as int);
    let poly = FX_ONE as int + i1;
    assert(FX_ONE as int <= poly <= 4683684786);
    lemma_fx_mul_mono(exp2_frac_at(j), poly, 7877004752, 4683684786);
    assert(fx_mul_spec(7877004752, 4683684786) < 2 * (FX_ONE as int));
    lemma_fx_mul_mono(FX_ONE as int, FX_ONE as int, exp2_frac_at(j), poly);
    vstd::arithmetic::div_mod::lemma_div_by_multiple(FX_ONE as int, FX_ONE as int);
}

/// Powers of two are monotone.
pub proof fn lemma_pow2_le(a: nat, b: nat)
    requires
        a <= b,
    ensures
        pow2(a) <= pow2(b),
{
    if a < b {
        vstd::arithmetic::power2::lemma_pow2_strictly_increases(a, b);
    }
}

/// The fixed-point binary exponential.
///
/// Exact to its integer specification; the mantissa uses an eight-entry
/// table of 2^(j/8) anchors with a cubic Taylor correction.
pub fn exp2_fx(x: i64) -> (r: i64)
    requires
        x <= 16 * FX_ONE,
    ensures
        r == exp2_spec(x as int),
        0 <= r < 562949953421312,
{
    let n = x.checked_div_euclid(FX_ONE).unwrap();
    let f = x.checked_rem_euclid(FX_ONE).unwrap();
    proof {
        vstd::arithmetic::div_mod::lemma_mod_bound(x as int, FX_ONE as int);
        vstd::arithmetic::div_mod::lemma_div_is_ordered(x as int, 16 * (FX_ONE as int), FX_ONE as int);
        vstd::arithmetic::div_mod::lemma_div_by_multiple(16, FX_ONE as int);
        lemma_exp2_mantissa_bounds(f as int);
    }
    let j = f.checked_div_euclid(FX_EIGHTH).unwrap();
    let g = f.checked_rem_euclid(FX_EIGHTH).unwrap();
    proof {
        vstd::arithmetic::div_mod::lemma_mod_bound(f as int, FX_EIGHTH as int);
        vstd::arithmetic::div_mod::lemma_div_pos_is_pos(f as int, FX_EIGHTH as int);
        vstd::arithmetic::div_mod::lemma_div_is_ordered(f as int, FX_ONE as int - 1, FX_EIGHTH as int);
        lemma_fx_mul_bounds(g as int, EXP2_C3 as int, FX_EIGHTH as int, EXP2_C3 as int);
        lemma_fx_mul_unit(EXP2_C3 as int, g as int);
        assert(g as int * (EXP2_C3 as int) >= 0) by (nonlinear_arith)
            requires
                g as int >= 0,
        ;
        vstd::arithmetic::div_mod::lemma_div_pos_is_pos(g as int * (EXP2_C3 as int), FX_ONE as int);
    }
    let i3 = fx_mul(g, EXP2_C3);
    proof {
        lemma_fx_mul_bounds(g as int, EXP2_C2 as int + i3, FX_EIGHTH as int, EXP2_C2 as int + 29798542);
        assert(g as int * (EXP2_C2 as int + i3) >= 0) by (nonlinear_arith)
            requires
                g as int >= 0,
                EXP2_C2 as int + i3 >= 0,
        ;
        vstd::arithmetic::div_mod::lemma_div_pos_is_pos(g as int * (EXP2_C2 as int + i3), FX_ONE as int);
    }
    let i2 = fx_mul(g, EXP2_C2 + i3);
    proof {
        lemma_fx_mul_bounds(g as int, EXP2_C1 as int + i2, FX_EIGHTH as int, EXP2_C1 as int + 132695442);
        assert(g as int * (EXP2_C1 as int + i2) >= 0) by (nonlinear_arith)
            requires
                g as int >= 0,
                EXP2_C1 as int + i2 >= 0,
        ;
        vstd::arithmetic::div_mod::lemma_div_pos_is_pos(g as int * (EXP2_C1 as int + i2), FX_ONE as int);
    }
    let i1 = fx_mul(g, EXP2_C1 + i2);
    let poly = FX_ONE + i1;
    let tj = exp2_frac_entry(j);
    proof {
        lemma_fx_mul_mono(tj as int, poly as int, 7877004752, 4683684786);
        assert(fx_mul_spec(7877004752, 4683684786) < 2 * (FX_ONE as int));
        lemma_fx_mul_mono(0, 0, tj as int, poly as int);
    }
    let m = fx_mul(tj, poly);
    proof {
        assert(m == exp2_mantissa_spec(f as int));
        lemma_exp2_mantissa_bounds(f as int);
    }
    if n >= 0 {
        let mut v: i64 = m;
        let mut i: i64 = 0;
        proof {
            vstd::arithmetic::power2::lemma2_to64();
            assert(m * pow2(0) == m) by (nonlinear_arith)
                requires
                    pow2(0) == 1,
            ;
        }
        while i < n
            invariant
                0 <= i <= n <= 16,
                FX_ONE as int <= m < 2 * (FX_ONE as int),
                v == m * pow2(i as nat),
            decreases n - i,
        {
            proof {
                vstd::arithmetic::power2::lemma2_to64();
                vstd::arithmetic::power2::lemma_pow2_unfold((i + 1) as nat);
                assert(m * pow2((i + 1) as nat) == 2 * (m * pow2(i as nat))) by (nonlinear_arith)
                    requires
                        pow2((i + 1) as nat) == 2 * pow2(i as nat),
                ;
                lemma_pow2_le((i + 1) as nat, 16);
                assert(0 <= m * pow2((i + 1) as nat) < 2 * (FX_ONE as int) * 65536)
                    by (nonlinear_arith)
                    requires
                        0 <= pow2((i + 1) as nat) <= 65536,
                        FX_ONE as int <= m < 2 * (FX_ONE as int),
                ;
            }
            v = v * 2;
            i = i + 1;
        }
        proof {
            vstd::arithmetic::power2::lemma2_to64();
            lemma_pow2_le(n as nat, 16);
            assert(0 <= m * pow2(n as nat) < 2 * (FX_ONE as int) * 65536) by (nonlinear_arith)
                requires
                    0 <= pow2(n as nat) <= 65536,
                    FX_ONE as int <= m < 2 * (FX_ONE as int),
            ;
        }
        v
    } else {
        if n < -40 {
            proof {
                vstd::arithmetic::power2::lemma2_to64();
                vstd::arithmetic::power2::lemma_pow2_adds(32, 2);
                vstd::arithmetic::power2::lemma_pow2_strictly_increases(34, (-(n as int)) as nat);
                vstd::arithmetic::div_mod::lemma_basic_div(
                    exp2_mantissa_spec(f as int),
                    pow2((-(n as int)) as nat) as int,
                );
            }
            return 0;
        }
        let steps = -n;
        let mut v: i64 = m;
        let mut i: i64 = 0;
        proof {
            vstd::arithmetic::power2::lemma2_to64();
            vstd::arithmetic::div_mod::lemma_div_basics(m as int);
        }
        while i < steps
            invariant
                0 <= i <= steps <= 40,
                FX_ONE as int <= m < 2 * (FX_ONE as int),
                v == (m as int) / (pow2(i as nat) as int),
                0 <= v <= m,
            decreases steps - i,
        {
            proof {
                vstd::arithmetic::power2::lemma_pow2_pos(i as nat);
                vstd::arithmetic::power2::lemma_pow2_unfold((i + 1) as nat);
                vstd::arithmetic::div_mod::lemma_div_denominator(m as int, pow2(i as nat) as int, 2);
                vstd::arithmetic::div_mod::lemma_div_pos_is_pos(v as int, 2);
                vstd::arithmetic::div_mod::lemma_div_nonincreasing(v as int, 2);
            }
            v = v.checked_div_euclid(2).unwrap();
            i = i + 1;
        }
        v
    }
}

/// The binary exponential of a non-positive argument stays within [0, 1].
pub proof fn lemma_exp2_nonpos(x: int)
    requires
        x <= 0,
    ensures
        0 <= exp2_spec(x) <= FX_ONE as int,
{
    let n = x / (FX_ONE as int);
    let f = x % (FX_ONE as int);
    vstd::arithmetic::div_mod::lemma_mod_bound(x, FX_ONE as int);
    vstd::arithmetic::div_mod::lemma_fundamental_div_mod(x, FX_ONE as int);
    lemma_exp2_mantissa_bounds(f);
    let m = exp2_mantissa_spec(f);
    assert(n <= 0) by {
        vstd::arithmetic::div_mod::lemma_div_is_ordered(x, 0, FX_ONE as int);
        assert(0int / (FX_ONE as int) == 0) by {
            vstd::arithmetic::div_mod::lemma_div_of0(FX_ONE as int);
        }
    }
    if n == 0 {
        assert(x == (FX_ONE as int) * 0 + f);
        assert(f == x <= 0);
        assert(f == 0);
        assert(f / (FX_EIGHTH as int) == 0 && f % (FX_EIGHTH as int) == 0) by {
            vstd::arithmetic::div_mod::lemma_div_of0(FX_EIGHTH as int);
            vstd::arithmetic::div_mod::lemma_mod_bound(0, FX_EIGHTH as int);
            vstd::arithmetic::div_mod::lemma_small_mod(0, FX_EIGHTH as nat);
        }
        assert(exp2_poly_spec(0) == FX_ONE as int) by {
            assert(fx_mul_spec(0, EXP2_C2 as int + fx_mul_spec(0, EXP2_C3 as int)) == 0) by (
            nonlinear_arith);
            assert(fx_mul_spec(0, EXP2_C1 as int + 0) == 0) by (nonlinear_arith);
        }
        assert(fx_mul_spec(exp2_frac_at(0), FX_ONE as int) == FX_ONE as int) by {
            vstd::arithmetic::div_mod::lemma_div_by_multiple(FX_ONE as int, FX_ONE as int);
        }
        vstd::arithmetic::power2::lemma2_to64();
        assert(m * pow2(0) == m) by (nonlinear_arith)
            requires
                pow2(0) == 1,
        ;
    } else {
        let e = (-n) as nat;
        lemma_pow2_le(1, e);
        vstd::arithmetic::power2::lemma2_to64();
        vstd::arithmetic::div_mod::lemma_div_is_ordered_by_denominator(m, 2, pow2(e) as int);
        vstd::arithmetic::div_mod::lemma_div_pos_is_pos(m, pow2(e) as int);
        vstd::arithmetic::div_mod::lemma_div_is_ordered(m, 2 * (FX_ONE as int) - 1, 2);
    }
}

/// Bhaskara's rational approximation of sine over a half period: for a phase
/// p in [0, 1/2] of a full turn, with u = p * (1 - 2p), the value is
/// 32u / (5 - 8u). It is exact at p = 0, 1/4 and 1/2.
pub open spec fn sin_half_spec(p: int) -> int {
    let u = fx_mul_spec(p, FX_ONE as int - 2 * p);
    fx_div_spec(32 * u, 5 * (FX_ONE as int) - 8 * u)
}

/// Sine of a phase measured in full turns (1.0 is one whole cycle), by the
/// Bhaskara approximation on each half period. The phase is first reduced
/// modulo one turn, so any fixed-point argument is accepted.
pub open spec fn sin_tau_spec(p: int) -> int {
    let q = p % (FX_ONE as int);
    if q < FX_HALF {
        sin_half_spec(q)
    } else {
        -sin_half_spec(q - FX_HALF)
    }
}

/// The Bhaskara half-period stays within [0, 1], and its inner product
/// within [0, 1/8].
pub proof fn lemma_sin_half_bounds(p: int)
    requires
        0 <= p <= FX_HALF,
    ensures
        0 <= fx_mul_spec(p, FX_ONE as int - 2 * p) <= FX_EIGHTH,
        0 <= sin_half_spec(p) <= FX_ONE,
{
    let w = FX_ONE as int - 2 * p;
    assert(0 <= p * w && p * w <= (FX_EIGHTH as int) * (FX_ONE as int)) by (nonlinear_arith)
        requires
            0 <= p <= FX_HALF,
            w == FX_ONE as int - 2 * p,
            FX_HALF == 2 * FX_EIGHTH * 2,
            FX_ONE == 2 * FX_HALF,
    ;
    let u = fx_mul_spec(p, w);
    vstd::arithmetic::div_mod::lemma_div_pos_is_pos(p * w, FX_ONE as int);
    vstd::arithmetic::div_mod::lemma_div_is_ordered(
        p * w,
        (FX_EIGHTH as int) * (FX_ONE as int),
        FX_ONE as int,
    );
    vstd::arithmetic::div_mod::lemma_div_by_multiple(FX_EIGHTH as int, FX_ONE as int);
    let den = 5 * (FX_ONE as int) - 8 * u;
    assert(0 <= 32 * u * (FX_ONE as int) && 32 * u * (FX_ONE as int) <= (FX_ONE as int) * den)
        by (nonlinear_arith)
        requires
            0 <= u <= FX_EIGHTH,
            den == 5 * (FX_ONE as int) - 8 * u,
            FX_ONE == 8 * FX_EIGHTH,
    ;
    vstd::arithmetic::div_mod::lemma_div_pos_is_pos(32 * u * (FX_ONE as int), den);
    vstd::arithmetic::div_mod::lemma_div_is_ordered(
        32 * u * (FX_ONE as int),
        (FX_ONE as int) * den,
        den,
    );
    vstd::arithmetic::div_mod::lemma_div_by_multiple(FX_ONE as int, den);
}

/// Fixed-point sine of a phase in full turns, by Bhaskara's approximation.
pub fn sin_tau(p: i64) -> (r: i64)
    ensures
        r == sin_tau_spec(p as int),
        -FX_ONE <= r <= FX_ONE,
{
    let q = p.checked_rem_euclid(FX_ONE).unwrap();
    proof {
        vstd::arithmetic::div_mod::lemma_mod_bound(p as int, FX_ONE as int);
    }
    let s = if q < FX_HALF {
        q
    } else {
        q - FX_HALF
    };
    proof {
        lemma_sin_half_bounds(s as int);
    }
    let u = fx_mul(s, FX_ONE - 2 * s);
    let v = fx_div(32 * u, 5 * FX_ONE - 8 * u);
    if q < FX_HALF {
        v
    } else {
        -v
    }
}

/// The table segment a mantissa in [1, 2) falls into: the largest j with
/// 2^(j/8) at or below it.
pub open spec fn log2_index(m: int) -> int {
    if m >= 7877004752 {
        7
    } else if m >= 7223245206 {
        6
    } else if m >= 6623745059 {
        5
    } else if m >= 6074001000 {
        4
    } else if m >= 5569883475 {
        3
    } else if m >= 5107605667 {
        2
    } else if m >= 4683695048 {
        1
    } else {
        0
    }
}

/// Table segment lookup for the logarithm mantissa.
pub fn log2_index_entry(m: i64) -> (j: i64)
    ensures
        j == log2_index(m as int),
        0 <= j <= 7,
{
    if m >= 7877004752 {
        7
    } else if m >= 7223245206 {
        6
    } else if m >= 6623745059 {
        5
    } else if m >= 6074001000 {
        4
    } else if m >= 5569883475 {
        3
    } else if m >= 5107605667 {
        2
    } else if m >= 4683695048 {
        1
    } else {
        0
    }
}

/// The binary logarithm of a mantissa in [1, 2): the segment anchor j/8 plus
/// a four-term Mercator series for ln of the residual, scaled by 1/ln(2).
pub open spec fn log2_frac_spec(m: int) -> int {
    let j = log2_index(m);
    let t = fx_div_spec(m, exp2_frac_at(j)) - FX_ONE;
    let p = fx_mul_spec(
        t,
        FX_ONE as int - fx_mul_spec(
            t,
            FX_HALF as int - fx_mul_spec(t, LOG_THIRD as int - fx_mul_spec(t, FX_QUARTER as int)),
        ),
    );
    j * (FX_EIGHTH as int) + fx_mul_spec(p, INV_LN2 as int)
}

/// The fixed-point binary logarithm of x / 2^32, scaled by 2^32: the
/// mantissa is normalized into [1, 2) one bit at a time, each shift moving
/// one whole unit in or out of the result.
pub open spec fn log2_spec(x: int) -> int
    recommends
        1 <= x,
    decreases (if x < FX_ONE { 3 * (FX_ONE as int) - x } else { x }) when 1 <= x
{
    if x < FX_ONE {
        log2_spec(2 * x) - FX_ONE
    } else if x >= 2 * FX_ONE {
        log2_spec(x / 2) + FX_ONE
    } else {
        log2_frac_spec(x)
    }
}

/// A product with one factor in [0, 1] does not grow past the other factor.
pub proof fn lemma_fx_mul_cap(a: int, b: int)
    requires
        0 <= a <= FX_ONE as int,
        0 <= b,
    ensures
        0 <= fx_mul_spec(a, b) <= b,
{
    lemma_fx_mul_mono(a, b, FX_ONE as int, b);
    vstd::arithmetic::div_mod::lemma_div_multiples_vanish(b, FX_ONE as int);
    lemma_fx_mul_mono(0, 0, a, b);
}

/// The logarithm mantissa term is non-negative and comfortably below four.
pub proof fn lemma_log2_frac_bounds(m: int)
    requires
        FX_ONE as int <= m < 2 * (FX_ONE as int),
    ensures
        0 <= log2_frac_spec(m) <= 4 * (FX_ONE as int),
        0 <= fx_div_spec(m, exp2_frac_at(log2_index(m))) - FX_ONE as int <= FX_ONE as int,
{
    let j = log2_index(m);
    let a = exp2_frac_at(j);
    assert(FX_ONE as int <= a <= m);
    lemma_fx_div_bounds(m, a);
    vstd::arithmetic::div_mod::lemma_div_by_multiple(FX_ONE as int, a);
    assert((FX_ONE as int) * a <= m * (FX_ONE as int)) by (nonlinear_arith)
        requires
            a <= m,
            0 < FX_ONE,
    ;
    vstd::arithmetic::div_mod::lemma_div_is_ordered((FX_ONE as int) * a, m * (FX_ONE as int), a);
    let t = fx_div_spec(m, a) - FX_ONE as int;
    assert(0 <= t <= FX_ONE as int);
    let h3 = fx_mul_spec(t, FX_QUARTER as int);
    lemma_fx_mul_cap(t, FX_QUARTER as int);
    let w3 = LOG_THIRD as int - h3;
    let h2 = fx_mul_spec(t, w3);
    lemma_fx_mul_cap(t, w3);
    let w2 = FX_HALF as int - h2;
    let h1 = fx_mul_spec(t, w2);
    lemma_fx_mul_cap(t, w2);
    let w1 = FX_ONE as int - h1;
    let p = fx_mul_spec(t, w1);
    lemma_fx_mul_cap(t, w1);
    lemma_fx_mul_cap(p, INV_LN2 as int);
}

/// The fixed-point binary logarithm.
///
/// Exact to its integer specification; usable for any positive argument,
/// however small, so the result ranges over roughly [-32, 34] whole units.
pub fn log2_fx(x: i64) -> (r: i64)
    requires
        1 <= x,
    ensures
        r == log2_spec(x as int),
        -32 * FX_ONE <= r <= 34 * FX_ONE,
        FX_ONE <= x ==> 0 <= r,
{
    let mut m: i64 = x;
    let mut k: i64 = 0;
    proof {
        vstd::arithmetic::power2::lemma2_to64();
        assert(x as int * pow2(0) == x as int) by (nonlinear_arith)
            requires
                pow2(0) == 1,
        ;
    }
    while m < FX_ONE
        invariant
            1 <= x,
            1 <= m,
            -32 <= k <= 0,
            m == x * pow2((-(k as int)) as nat),
            x as int >= FX_ONE as int ==> k == 0,
            m == x || m < 2 * FX_ONE,
            log2_spec(x as int) == log2_spec(m as int) + k * FX_ONE,
        decreases 2 * FX_ONE - m,
    {
        proof {
            vstd::arithmetic::power2::lemma2_to64();
            vstd::arithmetic::power2::lemma_pow2_pos((-(k as int)) as nat);
            assert(m >= pow2((-(k as int)) as nat)) by (nonlinear_arith)
                requires
                    m == x * pow2((-(k as int)) as nat),
                    x >= 1,
                    pow2((-(k as int)) as nat) > 0,
            ;
            if -(k as int) >= 32 {
                lemma_pow2_le(32, (-(k as int)) as nat);
                assert(false);
            }
            vstd::arithmetic::power2::lemma_pow2_unfold((-(k as int) + 1) as nat);
            assert(2 * m == x * pow2((-(k as int) + 1) as nat)) by (nonlinear_arith)
                requires
                    m == x * pow2((-(k as int)) as nat),
                    pow2((-(k as int) + 1) as nat) == 2 * pow2((-(k as int)) as nat),
            ;
            assert(log2_spec(m as int) == log2_spec(2 * m as int) - FX_ONE);
        }
        m = m * 2;
        k = k - 1;
    }
    let ghost m1 = m as int;
    let ghost k1 = k as int;
    proof {
        vstd::arithmetic::power2::lemma2_to64();
        assert(m1 / pow2(0) as int == m1) by (nonlinear_arith)
            requires
                pow2(0) == 1,
        ;
    }
    while m >= 2 * FX_ONE
        invariant
            1 <= x,
            FX_ONE as int <= m,
            FX_ONE as int <= m1 <= i64::MAX as int,
            k1 <= k <= k1 + 31,
            -32 <= k1 <= 0,
            x as int >= FX_ONE as int ==> k1 == 0,
            m == m1 / pow2((k - k1) as nat) as int,
            log2_spec(x as int) == log2_spec(m as int) + k * FX_ONE,
        decreases m,
    {
        proof {
            vstd::arithmetic::power2::lemma2_to64();
            let d = (k - k1) as nat;
            vstd::arithmetic::power2::lemma_pow2_pos(d);
            vstd::arithmetic::power2::lemma_pow2_unfold((d + 1) as nat);
            vstd::arithmetic::div_mod::lemma_div_denominator(m1, pow2(d) as int, 2);
            vstd::arithmetic::div_mod::lemma_fundamental_div_mod(m1, pow2((d + 1) as nat) as int);
            vstd::arithmetic::power2::lemma_pow2_pos((d + 1) as nat);
            vstd::arithmetic::div_mod::lemma_mod_bound(m1, pow2((d + 1) as nat) as int);
            assert(m1 >= pow2((d + 1) as nat) * (FX_ONE as int)) by (nonlinear_arith)
                requires
                    m1 == pow2((d + 1) as nat) * (m1 / pow2((d + 1) as nat) as int) + m1 % (pow2(
                        (d + 1) as nat,
                    ) as int),
                    m1 % (pow2((d + 1) as nat) as int) >= 0,
                    m1 / pow2((d + 1) as nat) as int >= FX_ONE as int,
                    pow2((d + 1) as nat) > 0,
            ;
            vstd::arithmetic::power2::lemma_pow2_adds((d + 1) as nat, 32);
            assert(pow2((d + 1) as nat) * (FX_ONE as int) == pow2((d + 33) as nat))
                by (nonlinear_arith)
                requires
                    pow2((d + 1 + 32) as nat) == pow2((d + 1) as nat) * pow2(32),
                    pow2(32) == FX_ONE as int,
            ;
            if d + 33 >= 63 {
                lemma_pow2_le(63, (d + 33) as nat);
                vstd::arithmetic::power2::lemma_pow2_adds(32, 31);
                assert(false);
            }
            assert(log2_spec(m as int) == log2_spec(m as int / 2) + FX_ONE);
        }
        m = m.checked_div_euclid(2).unwrap();
        k = k + 1;
    }
    proof {
        lemma_log2_frac_bounds(m as int);
        assert(log2_spec(m as int) == log2_frac_spec(m as int));
    }
    let j = log2_index_entry(m);
    let tj = exp2_frac_entry(j);
    proof {
        lemma_fx_div_bounds(m as int, tj as int);
        vstd::arithmetic::div_mod::lemma_div_by_multiple(FX_ONE as int, tj as int);
        assert((FX_ONE as int) * (tj as int) <= m as int * (FX_ONE as int)) by (nonlinear_arith)
            requires
                tj as int <= m as int,
                0 < FX_ONE,
        ;
        vstd::arithmetic::div_mod::lemma_div_is_ordered(
            (FX_ONE as int) * (tj as int),
            m as int * (FX_ONE as int),
            tj as int,
        );
    }
    let t = fx_div(m, tj) - FX_ONE;
    proof {
        lemma_fx_mul_cap(t as int, FX_QUARTER as int);
    }
    let h3 = fx_mul(t, FX_QUARTER);
    proof {
        lemma_fx_mul_cap(t as int, LOG_THIRD as int - h3 as int);
    }
    let h2 = fx_mul(t, LOG_THIRD - h3);
    proof {
        lemma_fx_mul_cap(t as int, FX_HALF as int - h2 as int);
    }
    let h1 = fx_mul(t, FX_HALF - h2);
    proof {
        lemma_fx_mul_cap(t as int, FX_ONE as int - h1 as int);
    }
    let p = fx_mul(t, FX_ONE - h1);
    proof {
        lemma_fx_mul_cap(p as int, INV_LN2 as int);
    }
    let pl = fx_mul(p, INV_LN2);
    k * FX_ONE + j * FX_EIGHTH + pl
}

} // verus!
