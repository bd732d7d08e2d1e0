//! IEEE-754 binary64 semantics over raw bit patterns.
//!
//! Float values never appear in the library: a 64-bit float is carried as its
//! `u64` bit pattern everywhere. Comparison, negation and absolute value are
//! pure functions of the bits; a decimal literal or an integer ratio is turned
//! into the correctly rounded (round-to-nearest, ties-to-even) bit pattern by
//! exact integer arithmetic. No floating-point hardware is involved anywhere.
use vstd::arithmetic::power2::pow2;
use vstd::prelude::*;

verus! {

pub const F64_SIGN_BIT: u64 = 0x8000_0000_0000_0000;

pub const F64_MAG_MASK: u64 = 0x7fff_ffff_ffff_ffff;

pub const F64_EXP_MASK: u64 = 0x7ff0_0000_0000_0000;

/// 2^52, the implicit-bit position of a binary64 mantissa.
pub const F64_MIN_MANT: u64 = 0x10_0000_0000_0000;

/// 2^53, one past the largest binary64 mantissa.
pub const F64_MANT_LIMIT: u64 = 0x20_0000_0000_0000;

/// Whether the float with bit pattern `b` is a NaN: all exponent bits set and
/// a non-zero mantissa.
pub open spec fn f64_is_nan(b: u64) -> bool {
    b & F64_EXP_MASK == F64_EXP_MASK && b & F64_MAG_MASK != F64_EXP_MASK
}

/// Rank of a non-NaN float on the number line: IEEE-754 bit patterns order
/// finite and infinite values by (sign, magnitude), with both zeros at rank 0.
pub open spec fn f64_rank(b: u64) -> int {
    if b & F64_SIGN_BIT == 0 {
        (b & F64_MAG_MASK) as int
    } else {
        -((b & F64_MAG_MASK) as int)
    }
}

/// IEEE-754 equality of two bit patterns: false on NaN, `-0.0 == 0.0`.
pub open spec fn f64_eq(a: u64, b: u64) -> bool {
    !f64_is_nan(a) && !f64_is_nan(b) && f64_rank(a) == f64_rank(b)
}

/// IEEE-754 `<` on two bit patterns: false whenever either is NaN.
pub open spec fn f64_lt(a: u64, b: u64) -> bool {
    !f64_is_nan(a) && !f64_is_nan(b) && f64_rank(a) < f64_rank(b)
}

/// Rank of a bit pattern in the IEEE-754 total order
/// (`-NaN < -inf < ... < -0.0 < 0.0 < ... < +inf < +NaN`).
pub open spec fn f64_total_rank(b: u64) -> int {
    if b & F64_SIGN_BIT == 0 {
        (b & F64_MAG_MASK) as int
    } else {
        -((b & F64_MAG_MASK) as int) - 1
    }
}

/// IEEE-754 equality, executable.
pub fn f64_bits_eq(a: u64, b: u64) -> (r: bool)
    ensures
        r == f64_eq(a, b),
{
    if a & F64_EXP_MASK == F64_EXP_MASK && a & F64_MAG_MASK != F64_EXP_MASK {
        return false;
    }
    if b & F64_EXP_MASK == F64_EXP_MASK && b & F64_MAG_MASK != F64_EXP_MASK {
        return false;
    }
    let ma = a & F64_MAG_MASK;
    let mb = b & F64_MAG_MASK;
    proof {
        assert((a & 0x8000_0000_0000_0000u64 == b & 0x8000_0000_0000_0000u64 && a
            & 0x7fff_ffff_ffff_ffffu64 == b & 0x7fff_ffff_ffff_ffffu64) ==> a == b)
            by (bit_vector);
        assert(a & 0x8000_0000_0000_0000u64 == 0 || a & 0x8000_0000_0000_0000u64
            == 0x8000_0000_0000_0000u64) by (bit_vector);
        assert(b & 0x8000_0000_0000_0000u64 == 0 || b & 0x8000_0000_0000_0000u64
            == 0x8000_0000_0000_0000u64) by (bit_vector);
    }
    if ma == 0 && mb == 0 {
        true
    } else {
        a == b
    }
}

/// IEEE-754 `<`, executable.
pub fn f64_bits_lt(a: u64, b: u64) -> (r: bool)
    ensures
        r == f64_lt(a, b),
{
    if a & F64_EXP_MASK == F64_EXP_MASK && a & F64_MAG_MASK != F64_EXP_MASK {
        return false;
    }
    if b & F64_EXP_MASK == F64_EXP_MASK && b & F64_MAG_MASK != F64_EXP_MASK {
        return false;
    }
    let sa = a & F64_SIGN_BIT != 0;
    let sb = b & F64_SIGN_BIT != 0;
    let ma = a & F64_MAG_MASK;
    let mb = b & F64_MAG_MASK;
    if sa && !sb {
        ma != 0 || mb != 0
    } else if !sa && !sb {
        ma < mb
    } else if sa && sb {
        mb < ma
    } else {
        false
    }
}

/// `<` in the IEEE-754 total order, executable; the sort order for float
/// columns.
pub fn f64_bits_total_lt(a: u64, b: u64) -> (r: bool)
    ensures
        r == (f64_total_rank(a) < f64_total_rank(b)),
{
    let sa = a & F64_SIGN_BIT != 0;
    let sb = b & F64_SIGN_BIT != 0;
    let ma = a & F64_MAG_MASK;
    let mb = b & F64_MAG_MASK;
    if sa && !sb {
        true
    } else if !sa && !sb {
        ma < mb
    } else if sa && sb {
        mb < ma
    } else {
        false
    }
}

/// IEEE-754 absolute value is exactly a sign-bit clear.
pub fn f64_bits_abs(b: u64) -> (r: u64)
    ensures
        r == b & F64_MAG_MASK,
{
    b & F64_MAG_MASK
}

/// 10 to the `k`-th power.
pub open spec fn pow10(k: nat) -> int
    decreases k,
{
    if k == 0 {
        1
    } else {
        10 * pow10((k - 1) as nat)
    }
}

/// Doubles `x` until `x >= q * 2^52`, lowering the exponent in step; the
/// represented ratio `(x / q) * 2^e` is invariant.
pub open spec fn norm_up(x: int, q: int, e: int) -> (int, int)
    recommends
        1 <= x,
        1 <= q,
    decreases (q * (F64_MANT_LIMIT as int) - x) when 1 <= x && 1 <= q
{
    if x < q * (F64_MIN_MANT as int) {
        norm_up(2 * x, q, e - 1)
    } else {
        (x, e)
    }
}

/// Doubles `q` until `x < q * 2^53`, raising the exponent in step; the
/// represented ratio `(x / q) * 2^e` is invariant.
pub open spec fn norm_down(x: int, q: int, e: int) -> (int, int)
    recommends
        1 <= x,
        1 <= q,
    decreases (x - q) when 1 <= x && 1 <= q
{
    if x >= q * (F64_MANT_LIMIT as int) {
        norm_down(x, 2 * q, e + 1)
    } else {
        (q, e)
    }
}

/// Bit pattern of the positive binary64 with mantissa `m` in `[2^52, 2^53)`
/// and value `m * 2^e`.
pub open spec fn f64_encode(m: int, e: int) -> u64
    recommends
        F64_MIN_MANT <= m < F64_MANT_LIMIT,
        -1075 < e < 972,
{
    (((e + 1075) * (F64_MIN_MANT as int)) + (m - (F64_MIN_MANT as int))) as u64
}

/// The correctly rounded (nearest, ties-to-even) positive binary64 of the
/// ratio `p / q`, as a bit pattern. Meaningful for `1 <= p < 2^64` and
/// `1 <= q < 2^64`, where the result is always a normal, finite float.
pub open spec fn ratio_to_f64_bits(p: int, q: int) -> u64 {
    let (q1, e1) = norm_down(p, q, 0);
    let (x2, e2) = norm_up(p, q1, e1);
    let m0 = x2 / q1;
    let r = x2 % q1;
    let m = if 2 * r > q1 {
        m0 + 1
    } else if 2 * r == q1 {
        m0 + (m0 % 2)
    } else {
        m0
    };
    if m == F64_MANT_LIMIT {
        f64_encode(F64_MIN_MANT as int, e2 + 1)
    } else {
        f64_encode(m, e2)
    }
}

/// The bit pattern of the binary64 nearest to the decimal number
/// `(-1)^neg * n / 10^k`; zero keeps the sign of the literal.
pub open spec fn decimal_to_f64_bits(neg: bool, n: u64, k: nat) -> u64 {
    let mag = if n == 0 {
        0u64
    } else {
        ratio_to_f64_bits(n as int, pow10(k))
    };
    if neg {
        mag | F64_SIGN_BIT
    } else {
        mag
    }
}

/// The bit pattern of the binary64 nearest to `v / d` (the `avg` result for
/// an integer column with sum `v` over `d` rows).
pub open spec fn i64_ratio_to_f64_bits(v: i64, d: int) -> u64 {
    if v == 0 {
        0u64
    } else if v > 0 {
        ratio_to_f64_bits(v as int, d)
    } else {
        ratio_to_f64_bits(-(v as int), d) | F64_SIGN_BIT
    }
}

/// Executable correctly rounded conversion of `p / q` to binary64 bits.
#[verifier::loop_isolation(false)]
pub fn ratio_bits(p: u64, q: u64) -> (r: u64)
    requires
        1 <= p,
        1 <= q,
    ensures
        r == ratio_to_f64_bits(p as int, q as int),
{
    let x: u128 = p as u128;
    let mut q1: u128 = q as u128;
    let mut e1: u32 = 0;
    proof {
        vstd::arithmetic::power2::lemma2_to64();
    }
    while x / (F64_MANT_LIMIT as u128) >= q1
        invariant
            1 <= q1,
            q1 < 0x1_0000_0000_0000_0000u128,
            q1 as int == q as int * pow2(e1 as nat),
            e1 <= 64,
            norm_down(p as int, q as int, 0) == norm_down(x as int, q1 as int, e1 as int),
        decreases x - q1,
    {
        proof {
            assert((x as int) >= (q1 as int) * (F64_MANT_LIMIT as int)) by (nonlinear_arith)
                requires
                    (x as int) / (F64_MANT_LIMIT as int) >= (q1 as int),
            ;
            vstd::arithmetic::power2::lemma2_to64();
            assert(pow2((e1 + 1) as nat) == 2 * pow2(e1 as nat)) by {
                vstd::arithmetic::power2::lemma_pow2_unfold((e1 + 1) as nat);
            }
            assert(2 * (q as int * pow2(e1 as nat)) == q as int * pow2((e1 + 1) as nat))
                by (nonlinear_arith)
                requires
                    pow2((e1 + 1) as nat) == 2 * pow2(e1 as nat),
            ;
            if e1 + 1 > 64 {
                vstd::arithmetic::power2::lemma_pow2_strictly_increases(64, (e1 + 1) as nat);
                assert(q as int * pow2((e1 + 1) as nat) >= pow2((e1 + 1) as nat))
                    by (nonlinear_arith)
                    requires
                        q >= 1,
                ;
                assert(false);
            }
        }
        q1 = q1 * 2;
        e1 = e1 + 1;
    }
    proof {
        assert((x as int) < (q1 as int) * (F64_MANT_LIMIT as int)) by (nonlinear_arith)
            requires
                (x as int) / (F64_MANT_LIMIT as int) < (q1 as int),
        ;
        assert(norm_down(x as int, q1 as int, e1 as int) == (q1 as int, e1 as int));
    }
    let ghost e1i: int = e1 as int;
    let mut x2: u128 = x;
    let mut e2: i64 = e1 as i64;
    proof {
        assert(e1i == e1 as int);
        assert(e2 == e1 as i64);
        assert((e1i - e2) as nat == 0);
        assert(pow2(0) == 1) by {
            vstd::arithmetic::power2::lemma2_to64();
        }
        assert(x2 as int == p as int * pow2((e1i - e2) as nat));
    }
    while x2 / (F64_MIN_MANT as u128) < q1
        invariant
            1 <= x2,
            x2 < q1 * (F64_MANT_LIMIT as u128),
            q1 < 0x1_0000_0000_0000_0000u128,
            e2 <= e1i,
            e1i - e2 <= 124,
            x2 as int == p as int * pow2((e1i - e2) as nat),
            norm_up(p as int, q1 as int, e1i) == norm_up(x2 as int, q1 as int, e2 as int),
        decreases q1 * (F64_MANT_LIMIT as u128) - x2,
    {
        proof {
            assert((x2 as int) < (q1 as int) * (F64_MIN_MANT as int)) by (nonlinear_arith)
                requires
                    (x2 as int) / (F64_MIN_MANT as int) < (q1 as int),
            ;
            vstd::arithmetic::power2::lemma2_to64();
            assert(pow2((e1i - e2 + 1) as nat) == 2 * pow2((e1i - e2) as nat)) by {
                vstd::arithmetic::power2::lemma_pow2_unfold((e1i - e2 + 1) as nat);
            }
            assert(2 * (p as int * pow2((e1i - e2) as nat)) == p as int * pow2(
                (e1i - e2 + 1) as nat,
            )) by (nonlinear_arith)
                requires
                    pow2((e1i - e2 + 1) as nat) == 2 * pow2((e1i - e2) as nat),
            ;
            if e1i - (e2 - 1) > 124 {
                vstd::arithmetic::power2::lemma_pow2_strictly_increases(117, (e1i - e2) as nat);
                assert(p as int * pow2((e1i - e2) as nat) >= pow2((e1i - e2) as nat))
                    by (nonlinear_arith)
                    requires
                        p >= 1,
                ;
                assert(pow2(117) == 0x20_0000_0000_0000_0000_0000_0000_0000) by {
                    vstd::arithmetic::power2::lemma_pow2_adds(64, 53);
                    vstd::arithmetic::power2::lemma2_to64();
                    vstd::arithmetic::power2::lemma2_to64_rest();
                }
                assert(false);
            }
        }
        x2 = x2 * 2;
        e2 = e2 - 1;
    }
    proof {
        assert((x2 as int) >= (q1 as int) * (F64_MIN_MANT as int)) by (nonlinear_arith)
            requires
                (x2 as int) / (F64_MIN_MANT as int) >= (q1 as int),
        ;
        assert(norm_up(x2 as int, q1 as int, e2 as int) == (x2 as int, e2 as int));
    }
    let m0: u128 = x2 / q1;
    let rem: u128 = x2 % q1;
    proof {
        assert((F64_MIN_MANT as u128) <= m0 < (F64_MANT_LIMIT as u128) && m0 == x2 as int / q1 as int
            && rem == x2 as int % q1 as int) by (nonlinear_arith)
            requires
                1 <= q1,
                q1 * (F64_MIN_MANT as u128) <= x2 < q1 * (F64_MANT_LIMIT as u128),
                m0 == x2 / q1,
                rem == x2 % q1,
        ;
    }
    let m: u128 = if 2 * rem > q1 {
        m0 + 1
    } else if 2 * rem == q1 {
        m0 + (m0 % 2)
    } else {
        m0
    };
    let (mf, ef): (u64, i64) = if m == F64_MANT_LIMIT as u128 {
        (F64_MIN_MANT, e2 + 1)
    } else {
        (m as u64, e2)
    };
    ((ef + 1075) as u64) * F64_MIN_MANT + (mf - F64_MIN_MANT)
}

/// Executable `decimal_to_f64_bits`.
pub fn decimal_bits(neg: bool, n: u64, k: u32) -> (r: u64)
    requires
        k <= 19,
    ensures
        r == decimal_to_f64_bits(neg, n, k as nat),
{
    let mag: u64 = if n == 0 {
        0
    } else {
        let mut q: u64 = 1;
        let mut i: u32 = 0;
        while i < k
            invariant
                i <= k,
                k <= 19,
                1 <= q,
                q == pow10(i as nat),
                q <= 0x8ac7_2304_89e8_0000,
            decreases k - i,
        {
            proof {
                assert(pow10(19) == 0x8ac7_2304_89e8_0000) by {
                    reveal_with_fuel(pow10, 21);
                }
                lemma_pow10_monotone(i as nat + 1, 19);
            }
            q = q * 10;
            i = i + 1;
        }
        ratio_bits(n, q)
    };
    if neg {
        mag | F64_SIGN_BIT
    } else {
        mag
    }
}

/// Executable `i64_ratio_to_f64_bits`; `d` is a row count, hence positive.
pub fn i64_ratio_bits(v: i64, d: u64) -> (r: u64)
    requires
        1 <= d,
    ensures
        r == i64_ratio_to_f64_bits(v, d as int),
{
    if v == 0 {
        0
    } else if v > 0 {
        ratio_bits(v as u64, d)
    } else {
        let mag = if v == i64::MIN {
            0x8000_0000_0000_0000u64
        } else {
            (-v) as u64
        };
        ratio_bits(mag, d) | F64_SIGN_BIT
    }
}

proof fn lemma_pow10_monotone(i: nat, j: nat)
    requires
        i <= j,
    ensures
        pow10(i) <= pow10(j),
        pow10(i) >= 1,
    decreases j,
{
    if j > 0 {
        if i <= j - 1 {
            lemma_pow10_monotone(i, (j - 1) as nat);
        } else {
            lemma_pow10_monotone((i - 1) as nat, (j - 1) as nat);
        }
    }
}

} // verus!
