//! Bit-level model of IEEE-754 double-precision values.
//!
//! The engine's scalars (likelihoods, objective values, parameter
//! coordinates, the error-model scale) are carried as the `u64` bit patterns
//! of IEEE-754 doubles. This module gives those patterns a mathematical
//! meaning: a sign, and a magnitude expressed as a natural number in units of
//! the smallest subnormal. Ordering, equality and sign tests are implemented
//! on the bit patterns and proved equivalent to the standard comparison of
//! the encoded values (where, as IEEE-754 prescribes, every comparison with a
//! NaN is false and the two zeros are equal).

use vstd::arithmetic::mul::lemma_mul_strict_inequality;
use vstd::arithmetic::power2::{lemma_pow2_adds, lemma_pow2_pos, lemma_pow2_strictly_increases};
use vstd::prelude::*;

verus! {

/// The implicit leading significand bit of a normal value.
pub const IMPLICIT_BIT: u64 = 0x10_0000_0000_0000;

/// Mask clearing the sign bit.
pub const ABS_MASK: u64 = 0x7fff_ffff_ffff_ffff;

/// Bit pattern of positive infinity.
pub const INF_BITS: u64 = 0x7ff0_0000_0000_0000;

/// Bit pattern of positive zero.
pub const ZERO_BITS: u64 = 0;

/// Sign bit of a double given as its bit pattern: 0 for positive, 1 for negative.
pub open spec fn sign_of(b: u64) -> u64 {
    b >> 63
}

/// Biased exponent field (11 bits).
pub open spec fn exp_of(b: u64) -> u64 {
    (b >> 52) & 0x7ff
}

/// Fraction field (52 bits).
pub open spec fn frac_of(b: u64) -> u64 {
    b & 0xf_ffff_ffff_ffff
}

/// The bit pattern with the sign cleared.
pub open spec fn abs_of(b: u64) -> u64 {
    b & 0x7fff_ffff_ffff_ffff
}

/// A NaN: all-ones exponent and a nonzero fraction.
pub open spec fn is_nan(b: u64) -> bool {
    exp_of(b) == 0x7ff && frac_of(b) != 0
}

/// An infinity of either sign.
pub open spec fn is_inf(b: u64) -> bool {
    exp_of(b) == 0x7ff && frac_of(b) == 0
}

/// A finite value (zero, subnormal or normal).
pub open spec fn is_finite(b: u64) -> bool {
    exp_of(b) != 0x7ff
}

/// A zero of either sign.
pub open spec fn is_zero(b: u64) -> bool {
    exp_of(b) == 0 && frac_of(b) == 0
}

/// Magnitude of the encoded value in units of the smallest positive
/// subnormal. A subnormal's significand is its fraction; a normal's
/// significand carries the implicit bit and is scaled by two for every
/// exponent step. Infinities sit above every finite magnitude. The
/// magnitude of a NaN pattern is meaningless and never used.
pub open spec fn mag_of(b: u64) -> nat {
    if exp_of(b) == 0 {
        frac_of(b) as nat
    } else {
        ((frac_of(b) + IMPLICIT_BIT) as nat) * vstd::arithmetic::power2::pow2(
            (exp_of(b) - 1) as nat,
        )
    }
}

/// IEEE-754 `<` on the encoded values: false whenever either side is NaN,
/// the two zeros are equal, otherwise signed magnitude comparison.
pub open spec fn f_lt(a: u64, b: u64) -> bool {
    if is_nan(a) || is_nan(b) {
        false
    } else if sign_of(a) == 0 && sign_of(b) == 0 {
        mag_of(a) < mag_of(b)
    } else if sign_of(a) == 1 && sign_of(b) == 1 {
        mag_of(b) < mag_of(a)
    } else if sign_of(a) == 1 {
        // a is nonpositive, b is nonnegative: strict unless both are zeros.
        mag_of(a) != 0 || mag_of(b) != 0
    } else {
        false
    }
}

/// IEEE-754 `==` on the encoded values: never true for NaN; the two zeros
/// are equal; otherwise same sign and same magnitude.
pub open spec fn f_eq(a: u64, b: u64) -> bool {
    &&& !is_nan(a)
    &&& !is_nan(b)
    &&& mag_of(a) == mag_of(b)
    &&& (sign_of(a) == sign_of(b) || mag_of(a) == 0)
}

/// IEEE-754 `<=` on the encoded values.
pub open spec fn f_le(a: u64, b: u64) -> bool {
    f_lt(a, b) || f_eq(a, b)
}

/// The three packed fields decompose the unsigned bit pattern linearly.
proof fn lemma_fields(b: u64)
    ensures
        abs_of(b) == exp_of(b) * 0x10_0000_0000_0000 + frac_of(b),
        exp_of(b) <= 0x7ff,
        frac_of(b) <= 0xf_ffff_ffff_ffff,
        sign_of(b) == 0 || sign_of(b) == 1,
{
    assert((b & 0x7fff_ffff_ffff_ffff) == ((b >> 52) & 0x7ff) * 0x10_0000_0000_0000 + (b
        & 0xf_ffff_ffff_ffff) && ((b >> 52) & 0x7ff) <= 0x7ff && (b & 0xf_ffff_ffff_ffff)
        <= 0xf_ffff_ffff_ffff && ((b >> 63) == 0 || (b >> 63) == 1)) by (bit_vector);
}

/// A strictly smaller exponent field means a strictly smaller magnitude.
proof fn lemma_mag_exp_mono(a: u64, b: u64)
    requires
        exp_of(a) < exp_of(b),
    ensures
        mag_of(a) < mag_of(b),
{
    lemma_fields(a);
    lemma_fields(b);
    let ea = exp_of(a) as nat;
    let eb = exp_of(b) as nat;
    let fa = frac_of(a) as nat;
    let fb = frac_of(b) as nat;
    let k: nat = 0x10_0000_0000_0000;
    lemma_pow2_pos((eb - 1) as nat);
    let pb = vstd::arithmetic::power2::pow2((eb - 1) as nat);
    vstd::arithmetic::power2::lemma2_to64_rest();
    assert(mag_of(b) == (fb + k) * pb);
    // The larger side is at least the implicit bit times its exponent scale.
    assert(k * pb <= (fb + k) * pb) by (nonlinear_arith)
        requires
            pb >= 1,
            fb >= 0,
            k >= 1,
    ;
    assert(k <= k * pb) by (nonlinear_arith)
        requires
            pb >= 1,
            k >= 1,
    ;
    if ea == 0 {
        assert(mag_of(a) == fa);
        assert(fa < k);
    } else {
        let pa = vstd::arithmetic::power2::pow2((ea - 1) as nat);
        lemma_pow2_pos((ea - 1) as nat);
        // mag_of(a) < 2^53 * 2^(ea-1) == 2^(ea+52)
        assert(mag_of(a) == (fa + k) * pa);
        assert((fa + k) * pa < (2 * k) * pa) by (nonlinear_arith)
            requires
                fa + k < 2 * k,
                pa >= 1,
        ;
        lemma_pow2_adds(53nat, (ea - 1) as nat);
        assert(vstd::arithmetic::power2::pow2(53nat) == 2 * k);
        assert((2 * k) * pa == vstd::arithmetic::power2::pow2((ea + 52) as nat));
        // 2^(ea+52) <= 2^(eb+51) == 2^52 * 2^(eb-1) <= mag_of(b)
        if ea + 52 < eb + 51 {
            lemma_pow2_strictly_increases((ea + 52) as nat, (eb + 51) as nat);
        }
        lemma_pow2_adds(52nat, (eb - 1) as nat);
        assert(vstd::arithmetic::power2::pow2((eb + 51) as nat) == k * pb);
        assert(mag_of(a) < k * pb);
    }
}

/// Magnitude ordering coincides with integer ordering of the sign-cleared
/// bit patterns.
pub proof fn lemma_mag_mono(a: u64, b: u64)
    ensures
        mag_of(a) < mag_of(b) <==> abs_of(a) < abs_of(b),
        mag_of(a) == mag_of(b) <==> abs_of(a) == abs_of(b),
{
    lemma_fields(a);
    lemma_fields(b);
    let k: nat = 0x10_0000_0000_0000;
    if exp_of(a) < exp_of(b) {
        lemma_mag_exp_mono(a, b);
    } else if exp_of(b) < exp_of(a) {
        lemma_mag_exp_mono(b, a);
    } else {
        // Equal exponents: both reduce to the fraction fields.
        if exp_of(a) == 0 {
        } else {
            let p = vstd::arithmetic::power2::pow2((exp_of(a) - 1) as nat);
            lemma_pow2_pos((exp_of(a) - 1) as nat);
            let xa = (frac_of(a) + k) as int;
            let xb = (frac_of(b) + k) as int;
            if xa < xb {
                lemma_mul_strict_inequality(xa, xb, p as int);
            } else if xb < xa {
                lemma_mul_strict_inequality(xb, xa, p as int);
            }
        }
    }
}

/// A zero magnitude is exactly a cleared sign-less pattern.
pub proof fn lemma_mag_zero(b: u64)
    ensures
        (mag_of(b) == 0) <==> (abs_of(b) == 0),
{
    lemma_mag_mono(b, 0);
    assert(abs_of(0) == 0) by (bit_vector);
    assert(exp_of(0) == 0 && frac_of(0) == 0) by (bit_vector);
}

/// NaN is recognizable as a sign-cleared pattern above the infinity pattern.
proof fn lemma_nan_bits(b: u64)
    ensures
        is_nan(b) <==> abs_of(b) > 0x7ff0_0000_0000_0000,
        sign_of(b) == 1 <==> b >= 0x8000_0000_0000_0000,
{
    assert((((b >> 52) & 0x7ff) == 0x7ff && (b & 0xf_ffff_ffff_ffff) != 0 <==> (b
        & 0x7fff_ffff_ffff_ffff) > 0x7ff0_0000_0000_0000) && ((b >> 63) == 1 <==> b
        >= 0x8000_0000_0000_0000)) by (bit_vector);
}

/// IEEE-754 `<` on bit patterns.
pub fn lt(a: u64, b: u64) -> (r: bool)
    ensures
        r == f_lt(a, b),
{
    proof {
        lemma_nan_bits(a);
        lemma_nan_bits(b);
        lemma_mag_mono(a, b);
        lemma_mag_zero(a);
        lemma_mag_zero(b);
        lemma_fields(a);
        lemma_fields(b);
    }
    let abs_a = a & ABS_MASK;
    let abs_b = b & ABS_MASK;
    if abs_a > INF_BITS || abs_b > INF_BITS {
        false
    } else {
        let neg_a = a >= 0x8000_0000_0000_0000;
        let neg_b = b >= 0x8000_0000_0000_0000;
        if !neg_a && !neg_b {
            abs_a < abs_b
        } else if neg_a && neg_b {
            abs_b < abs_a
        } else if neg_a {
            abs_a != 0 || abs_b != 0
        } else {
            false
        }
    }
}

/// IEEE-754 `==` on bit patterns.
pub fn eq(a: u64, b: u64) -> (r: bool)
    ensures
        r == f_eq(a, b),
{
    proof {
        lemma_nan_bits(a);
        lemma_nan_bits(b);
        lemma_mag_mono(a, b);
        lemma_mag_zero(a);
        lemma_fields(a);
        lemma_fields(b);
    }
    let abs_a = a & ABS_MASK;
    let abs_b = b & ABS_MASK;
    if abs_a > INF_BITS || abs_b > INF_BITS {
        false
    } else {
        abs_a == abs_b && (abs_a == 0 || (a >= 0x8000_0000_0000_0000) == (b
            >= 0x8000_0000_0000_0000))
    }
}

/// IEEE-754 `<=` on bit patterns.
pub fn le(a: u64, b: u64) -> (r: bool)
    ensures
        r == f_le(a, b),
{
    let strict = lt(a, b);
    let equal = eq(a, b);
    strict || equal
}

/// NaN test on a bit pattern.
pub fn nan(b: u64) -> (r: bool)
    ensures
        r == is_nan(b),
{
    proof {
        lemma_nan_bits(b);
    }
    (b & ABS_MASK) > INF_BITS
}

/// The bit pattern of half a finite value whose exponent field is at least
/// two: one exponent step down, nothing rounded.
pub open spec fn halved_bits(b: u64) -> u64 {
    (b - 0x10_0000_0000_0000) as u64
}

/// The bit pattern of twice a non-NaN value: one exponent step up for a
/// normal value, a significand shift for a subnormal one, an infinity of the
/// same sign where IEEE-754 doubling overflows.
pub open spec fn doubled_bits(b: u64) -> u64 {
    if exp_of(b) >= 2046 {
        (b & 0x8000_0000_0000_0000) | 0x7ff0_0000_0000_0000
    } else if exp_of(b) == 0 {
        (b & 0x8000_0000_0000_0000) | ((b & 0x7fff_ffff_ffff_ffff) << 1)
    } else {
        (b + 0x10_0000_0000_0000) as u64
    }
}

/// The bit pattern of four times a non-NaN value.
pub open spec fn quadrupled_bits(b: u64) -> u64 {
    doubled_bits(doubled_bits(b))
}

/// The bit pattern of the negated value.
pub open spec fn negated_bits(b: u64) -> u64 {
    b ^ 0x8000_0000_0000_0000
}

/// The bit pattern of minus two times the value; a NaN is handed back.
pub open spec fn neg_doubled_bits(b: u64) -> u64 {
    if is_nan(b) {
        b
    } else {
        negated_bits(doubled_bits(b))
    }
}

/// Magnitude ordering bounds the exponent fields.
pub proof fn lemma_exp_mono(a: u64, b: u64)
    requires
        mag_of(a) <= mag_of(b),
    ensures
        exp_of(a) <= exp_of(b),
{
    lemma_fields(a);
    lemma_fields(b);
    lemma_mag_mono(a, b);
}

/// A value that compares strictly above a nonnegative one is itself
/// nonnegative, with at least that exponent.
pub proof fn lemma_pos_lt_exp(a: u64, b: u64)
    requires
        f_lt(a, b),
        sign_of(a) == 0,
    ensures
        sign_of(b) == 0,
        !is_nan(b),
        exp_of(b) >= exp_of(a),
        mag_of(b) > mag_of(a),
{
    lemma_fields(a);
    lemma_fields(b);
    lemma_mag_mono(a, b);
}

/// The comparison is a total order on non-NaN patterns.
pub proof fn lemma_order(a: u64, b: u64)
    requires
        !is_nan(a),
        !is_nan(b),
    ensures
        f_lt(a, b) || f_eq(a, b) || f_lt(b, a),
        !(f_lt(a, b) && f_lt(b, a)),
        !(f_lt(a, b) && f_eq(a, b)),
        f_eq(a, b) == f_eq(b, a),
{
    lemma_fields(a);
    lemma_fields(b);
}

/// The comparison is transitive on non-NaN patterns.
pub proof fn lemma_trans(a: u64, b: u64, c: u64)
    requires
        !is_nan(a),
        !is_nan(b),
        !is_nan(c),
        f_le(a, b),
        f_le(b, c),
    ensures
        f_le(a, c),
        f_lt(a, b) || f_lt(b, c) ==> f_lt(a, c),
{
    lemma_fields(a);
    lemma_fields(b);
    lemma_fields(c);
}

/// Exact halving of a finite value whose exponent field is at least two:
/// the exponent drops by one and nothing is rounded.
pub fn halve(b: u64) -> (r: u64)
    requires
        exp_of(b) >= 2,
        is_finite(b),
    ensures
        sign_of(r) == sign_of(b),
        exp_of(r) == exp_of(b) - 1,
        frac_of(r) == frac_of(b),
        is_finite(r),
        !is_nan(r),
        2 * mag_of(r) == mag_of(b),
        r == halved_bits(b),
{
    proof {
        lemma_fields(b);
        assert(b >= 0x10_0000_0000_0000 && (((b - 0x10_0000_0000_0000) as u64) >> 63) == (b
            >> 63) && ((((b - 0x10_0000_0000_0000) as u64) >> 52) & 0x7ff) == ((b >> 52)
            & 0x7ff) - 1 && (((b - 0x10_0000_0000_0000) as u64) & 0xf_ffff_ffff_ffff) == (b
            & 0xf_ffff_ffff_ffff)) by (bit_vector)
            requires
                2 <= ((b >> 52) & 0x7ff) && ((b >> 52) & 0x7ff) <= 2046,
        ;
        let e = exp_of(b) as nat;
        let f = frac_of(b) as nat;
        let k: nat = 0x10_0000_0000_0000;
        lemma_pow2_adds(1nat, (e - 2) as nat);
        vstd::arithmetic::power2::lemma2_to64();
        let p = vstd::arithmetic::power2::pow2((e - 2) as nat);
        assert(2 * ((f + k) * p) == (f + k) * (2 * p)) by (nonlinear_arith);
    }
    b - IMPLICIT_BIT
}

/// Exact doubling: one exponent step for normal values, a significand shift
/// for subnormal ones, and an overflow to infinity exactly where IEEE-754
/// multiplication by two overflows.
pub fn double(b: u64) -> (r: u64)
    requires
        !is_nan(b),
    ensures
        sign_of(r) == sign_of(b),
        !is_nan(r),
        exp_of(b) < 2046 ==> is_finite(r) && mag_of(r) == 2 * mag_of(b),
        exp_of(b) >= 2046 ==> is_inf(r),
        r == doubled_bits(b),
{
    let e = (b >> 52) & 0x7ff;
    if e >= 2046 {
        proof {
            assert((((b & 0x8000_0000_0000_0000) | 0x7ff0_0000_0000_0000) >> 63) == (b >> 63)
                && ((((b & 0x8000_0000_0000_0000) | 0x7ff0_0000_0000_0000) >> 52) & 0x7ff)
                == 0x7ff && (((b & 0x8000_0000_0000_0000) | 0x7ff0_0000_0000_0000)
                & 0xf_ffff_ffff_ffff) == 0) by (bit_vector);
        }
        (b & 0x8000_0000_0000_0000) | INF_BITS
    } else if e == 0 {
        let r = (b & 0x8000_0000_0000_0000) | ((b & ABS_MASK) << 1);
        proof {
            lemma_fields(b);
            assert((r >> 63) == (b >> 63) && (((r >> 52) & 0x7ff) == 0 || ((r >> 52) & 0x7ff)
                == 1) && (((r >> 52) & 0x7ff) == 0 ==> (r & 0xf_ffff_ffff_ffff) == 2 * (b
                & 0xf_ffff_ffff_ffff)) && (((r >> 52) & 0x7ff) == 1 ==> (r
                & 0xf_ffff_ffff_ffff) + 0x10_0000_0000_0000 == 2 * (b & 0xf_ffff_ffff_ffff)))
                by (bit_vector)
                requires
                    ((b >> 52) & 0x7ff) == 0,
                    r == (b & 0x8000_0000_0000_0000) | ((b & 0x7fff_ffff_ffff_ffff) << 1),
            ;
            vstd::arithmetic::power2::lemma2_to64();
            assert(mag_of(b) == frac_of(b) as nat);
            if exp_of(r) == 0 {
                assert(mag_of(r) == 2 * mag_of(b));
            } else {
                assert(mag_of(r) == ((frac_of(r) + IMPLICIT_BIT) as nat) * 1);
                assert(mag_of(r) == 2 * mag_of(b));
            }
        }
        r
    } else {
        proof {
            lemma_fields(b);
            assert(b + 0x10_0000_0000_0000 <= 0xffff_ffff_ffff_ffff && (((b
                + 0x10_0000_0000_0000) as u64) >> 63) == (b >> 63) && ((((b
                + 0x10_0000_0000_0000) as u64) >> 52) & 0x7ff) == ((b >> 52) & 0x7ff) + 1 && (((
            b + 0x10_0000_0000_0000) as u64) & 0xf_ffff_ffff_ffff) == (b & 0xf_ffff_ffff_ffff))
                by (bit_vector)
                requires
                    1 <= ((b >> 52) & 0x7ff) && ((b >> 52) & 0x7ff) <= 2045,
            ;
        }
        let r = b + IMPLICIT_BIT;
        proof {
            let e2 = exp_of(b) as nat;
            let f = frac_of(b) as nat;
            let k: nat = 0x10_0000_0000_0000;
            assert(exp_of(r) == e2 + 1 && frac_of(r) == f && sign_of(r) == sign_of(b));
            lemma_pow2_adds(1nat, (e2 - 1) as nat);
            vstd::arithmetic::power2::lemma2_to64();
            let p = vstd::arithmetic::power2::pow2((e2 - 1) as nat);
            assert(vstd::arithmetic::power2::pow2(e2) == 2 * p);
            assert(mag_of(r) == (f + k) * (2 * p));
            assert(2 * ((f + k) * p) == (f + k) * (2 * p)) by (nonlinear_arith);
            assert(mag_of(r) == 2 * mag_of(b));
        }
        r
    }
}

/// Sign flip: exact negation.
pub fn negate(b: u64) -> (r: u64)
    ensures
        sign_of(r) == 1 - sign_of(b),
        exp_of(r) == exp_of(b),
        frac_of(r) == frac_of(b),
        mag_of(r) == mag_of(b),
        is_nan(r) == is_nan(b),
        r == negated_bits(b),
{
    proof {
        assert(((b ^ 0x8000_0000_0000_0000) >> 63) == 1 - (b >> 63) && (((b
            ^ 0x8000_0000_0000_0000) >> 52) & 0x7ff) == ((b >> 52) & 0x7ff) && ((b
            ^ 0x8000_0000_0000_0000) & 0xf_ffff_ffff_ffff) == (b & 0xf_ffff_ffff_ffff))
            by (bit_vector);
    }
    b ^ 0x8000_0000_0000_0000
}

/// Multiplication by negative two, exact in the finite range and overflowing
/// to the oppositely-signed infinity as IEEE-754 prescribes. A NaN pattern is
/// handed back unchanged.
pub fn neg_double(b: u64) -> (r: u64)
    ensures
        is_nan(b) ==> r == b,
        !is_nan(b) ==> {
            &&& sign_of(r) == 1 - sign_of(b)
            &&& !is_nan(r)
            &&& (exp_of(b) < 2046 ==> is_finite(r) && mag_of(r) == 2 * mag_of(b))
            &&& (exp_of(b) >= 2046 ==> is_inf(r))
        },
        r == neg_doubled_bits(b),
{
    if nan(b) {
        b
    } else {
        negate(double(b))
    }
}

/// Largest element of a non-empty vector of non-NaN patterns.
pub fn max_bits(v: &Vec<u64>) -> (r: u64)
    requires
        v@.len() > 0,
        forall|i: int| 0 <= i < v@.len() ==> !is_nan(#[trigger] v@[i]),
    ensures
        exists|i: int| 0 <= i < v@.len() && v@[i] == r,
        forall|i: int| 0 <= i < v@.len() ==> f_le(#[trigger] v@[i], r),
        !is_nan(r),
{
    let mut m = v[0];
    let mut j: usize = 1;
    while j < v.len()
        invariant
            1 <= j <= v@.len(),
            exists|i: int| 0 <= i < v@.len() && v@[i] == m,
            forall|i: int| 0 <= i < j ==> f_le(#[trigger] v@[i], m),
            forall|i: int| 0 <= i < v@.len() ==> !is_nan(#[trigger] v@[i]),
            !is_nan(m),
        decreases v@.len() - j,
    {
        let x = v[j];
        if lt(m, x) {
            proof {
                assert forall|i: int| 0 <= i < j implies f_le(#[trigger] v@[i], x) by {
                    lemma_trans(v@[i], m, x);
                }
                lemma_order(m, x);
            }
            m = x;
        } else {
            proof {
                lemma_order(m, x);
            }
        }
        j += 1;
    }
    m
}

} // verus!
