//! IEEE 754 binary64 values as bit patterns.
//!
//! A real number crosses this library as the `u64` that holds its binary64
//! encoding: one sign bit, eleven exponent bits, fifty-two fraction bits. The
//! functions here classify and order such patterns with integer arithmetic
//! alone. Their contracts are stated over the exact value that a pattern
//! encodes, scaled by two to the power 1074 so that it is an integer.

use vstd::prelude::*;
use vstd::arithmetic::power2::*;

verus! {

/// The sign bit; also the encoding of negative zero.
pub const SIGN_BIT: u64 = 0x8000_0000_0000_0000;

/// The encoding of positive infinity. Magnitudes above it are NaNs.
pub const INFINITY: u64 = 0x7FF0_0000_0000_0000;

/// The encoding of positive zero.
pub const ZERO: u64 = 0;

/// The encoding of one half.
pub const ONE_HALF: u64 = 0x3FE0_0000_0000_0000;

/// The encoding of one.
pub const ONE: u64 = 0x3FF0_0000_0000_0000;

/// The encoding of one hundred.
pub const ONE_HUNDRED: u64 = 0x4059_0000_0000_0000;

/// Two to the power 52: the weight of the lowest exponent bit, and the
/// implicit leading bit of a normal number's significand.
pub const HIDDEN_BIT: u64 = 0x10_0000_0000_0000;

/// The pattern with its sign bit cleared.
pub open spec fn magnitude(bits: u64) -> u64 {
    if bits >= SIGN_BIT {
        (bits - SIGN_BIT) as u64
    } else {
        bits
    }
}

/// Whether the sign bit is set.
pub open spec fn negative(bits: u64) -> bool {
    bits >= SIGN_BIT
}

/// Whether the pattern encodes no number at all.
pub open spec fn nan(bits: u64) -> bool {
    magnitude(bits) > INFINITY
}

/// Whether the pattern encodes a real number: neither an infinity nor a NaN.
pub open spec fn finite(bits: u64) -> bool {
    magnitude(bits) < INFINITY
}

/// The eleven exponent bits, as a number.
pub open spec fn exponent_field(bits: u64) -> nat {
    (magnitude(bits) / HIDDEN_BIT) as nat
}

/// The fifty-two fraction bits, as a number.
pub open spec fn fraction_field(bits: u64) -> nat {
    (magnitude(bits) % HIDDEN_BIT) as nat
}

/// The absolute value that a pattern encodes, times two to the power 1074.
///
/// A subnormal (exponent field zero) is its fraction field times the smallest
/// positive value; a normal number has the implicit leading bit and doubles
/// with each step of the exponent field. The formula is carried on to the
/// exponent field of the infinities, which so stand above every real number.
pub open spec fn scaled_magnitude(bits: u64) -> nat {
    let e = exponent_field(bits);
    let f = fraction_field(bits);
    if e == 0 {
        f
    } else {
        ((HIDDEN_BIT + f) * pow2((e - 1) as nat)) as nat
    }
}

/// The value that a pattern encodes, times two to the power 1074.
pub open spec fn scaled_value(bits: u64) -> int {
    if negative(bits) {
        -(scaled_magnitude(bits) as int)
    } else {
        scaled_magnitude(bits) as int
    }
}

/// `a <= b` as IEEE 754 has it: false where either is a NaN, and the two
/// zeros equal.
pub open spec fn at_most(a: u64, b: u64) -> bool {
    !nan(a) && !nan(b) && scaled_value(a) <= scaled_value(b)
}

/// `a < b` as IEEE 754 has it: false where either is a NaN.
pub open spec fn below(a: u64, b: u64) -> bool {
    !nan(a) && !nan(b) && scaled_value(a) < scaled_value(b)
}

/// A real number greater than zero.
pub open spec fn positive_real(bits: u64) -> bool {
    finite(bits) && scaled_value(bits) > 0
}

/// Among magnitudes up to infinity, a greater pattern encodes a greater
/// value.
pub proof fn lemma_magnitudes_ascend(a: u64, b: u64)
    requires
        a < b <= INFINITY,
    ensures
        scaled_magnitude(a) < scaled_magnitude(b),
{
    let w = HIDDEN_BIT as int;
    let ea = exponent_field(a);
    let eb = exponent_field(b);
    let fa = fraction_field(a) as int;
    let fb = fraction_field(b) as int;
    assert(a == ea * w + fa && b == eb * w + fb);
    if ea == eb {
        if ea != 0 {
            let p = pow2((ea - 1) as nat) as int;
            lemma_pow2_pos((ea - 1) as nat);
            assert((w + fa) * p < (w + fb) * p) by (nonlinear_arith)
                requires
                    fa < fb,
                    p > 0,
            ;
        }
    } else {
        assert(ea < eb);
        // the value of `a` lies below the start of the next exponent step
        let pa = pow2(ea) as int;
        assert(scaled_magnitude(a) < w * pa) by {
            if ea == 0 {
                lemma2_to64();
            } else {
                let q = pow2((ea - 1) as nat) as int;
                lemma_pow2_pos((ea - 1) as nat);
                lemma_pow2_unfold(ea);
                assert((w + fa) * q < w * (2 * q)) by (nonlinear_arith)
                    requires
                        fa < w,
                        q > 0,
                ;
            }
        }
        // and the value of `b` lies at or above the start of its own
        let pb = pow2((eb - 1) as nat) as int;
        assert(pa <= pb) by {
            if ea < eb - 1 {
                lemma_pow2_strictly_increases(ea, (eb - 1) as nat);
            }
        }
        assert(w * pa <= (w + fb) * pb) by (nonlinear_arith)
            requires
                0 <= fb,
                0 < pa <= pb,
                w > 0,
        ;
    }
}

/// Among magnitudes up to infinity, patterns are ordered as the values they
/// encode, and only the zero pattern encodes zero.
pub proof fn lemma_magnitude_order(a: u64, b: u64)
    requires
        a <= INFINITY,
        b <= INFINITY,
    ensures
        a < b <==> scaled_magnitude(a) < scaled_magnitude(b),
        a == b <==> scaled_magnitude(a) == scaled_magnitude(b),
        a == 0 <==> scaled_magnitude(a) == 0,
{
    if a < b {
        lemma_magnitudes_ascend(a, b);
    }
    if b < a {
        lemma_magnitudes_ascend(b, a);
    }
    if 0 < a {
        lemma_magnitudes_ascend(0, a);
    }
}

/// The pattern with its sign bit cleared.
pub fn abs(bits: u64) -> (m: u64)
    ensures
        m == magnitude(bits),
        m < SIGN_BIT,
{
    if bits >= SIGN_BIT {
        bits - SIGN_BIT
    } else {
        bits
    }
}

/// Whether the pattern encodes no number.
pub fn is_nan(bits: u64) -> (r: bool)
    ensures
        r == nan(bits),
{
    abs(bits) > INFINITY
}

/// Whether the pattern encodes a real number.
pub fn is_finite(bits: u64) -> (r: bool)
    ensures
        r == finite(bits),
{
    abs(bits) < INFINITY
}

/// Whether `a <= b` as numbers.
pub fn le(a: u64, b: u64) -> (r: bool)
    ensures
        r == at_most(a, b),
{
    let ma = abs(a);
    let mb = abs(b);
    if ma > INFINITY || mb > INFINITY {
        return false;
    }
    proof {
        lemma_magnitude_order(ma, mb);
        lemma_magnitude_order(mb, ma);
    }
    if a >= SIGN_BIT {
        b < SIGN_BIT || mb <= ma
    } else {
        if b < SIGN_BIT {
            ma <= mb
        } else {
            ma == 0 && mb == 0
        }
    }
}

/// Whether `a < b` as numbers.
pub fn lt(a: u64, b: u64) -> (r: bool)
    ensures
        r == below(a, b),
{
    let ma = abs(a);
    let mb = abs(b);
    if ma > INFINITY || mb > INFINITY {
        return false;
    }
    proof {
        lemma_magnitude_order(ma, mb);
        lemma_magnitude_order(mb, ma);
    }
    if a >= SIGN_BIT {
        if b < SIGN_BIT {
            ma != 0 || mb != 0
        } else {
            mb < ma
        }
    } else {
        b < SIGN_BIT && ma < mb
    }
}

/// Whether the pattern encodes a real number greater than zero.
pub fn is_positive_real(bits: u64) -> (r: bool)
    ensures
        r == positive_real(bits),
{
    proof {
        if bits < INFINITY {
            lemma_magnitude_order(bits, 0);
        }
    }
    0 < bits && bits < INFINITY
}

/// The named constants encode what their names say: zero is zero, one half
/// is half of one, one hundred is a hundred times one, and one is two to the
/// power 1074 on the scale of `scaled_value`.
pub proof fn lemma_constants()
    ensures
        scaled_value(ZERO) == 0,
        scaled_value(SIGN_BIT) == 0,
        scaled_value(ONE) == pow2(1074),
        2 * scaled_value(ONE_HALF) == scaled_value(ONE),
        scaled_value(ONE_HUNDRED) == 100 * scaled_value(ONE),
{
    lemma2_to64();
    lemma2_to64_rest();
    let w = HIDDEN_BIT as int;
    let p = pow2(1021) as int;
    assert(exponent_field(ONE) == 1023 && fraction_field(ONE) == 0);
    assert(exponent_field(ONE_HALF) == 1022 && fraction_field(ONE_HALF) == 0);
    assert(exponent_field(ONE_HUNDRED) == 1029 && fraction_field(ONE_HUNDRED)
        == 0x9_0000_0000_0000);
    lemma_pow2_unfold(1022);
    lemma_pow2_adds(52, 1022);
    lemma_pow2_adds(6, 1022);
    assert(pow2(1022) == 2 * p);
    assert(pow2(1028) == 64 * pow2(1022));
    assert(scaled_value(ONE) == w * (2 * p));
    assert(scaled_value(ONE_HALF) == w * p);
    assert(2 * (w * p) == w * (2 * p)) by (nonlinear_arith);
    assert(scaled_value(ONE_HUNDRED) == (w + 0x9_0000_0000_0000) * (64 * (2 * p)));
    assert((w + 0x9_0000_0000_0000) * (64 * (2 * p)) == 100 * (w * (2 * p))) by (nonlinear_arith)
        requires
            w == 0x10_0000_0000_0000,
    ;
}

} // verus!
