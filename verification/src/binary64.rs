//! Bit-level model of IEEE 754 binary64 numbers.
//!
//! A number is held as the `u64` pattern of its encoding: one sign bit, eleven
//! exponent bits and fifty-two fraction bits. The specification functions of
//! this module say which number a pattern denotes, scaled by `2^1074` so that
//! every finite number becomes an integer. The executable functions are the
//! operations that are exact on encodings (absolute value and comparison),
//! computed on the patterns alone.

use vstd::arithmetic::power2::{
    lemma_pow2_pos, lemma_pow2_strictly_increases, lemma_pow2_unfold, pow2,
};
use vstd::prelude::*;

verus! {

/// The pattern whose only set bit is the sign bit; also the encoding of `-0`.
pub const SIGN_BIT: u64 = 0x8000_0000_0000_0000;

/// The encoding of positive infinity. Every greater magnitude encodes a NaN.
pub const INFINITY: u64 = 0x7ff0_0000_0000_0000;

/// `2^52`: the weight of the lowest exponent bit within a pattern, and the
/// implicit leading bit of a normal number's significand.
pub const HIDDEN_BIT: u64 = 0x0010_0000_0000_0000;

/// The pattern with its sign bit cleared.
pub open spec fn magnitude(bits: u64) -> u64 {
    if bits >= SIGN_BIT {
        (bits - SIGN_BIT) as u64
    } else {
        bits
    }
}

/// Whether the sign bit is set. This holds of `-0` and of some NaNs too.
pub open spec fn is_negative(bits: u64) -> bool {
    bits >= SIGN_BIT
}

/// Whether the pattern encodes no number at all.
pub open spec fn is_nan(bits: u64) -> bool {
    magnitude(bits) > INFINITY
}

/// The biased exponent field, between 0 and 2047.
pub open spec fn exponent(bits: u64) -> nat {
    (magnitude(bits) / HIDDEN_BIT) as nat
}

/// The fraction field, below `2^52`.
pub open spec fn fraction(bits: u64) -> nat {
    (magnitude(bits) % HIDDEN_BIT) as nat
}

/// The absolute value of the encoded number, multiplied by `2^1074`.
///
/// A subnormal number is `fraction * 2^-1074`, a normal one is
/// `(2^52 + fraction) * 2^(exponent - 1075)`. The same formula places each
/// infinity above every finite number.
pub open spec fn scaled_magnitude(bits: u64) -> nat {
    if exponent(bits) == 0 {
        fraction(bits)
    } else {
        (HIDDEN_BIT as nat + fraction(bits)) * pow2((exponent(bits) - 1) as nat)
    }
}

/// The encoded number, multiplied by `2^1074`. Both zeros give 0.
pub open spec fn scaled_value(bits: u64) -> int {
    if is_negative(bits) {
        -(scaled_magnitude(bits) as int)
    } else {
        scaled_magnitude(bits) as int
    }
}

/// The strict order of binary64 numbers: `a < b` holds when neither is a NaN
/// and the number that `a` encodes is below the one that `b` encodes.
pub open spec fn less_than(a: u64, b: u64) -> bool {
    !is_nan(a) && !is_nan(b) && scaled_value(a) < scaled_value(b)
}

/// The order `a >= b` of binary64 numbers: neither is a NaN and the number
/// that `a` encodes is not below the one that `b` encodes.
pub open spec fn at_least(a: u64, b: u64) -> bool {
    !is_nan(a) && !is_nan(b) && scaled_value(a) >= scaled_value(b)
}

proof fn lemma_scaled_magnitude_increases(a: u64, b: u64)
    requires
        magnitude(a) < magnitude(b),
    ensures
        scaled_magnitude(a) < scaled_magnitude(b),
{
    let h: nat = HIDDEN_BIT as nat;
    let ea: nat = exponent(a);
    let eb: nat = exponent(b);
    let fa: nat = fraction(a);
    let fb: nat = fraction(b);
    assert(magnitude(a) == ea * h + fa && fa < h);
    assert(magnitude(b) == eb * h + fb && fb < h);
    assert(ea <= eb);
    if ea == eb {
        if ea != 0 {
            let p: nat = pow2((ea - 1) as nat);
            lemma_pow2_pos((ea - 1) as nat);
            assert((h + fa) * p < (h + fb) * p) by (nonlinear_arith)
                requires
                    fa < fb,
                    p > 0,
            ;
        }
    } else {
        let q: nat = pow2((eb - 1) as nat);
        lemma_pow2_pos((eb - 1) as nat);
        assert(h * q <= (h + fb) * q) by (nonlinear_arith)
            requires
                q > 0,
        ;
        if ea == 0 {
            assert(h * 1 <= h * q) by (nonlinear_arith)
                requires
                    q >= 1,
            ;
        } else {
            let p: nat = pow2((ea - 1) as nat);
            lemma_pow2_pos((ea - 1) as nat);
            lemma_pow2_unfold(ea);
            assert((h + fa) * p < h * (2 * p)) by (nonlinear_arith)
                requires
                    fa < h,
                    p > 0,
            ;
            if ea < eb - 1 {
                lemma_pow2_strictly_increases(ea, (eb - 1) as nat);
            }
            assert(h * pow2(ea) <= h * q) by (nonlinear_arith)
                requires
                    pow2(ea) <= q,
            ;
        }
    }
}

/// Magnitudes are ordered as the absolute values that they encode: the
/// smaller pattern encodes the smaller absolute value, and equal absolute
/// values have equal patterns.
pub proof fn lemma_order_of_magnitudes(a: u64, b: u64)
    ensures
        magnitude(a) < magnitude(b) <==> scaled_magnitude(a) < scaled_magnitude(b),
        magnitude(a) == magnitude(b) <==> scaled_magnitude(a) == scaled_magnitude(b),
{
    if magnitude(a) < magnitude(b) {
        lemma_scaled_magnitude_increases(a, b);
    } else if magnitude(b) < magnitude(a) {
        lemma_scaled_magnitude_increases(b, a);
    }
}

/// The absolute value: the same number without its sign. A NaN stays a NaN.
pub fn abs(bits: u64) -> (cleared: u64)
    ensures
        cleared == magnitude(bits),
        !is_negative(cleared),
        is_nan(cleared) == is_nan(bits),
        scaled_value(cleared) == scaled_magnitude(bits),
{
    if bits >= SIGN_BIT {
        bits - SIGN_BIT
    } else {
        bits
    }
}

/// Whether `a < b` as binary64 numbers. A comparison with a NaN is false, and
/// the two zeros are equal.
pub fn lt(a: u64, b: u64) -> (less: bool)
    ensures
        less == less_than(a, b),
{
    proof {
        lemma_order_of_magnitudes(a, b);
        lemma_order_of_magnitudes(a, 0);
        lemma_order_of_magnitudes(b, 0);
    }
    let size_a: u64 = abs(a);
    let size_b: u64 = abs(b);
    if size_a > INFINITY || size_b > INFINITY {
        false
    } else if a >= SIGN_BIT {
        if b >= SIGN_BIT {
            size_a > size_b
        } else {
            size_a != 0 || size_b != 0
        }
    } else {
        if b >= SIGN_BIT {
            false
        } else {
            size_a < size_b
        }
    }
}

/// Whether `a >= b` as binary64 numbers. A comparison with a NaN is false,
/// and the two zeros are equal.
pub fn ge(a: u64, b: u64) -> (not_less: bool)
    ensures
        not_less == at_least(a, b),
{
    if abs(a) > INFINITY || abs(b) > INFINITY {
        false
    } else {
        !lt(a, b)
    }
}

} // verus!
