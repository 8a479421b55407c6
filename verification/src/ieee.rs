//! IEEE 754 binary64 values as bit patterns: named constants, the test for
//! NaN, negation and the order of the values.

use vstd::prelude::*;

verus! {

/// The sign bit of a binary64 pattern.
pub const SIGN_BIT: u64 = 0x8000_0000_0000_0000;

/// The pattern of positive infinity: the largest magnitude that is a number.
pub const INFINITY: u64 = 0x7FF0_0000_0000_0000;

/// The pattern of `+0.0`.
pub const ZERO: u64 = 0;

/// The pattern of `1.0`.
pub const ONE: u64 = 0x3FF0_0000_0000_0000;

/// The pattern of `10.0`.
pub const TEN: u64 = 0x4024_0000_0000_0000;

/// The pattern of `0.01`.
pub const HUNDREDTH: u64 = 0x3F84_7AE1_47AE_147B;

/// The pattern of `0.3`.
pub const THREE_TENTHS: u64 = 0x3FD3_3333_3333_3333;

/// The pattern with the sign bit cleared.
pub open spec fn magnitude(bits: u64) -> int {
    if bits >= SIGN_BIT {
        bits - SIGN_BIT
    } else {
        bits as int
    }
}

/// Whether the sign bit is set.
pub open spec fn is_negative(bits: u64) -> bool {
    bits >= SIGN_BIT
}

/// Whether the pattern is a NaN: all exponent bits set and a non-zero
/// fraction, whatever the sign.
pub open spec fn is_nan_spec(bits: u64) -> bool {
    magnitude(bits) > INFINITY
}

/// An integer that orders the patterns of numbers as their values are
/// ordered: the magnitude, negated where the sign bit is set. Both zeros
/// have key 0.
pub open spec fn order_key(bits: u64) -> int {
    if is_negative(bits) {
        -magnitude(bits)
    } else {
        magnitude(bits)
    }
}

/// `a < b` as binary64 values: false when either is a NaN.
pub open spec fn lt_spec(a: u64, b: u64) -> bool {
    !is_nan_spec(a) && !is_nan_spec(b) && order_key(a) < order_key(b)
}

/// `a > b` as binary64 values: false when either is a NaN.
pub open spec fn gt_spec(a: u64, b: u64) -> bool {
    lt_spec(b, a)
}

/// `a == b` as binary64 values: false when either is a NaN, true of the two
/// zeros.
pub open spec fn eq_spec(a: u64, b: u64) -> bool {
    !is_nan_spec(a) && !is_nan_spec(b) && order_key(a) == order_key(b)
}

/// `a <= b` as binary64 values: false when either is a NaN.
pub open spec fn le_spec(a: u64, b: u64) -> bool {
    !is_nan_spec(a) && !is_nan_spec(b) && order_key(a) <= order_key(b)
}

/// The pattern of the negated value: the same pattern with the sign bit
/// flipped.
pub open spec fn neg_spec(bits: u64) -> u64 {
    if bits >= SIGN_BIT {
        (bits - SIGN_BIT) as u64
    } else {
        (bits + SIGN_BIT) as u64
    }
}

fn split(bits: u64) -> (r: (bool, u64))
    ensures
        r.0 == is_negative(bits),
        r.1 == magnitude(bits),
{
    if bits >= SIGN_BIT {
        (true, bits - SIGN_BIT)
    } else {
        (false, bits)
    }
}

/// Whether `bits` is a NaN.
pub fn is_nan(bits: u64) -> (r: bool)
    ensures
        r == is_nan_spec(bits),
{
    let (_, m) = split(bits);
    m > INFINITY
}

/// Whether `a < b` as binary64 values.
pub fn lt(a: u64, b: u64) -> (r: bool)
    ensures
        r == lt_spec(a, b),
{
    let (na, ma) = split(a);
    let (nb, mb) = split(b);
    if ma > INFINITY || mb > INFINITY {
        false
    } else if na && nb {
        mb < ma
    } else if na {
        ma > 0 || mb > 0
    } else if nb {
        false
    } else {
        ma < mb
    }
}

/// Whether `a > b` as binary64 values.
pub fn gt(a: u64, b: u64) -> (r: bool)
    ensures
        r == gt_spec(a, b),
{
    lt(b, a)
}

/// Whether `a <= b` as binary64 values.
pub fn le(a: u64, b: u64) -> (r: bool)
    ensures
        r == le_spec(a, b),
{
    let (na, ma) = split(a);
    let (nb, mb) = split(b);
    if ma > INFINITY || mb > INFINITY {
        false
    } else if na && nb {
        mb <= ma
    } else if na {
        true
    } else if nb {
        ma == 0 && mb == 0
    } else {
        ma <= mb
    }
}

/// Whether `a == b` as binary64 values.
pub fn eq(a: u64, b: u64) -> (r: bool)
    ensures
        r == eq_spec(a, b),
{
    let (na, ma) = split(a);
    let (nb, mb) = split(b);
    if ma > INFINITY || mb > INFINITY {
        false
    } else if na == nb {
        ma == mb
    } else {
        ma == 0 && mb == 0
    }
}

/// The pattern of `-x` for the value `x` that `bits` holds.
pub fn neg(bits: u64) -> (r: u64)
    ensures
        r == neg_spec(bits),
{
    if bits >= SIGN_BIT {
        bits - SIGN_BIT
    } else {
        bits + SIGN_BIT
    }
}

} // verus!
