//! IEEE-754 doubles as bit patterns.
//!
//! A double is carried through the engine as the `u64` holding its raw bit
//! pattern. Interval keys are compared bit-for-bit (so `-0.0` and `+0.0` are
//! distinct keys), while numeric comparisons follow the IEEE value order:
//! sign-magnitude, with `-0.0` equal to `+0.0` and every comparison on a NaN
//! false.

use vstd::prelude::*;

verus! {

/// Sign bit of a double.
pub const SIGN_MASK: u64 = 0x8000_0000_0000_0000;

/// One unit of the 11-bit exponent field, i.e. 2^52.
pub const EXP_UNIT: u64 = 0x0010_0000_0000_0000;

/// Bit pattern of `+0.0`.
pub const PLUS_ZERO: u64 = 0;

/// Bit pattern of `-0.0`.
pub const MINUS_ZERO: u64 = 0x8000_0000_0000_0000;

/// Bit pattern of `+infinity`.
pub const POS_INF: u64 = 0x7FF0_0000_0000_0000;

/// Bit pattern of `-infinity`.
pub const NEG_INF: u64 = 0xFFF0_0000_0000_0000;

/// Bit pattern of the relative machine precision 2^-52.
pub const EPMACH: u64 = 0x3CB0_0000_0000_0000;

/// Bit pattern of the smallest positive normal magnitude 2^-1022.
pub const UFLOW: u64 = 0x0010_0000_0000_0000;

/// Bit pattern of `50 * 2^-52`, the relative-tolerance floor. The
/// alternative floor `0.5e-28` is 14 orders of magnitude below it, so the
/// maximum of the two is this value.
pub const EPSREL_FLOOR: u64 = 0x3D09_0000_0000_0000;

/// The magnitude bits: the pattern with the sign bit cleared.
pub open spec fn mag_of(b: u64) -> u64 {
    if b >= SIGN_MASK {
        (b - SIGN_MASK) as u64
    } else {
        b
    }
}

/// True iff the sign bit is set.
pub open spec fn sign_of(b: u64) -> bool {
    b >= SIGN_MASK
}

/// The 11-bit exponent field, 0 to 2047.
pub open spec fn exp_of(b: u64) -> u64 {
    mag_of(b) / EXP_UNIT
}

/// The 52-bit fraction field.
pub open spec fn frac_of(b: u64) -> u64 {
    mag_of(b) % EXP_UNIT
}

/// The pattern encodes a NaN.
pub open spec fn is_nan_bits(b: u64) -> bool {
    exp_of(b) == 2047 && frac_of(b) != 0
}

/// The pattern encodes a finite number (neither infinity nor NaN).
pub open spec fn is_finite_bits(b: u64) -> bool {
    exp_of(b) != 2047
}

/// The pattern encodes a zero of either sign.
pub open spec fn is_zero_bits(b: u64) -> bool {
    mag_of(b) == 0
}

/// Rank of a non-NaN pattern in the IEEE value order: negative numbers by
/// falling magnitude, then the two zeros on one rank, then positive numbers
/// by rising magnitude. For doubles of one sign the order of the bit
/// patterns as integers is exactly the order of the magnitudes, which is why
/// this key is monotone in the encoded value.
pub open spec fn val_key(b: u64) -> int {
    if sign_of(b) {
        SIGN_MASK as int - mag_of(b) as int
    } else {
        SIGN_MASK as int + b as int
    }
}

/// IEEE `<` on two patterns: false when either is NaN.
pub open spec fn ieee_lt(a: u64, b: u64) -> bool {
    !is_nan_bits(a) && !is_nan_bits(b) && val_key(a) < val_key(b)
}

/// IEEE `<=` on two patterns: false when either is NaN.
pub open spec fn ieee_le(a: u64, b: u64) -> bool {
    !is_nan_bits(a) && !is_nan_bits(b) && val_key(a) <= val_key(b)
}

/// IEEE `==` on two patterns: false when either is NaN; `-0.0 == +0.0`.
pub open spec fn ieee_eq(a: u64, b: u64) -> bool {
    !is_nan_bits(a) && !is_nan_bits(b) && val_key(a) == val_key(b)
}

/// The maximum in the IEEE value order: the other operand when one is a
/// NaN, otherwise the operand of larger value, the first on a tie.
/// `f64::max` agrees up to the choice of zero on a `-0.0`/`+0.0` tie,
/// which the value order cannot tell apart.
pub open spec fn ieee_max(a: u64, b: u64) -> u64 {
    if is_nan_bits(a) {
        b
    } else if is_nan_bits(b) {
        a
    } else if val_key(a) < val_key(b) {
        b
    } else {
        a
    }
}

/// The magnitude pattern, exactly the bits of `f64::abs`.
pub fn dabs(b: u64) -> (r: u64)
    ensures
        r == mag_of(b),
{
    if b >= SIGN_MASK {
        b - SIGN_MASK
    } else {
        b
    }
}

/// True iff the pattern is a NaN.
pub fn dis_nan(b: u64) -> (r: bool)
    ensures
        r == is_nan_bits(b),
{
    let m = dabs(b);
    m / EXP_UNIT == 2047 && m % EXP_UNIT != 0
}

/// True iff the pattern is finite.
pub fn dis_finite(b: u64) -> (r: bool)
    ensures
        r == is_finite_bits(b),
{
    let m = dabs(b);
    m / EXP_UNIT != 2047
}

/// IEEE `<` on patterns.
pub fn dlt(a: u64, b: u64) -> (r: bool)
    ensures
        r == ieee_lt(a, b),
{
    if dis_nan(a) || dis_nan(b) {
        return false;
    }
    let sa = a >= SIGN_MASK;
    let sb = b >= SIGN_MASK;
    if sa && sb {
        b < a
    } else if sa {
        // a <= -0, b >= +0: strictly less unless both are zeros
        !(a == MINUS_ZERO && b == PLUS_ZERO)
    } else if sb {
        false
    } else {
        a < b
    }
}

/// IEEE `<=` on patterns.
pub fn dle(a: u64, b: u64) -> (r: bool)
    ensures
        r == ieee_le(a, b),
{
    if dis_nan(a) || dis_nan(b) {
        return false;
    }
    !dlt(b, a)
}

/// IEEE `==` on patterns.
pub fn deq(a: u64, b: u64) -> (r: bool)
    ensures
        r == ieee_eq(a, b),
{
    if dis_nan(a) || dis_nan(b) {
        return false;
    }
    dle(a, b) && dle(b, a)
}

/// The maximum in the IEEE value order.
pub fn dmax(a: u64, b: u64) -> (r: u64)
    ensures
        r == ieee_max(a, b),
{
    if dis_nan(a) {
        b
    } else if dis_nan(b) {
        a
    } else if dlt(a, b) {
        b
    } else {
        a
    }
}

} // verus!
