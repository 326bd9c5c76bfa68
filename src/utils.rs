//! Classification and ordering of samples given as `f64` bit patterns.
use vstd::prelude::*;

verus! {

/// Sign bit of a double.
pub const SIGN_BIT: u64 = 0x8000_0000_0000_0000;

/// Exponent field of a double, in place.
pub const EXP_MASK: u64 = 0x7ff0_0000_0000_0000;

/// Fraction field of a double.
pub const FRAC_MASK: u64 = 0x000f_ffff_ffff_ffff;

/// The quiet NaN that `f64::NAN` has: the placeholder of an empty window slot.
pub const NAN_BITS: u64 = 0x7ff8_0000_0000_0000;

/// The double with these bits is NaN: all exponent bits set, fraction non-zero.
pub open spec fn is_nan_spec(b: u64) -> bool {
    b & EXP_MASK == EXP_MASK && b & FRAC_MASK != 0
}

/// The double with these bits is NaN or an infinity: all exponent bits set.
pub open spec fn is_nan_or_inf_spec(b: u64) -> bool {
    b & EXP_MASK == EXP_MASK
}

/// A sample is valid when it is a finite number.
pub open spec fn is_valid(b: u64) -> bool {
    !is_nan_or_inf_spec(b)
}

/// Position of a non-NaN double on the real line, as an unsigned integer.
///
/// For two doubles `x`, `y` that are not NaN, `x < y` holds exactly when
/// `order_key(x) < order_key(y)`, and `x == y` exactly when the keys are equal
/// (both zeros share one key). Non-negative values keep their magnitude bits
/// above the sign bit; negative values have their bits inverted, so that a
/// larger magnitude gives a smaller key.
pub open spec fn order_key(b: u64) -> u64 {
    if b & SIGN_BIT == 0 {
        b | SIGN_BIT
    } else if b & !SIGN_BIT == 0 {
        SIGN_BIT
    } else {
        !b
    }
}

/// The key that both zeros have.
pub const ZERO_KEY: u64 = 0x8000_0000_0000_0000;

pub open spec fn sign_spec(b: u64) -> i8 {
    if is_nan_spec(b) {
        0
    } else if order_key(b) > ZERO_KEY {
        1
    } else if order_key(b) < ZERO_KEY {
        -1i8
    } else {
        0
    }
}

/// Whether the double with bits `b` is NaN or infinite, that is, not a valid sample.
pub fn is_nan_or_inf(b: u64) -> (r: bool)
    ensures
        r == is_nan_or_inf_spec(b),
        r == !is_valid(b),
{
    b & EXP_MASK == EXP_MASK
}

/// Whether the double with bits `b` is NaN.
pub fn is_nan(b: u64) -> (r: bool)
    ensures
        r == is_nan_spec(b),
{
    b & EXP_MASK == EXP_MASK && b & FRAC_MASK != 0
}

/// The order key of the double with bits `b` (see `order_key`).
pub fn key_of(b: u64) -> (r: u64)
    ensures
        r == order_key(b),
{
    if b & SIGN_BIT == 0 {
        b | SIGN_BIT
    } else if b & !SIGN_BIT == 0 {
        SIGN_BIT
    } else {
        !b
    }
}

/// Sign of the double with bits `b`: 1 when it is greater than zero, -1 when
/// it is less than zero, 0 for either zero and for NaN (which compares
/// neither greater nor less).
pub fn sign(b: u64) -> (r: i8)
    ensures
        r == sign_spec(b),
{
    if is_nan(b) {
        0
    } else {
        let k = key_of(b);
        if k > ZERO_KEY {
            1
        } else if k < ZERO_KEY {
            -1
        } else {
            0
        }
    }
}

/// The placeholder of an empty slot is not a valid sample.
pub proof fn lemma_placeholder_invalid()
    ensures
        !is_valid(NAN_BITS),
        is_nan_spec(NAN_BITS),
{
    let b: u64 = 0x7ff8_0000_0000_0000;
    assert(b & 0x7ff0_0000_0000_0000u64 == 0x7ff0_0000_0000_0000u64 && b & 0x000f_ffff_ffff_ffffu64
        != 0) by (bit_vector)
        requires
            b == 0x7ff8_0000_0000_0000u64,
    ;
}

} // verus!
