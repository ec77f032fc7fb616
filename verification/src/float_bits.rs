//! Single-precision floats held as their IEEE 754 bit patterns.
//!
//! The recorder reads engine floats and writes them out unchanged, so it keeps
//! each one as the `u32` that `f32::to_bits` gives. Change tracking compares
//! floats the way `==` on `f32` does: NaN equals nothing (itself included)
//! and the two zeros are equal.

use vstd::prelude::*;

verus! {

/// Bits of the exponent field of an `f32`.
pub const F32_EXPONENT_MASK: u32 = 0x7f80_0000;

/// Bits of the mantissa field of an `f32`.
pub const F32_MANTISSA_MASK: u32 = 0x007f_ffff;

/// All bits but the sign bit.
pub const F32_MAGNITUDE_MASK: u32 = 0x7fff_ffff;

/// The float with these bits is a NaN: all exponent bits set, mantissa not zero.
pub open spec fn f32_is_nan(bits: u32) -> bool {
    (bits & F32_EXPONENT_MASK) == F32_EXPONENT_MASK && (bits & F32_MANTISSA_MASK) != 0
}

/// The float with these bits is `0.0` or `-0.0`.
pub open spec fn f32_is_zero(bits: u32) -> bool {
    (bits & F32_MAGNITUDE_MASK) == 0
}

/// IEEE 754 equality of the floats with bits `a` and `b`.
#[verifier::opaque]
pub open spec fn f32_eq(a: u32, b: u32) -> bool {
    &&& !f32_is_nan(a)
    &&& !f32_is_nan(b)
    &&& (a == b || (f32_is_zero(a) && f32_is_zero(b)))
}

/// Element-wise IEEE 754 equality of two float triples, as `==` on `[f32; 3]`.
pub open spec fn f32x3_eq(a: [u32; 3], b: [u32; 3]) -> bool {
    f32_eq(a[0], b[0]) && f32_eq(a[1], b[1]) && f32_eq(a[2], b[2])
}

/// `==` on the floats with bits `a` and `b`.
pub fn f32_bits_eq(a: u32, b: u32) -> (r: bool)
    ensures
        r == f32_eq(a, b),
{
    reveal(f32_eq);
    let a_nan = (a & F32_EXPONENT_MASK) == F32_EXPONENT_MASK && (a & F32_MANTISSA_MASK) != 0;
    let b_nan = (b & F32_EXPONENT_MASK) == F32_EXPONENT_MASK && (b & F32_MANTISSA_MASK) != 0;
    if a_nan || b_nan {
        false
    } else {
        a == b || ((a & F32_MAGNITUDE_MASK) == 0 && (b & F32_MAGNITUDE_MASK) == 0)
    }
}

/// `==` on the float triples with bits `a` and `b`.
pub fn f32x3_bits_eq(a: [u32; 3], b: [u32; 3]) -> (r: bool)
    ensures
        r == f32x3_eq(a, b),
{
    f32_bits_eq(a[0], b[0]) && f32_bits_eq(a[1], b[1]) && f32_bits_eq(a[2], b[2])
}

/// Equality of floats is symmetric.
pub proof fn lemma_f32_eq_symmetric(a: u32, b: u32)
    ensures
        f32_eq(a, b) == f32_eq(b, a),
{
    reveal(f32_eq);
}

/// Every float but a NaN equals itself.
pub proof fn lemma_f32_eq_reflexive(a: u32)
    ensures
        f32_eq(a, a) <==> !f32_is_nan(a),
{
    reveal(f32_eq);
}

} // verus!
