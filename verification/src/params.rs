//! Projection parameters, held as IEEE 754 binary32 bit patterns.

use vstd::prelude::*;

verus! {

/// The sign bit of a binary32 bit pattern: bit 31.
pub open spec fn sign_bit(bits: u32) -> bool {
    bits & 0x8000_0000u32 != 0
}

/// The biased exponent of a binary32 bit pattern: bits 30 down to 23.
pub open spec fn exponent_field(bits: u32) -> u32 {
    (bits >> 23u32) & 0xFFu32
}

/// The fraction of a binary32 bit pattern: bits 22 down to 0.
pub open spec fn fraction_field(bits: u32) -> u32 {
    bits & 0x007F_FFFFu32
}

/// Whether `bits` encodes a number that is finite and greater than zero.
///
/// The sign must be clear; an exponent of all ones encodes an infinity or a
/// NaN; an exponent and a fraction that are both zero encode zero. Every other
/// pattern with a clear sign is a positive normal or subnormal number.
pub open spec fn encodes_positive_finite(bits: u32) -> bool {
    &&& !sign_bit(bits)
    &&& exponent_field(bits) != 0xFFu32
    &&& (exponent_field(bits) != 0u32 || fraction_field(bits) != 0u32)
}

/// The patterns of the positive finite numbers are exactly those from
/// `0x0000_0001`, the smallest subnormal, to `0x7F7F_FFFF`, the largest normal.
pub proof fn lemma_positive_finite_range(bits: u32)
    ensures
        encodes_positive_finite(bits) <==> 0 < bits < 0x7F80_0000u32,
{
    assert((bits & 0x8000_0000u32 == 0 && (bits >> 23u32) & 0xFFu32 != 0xFFu32 && ((bits >> 23u32)
        & 0xFFu32 != 0u32 || bits & 0x007F_FFFFu32 != 0u32)) <==> (0 < bits && bits
        < 0x7F80_0000u32)) by (bit_vector);
}

/// Decides whether `bits` encodes a number that is finite and greater than
/// zero.
pub fn is_positive_finite(bits: u32) -> (ok: bool)
    ensures
        ok == encodes_positive_finite(bits),
{
    proof {
        lemma_positive_finite_range(bits);
    }
    0 < bits && bits < 0x7F80_0000
}

/// The parameters of a projection.
#[derive(Clone, Copy, Debug, PartialEq, Eq, Structural)]
pub struct ProjectionParams {
    /// The size, in render units, that the grid's smallest axis spans, as a
    /// binary32 bit pattern.
    pub scale_bits: u32,
    /// The visual radius of each rendered point, as a binary32 bit pattern.
    /// It is handed through unchanged.
    pub radius_bits: u32,
}

impl ProjectionParams {
    /// Both parameters encode a finite number greater than zero.
    pub open spec fn is_valid(self) -> bool {
        encodes_positive_finite(self.scale_bits) && encodes_positive_finite(self.radius_bits)
    }

    /// Parameters from the bit patterns of `scale` and `radius`.
    pub fn new(scale_bits: u32, radius_bits: u32) -> (params: Self)
        ensures
            params.scale_bits == scale_bits,
            params.radius_bits == radius_bits,
    {
        ProjectionParams { scale_bits, radius_bits }
    }

    /// Decides whether both parameters are finite and greater than zero.
    pub fn validate(&self) -> (ok: bool)
        ensures
            ok == self.is_valid(),
    {
        is_positive_finite(self.scale_bits) && is_positive_finite(self.radius_bits)
    }
}

} // verus!
