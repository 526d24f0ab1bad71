//! Node ids as they cross the driver boundary.
//!
//! The driver counts in double-precision floating point.  An id is valid
//! when the number is finite, not negative, whole, and at most `2^53 - 1`,
//! the largest whole number below which every whole number has a double
//! of its own.  The check reads the bits of the double: one sign bit,
//! eleven bits of exponent, fifty-two bits of fraction.

use vstd::arithmetic::power2::pow2;
use vstd::bits::{lemma_u64_low_bits_mask_is_mod, lemma_u64_shl_is_mul, lemma_u64_shr_is_div, low_bits_mask};
use vstd::prelude::*;

verus! {

/// The largest valid id: `2^53 - 1`.
pub const MAX_ELEMENT_ID: u64 = 9_007_199_254_740_991;

/// Two to the fifty-second: the implicit leading bit of a double's
/// significand.
pub const HIDDEN_BIT: u64 = 0x10_0000_0000_0000;

/// The exponent field of a double.
pub open spec fn exponent_field(bits: u64) -> int {
    ((bits / HIDDEN_BIT) % 0x800) as int
}

/// The fraction field of a double.
pub open spec fn fraction_field(bits: u64) -> int {
    (bits % HIDDEN_BIT) as int
}

/// Whether the sign bit of a double is set.
pub open spec fn sign_set(bits: u64) -> bool {
    bits >= 0x8000_0000_0000_0000
}

/// The id that a double stands for, if it stands for one.
///
/// Zero of either sign is the id 0.  Any other double is
/// `(2^52 + fraction) * 2^(exponent - 1075)`; it is an id when it is
/// positive, the exponent field is between 1023 (values from 1) and 1075
/// (values below `2^53`), and the division by `2^(1075 - exponent)` leaves
/// no remainder.
pub open spec fn element_id_of(bits: u64) -> Option<u64> {
    let exponent = exponent_field(bits);
    let significand = HIDDEN_BIT + fraction_field(bits);
    if exponent == 0 && fraction_field(bits) == 0 {
        Some(0)
    } else if !sign_set(bits) && 1023 <= exponent <= 1075 && significand % (pow2(
        (1075 - exponent) as nat,
    ) as int) == 0 {
        Some((significand / (pow2((1075 - exponent) as nat) as int)) as u64)
    } else {
        None
    }
}

/// Validates the bits of a double as a node id.
pub fn to_element_id(bits: u64) -> (r: Option<u64>)
    ensures
        r == element_id_of(bits),
        r matches Some(id) ==> id <= MAX_ELEMENT_ID,
{
    let exponent: u64 = (bits >> 52) & 0x7ff;
    let fraction: u64 = bits & 0xf_ffff_ffff_ffff;
    let negative: bool = (bits >> 63) == 1;
    proof {
        assert(((bits >> 52) & 0x7ff) == (bits / 0x10_0000_0000_0000) % 0x800) by (bit_vector);
        assert((bits & 0xf_ffff_ffff_ffff) == bits % 0x10_0000_0000_0000) by (bit_vector);
        assert(((bits >> 63) == 1) == (bits >= 0x8000_0000_0000_0000)) by (bit_vector);
    }
    if exponent == 0 && fraction == 0 {
        return Some(0);
    }
    if negative || exponent < 1023 || exponent > 1075 {
        return None;
    }
    let shift: u64 = 1075 - exponent;
    let significand: u64 = HIDDEN_BIT + fraction;
    proof {
        assert(shift <= 52 ==> 1u64 << shift >= 1) by (bit_vector);
    }
    let mask: u64 = (1u64 << shift) - 1;
    proof {
        vstd::bits::lemma_u64_pow2_no_overflow(shift as nat);
        vstd::arithmetic::power2::lemma_pow2_pos(shift as nat);
        lemma_u64_shl_is_mul(1, shift);
        assert(mask == low_bits_mask(shift as nat));
        lemma_u64_low_bits_mask_is_mod(significand, shift as nat);
        lemma_u64_shr_is_div(significand, shift);
        assert(significand & mask == significand % (pow2(shift as nat) as u64));
        assert(significand >> shift <= significand) by (bit_vector);
    }
    if significand & mask != 0 {
        None
    } else {
        Some(significand >> shift)
    }
}

} // verus!
