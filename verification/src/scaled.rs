//! The integer side of the scaled numeric codec.
//!
//! A scaled quantity travels as a fixed-point integer of a fixed width. The
//! scaling itself is arithmetic on floating-point numbers and is done by the
//! caller; what is done here is the saturation of the scaled integer to the
//! range of the field that carries it. Saturation is lossy by design: a
//! quantity beyond the range of its field is sent as the nearest end of the
//! range.

use crate::bit_buffer::power_of_two;
use crate::bits::{fits_signed, fits_unsigned};
use vstd::arithmetic::power2::{lemma2_to64, lemma_pow2_pos, lemma_pow2_strictly_increases, pow2};
use vstd::prelude::*;

verus! {

/// `stored` saturated to the two's complement range of `width_bits` bits.
pub open spec fn spec_saturate_signed(stored: int, width_bits: nat) -> int {
    let half = pow2((width_bits - 1) as nat) as int;
    if stored < -half {
        -half
    } else if stored > half - 1 {
        half - 1
    } else {
        stored
    }
}

/// `stored` saturated to the unsigned range of `width_bits` bits.
pub open spec fn spec_saturate_unsigned(stored: int, width_bits: nat) -> int {
    let limit = pow2(width_bits) as int;
    if stored < 0 {
        0
    } else if stored > limit - 1 {
        limit - 1
    } else {
        stored
    }
}

/// Saturates a scaled integer to the range of a signed field of 1 to 32 bits.
pub fn saturate_signed(stored: i64, width_bits: usize) -> (value: i64)
    requires
        1 <= width_bits <= 32,
    ensures
        value == spec_saturate_signed(stored as int, width_bits as nat),
        fits_signed(value as int, width_bits as nat),
        fits_signed(stored as int, width_bits as nat) ==> value == stored,
{
    let half = power_of_two(width_bits - 1);
    proof {
        lemma2_to64();
        lemma_pow2_pos((width_bits - 1) as nat);
        if width_bits < 32 {
            lemma_pow2_strictly_increases((width_bits - 1) as nat, 31);
        }
    }
    let half = half as i64;
    if stored < -half {
        -half
    } else if stored > half - 1 {
        half - 1
    } else {
        stored
    }
}

/// Saturates a scaled integer to the range of an unsigned field of 1 to 32 bits.
pub fn saturate_unsigned(stored: i64, width_bits: usize) -> (value: i64)
    requires
        1 <= width_bits <= 32,
    ensures
        value == spec_saturate_unsigned(stored as int, width_bits as nat),
        fits_unsigned(value as int, width_bits as nat),
        fits_unsigned(stored as int, width_bits as nat) ==> value == stored,
{
    let limit = power_of_two(width_bits);
    proof {
        lemma2_to64();
        lemma_pow2_pos(width_bits as nat);
        if width_bits < 32 {
            lemma_pow2_strictly_increases(width_bits as nat, 32);
        }
    }
    let limit = limit as i64;
    if stored < 0 {
        0
    } else if stored > limit - 1 {
        limit - 1
    } else {
        stored
    }
}

} // verus!
