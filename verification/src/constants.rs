//! Sizes shared by every layer of the codec.

use vstd::prelude::*;

verus! {

/// Largest datagram, in octets, that the gateway emits.
pub const MTU_BYTES: usize = 1500;

/// `MTU_BYTES` expressed in bits; also the number of octets that back a bit buffer.
pub const MTU_BITS: usize = 12000;

/// Number of addressable bits in a bit buffer.
pub const BUFFER_BITS: usize = 96000;

/// Widest field that a single read or write can move.
pub const MAX_FIELD_BITS: usize = 64;

} // verus!
