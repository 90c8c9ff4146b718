//! The variable-width integer families as field types.
//!
//! A field of one of these types holds the plain integer; the rung is chosen
//! anew, the narrowest that fits, each time the field is written.

use crate::bit_buffer::BitBuffer;
use crate::error::CdisError;
use crate::parsing::ParseCdis;
use crate::varint::{
    lemma_read_var_wire, read_var, spec_read_var, svint12, svint13, svint14, svint16, svint24,
    uvint16, uvint32, uvint8, var_bits, var_length, write_var, Ladder,
};
use crate::writing::SerializeCdis;
use vstd::arithmetic::power2::lemma2_to64;
use vstd::prelude::*;

verus! {

/// The ladder of the unsigned family of at most `bits` bits. Sizes without a
/// family of their own use the widest one.
pub open spec fn unsigned_ladder(bits: u8) -> Ladder {
    if bits == 8 {
        uvint8()
    } else if bits == 16 {
        uvint16()
    } else {
        uvint32()
    }
}

/// The ladder of the signed family of at most `bits` bits. Sizes without a
/// family of their own use the widest one.
pub open spec fn signed_ladder(bits: u8) -> Ladder {
    if bits == 12 {
        svint12()
    } else if bits == 13 {
        svint13()
    } else if bits == 14 {
        svint14()
    } else if bits == 16 {
        svint16()
    } else {
        svint24()
    }
}

/// The ladder of an unsigned family is well formed and spans `0` to the
/// largest number of the family's size.
pub proof fn lemma_unsigned_ladder(bits: u8)
    ensures
        unsigned_ladder(bits).wf(),
        !unsigned_ladder(bits).signed,
        unsigned_ladder(bits).min_value() == 0,
        unsigned_ladder(bits).max_value() == if bits == 8 {
            0xff
        } else if bits == 16 {
            0xffff
        } else {
            0xffff_ffffint
        },
{
    lemma2_to64();
}

/// The ladder of a signed family is well formed and spans the two's
/// complement range of the family's size.
pub proof fn lemma_signed_ladder(bits: u8)
    ensures
        signed_ladder(bits).wf(),
        signed_ladder(bits).signed,
        signed_ladder(bits).max_value() == if bits == 12 {
            0x7ff
        } else if bits == 13 {
            0xfff
        } else if bits == 14 {
            0x1fff
        } else if bits == 16 {
            0x7fff
        } else {
            0x7f_ffffint
        },
        signed_ladder(bits).min_value() == -signed_ladder(bits).max_value() - 1,
{
    lemma2_to64();
}

/// An unsigned variable-width integer of the family with at most `BITS` bits.
#[derive(Clone, Copy, Debug, PartialEq, Eq)]
pub struct UnsignedVar<const BITS: u8> {
    pub value: u32,
}

/// A signed variable-width integer of the family with at most `BITS` bits.
#[derive(Clone, Copy, Debug, PartialEq, Eq)]
pub struct SignedVar<const BITS: u8> {
    pub value: i32,
}

/// Unsigned, up to 8 bits.
pub type UVINT8 = UnsignedVar<8>;

/// Unsigned, up to 16 bits.
pub type UVINT16 = UnsignedVar<16>;

/// Unsigned, up to 32 bits.
pub type UVINT32 = UnsignedVar<32>;

/// Signed, up to 12 bits.
pub type SVINT12 = SignedVar<12>;

/// Signed, up to 13 bits.
pub type SVINT13 = SignedVar<13>;

/// Signed, up to 14 bits.
pub type SVINT14 = SignedVar<14>;

/// Signed, up to 16 bits.
pub type SVINT16 = SignedVar<16>;

/// Signed, up to 24 bits.
pub type SVINT24 = SignedVar<24>;

impl<const BITS: u8> UnsignedVar<BITS> {
    /// The largest value of the family.
    pub open spec fn spec_max() -> int {
        unsigned_ladder(BITS).max_value()
    }

    /// The ladder of the family.
    pub fn ladder() -> (ladder: Ladder)
        ensures
            ladder == unsigned_ladder(BITS),
            ladder.wf(),
    {
        if BITS == 8 {
            Ladder::uvint8()
        } else if BITS == 16 {
            Ladder::uvint16()
        } else {
            Ladder::uvint32()
        }
    }

    /// The largest value of the family.
    pub fn max() -> (m: u32)
        ensures
            m == Self::spec_max(),
    {
        proof {
            lemma_unsigned_ladder(BITS);
        }
        if BITS == 8 {
            0xff
        } else if BITS == 16 {
            0xffff
        } else {
            0xffff_ffff
        }
    }

    /// The field that carries `value`, saturated to the largest value of the family.
    pub fn new(value: u32) -> (v: Self)
        ensures
            v.wf(),
            v.value == if value > Self::spec_max() {
                Self::spec_max()
            } else {
                value as int
            },
    {
        let m = Self::max();
        UnsignedVar {
            value: if value > m {
                m
            } else {
                value
            },
        }
    }

    /// The integer that the field carries.
    pub fn value(&self) -> (value: u32)
        ensures
            value == self.value,
    {
        self.value
    }

    /// Whether two fields carry the same integer.
    pub fn same(&self, other: &Self) -> (same: bool)
        ensures
            same == (*self == *other),
    {
        self.value == other.value
    }
}

impl<const BITS: u8> SerializeCdis for UnsignedVar<BITS> {
    open spec fn max_bits() -> nat {
        34
    }

    open spec fn wf(&self) -> bool {
        self.value <= unsigned_ladder(BITS).max_value()
    }

    open spec fn wire_bits(&self) -> Seq<bool> {
        var_bits(unsigned_ladder(BITS), self.value as int)
    }

    fn is_valid(&self) -> (valid: bool) {
        self.value <= Self::max()
    }

    fn bit_length(&self) -> (n: usize)
        ensures
            n <= 34,
    {
        var_length(Self::ladder(), self.value as i64)
    }

    fn serialize(&self, buf: &mut BitBuffer, cursor: usize) -> (next: usize) {
        write_var(buf, cursor, Self::ladder(), self.value as i64)
    }
}

impl<const BITS: u8> ParseCdis for UnsignedVar<BITS> {
    open spec fn spec_parse(bits: Seq<bool>, cursor: nat) -> Result<(Self, nat), CdisError> {
        match spec_read_var(bits, cursor, unsigned_ladder(BITS)) {
            Ok((value, next)) => Ok((UnsignedVar { value: value as u32 }, next)),
            Err(e) => Err(e),
        }
    }

    fn parse(buf: &BitBuffer, cursor: usize) -> (r: Result<(Self, usize), CdisError>) {
        proof {
            lemma_unsigned_ladder(BITS);
        }
        match read_var(buf, cursor, Self::ladder()) {
            Ok((value, next)) => Ok((UnsignedVar { value: value as u32 }, next)),
            Err(e) => Err(e),
        }
    }

    proof fn lemma_parse_wire(bits: Seq<bool>, cursor: nat, record: Self) {
        lemma_unsigned_ladder(BITS);
        lemma_read_var_wire(bits, cursor, unsigned_ladder(BITS), record.value as int);
    }
}

impl<const BITS: u8> SignedVar<BITS> {
    /// The largest value of the family.
    pub open spec fn spec_max() -> int {
        signed_ladder(BITS).max_value()
    }

    /// The smallest value of the family.
    pub open spec fn spec_min() -> int {
        signed_ladder(BITS).min_value()
    }

    /// The ladder of the family.
    pub fn ladder() -> (ladder: Ladder)
        ensures
            ladder == signed_ladder(BITS),
            ladder.wf(),
    {
        if BITS == 12 {
            Ladder::svint12()
        } else if BITS == 13 {
            Ladder::svint13()
        } else if BITS == 14 {
            Ladder::svint14()
        } else if BITS == 16 {
            Ladder::svint16()
        } else {
            Ladder::svint24()
        }
    }

    /// The largest value of the family.
    pub fn max() -> (m: i32)
        ensures
            m == Self::spec_max(),
            0 < m < 0x7fff_ffff,
            -m - 1 == Self::spec_min(),
    {
        proof {
            lemma_signed_ladder(BITS);
        }
        if BITS == 12 {
            0x7ff
        } else if BITS == 13 {
            0xfff
        } else if BITS == 14 {
            0x1fff
        } else if BITS == 16 {
            0x7fff
        } else {
            0x7f_ffff
        }
    }

    /// The field that carries `value`, saturated to the range of the family.
    pub fn new(value: i32) -> (v: Self)
        ensures
            v.wf(),
            v.value == if value > Self::spec_max() {
                Self::spec_max()
            } else if value < Self::spec_min() {
                Self::spec_min()
            } else {
                value as int
            },
    {
        let m = Self::max();
        let low = -m - 1;
        let clamped = if value > m {
            m
        } else if value < low {
            low
        } else {
            value
        };
        SignedVar { value: clamped }
    }

    /// The integer that the field carries.
    pub fn value(&self) -> (value: i32)
        ensures
            value == self.value,
    {
        self.value
    }

    /// Whether two fields carry the same integer.
    pub fn same(&self, other: &Self) -> (same: bool)
        ensures
            same == (*self == *other),
    {
        self.value == other.value
    }
}

impl<const BITS: u8> SerializeCdis for SignedVar<BITS> {
    open spec fn max_bits() -> nat {
        34
    }

    open spec fn wf(&self) -> bool {
        signed_ladder(BITS).min_value() <= self.value <= signed_ladder(BITS).max_value()
    }

    open spec fn wire_bits(&self) -> Seq<bool> {
        var_bits(signed_ladder(BITS), self.value as int)
    }

    fn is_valid(&self) -> (valid: bool) {
        let m = Self::max();
        -m - 1 <= self.value && self.value <= m
    }

    fn bit_length(&self) -> (n: usize)
        ensures
            n <= 34,
    {
        var_length(Self::ladder(), self.value as i64)
    }

    fn serialize(&self, buf: &mut BitBuffer, cursor: usize) -> (next: usize) {
        write_var(buf, cursor, Self::ladder(), self.value as i64)
    }
}

impl<const BITS: u8> ParseCdis for SignedVar<BITS> {
    open spec fn spec_parse(bits: Seq<bool>, cursor: nat) -> Result<(Self, nat), CdisError> {
        match spec_read_var(bits, cursor, signed_ladder(BITS)) {
            Ok((value, next)) => Ok((SignedVar { value: value as i32 }, next)),
            Err(e) => Err(e),
        }
    }

    fn parse(buf: &BitBuffer, cursor: usize) -> (r: Result<(Self, usize), CdisError>) {
        proof {
            lemma_signed_ladder(BITS);
        }
        match read_var(buf, cursor, Self::ladder()) {
            Ok((value, next)) => Ok((SignedVar { value: value as i32 }, next)),
            Err(e) => Err(e),
        }
    }

    proof fn lemma_parse_wire(bits: Seq<bool>, cursor: nat, record: Self) {
        lemma_signed_ladder(BITS);
        lemma_read_var_wire(bits, cursor, signed_ladder(BITS), record.value as int);
    }
}

} // verus!
