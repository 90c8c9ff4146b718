//! The variable-width integer codec.
//!
//! A variable-width integer is a short discriminator followed by the value
//! in one of the widths that its ladder declares. The discriminator is the
//! index of the chosen width. Encoding picks the narrowest width that can
//! hold the value; a value beyond the widest rung is saturated to the nearest
//! representable one. That saturation is lossy by design: producers are
//! expected to keep their values within the ladder's range.

use crate::bit_buffer::{power_of_two, BitBuffer};
use crate::bits::{
    bits_of, fits_signed, fits_unsigned, holds_at, lemma_bits_of_len, lemma_holds_concat,
    lemma_overwrite_concat, lemma_signed_round_trip, lemma_signed_value_fits,
    lemma_value_of_bits_of, overwrite, signed_value, twos_complement, value_of,
};
use crate::error::CdisError;
use vstd::arithmetic::power2::{
    lemma2_to64, lemma_pow2_pos, lemma_pow2_strictly_increases, lemma_pow2_unfold, pow2,
};
use vstd::prelude::*;

verus! {

/// The closed set of widths that one family of variable-width integers may use.
///
/// A ladder has two rungs behind a one-bit discriminator or four rungs behind
/// a two-bit one. Rungs are strictly increasing and at most 32 bits wide. A
/// two-rung ladder repeats its second width in the unused slots.
#[derive(Clone, Copy, Debug, PartialEq, Eq, Structural)]
pub struct Ladder {
    pub signed: bool,
    pub flag_bits: u8,
    pub w0: u8,
    pub w1: u8,
    pub w2: u8,
    pub w3: u8,
}

/// Unsigned, up to 8 bits: rungs of 4 and 8 bits.
pub open spec fn uvint8() -> Ladder {
    Ladder { signed: false, flag_bits: 1, w0: 4, w1: 8, w2: 8, w3: 8 }
}

/// Unsigned, up to 16 bits: rungs of 8, 11, 14 and 16 bits.
pub open spec fn uvint16() -> Ladder {
    Ladder { signed: false, flag_bits: 2, w0: 8, w1: 11, w2: 14, w3: 16 }
}

/// Unsigned, up to 32 bits: rungs of 8, 15, 18 and 32 bits.
pub open spec fn uvint32() -> Ladder {
    Ladder { signed: false, flag_bits: 2, w0: 8, w1: 15, w2: 18, w3: 32 }
}

/// Signed, up to 12 bits: rungs of 3, 6, 9 and 12 bits.
pub open spec fn svint12() -> Ladder {
    Ladder { signed: true, flag_bits: 2, w0: 3, w1: 6, w2: 9, w3: 12 }
}

/// Signed, up to 13 bits: rungs of 5, 7, 10 and 13 bits.
pub open spec fn svint13() -> Ladder {
    Ladder { signed: true, flag_bits: 2, w0: 5, w1: 7, w2: 10, w3: 13 }
}

/// Signed, up to 14 bits: rungs of 4, 7, 9 and 14 bits.
pub open spec fn svint14() -> Ladder {
    Ladder { signed: true, flag_bits: 2, w0: 4, w1: 7, w2: 9, w3: 14 }
}

/// Signed, up to 16 bits: rungs of 8, 12, 13 and 16 bits.
pub open spec fn svint16() -> Ladder {
    Ladder { signed: true, flag_bits: 2, w0: 8, w1: 12, w2: 13, w3: 16 }
}

/// Signed, up to 24 bits: rungs of 16, 19, 20 and 24 bits.
pub open spec fn svint24() -> Ladder {
    Ladder { signed: true, flag_bits: 2, w0: 16, w1: 19, w2: 20, w3: 24 }
}

impl Ladder {
    /// Two or four rungs, strictly increasing, each between 1 and 32 bits.
    pub open spec fn wf(&self) -> bool {
        ||| self.flag_bits == 1 && 1 <= self.w0 < self.w1 <= 32 && self.w2 == self.w1 && self.w3
            == self.w1
        ||| self.flag_bits == 2 && 1 <= self.w0 < self.w1 < self.w2 < self.w3 <= 32
    }

    /// The number of rungs.
    pub open spec fn count(&self) -> nat {
        if self.flag_bits == 1 {
            2
        } else {
            4
        }
    }

    /// The width of the rung that the discriminator `index` selects.
    pub open spec fn width_at(&self, index: int) -> nat {
        if index == 0 {
            self.w0 as nat
        } else if index == 1 {
            self.w1 as nat
        } else if index == 2 {
            self.w2 as nat
        } else {
            self.w3 as nat
        }
    }

    /// Whether rung `index` can hold `value`.
    pub open spec fn fits(&self, index: int, value: int) -> bool {
        if self.signed {
            fits_signed(value, self.width_at(index))
        } else {
            fits_unsigned(value, self.width_at(index))
        }
    }

    /// The smallest value that the widest rung can hold.
    pub open spec fn min_value(&self) -> int {
        if self.signed {
            -pow2((self.w3 - 1) as nat)
        } else {
            0
        }
    }

    /// The largest value that the widest rung can hold.
    pub open spec fn max_value(&self) -> int {
        if self.signed {
            pow2((self.w3 - 1) as nat) - 1
        } else {
            pow2(self.w3 as nat) - 1
        }
    }

    /// Whether the widest rung can hold `value`.
    pub open spec fn in_range(&self, value: int) -> bool {
        self.min_value() <= value <= self.max_value()
    }

    /// `value` saturated to the range of the widest rung.
    pub open spec fn clamp(&self, value: int) -> int {
        if value < self.min_value() {
            self.min_value()
        } else if value > self.max_value() {
            self.max_value()
        } else {
            value
        }
    }

    /// The narrowest rung that can hold `value`.
    pub open spec fn min_index(&self, value: int) -> int {
        if self.fits(0, value) {
            0
        } else if self.fits(1, value) {
            1
        } else if self.fits(2, value) {
            2
        } else {
            3
        }
    }

    /// The pattern that a value occupies on the wire in a rung of `width` bits.
    pub open spec fn pattern(&self, value: int, width: nat) -> nat {
        if self.signed {
            twos_complement(value, width)
        } else {
            value as nat
        }
    }

    /// The value that a `width`-bit pattern denotes.
    pub open spec fn denoted(&self, raw: nat, width: nat) -> int {
        if self.signed {
            signed_value(raw, width)
        } else {
            raw as int
        }
    }

    /// A value that fits a rung fits every wider rung too, and lies within
    /// the range of the ladder.
    pub proof fn lemma_fits_monotonic(&self, index: int, wider: int, value: int)
        requires
            self.wf(),
            0 <= index <= wider < 4,
            self.fits(index, value),
        ensures
            self.fits(wider, value),
            self.in_range(value),
    {
        let a = self.width_at(index);
        let b = self.width_at(wider);
        let top = self.w3 as nat;
        if self.signed {
            if a < b {
                lemma_pow2_strictly_increases((a - 1) as nat, (b - 1) as nat);
            }
            if a < top {
                lemma_pow2_strictly_increases((a - 1) as nat, (top - 1) as nat);
            }
        } else {
            if a < b {
                lemma_pow2_strictly_increases(a, b);
            }
            if a < top {
                lemma_pow2_strictly_increases(a, top);
            }
        }
    }

    /// A value within the range of the ladder fits the widest rung, and the
    /// narrowest rung that holds it is a rung of the ladder.
    pub proof fn lemma_range_fits_top(&self, value: int)
        requires
            self.wf(),
            self.in_range(value),
        ensures
            self.fits(3, value),
            self.fits(self.count() - 1, value),
            0 <= self.min_index(value) < self.count(),
            self.fits(self.min_index(value), value),
            forall|j: int| 0 <= j < self.min_index(value) ==> !self.fits(j, value),
    {
    }

    /// Saturation lands within the range and leaves a value of the range as it is.
    pub proof fn lemma_clamp_in_range(&self, value: int)
        requires
            self.wf(),
        ensures
            self.in_range(self.clamp(value)),
            self.in_range(value) ==> self.clamp(value) == value,
    {
        lemma_pow2_pos((self.w3 - 1) as nat);
        lemma_pow2_pos(self.w3 as nat);
    }

    /// Whether the rungs are strictly increasing and within 1 to 32 bits.
    pub fn is_valid(&self) -> (valid: bool)
        ensures
            valid == self.wf(),
    {
        if self.flag_bits == 1 {
            1 <= self.w0 && self.w0 < self.w1 && self.w1 <= 32 && self.w2 == self.w1 && self.w3
                == self.w1
        } else if self.flag_bits == 2 {
            1 <= self.w0 && self.w0 < self.w1 && self.w1 < self.w2 && self.w2 < self.w3 && self.w3
                <= 32
        } else {
            false
        }
    }

    /// A ladder with the given rungs: two or four of them, strictly
    /// increasing, each between 1 and 32 bits.
    pub fn new(signed: bool, widths: &[u8]) -> (r: Option<Ladder>)
        ensures
            match r {
                Some(ladder) => ladder.wf() && ladder.signed == signed && ladder.count()
                    == widths@.len() && forall|i: int|
                    0 <= i < widths@.len() ==> ladder.width_at(i) == widths@[i],
                None => forall|ladder: Ladder|
                    !(ladder.wf() && ladder.count() == widths@.len() && forall|i: int|
                        0 <= i < widths@.len() ==> ladder.width_at(i) == widths@[i]),
            },
    {
        if widths.len() == 2 {
            let ladder = Ladder {
                signed,
                flag_bits: 1,
                w0: widths[0],
                w1: widths[1],
                w2: widths[1],
                w3: widths[1],
            };
            if ladder.is_valid() {
                Some(ladder)
            } else {
                proof {
                    assert forall|other: Ladder|
                        !(other.wf() && other.count() == widths@.len() && forall|i: int|
                            0 <= i < widths@.len() ==> other.width_at(i) == widths@[i]) by {
                        if other.wf() && other.count() == 2 {
                            assert(!(other.width_at(0) == widths@[0] && other.width_at(1)
                                == widths@[1]));
                        }
                    }
                }
                None
            }
        } else if widths.len() == 4 {
            let ladder = Ladder {
                signed,
                flag_bits: 2,
                w0: widths[0],
                w1: widths[1],
                w2: widths[2],
                w3: widths[3],
            };
            if ladder.is_valid() {
                Some(ladder)
            } else {
                proof {
                    assert forall|other: Ladder|
                        !(other.wf() && other.count() == widths@.len() && forall|i: int|
                            0 <= i < widths@.len() ==> other.width_at(i) == widths@[i]) by {
                        if other.wf() && other.count() == 4 {
                            assert(!(other.width_at(0) == widths@[0] && other.width_at(1)
                                == widths@[1] && other.width_at(2) == widths@[2]
                                && other.width_at(3) == widths@[3]));
                        }
                    }
                }
                None
            }
        } else {
            None
        }
    }

    /// Unsigned, up to 8 bits: rungs of 4 and 8 bits.
    pub fn uvint8() -> (ladder: Ladder)
        ensures
            ladder == uvint8(),
            ladder.wf(),
    {
        Ladder { signed: false, flag_bits: 1, w0: 4, w1: 8, w2: 8, w3: 8 }
    }

    /// Unsigned, up to 16 bits: rungs of 8, 11, 14 and 16 bits.
    pub fn uvint16() -> (ladder: Ladder)
        ensures
            ladder == uvint16(),
            ladder.wf(),
    {
        Ladder { signed: false, flag_bits: 2, w0: 8, w1: 11, w2: 14, w3: 16 }
    }

    /// Unsigned, up to 32 bits: rungs of 8, 15, 18 and 32 bits.
    pub fn uvint32() -> (ladder: Ladder)
        ensures
            ladder == uvint32(),
            ladder.wf(),
    {
        Ladder { signed: false, flag_bits: 2, w0: 8, w1: 15, w2: 18, w3: 32 }
    }

    /// Signed, up to 12 bits: rungs of 3, 6, 9 and 12 bits.
    pub fn svint12() -> (ladder: Ladder)
        ensures
            ladder == svint12(),
            ladder.wf(),
    {
        Ladder { signed: true, flag_bits: 2, w0: 3, w1: 6, w2: 9, w3: 12 }
    }

    /// Signed, up to 13 bits: rungs of 5, 7, 10 and 13 bits.
    pub fn svint13() -> (ladder: Ladder)
        ensures
            ladder == svint13(),
            ladder.wf(),
    {
        Ladder { signed: true, flag_bits: 2, w0: 5, w1: 7, w2: 10, w3: 13 }
    }

    /// Signed, up to 14 bits: rungs of 4, 7, 9 and 14 bits.
    pub fn svint14() -> (ladder: Ladder)
        ensures
            ladder == svint14(),
            ladder.wf(),
    {
        Ladder { signed: true, flag_bits: 2, w0: 4, w1: 7, w2: 9, w3: 14 }
    }

    /// Signed, up to 16 bits: rungs of 8, 12, 13 and 16 bits.
    pub fn svint16() -> (ladder: Ladder)
        ensures
            ladder == svint16(),
            ladder.wf(),
    {
        Ladder { signed: true, flag_bits: 2, w0: 8, w1: 12, w2: 13, w3: 16 }
    }

    /// Signed, up to 24 bits: rungs of 16, 19, 20 and 24 bits.
    pub fn svint24() -> (ladder: Ladder)
        ensures
            ladder == svint24(),
            ladder.wf(),
    {
        Ladder { signed: true, flag_bits: 2, w0: 16, w1: 19, w2: 20, w3: 24 }
    }

    /// The width of rung `index`; indices past the last rung give the widest.
    pub fn width(&self, index: u8) -> (w: u8)
        ensures
            w == self.width_at(index as int),
    {
        if index == 0 {
            self.w0
        } else if index == 1 {
            self.w1
        } else if index == 2 {
            self.w2
        } else {
            self.w3
        }
    }

    /// Whether rung `index` can hold `value`.
    pub fn holds(&self, index: u8, value: i64) -> (held: bool)
        requires
            self.wf(),
        ensures
            held == self.fits(index as int, value as int),
    {
        let w = self.width(index);
        if self.signed {
            let half = power_of_two((w - 1) as usize);
            proof {
                lemma2_to64();
                if w < 32 {
                    lemma_pow2_strictly_increases((w - 1) as nat, 31);
                }
            }
            -(half as i64) <= value && value < half as i64
        } else {
            let limit = power_of_two(w as usize);
            proof {
                lemma2_to64();
                if w < 32 {
                    lemma_pow2_strictly_increases(w as nat, 32);
                }
            }
            0 <= value && value < limit as i64
        }
    }

    /// `value` saturated to the range of the widest rung.
    pub fn saturate(&self, value: i64) -> (v: i64)
        requires
            self.wf(),
        ensures
            v == self.clamp(value as int),
            self.in_range(v as int),
    {
        proof {
            lemma2_to64();
            self.lemma_clamp_in_range(value as int);
            if self.w3 < 32 {
                lemma_pow2_strictly_increases(self.w3 as nat, 32);
                lemma_pow2_strictly_increases((self.w3 - 1) as nat, 31);
            }
            lemma_pow2_unfold(32);
        }
        if self.signed {
            let half = power_of_two((self.w3 - 1) as usize) as i64;
            if value < -half {
                -half
            } else if value > half - 1 {
                half - 1
            } else {
                value
            }
        } else {
            let limit = power_of_two(self.w3 as usize) as i64;
            if value < 0 {
                0
            } else if value > limit - 1 {
                limit - 1
            } else {
                value
            }
        }
    }
}

/// An integer together with the rung that carries it.
///
/// A value read from the wire keeps the rung it arrived in, which need not be
/// the narrowest one; a value built by [`VarInt::encode`] always sits on the
/// narrowest rung.
#[derive(Clone, Copy, Debug, PartialEq, Eq, Structural)]
pub struct VarInt {
    pub ladder: Ladder,
    pub index: u8,
    pub value: i64,
}

/// What [`VarInt::encode`] returns.
pub open spec fn spec_encode(ladder: Ladder, raw: int) -> VarInt {
    let value = ladder.clamp(raw);
    VarInt { ladder, index: ladder.min_index(value) as u8, value: value as i64 }
}

/// The wire form of `raw` encoded on `ladder`.
#[verifier::opaque]
pub open spec fn var_bits(ladder: Ladder, raw: int) -> Seq<bool> {
    spec_encode(ladder, raw).wire_bits()
}

/// What [`VarInt::parse`] finds in a bit string.
pub open spec fn spec_parse(bits: Seq<bool>, cursor: nat, ladder: Ladder) -> Result<
    (VarInt, nat),
    CdisError,
> {
    let flag_end: nat = cursor + ladder.flag_bits as nat;
    if flag_end > bits.len() {
        Err(CdisError::OutOfBounds)
    } else {
        let index = value_of(bits.subrange(cursor as int, flag_end as int));
        let width = ladder.width_at(index as int);
        let end: nat = flag_end + width;
        if end > bits.len() {
            Err(CdisError::OutOfBounds)
        } else {
            let raw = value_of(bits.subrange(flag_end as int, end as int));
            Ok(
                (
                    VarInt {
                        ladder,
                        index: index as u8,
                        value: ladder.denoted(raw, width) as i64,
                    },
                    end,
                ),
            )
        }
    }
}

/// The value and the next cursor that [`read_var`] finds in a bit string.
#[verifier::opaque]
pub open spec fn spec_read_var(bits: Seq<bool>, cursor: nat, ladder: Ladder) -> Result<
    (int, nat),
    CdisError,
> {
    match spec_parse(bits, cursor, ladder) {
        Ok((v, next)) => Ok((v.value as int, next)),
        Err(e) => Err(e),
    }
}

impl VarInt {
    /// The rung exists on the ladder and holds the value.
    pub open spec fn wf(&self) -> bool {
        &&& self.ladder.wf()
        &&& self.index < self.ladder.count()
        &&& self.ladder.fits(self.index as int, self.value as int)
    }

    /// The width of the rung in use.
    pub open spec fn spec_width(&self) -> nat {
        self.ladder.width_at(self.index as int)
    }

    /// The number of bits on the wire: discriminator and value.
    pub open spec fn spec_bit_length(&self) -> nat {
        self.ladder.flag_bits as nat + self.spec_width()
    }

    /// The wire form: the discriminator, then the value in the rung's width.
    pub open spec fn wire_bits(&self) -> Seq<bool> {
        bits_of(self.index as nat, self.ladder.flag_bits as nat) + bits_of(
            self.ladder.pattern(self.value as int, self.spec_width()),
            self.spec_width(),
        )
    }

    /// The wire form is as long as the discriminator and the rung together.
    pub proof fn lemma_wire_len(&self)
        ensures
            self.wire_bits().len() == self.spec_bit_length(),
    {
        lemma_bits_of_len(self.index as nat, self.ladder.flag_bits as nat);
        lemma_bits_of_len(
            self.ladder.pattern(self.value as int, self.spec_width()),
            self.spec_width(),
        );
    }

    /// The pattern of a well-formed value fits its rung.
    pub proof fn lemma_pattern_fits(&self)
        requires
            self.wf(),
        ensures
            self.ladder.pattern(self.value as int, self.spec_width()) < pow2(self.spec_width()),
            self.ladder.denoted(
                self.ladder.pattern(self.value as int, self.spec_width()),
                self.spec_width(),
            ) == self.value,
            (self.index as nat) < pow2(self.ladder.flag_bits as nat),
            1 <= self.spec_width() <= 32,
    {
        lemma2_to64();
        if self.ladder.signed {
            lemma_signed_round_trip(self.value as int, self.spec_width());
        }
    }

    /// Encodes `raw` on `ladder`: the value saturated to the ladder's range,
    /// on the narrowest rung that holds it.
    pub fn encode(ladder: Ladder, raw: i64) -> (v: VarInt)
        requires
            ladder.wf(),
        ensures
            v == spec_encode(ladder, raw as int),
            v.wf(),
            ladder.in_range(raw as int) ==> v.value == raw,
            forall|j: int| 0 <= j < v.index ==> !ladder.fits(j, v.value as int),
    {
        let value = ladder.saturate(raw);
        proof {
            ladder.lemma_range_fits_top(value as int);
        }
        let index: u8 = if ladder.holds(0, value) {
            0
        } else if ladder.holds(1, value) {
            1
        } else if ladder.holds(2, value) {
            2
        } else {
            3
        };
        VarInt { ladder, index, value }
    }

    /// The integer that this value carries.
    pub fn decode(&self) -> (raw: i64)
        ensures
            raw == self.value,
    {
        self.value
    }

    /// The width in bits of the rung in use.
    pub fn width(&self) -> (w: u8)
        ensures
            w == self.spec_width(),
    {
        self.ladder.width(self.index)
    }

    /// The number of bits this value takes on the wire.
    pub fn bit_length(&self) -> (n: usize)
        requires
            self.ladder.wf(),
        ensures
            n == self.spec_bit_length(),
            n == self.wire_bits().len(),
            n <= 34,
    {
        proof {
            self.lemma_wire_len();
        }
        self.ladder.flag_bits as usize + self.width() as usize
    }

    /// Whether the rung exists on the ladder and holds the value.
    pub fn is_valid(&self) -> (valid: bool)
        ensures
            valid == self.wf(),
    {
        if !self.ladder.is_valid() {
            return false;
        }
        let count: u8 = if self.ladder.flag_bits == 1 {
            2
        } else {
            4
        };
        self.index < count && self.ladder.holds(self.index, self.value)
    }

    /// Writes a value that is known to be well formed and to fit the buffer.
    pub fn serialize(&self, buf: &mut BitBuffer, cursor: usize) -> (next: usize)
        requires
            self.wf(),
            cursor + self.wire_bits().len() <= old(buf)@.len(),
        ensures
            next == cursor + self.wire_bits().len(),
            final(buf)@ == overwrite(old(buf)@, cursor as int, self.wire_bits()),
            final(buf)@.len() == old(buf)@.len(),
    {
        let w = self.width();
        let ghost flag = bits_of(self.index as nat, self.ladder.flag_bits as nat);
        let ghost pattern = self.ladder.pattern(self.value as int, self.spec_width());
        proof {
            self.lemma_wire_len();
            self.lemma_pattern_fits();
            lemma_bits_of_len(self.index as nat, self.ladder.flag_bits as nat);
            lemma_bits_of_len(pattern, self.spec_width());
            lemma_overwrite_concat(
                old(buf)@,
                cursor as int,
                flag,
                bits_of(pattern, self.spec_width()),
            );
            lemma2_to64();
            if w < 32 {
                lemma_pow2_strictly_increases(w as nat, 32);
            }
        }
        let mid = buf.put(cursor, self.ladder.flag_bits as usize, self.index as u64);
        let raw: u64 = if self.value < 0 {
            (self.value + power_of_two(w as usize) as i64) as u64
        } else {
            self.value as u64
        };
        buf.put(mid, w as usize, raw)
    }

    /// Writes the value at `cursor` and returns the cursor that follows it.
    ///
    /// Fails with `ValueOutOfRange`, writing nothing, when the value does not
    /// fit its rung, and with `OutOfBounds` when the buffer has no room.
    pub fn try_serialize(&self, buf: &mut BitBuffer, cursor: usize) -> (r: Result<usize, CdisError>)
        ensures
            final(buf)@.len() == old(buf)@.len(),
            match r {
                Ok(next) => {
                    &&& self.wf()
                    &&& next == cursor + self.wire_bits().len()
                    &&& next <= old(buf)@.len()
                    &&& final(buf)@ == overwrite(old(buf)@, cursor as int, self.wire_bits())
                },
                Err(e) => {
                    &&& final(buf)@ == old(buf)@
                    &&& e == if !self.wf() {
                        CdisError::ValueOutOfRange
                    } else {
                        CdisError::OutOfBounds
                    }
                    &&& !self.wf() || cursor + self.wire_bits().len() > old(buf)@.len()
                },
            },
    {
        if !self.is_valid() {
            return Err(CdisError::ValueOutOfRange);
        }
        let capacity = buf.capacity();
        let length = self.bit_length();
        if cursor > capacity || length > capacity - cursor {
            return Err(CdisError::OutOfBounds);
        }
        Ok(self.serialize(buf, cursor))
    }

    /// Reads a value of the given ladder at `cursor`: the discriminator, then
    /// as many value bits as the rung it selects, sign-extended on a signed
    /// ladder. Returns the value and the cursor that follows it.
    pub fn parse(buf: &BitBuffer, cursor: usize, ladder: Ladder) -> (r: Result<
        (VarInt, usize),
        CdisError,
    >)
        requires
            ladder.wf(),
        ensures
            match spec_parse(buf@, cursor as nat, ladder) {
                Ok((v, next)) => {
                    &&& r is Ok
                    &&& r->Ok_0.0 == v
                    &&& r->Ok_0.1 == next
                    &&& v.wf()
                    &&& next <= buf@.len()
                },
                Err(e) => r == Err::<(VarInt, usize), CdisError>(e),
            },
    {
        let capacity = buf.capacity();
        let flag_bits = ladder.flag_bits as usize;
        if cursor > capacity || flag_bits > capacity - cursor {
            return Err(CdisError::OutOfBounds);
        }
        let index = buf.get(cursor, flag_bits);
        proof {
            lemma2_to64();
        }
        let index = index as u8;
        let w = ladder.width(index);
        let start = cursor + flag_bits;
        if w as usize > capacity - start {
            return Err(CdisError::OutOfBounds);
        }
        let raw = buf.get(start, w as usize);
        proof {
            if w < 32 {
                lemma_pow2_strictly_increases(w as nat, 32);
            }
            if ladder.signed {
                lemma_signed_value_fits(raw as nat, w as nat);
                lemma_pow2_unfold(w as nat);
            }
        }
        let value: i64 = if ladder.signed && raw >= power_of_two((w - 1) as usize) {
            raw as i64 - power_of_two(w as usize) as i64
        } else {
            raw as i64
        };
        Ok((VarInt { ladder, index, value }, start + w as usize))
    }
}

/// The number of bits that `raw` takes on the wire when encoded on `ladder`.
pub fn var_length(ladder: Ladder, raw: i64) -> (n: usize)
    requires
        ladder.wf(),
    ensures
        n == var_bits(ladder, raw as int).len(),
        n <= 34,
{
    reveal(var_bits);
    VarInt::encode(ladder, raw).bit_length()
}

/// Encodes `raw` on `ladder` and writes it where the caller has checked for room.
pub(crate) fn write_var(buf: &mut BitBuffer, cursor: usize, ladder: Ladder, raw: i64) -> (next:
    usize)
    requires
        ladder.wf(),
        cursor + var_bits(ladder, raw as int).len() <= old(buf)@.len(),
    ensures
        next == cursor + var_bits(ladder, raw as int).len(),
        final(buf)@ == overwrite(old(buf)@, cursor as int, var_bits(ladder, raw as int)),
        final(buf)@.len() == old(buf)@.len(),
{
    reveal(var_bits);
    VarInt::encode(ladder, raw).serialize(buf, cursor)
}

/// Reads a value of the given ladder and returns the integer it carries.
pub fn read_var(buf: &BitBuffer, cursor: usize, ladder: Ladder) -> (r: Result<
    (i64, usize),
    CdisError,
>)
    requires
        ladder.wf(),
    ensures
        match spec_read_var(buf@, cursor as nat, ladder) {
            Ok((value, next)) => {
                &&& r is Ok
                &&& r->Ok_0.0 == value
                &&& r->Ok_0.1 == next
                &&& ladder.in_range(value)
                &&& cursor < next <= buf@.len()
            },
            Err(e) => r == Err::<(i64, usize), CdisError>(e),
        },
{
    reveal(spec_read_var);
    match VarInt::parse(buf, cursor, ladder) {
        Ok((v, next)) => {
            proof {
                ladder.lemma_fits_monotonic(v.index as int, 3, v.value as int);
            }
            Ok((v.value, next))
        },
        Err(e) => Err(e),
    }
}

/// Decoding an encoded value returns the integer that was encoded, for every integer
/// within the ladder's range.
pub proof fn lemma_decode_encode(ladder: Ladder, raw: int)
    requires
        ladder.wf(),
        ladder.in_range(raw),
    ensures
        spec_encode(ladder, raw).value == raw,
        spec_encode(ladder, raw).wf(),
{
    ladder.lemma_clamp_in_range(raw);
    ladder.lemma_range_fits_top(raw);
    lemma2_to64();
    if ladder.w3 < 32 {
        lemma_pow2_strictly_increases(ladder.w3 as nat, 32);
    }
}

/// Encoding selects the narrowest rung that covers the (saturated) value.
pub proof fn lemma_encode_canonical(ladder: Ladder, raw: int)
    requires
        ladder.wf(),
    ensures
        spec_encode(ladder, raw).wf(),
        forall|j: int|
            0 <= j < spec_encode(ladder, raw).index ==> !ladder.fits(
                j,
                spec_encode(ladder, raw).value as int,
            ),
        forall|j: int|
            0 <= j < ladder.count() && ladder.fits(j, ladder.clamp(raw)) ==> ladder.width_at(
                spec_encode(ladder, raw).index as int,
            ) <= ladder.width_at(j),
{
    ladder.lemma_clamp_in_range(raw);
    ladder.lemma_range_fits_top(ladder.clamp(raw));
    lemma2_to64();
    if ladder.w3 < 32 {
        lemma_pow2_strictly_increases(ladder.w3 as nat, 32);
    }
}

/// Parsing finds a well-formed value wherever its wire form stands.
pub proof fn lemma_parse_wire(bits: Seq<bool>, cursor: nat, v: VarInt)
    requires
        v.wf(),
        holds_at(bits, cursor as int, v.wire_bits()),
    ensures
        spec_parse(bits, cursor, v.ladder) == Ok::<(VarInt, nat), CdisError>(
            (v, cursor + v.wire_bits().len()),
        ),
{
    let flag = bits_of(v.index as nat, v.ladder.flag_bits as nat);
    let pattern = v.ladder.pattern(v.value as int, v.spec_width());
    let body = bits_of(pattern, v.spec_width());
    v.lemma_wire_len();
    v.lemma_pattern_fits();
    lemma_bits_of_len(v.index as nat, v.ladder.flag_bits as nat);
    lemma_bits_of_len(pattern, v.spec_width());
    lemma_holds_concat(bits, cursor as int, flag, body);
    lemma_value_of_bits_of(v.index as nat, v.ladder.flag_bits as nat);
    lemma_value_of_bits_of(pattern, v.spec_width());
}

/// Reading finds the integer wherever the wire form of its encoding stands,
/// for every integer within the ladder's range.
pub proof fn lemma_read_var_wire(bits: Seq<bool>, cursor: nat, ladder: Ladder, raw: int)
    requires
        ladder.wf(),
        ladder.in_range(raw),
        holds_at(bits, cursor as int, var_bits(ladder, raw)),
    ensures
        spec_read_var(bits, cursor, ladder) == Ok::<(int, nat), CdisError>(
            (raw, cursor + var_bits(ladder, raw).len()),
        ),
{
    reveal(var_bits);
    reveal(spec_read_var);
    lemma_decode_encode(ladder, raw);
    lemma_parse_wire(bits, cursor, spec_encode(ladder, raw));
}

} // verus!
