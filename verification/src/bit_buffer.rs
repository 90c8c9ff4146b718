//! A fixed-capacity bit buffer addressed by an explicit cursor.
//!
//! The storage is a `bitvec` bit array over octets, indexed most significant
//! bit first. The buffer carries no cursor of its own: every operation takes
//! the bit offset to work at and returns the offset that follows the field, so
//! that record fragments can be laid out one after the other by threading the
//! cursor through the calls.

use crate::bits::{
    bits_of, holds_at, lemma_bits_of_len, lemma_overwrite_concat, lemma_overwrite_empty,
    lemma_overwrite_holds, lemma_value_of_bits_of, lemma_value_of_bound, overwrite, value_of,
};
use crate::constants::{BUFFER_BITS, MAX_FIELD_BITS};
use crate::error::CdisError;
use bitvec::field::BitField;
use vstd::arithmetic::power2::{lemma2_to64, lemma2_to64_rest, lemma_pow2_unfold, pow2};
use vstd::prelude::*;

verus! {

/// The bit buffer: a `bitvec` bit array over 12000 octets, indexed most
/// significant bit first. The verifier does not look inside the array; what
/// it holds is named by [`buffer_bits`], and the functions that touch it are
/// the four that follow.
#[verifier::external_body]
pub struct BitBuffer {
    bits: bitvec::array::BitArray<[u8; 12000], bitvec::order::Msb0>,
}

/// The bits that a buffer holds, in index order.
pub uninterp spec fn buffer_bits(buf: BitBuffer) -> Seq<bool>;

impl View for BitBuffer {
    type V = Seq<bool>;

    open spec fn view(&self) -> Seq<bool> {
        buffer_bits(*self)
    }
}

/// Calls `BitArray::ZERO`: a bit array of 12000 octets with every bit cleared.
#[verifier::external_body]
fn zeroed_array() -> (buf: BitBuffer)
    ensures
        buffer_bits(buf) == Seq::new(BUFFER_BITS as nat, |i: int| false),
{
    BitBuffer { bits: bitvec::array::BitArray::ZERO }
}

/// Calls `BitArray::len`: the number of bits of the backing array, which is
/// fixed by its type at eight times 12000.
#[verifier::external_body]
fn array_len(buf: &BitBuffer) -> (n: usize)
    ensures
        n == BUFFER_BITS,
        buffer_bits(*buf).len() == n,
{
    buf.bits.len()
}

/// Calls `BitField::store_be` on the bit range `start..end` of an `Msb0`
/// array: the `end - start` least significant bits of `value` are stored with
/// the most significant of them at `start`, higher bits of `value` are
/// dropped, and no bit outside the range changes. The range must be in bounds
/// and between 1 and 64 bits long, else the call panics.
#[verifier::external_body]
fn store_be(buf: &mut BitBuffer, start: usize, end: usize, value: u64)
    requires
        start < end <= buffer_bits(*old(buf)).len(),
        end - start <= 64,
    ensures
        buffer_bits(*final(buf)) == overwrite(
            buffer_bits(*old(buf)),
            start as int,
            bits_of(value as nat, (end - start) as nat),
        ),
{
    buf.bits[start..end].store_be::<u64>(value);
}

/// Calls `BitField::load_be` on the bit range `start..end` of an `Msb0`
/// array: the bits of the range are read as one unsigned number, the bit at
/// `start` being the most significant. The range must be in bounds and between
/// 1 and 64 bits long, else the call panics.
#[verifier::external_body]
fn load_be(buf: &BitBuffer, start: usize, end: usize) -> (value: u64)
    requires
        start < end <= buffer_bits(*buf).len(),
        end - start <= 64,
    ensures
        value == value_of(buffer_bits(*buf).subrange(start as int, end as int)),
{
    buf.bits[start..end].load_be::<u64>()
}

/// What [`write_unsigned`] does to a bit string: the new contents and the new cursor.
pub open spec fn spec_write_unsigned(
    bits: Seq<bool>,
    cursor: nat,
    width_bits: nat,
    value: nat,
) -> Result<(Seq<bool>, nat), CdisError> {
    if width_bits == 0 || width_bits > 64 {
        Err(CdisError::InvalidWidth)
    } else if value >= pow2(width_bits) {
        Err(CdisError::ValueOutOfRange)
    } else if cursor + width_bits > bits.len() {
        Err(CdisError::OutOfBounds)
    } else {
        Ok((overwrite(bits, cursor as int, bits_of(value, width_bits)), cursor + width_bits))
    }
}

/// What [`read_unsigned`] finds in a bit string: the value and the new cursor.
pub open spec fn spec_read_unsigned(bits: Seq<bool>, cursor: nat, width_bits: nat) -> Result<
    (nat, nat),
    CdisError,
> {
    if width_bits == 0 || width_bits > 64 {
        Err(CdisError::InvalidWidth)
    } else if cursor + width_bits > bits.len() {
        Err(CdisError::OutOfBounds)
    } else {
        Ok((value_of(bits.subrange(cursor as int, (cursor + width_bits) as int)), cursor + width_bits))
    }
}

/// The octet that the eight bits from index `8 * index` on spell.
pub open spec fn octet_at(bits: Seq<bool>, index: int) -> u8 {
    value_of(bits.subrange(8 * index, 8 * index + 8)) as u8
}

/// The first `count` octets of a bit string.
pub open spec fn octets_of(bits: Seq<bool>, count: nat) -> Seq<u8> {
    Seq::new(count, |i: int| octet_at(bits, i))
}

/// The bit string that a run of octets spells, eight bits per octet.
pub open spec fn bits_of_octets(octets: Seq<u8>) -> Seq<bool>
    decreases octets.len(),
{
    if octets.len() == 0 {
        Seq::empty()
    } else {
        bits_of_octets(octets.drop_last()) + bits_of(octets.last() as nat, 8)
    }
}

/// A run of octets spells eight bits per octet.
pub proof fn lemma_bits_of_octets_len(octets: Seq<u8>)
    ensures
        bits_of_octets(octets).len() == 8 * octets.len(),
    decreases octets.len(),
{
    if octets.len() > 0 {
        lemma_bits_of_octets_len(octets.drop_last());
        lemma_bits_of_len(octets.last() as nat, 8);
    }
}

/// `2^width` as a machine number.
pub(crate) fn power_of_two(width: usize) -> (p: u64)
    requires
        width < 64,
    ensures
        p == pow2(width as nat),
{
    let mut p: u64 = 1;
    let mut i: usize = 0;
    proof {
        lemma2_to64();
    }
    while i < width
        invariant
            i <= width < 64,
            p == pow2(i as nat),
        decreases width - i,
    {
        proof {
            lemma_pow2_unfold((i + 1) as nat);
            lemma2_to64();
            lemma2_to64_rest();
            if i + 1 < 63 {
                vstd::arithmetic::power2::lemma_pow2_strictly_increases((i + 1) as nat, 63);
            }
        }
        p = p * 2;
        i = i + 1;
    }
    p
}

/// Whether `value` can be written in `width_bits` bits.
fn fits_width(value: u64, width_bits: usize) -> (fits: bool)
    requires
        1 <= width_bits <= 64,
    ensures
        fits == (value < pow2(width_bits as nat)),
{
    if width_bits == 64 {
        proof {
            lemma2_to64_rest();
        }
        true
    } else {
        value < power_of_two(width_bits)
    }
}

impl BitBuffer {
    /// A buffer with every bit cleared.
    pub fn new() -> (buf: BitBuffer)
        ensures
            buf@ == Seq::new(BUFFER_BITS as nat, |i: int| false),
    {
        zeroed_array()
    }

    /// The number of bits the buffer can hold; the same for every buffer.
    pub fn capacity(&self) -> (n: usize)
        ensures
            n == BUFFER_BITS,
            self@.len() == BUFFER_BITS,
    {
        array_len(self)
    }

    /// Stores a field whose width and position the caller has already checked.
    pub(crate) fn put(&mut self, cursor: usize, width_bits: usize, value: u64) -> (next: usize)
        requires
            1 <= width_bits <= 64,
            value < pow2(width_bits as nat),
            cursor + width_bits <= old(self)@.len(),
        ensures
            next == cursor + width_bits,
            final(self)@ == overwrite(
                old(self)@,
                cursor as int,
                bits_of(value as nat, width_bits as nat),
            ),
            final(self)@.len() == old(self)@.len(),
    {
        let _ = array_len(self);
        store_be(self, cursor, cursor + width_bits, value);
        cursor + width_bits
    }

    /// Loads a field whose width and position the caller has already checked.
    pub(crate) fn get(&self, cursor: usize, width_bits: usize) -> (value: u64)
        requires
            1 <= width_bits <= 64,
            cursor + width_bits <= self@.len(),
        ensures
            value == value_of(self@.subrange(cursor as int, cursor + width_bits)),
            value < pow2(width_bits as nat),
    {
        let _ = array_len(self);
        proof {
            lemma_value_of_bound(self@.subrange(cursor as int, cursor + width_bits));
        }
        load_be(self, cursor, cursor + width_bits)
    }

    /// The first `count` octets of the buffer, each packed most significant bit first.
    pub fn to_bytes(&self, count: usize) -> (r: Result<Vec<u8>, CdisError>)
        ensures
            match r {
                Ok(octets) => 8 * count <= self@.len() && octets@ == octets_of(self@, count as nat),
                Err(e) => 8 * count > self@.len() && e == CdisError::OutOfBounds,
            },
    {
        let capacity = self.capacity();
        if count > capacity / 8 {
            return Err(CdisError::OutOfBounds);
        }
        let mut octets: Vec<u8> = Vec::new();
        let mut i: usize = 0;
        while i < count
            invariant
                i <= count,
                8 * count <= self@.len(),
                self@.len() == BUFFER_BITS,
                octets@ == octets_of(self@, i as nat),
            decreases count - i,
        {
            let raw = self.get(8 * i, 8);
            proof {
                lemma2_to64();
            }
            octets.push(raw as u8);
            i = i + 1;
            assert(octets@ =~= octets_of(self@, i as nat));
        }
        Ok(octets)
    }

    /// A buffer that starts with the bits of `octets` and is clear after them.
    pub fn from_bytes(octets: &[u8]) -> (r: Result<BitBuffer, CdisError>)
        ensures
            match r {
                Ok(buf) => 8 * octets@.len() <= BUFFER_BITS && buf@ == overwrite(
                    Seq::new(BUFFER_BITS as nat, |i: int| false),
                    0,
                    bits_of_octets(octets@),
                ),
                Err(e) => 8 * octets@.len() > BUFFER_BITS && e == CdisError::OutOfBounds,
            },
    {
        let mut buf = BitBuffer::new();
        let capacity = buf.capacity();
        if octets.len() > capacity / 8 {
            return Err(CdisError::OutOfBounds);
        }
        let ghost clear = buf@;
        let mut i: usize = 0;
        proof {
            lemma_overwrite_empty(clear, 0);
        }
        while i < octets.len()
            invariant
                i <= octets@.len(),
                8 * octets@.len() <= BUFFER_BITS,
                clear.len() == BUFFER_BITS,
                buf@ == overwrite(clear, 0, bits_of_octets(octets@.take(i as int))),
            decreases octets@.len() - i,
        {
            let ghost done = bits_of_octets(octets@.take(i as int));
            proof {
                lemma2_to64();
                lemma_bits_of_octets_len(octets@.take(i as int));
                lemma_bits_of_len(octets@[i as int] as nat, 8);
                assert(octets@.take(i as int).len() == i);
                lemma_overwrite_concat(clear, 0, done, bits_of(octets@[i as int] as nat, 8));
                assert(octets@.take(i + 1).drop_last() =~= octets@.take(i as int));
            }
            let _ = buf.put(8 * i, 8, octets[i] as u64);
            i = i + 1;
        }
        proof {
            assert(octets@.take(i as int) =~= octets@);
        }
        Ok(buf)
    }
}

/// Writes the `width_bits` low bits of `value` at `cursor`, most significant
/// bit first, and returns the cursor that follows the field.
///
/// Nothing is written when the call fails: a width outside `1..=64`, a value
/// that needs more than `width_bits` bits, or a field that would run past the
/// end of the buffer.
pub fn write_unsigned(buf: &mut BitBuffer, cursor: usize, width_bits: usize, value: u64) -> (r:
    Result<usize, CdisError>)
    ensures
        final(buf)@.len() == old(buf)@.len(),
        match spec_write_unsigned(old(buf)@, cursor as nat, width_bits as nat, value as nat) {
            Ok((bits, next)) => r is Ok && r->Ok_0 == next && final(buf)@ == bits,
            Err(e) => r == Err::<usize, CdisError>(e) && final(buf)@ == old(buf)@,
        },
{
    if width_bits == 0 || width_bits > MAX_FIELD_BITS {
        return Err(CdisError::InvalidWidth);
    }
    if !fits_width(value, width_bits) {
        return Err(CdisError::ValueOutOfRange);
    }
    let capacity = buf.capacity();
    if cursor > capacity || width_bits > capacity - cursor {
        return Err(CdisError::OutOfBounds);
    }
    Ok(buf.put(cursor, width_bits, value))
}

/// Reads the `width_bits` bits at `cursor` as an unsigned number, most
/// significant bit first, and returns it with the cursor that follows the field.
pub fn read_unsigned(buf: &BitBuffer, cursor: usize, width_bits: usize) -> (r: Result<
    (u64, usize),
    CdisError,
>)
    ensures
        match spec_read_unsigned(buf@, cursor as nat, width_bits as nat) {
            Ok((value, next)) => r is Ok && r->Ok_0.0 == value && r->Ok_0.1 == next,
            Err(e) => r == Err::<(u64, usize), CdisError>(e),
        },
{
    if width_bits == 0 || width_bits > MAX_FIELD_BITS {
        return Err(CdisError::InvalidWidth);
    }
    let capacity = buf.capacity();
    if cursor > capacity || width_bits > capacity - cursor {
        return Err(CdisError::OutOfBounds);
    }
    let value = buf.get(cursor, width_bits);
    Ok((value, cursor + width_bits))
}

/// A buffer with every bit cleared.
pub fn create_bit_buffer() -> (buf: BitBuffer)
    ensures
        buf@ == Seq::new(BUFFER_BITS as nat, |i: int| false),
{
    BitBuffer::new()
}

/// Reading a field back from where it was written returns the value written
/// and the cursor that the write returned.
pub proof fn lemma_write_then_read(bits: Seq<bool>, cursor: nat, width_bits: nat, value: nat)
    requires
        1 <= width_bits <= 64,
        value < pow2(width_bits),
        cursor + width_bits <= bits.len(),
    ensures
        spec_write_unsigned(bits, cursor, width_bits, value) is Ok,
        spec_read_unsigned(
            spec_write_unsigned(bits, cursor, width_bits, value)->Ok_0.0,
            cursor,
            width_bits,
        ) == Ok::<(nat, nat), CdisError>((value, cursor + width_bits)),
{
    let field = bits_of(value, width_bits);
    lemma_bits_of_len(value, width_bits);
    lemma_overwrite_holds(bits, cursor as int, field);
    lemma_value_of_bits_of(value, width_bits);
    assert(holds_at(overwrite(bits, cursor as int, field), cursor as int, field));
}

/// A write leaves every bit outside the field as it was.
pub proof fn lemma_write_frame(bits: Seq<bool>, cursor: nat, width_bits: nat, value: nat, i: int)
    requires
        spec_write_unsigned(bits, cursor, width_bits, value) is Ok,
        0 <= i < bits.len(),
        i < cursor || i >= cursor + width_bits,
    ensures
        spec_write_unsigned(bits, cursor, width_bits, value)->Ok_0.0[i] == bits[i],
{
    lemma_bits_of_len(value, width_bits);
}

} // verus!
