//! Laying records out in a bit buffer.
//!
//! A record type says what its wire form is ([`SerializeCdis::wire_bits`]) and
//! how to write it at a cursor. Writing comes in two kinds: the plain
//! [`SerializeCdis::serialize`], for callers that have already established
//! that the record is well formed and that the buffer has room, and the
//! checked [`try_serialize`], which tests both and leaves the buffer
//! untouched on failure.

use crate::bit_buffer::{power_of_two, BitBuffer};
use crate::bits::{
    bits_of, fits_signed, lemma_bits_of_len, lemma_overwrite_concat, lemma_overwrite_empty,
    lemma_signed_round_trip, overwrite, twos_complement,
};
use crate::error::CdisError;
use vstd::arithmetic::power2::{lemma2_to64, lemma_pow2_strictly_increases, lemma_pow2_unfold};
use vstd::prelude::*;

verus! {

/// A record with a wire form.
pub trait SerializeCdis: Sized {
    /// Whether every field is within the range of its wire representation.
    spec fn wf(&self) -> bool;

    /// The wire form of a well-formed record.
    spec fn wire_bits(&self) -> Seq<bool>;

    /// Whether the record is well formed.
    fn is_valid(&self) -> (valid: bool)
        ensures
            valid == self.wf(),
    ;

    /// An upper bound on the number of bits of any wire form of the type.
    spec fn max_bits() -> nat;

    /// The number of bits of the wire form.
    fn bit_length(&self) -> (n: usize)
        requires
            self.wf(),
        ensures
            n == self.wire_bits().len(),
            n <= Self::max_bits(),
    ;

    /// Writes the wire form at `cursor` and returns the cursor that follows it.
    fn serialize(&self, buf: &mut BitBuffer, cursor: usize) -> (next: usize)
        requires
            self.wf(),
            cursor + self.wire_bits().len() <= old(buf)@.len(),
        ensures
            next == cursor + self.wire_bits().len(),
            final(buf)@ == overwrite(old(buf)@, cursor as int, self.wire_bits()),
            final(buf)@.len() == old(buf)@.len(),
    ;
}

/// Writes `record` at `cursor` and returns the cursor that follows it.
///
/// Fails with `ValueOutOfRange` when a field of the record does not fit its
/// wire representation, and with `OutOfBounds` when the record would run past
/// the end of the buffer. A failed call writes nothing.
pub fn try_serialize<R: SerializeCdis>(record: &R, buf: &mut BitBuffer, cursor: usize) -> (r: Result<
    usize,
    CdisError,
>)
    ensures
        final(buf)@.len() == old(buf)@.len(),
        match r {
            Ok(next) => {
                &&& record.wf()
                &&& next == cursor + record.wire_bits().len()
                &&& next <= old(buf)@.len()
                &&& final(buf)@ == overwrite(old(buf)@, cursor as int, record.wire_bits())
            },
            Err(e) => {
                &&& final(buf)@ == old(buf)@
                &&& !record.wf() || cursor + record.wire_bits().len() > old(buf)@.len()
                &&& e == if !record.wf() {
                    CdisError::ValueOutOfRange
                } else {
                    CdisError::OutOfBounds
                }
            },
        },
{
    if !record.is_valid() {
        return Err(CdisError::ValueOutOfRange);
    }
    let capacity = buf.capacity();
    let length = record.bit_length();
    if cursor > capacity || length > capacity - cursor {
        return Err(CdisError::OutOfBounds);
    }
    Ok(record.serialize(buf, cursor))
}

/// The wire form of a signed fixed-width field: two's complement in `width_bits` bits.
pub open spec fn signed_bits(value: int, width_bits: nat) -> Seq<bool> {
    bits_of(twos_complement(value, width_bits), width_bits)
}

/// Whether `value` is representable in two's complement with `width_bits` bits.
pub(crate) fn fits_signed_width(value: i64, width_bits: usize) -> (fits: bool)
    requires
        1 <= width_bits <= 32,
    ensures
        fits == fits_signed(value as int, width_bits as nat),
{
    let half = power_of_two(width_bits - 1);
    proof {
        lemma2_to64();
        if width_bits < 32 {
            lemma_pow2_strictly_increases((width_bits - 1) as nat, 31);
        }
    }
    -(half as i64) <= value && value < half as i64
}

/// Stores a signed field whose range and position the caller has already checked.
pub(crate) fn put_signed(buf: &mut BitBuffer, cursor: usize, width_bits: usize, value: i64) -> (next:
    usize)
    requires
        1 <= width_bits <= 32,
        fits_signed(value as int, width_bits as nat),
        cursor + width_bits <= old(buf)@.len(),
    ensures
        next == cursor + width_bits,
        final(buf)@ == overwrite(
            old(buf)@,
            cursor as int,
            signed_bits(value as int, width_bits as nat),
        ),
        final(buf)@.len() == old(buf)@.len(),
{
    proof {
        lemma2_to64();
        lemma_signed_round_trip(value as int, width_bits as nat);
        lemma_pow2_unfold(width_bits as nat);
        if width_bits < 32 {
            lemma_pow2_strictly_increases(width_bits as nat, 32);
        }
    }
    let raw: u64 = if value < 0 {
        (value + power_of_two(width_bits) as i64) as u64
    } else {
        value as u64
    };
    buf.put(cursor, width_bits, raw)
}

/// The wire form of an optional field: that of its value, or nothing.
pub open spec fn optional_bits<R: SerializeCdis>(field: Option<R>) -> Seq<bool> {
    match field {
        Some(value) => value.wire_bits(),
        None => Seq::empty(),
    }
}

/// An optional field is well formed when it is absent or its value is.
pub open spec fn optional_wf<R: SerializeCdis>(field: Option<R>) -> bool {
    match field {
        Some(value) => value.wf(),
        None => true,
    }
}

/// Whether an optional field is absent or holds a well-formed value.
pub fn optional_is_valid<R: SerializeCdis>(field: &Option<R>) -> (valid: bool)
    ensures
        valid == optional_wf(*field),
{
    match field {
        Some(value) => value.is_valid(),
        None => true,
    }
}

/// The number of bits an optional field contributes: none when absent.
pub fn optional_length<R: SerializeCdis>(field: &Option<R>) -> (n: usize)
    requires
        optional_wf(*field),
    ensures
        n == optional_bits(*field).len(),
        n <= R::max_bits(),
{
    match field {
        Some(value) => value.bit_length(),
        None => 0,
    }
}

/// Writes the value of an optional field when it has one; an absent field
/// leaves the buffer and the cursor as they are.
pub fn serialize_when_present<R: SerializeCdis>(
    field: &Option<R>,
    buf: &mut BitBuffer,
    cursor: usize,
) -> (next: usize)
    requires
        optional_wf(*field),
        cursor + optional_bits(*field).len() <= old(buf)@.len(),
    ensures
        next == cursor + optional_bits(*field).len(),
        final(buf)@ == overwrite(old(buf)@, cursor as int, optional_bits(*field)),
        final(buf)@.len() == old(buf)@.len(),
{
    match field {
        Some(value) => value.serialize(buf, cursor),
        None => {
            proof {
                lemma_overwrite_empty(buf@, cursor as int);
            }
            cursor
        },
    }
}

/// The wire form of a run of records: one after the other, in order.
pub open spec fn sequence_bits<R: SerializeCdis>(items: Seq<R>) -> Seq<bool>
    decreases items.len(),
{
    if items.len() == 0 {
        Seq::empty()
    } else {
        sequence_bits(items.drop_last()) + items.last().wire_bits()
    }
}

/// A run of records is well formed when each record of it is.
pub open spec fn sequence_wf<R: SerializeCdis>(items: Seq<R>) -> bool {
    forall|i: int| 0 <= i < items.len() ==> (#[trigger] items[i]).wf()
}

/// Whether every record of a run is well formed.
pub fn sequence_is_valid<R: SerializeCdis>(items: &Vec<R>) -> (valid: bool)
    ensures
        valid == sequence_wf(items@),
{
    let mut i: usize = 0;
    while i < items.len()
        invariant
            i <= items@.len(),
            forall|j: int| 0 <= j < i ==> (#[trigger] items@[j]).wf(),
        decreases items@.len() - i,
    {
        if !items[i].is_valid() {
            return false;
        }
        i = i + 1;
    }
    true
}

/// The number of bits of a run of records.
pub fn sequence_length<R: SerializeCdis>(items: &Vec<R>) -> (n: usize)
    requires
        sequence_wf(items@),
        items@.len() * R::max_bits() <= usize::MAX,
    ensures
        n == sequence_bits(items@).len(),
        n <= items@.len() * R::max_bits(),
{
    let mut total: usize = 0;
    let mut i: usize = 0;
    proof {
        assert(0 * R::max_bits() == 0) by (nonlinear_arith);
    }
    while i < items.len()
        invariant
            i <= items@.len(),
            sequence_wf(items@),
            items@.len() * R::max_bits() <= usize::MAX,
            total == sequence_bits(items@.take(i as int)).len(),
            total <= i * R::max_bits(),
        decreases items@.len() - i,
    {
        let n = items[i].bit_length();
        proof {
            assert(items@.take(i + 1).drop_last() =~= items@.take(i as int));
            assert((i + 1) * R::max_bits() == i * R::max_bits() + R::max_bits())
                by (nonlinear_arith);
            assert((i + 1) * R::max_bits() <= items@.len() * R::max_bits()) by (nonlinear_arith)
                requires
                    i + 1 <= items@.len(),
            ;
        }
        total = total + n;
        i = i + 1;
    }
    proof {
        assert(items@.take(i as int) =~= items@);
    }
    total
}

/// A prefix of a run is no longer on the wire than the run.
pub proof fn lemma_sequence_prefix_len<R: SerializeCdis>(items: Seq<R>, k: int)
    requires
        0 <= k <= items.len(),
    ensures
        sequence_bits(items.take(k)).len() <= sequence_bits(items).len(),
    decreases items.len(),
{
    if k == items.len() {
        assert(items.take(k) =~= items);
    } else {
        lemma_sequence_prefix_len(items.drop_last(), k);
        assert(items.drop_last().take(k) =~= items.take(k));
    }
}

/// Writes a run of records one after the other.
pub fn write_sequence<R: SerializeCdis>(items: &Vec<R>, buf: &mut BitBuffer, cursor: usize) -> (next:
    usize)
    requires
        sequence_wf(items@),
        cursor + sequence_bits(items@).len() <= old(buf)@.len(),
    ensures
        next == cursor + sequence_bits(items@).len(),
        final(buf)@ == overwrite(old(buf)@, cursor as int, sequence_bits(items@)),
        final(buf)@.len() == old(buf)@.len(),
{
    let mut at = cursor;
    let mut i: usize = 0;
    proof {
        lemma_overwrite_empty(buf@, cursor as int);
    }
    while i < items.len()
        invariant
            i <= items@.len(),
            sequence_wf(items@),
            cursor + sequence_bits(items@).len() <= old(buf)@.len(),
            buf@.len() == old(buf)@.len(),
            at == cursor + sequence_bits(items@.take(i as int)).len(),
            buf@ == overwrite(old(buf)@, cursor as int, sequence_bits(items@.take(i as int))),
        decreases items@.len() - i,
    {
        proof {
            assert(items@.take(i + 1).drop_last() =~= items@.take(i as int));
            lemma_sequence_prefix_len(items@, i + 1);
            lemma_overwrite_concat(
                old(buf)@,
                cursor as int,
                sequence_bits(items@.take(i as int)),
                items@[i as int].wire_bits(),
            );
        }
        at = items[i].serialize(buf, at);
        i = i + 1;
    }
    proof {
        assert(items@.take(i as int) =~= items@);
    }
    at
}

impl SerializeCdis for u8 {
    open spec fn max_bits() -> nat {
        8
    }

    open spec fn wf(&self) -> bool {
        true
    }

    /// An octet travels as eight bits.
    open spec fn wire_bits(&self) -> Seq<bool> {
        bits_of(*self as nat, 8)
    }

    fn is_valid(&self) -> (valid: bool) {
        true
    }

    fn bit_length(&self) -> (n: usize) {
        proof {
            lemma_bits_of_len(*self as nat, 8);
        }
        8
    }

    fn serialize(&self, buf: &mut BitBuffer, cursor: usize) -> (next: usize) {
        proof {
            lemma_bits_of_len(*self as nat, 8);
            lemma2_to64();
        }
        buf.put(cursor, 8, *self as u64)
    }
}

impl SerializeCdis for u16 {
    open spec fn max_bits() -> nat {
        16
    }

    open spec fn wf(&self) -> bool {
        true
    }

    /// A 16-bit number travels as sixteen bits.
    open spec fn wire_bits(&self) -> Seq<bool> {
        bits_of(*self as nat, 16)
    }

    fn is_valid(&self) -> (valid: bool) {
        true
    }

    fn bit_length(&self) -> (n: usize) {
        proof {
            lemma_bits_of_len(*self as nat, 16);
        }
        16
    }

    fn serialize(&self, buf: &mut BitBuffer, cursor: usize) -> (next: usize) {
        proof {
            lemma_bits_of_len(*self as nat, 16);
            lemma2_to64();
        }
        buf.put(cursor, 16, *self as u64)
    }
}

} // verus!
