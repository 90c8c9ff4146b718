//! The fields-present mechanism.
//!
//! A record with optional fields opens with a bitmap of one bit per optional
//! field, in the record's declared field order. A bit is set exactly when its
//! field holds a value, and only those fields follow on the wire; an absent
//! field contributes no bits at all. The reader learns which fields to expect
//! from the bitmap and from nothing else.

use crate::bit_buffer::BitBuffer;
use crate::bits::{bits_of, holds_at, lemma_bits_of_value_of, value_of};
use crate::error::CdisError;
use crate::writing::SerializeCdis;
use vstd::arithmetic::power2::{lemma2_to64, pow2};
use vstd::prelude::*;

verus! {

/// The number of flags that are set.
pub open spec fn count_present(flags: Seq<bool>) -> nat
    decreases flags.len(),
{
    if flags.len() == 0 {
        0
    } else {
        count_present(flags.drop_last()) + if flags.last() { 1nat } else { 0nat }
    }
}

/// The number of 1-bits in the binary form of a number.
pub open spec fn popcount(value: nat) -> nat
    decreases value,
{
    if value == 0 {
        0
    } else {
        value % 2 + popcount(value / 2)
    }
}

/// A bitmap has as many 1-bits as there are flags set.
pub proof fn lemma_popcount_value_of(flags: Seq<bool>)
    ensures
        popcount(value_of(flags)) == count_present(flags),
    decreases flags.len(),
{
    if flags.len() > 0 {
        lemma_popcount_value_of(flags.drop_last());
        let v = value_of(flags);
        assert(v / 2 == value_of(flags.drop_last()));
        assert(v % 2 == if flags.last() { 1nat } else { 0nat });
    }
}

/// Appending a flag doubles the bitmap and adds the flag.
pub proof fn lemma_value_of_push(flags: Seq<bool>, flag: bool)
    ensures
        value_of(flags.push(flag)) == 2 * value_of(flags) + if flag { 1nat } else { 0nat },
{
    assert(flags.push(flag).drop_last() =~= flags);
}

/// No flag set means an all-zero bitmap, and the other way round.
pub proof fn lemma_none_present(flags: Seq<bool>)
    ensures
        count_present(flags) == 0 <==> value_of(flags) == 0,
        count_present(flags) == 0 <==> forall|i: int| 0 <= i < flags.len() ==> !flags[i],
    decreases flags.len(),
{
    if flags.len() > 0 {
        lemma_none_present(flags.drop_last());
        if count_present(flags) == 0 {
            assert forall|i: int| 0 <= i < flags.len() implies !flags[i] by {
                if i < flags.len() - 1 {
                    assert(flags.drop_last()[i] == flags[i]);
                }
            }
        }
        if forall|i: int| 0 <= i < flags.len() ==> !flags[i] {
            assert forall|i: int| 0 <= i < flags.drop_last().len() implies !flags.drop_last()[i] by {
                assert(flags.drop_last()[i] == flags[i]);
            }
        }
    }
}

/// A record that opens with a fields-present bitmap.
pub trait BodyProperties: SerializeCdis {
    /// One flag per optional field, in declared order: whether the field holds a value.
    spec fn presence(&self) -> Seq<bool>;

    /// The width of the bitmap in bits; the same for every record of the type.
    fn fields_present_length(&self) -> (n: usize)
        ensures
            n == self.presence().len(),
            1 <= n <= 16,
    ;

    /// The bitmap as a number: the flag of the first optional field is the
    /// most significant bit.
    fn fields_present_field(&self) -> (bitmap: u16)
        ensures
            bitmap == value_of(self.presence()),
            popcount(bitmap as nat) == count_present(self.presence()),
    ;

    /// The number of bits of the whole record on the wire.
    fn body_length_bits(&self) -> (n: usize)
        requires
            self.wf(),
        ensures
            n == self.wire_bits().len(),
    ;
}

/// Appends a flag to a bitmap as its new least significant bit.
fn shift_in(bitmap: u16, flag: bool) -> (shifted: u16)
    requires
        bitmap < 0x8000,
    ensures
        shifted == 2 * bitmap + if flag { 1nat } else { 0nat },
{
    if flag {
        bitmap * 2 + 1
    } else {
        bitmap * 2
    }
}

/// The bitmap of a run of at most 16 flags: the first flag is the most significant bit.
pub fn bitmap_of(flags: &[bool]) -> (bitmap: u16)
    requires
        flags@.len() <= 16,
    ensures
        bitmap == value_of(flags@),
        popcount(bitmap as nat) == count_present(flags@),
{
    let mut bitmap: u16 = 0;
    let mut i: usize = 0;
    proof {
        lemma2_to64();
    }
    while i < flags.len()
        invariant
            i <= flags@.len() <= 16,
            bitmap == value_of(flags@.take(i as int)),
            bitmap < pow2(i as nat),
        decreases flags@.len() - i,
    {
        proof {
            lemma2_to64();
            lemma_value_of_push(flags@.take(i as int), flags@[i as int]);
            assert(flags@.take(i as int).push(flags@[i as int]) =~= flags@.take(i + 1));
            vstd::arithmetic::power2::lemma_pow2_unfold((i + 1) as nat);
            if i < 15 {
                vstd::arithmetic::power2::lemma_pow2_strictly_increases(i as nat, 15);
            }
        }
        bitmap = shift_in(bitmap, flags[i]);
        i = i + 1;
    }
    proof {
        assert(flags@.take(i as int) =~= flags@);
        lemma_popcount_value_of(flags@);
    }
    bitmap
}

/// The `count` flags found at `cursor`.
pub open spec fn spec_read_flags(bits: Seq<bool>, cursor: nat, count: nat) -> Result<
    (Seq<bool>, nat),
    CdisError,
> {
    if cursor + count > bits.len() {
        Err(CdisError::OutOfBounds)
    } else {
        Ok((bits.subrange(cursor as int, (cursor + count) as int), cursor + count))
    }
}

/// Reads a bitmap of `count` flags at `cursor`.
pub fn read_flags(buf: &BitBuffer, cursor: usize, count: usize) -> (r: Result<
    (Vec<bool>, usize),
    CdisError,
>)
    requires
        count <= 16,
    ensures
        match spec_read_flags(buf@, cursor as nat, count as nat) {
            Ok((flags, next)) => {
                &&& r is Ok
                &&& r->Ok_0.0@ == flags
                &&& r->Ok_0.1 == next
                &&& cursor <= next <= buf@.len()
            },
            Err(e) => r == Err::<(Vec<bool>, usize), CdisError>(e),
        },
{
    let capacity = buf.capacity();
    if cursor > capacity || count > capacity - cursor {
        return Err(CdisError::OutOfBounds);
    }
    let mut flags: Vec<bool> = Vec::new();
    let mut i: usize = 0;
    while i < count
        invariant
            i <= count <= 16,
            cursor + count <= buf@.len(),
            buf@.len() == capacity,
            flags@ == buf@.subrange(cursor as int, cursor + i),
        decreases count - i,
    {
        let bit = buf.get(cursor + i, 1);
        proof {
            let one = buf@.subrange(cursor + i, cursor + i + 1);
            assert(one.drop_last() =~= Seq::<bool>::empty());
            assert(value_of(one.drop_last()) == 0);
            assert(one.last() == buf@[cursor + i]);
        }
        flags.push(bit == 1);
        i = i + 1;
        assert(flags@ =~= buf@.subrange(cursor as int, cursor + i));
    }
    Ok((flags, cursor + count))
}

/// A bitmap is found wherever its flags stand.
pub proof fn lemma_read_flags_wire(bits: Seq<bool>, cursor: nat, flags: Seq<bool>)
    requires
        holds_at(bits, cursor as int, flags),
    ensures
        spec_read_flags(bits, cursor, flags.len()) == Ok::<(Seq<bool>, nat), CdisError>(
            (flags, cursor + flags.len()),
        ),
{
}

/// Writing a bitmap as a number of as many bits as it has flags spells the flags.
pub proof fn lemma_bitmap_bits(flags: Seq<bool>)
    ensures
        bits_of(value_of(flags), flags.len()) == flags,
{
    lemma_bits_of_value_of(flags);
}

} // verus!
