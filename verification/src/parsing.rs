//! Reading records back out of a bit buffer.
//!
//! Parsing mirrors writing: a record type says what is found at a cursor of a
//! bit string ([`ParseCdis::spec_parse`]), the executable parser returns
//! exactly that, and each type proves that parsing finds a well-formed record
//! wherever its wire form stands.

use crate::bit_buffer::BitBuffer;
use crate::bit_buffer::power_of_two;
use crate::bits::{
    bits_of, fits_signed, holds_at, lemma_bits_of_len, lemma_holds_concat,
    lemma_signed_round_trip, lemma_signed_value_fits, lemma_value_of_bits_of, signed_value,
    value_of,
};
use crate::error::CdisError;
use crate::writing::{
    optional_bits, optional_wf, sequence_bits, sequence_wf, signed_bits, SerializeCdis,
};
use vstd::arithmetic::power2::{lemma2_to64, lemma_pow2_strictly_increases, lemma_pow2_unfold};
use vstd::prelude::*;

verus! {

/// A record that can be read back from its wire form.
pub trait ParseCdis: SerializeCdis {
    /// What stands at `cursor` of `bits`: the record and the cursor that
    /// follows it, or the reason why no record stands there.
    spec fn spec_parse(bits: Seq<bool>, cursor: nat) -> Result<(Self, nat), CdisError>;

    fn parse(buf: &BitBuffer, cursor: usize) -> (r: Result<(Self, usize), CdisError>)
        ensures
            match Self::spec_parse(buf@, cursor as nat) {
                Ok((record, next)) => {
                    &&& r is Ok
                    &&& r->Ok_0.0 == record
                    &&& r->Ok_0.1 == next
                    &&& record.wf()
                    &&& cursor <= next <= buf@.len()
                },
                Err(e) => r == Err::<(Self, usize), CdisError>(e),
            },
    ;

    /// Parsing finds a well-formed record wherever its wire form stands.
    proof fn lemma_parse_wire(bits: Seq<bool>, cursor: nat, record: Self)
        requires
            record.wf(),
            holds_at(bits, cursor as int, record.wire_bits()),
        ensures
            Self::spec_parse(bits, cursor) == Ok::<(Self, nat), CdisError>(
                (record, cursor + record.wire_bits().len()),
            ),
    ;
}

/// A well-formed record that was written into a bit string is found where it
/// was written, and the cursor after it is the one the write returned.
pub proof fn lemma_parse_after_write<R: ParseCdis>(bits: Seq<bool>, cursor: nat, record: R)
    requires
        record.wf(),
        cursor + record.wire_bits().len() <= bits.len(),
    ensures
        R::spec_parse(crate::bits::overwrite(bits, cursor as int, record.wire_bits()), cursor)
            == Ok::<(R, nat), CdisError>((record, cursor + record.wire_bits().len())),
{
    crate::bits::lemma_overwrite_holds(bits, cursor as int, record.wire_bits());
    R::lemma_parse_wire(
        crate::bits::overwrite(bits, cursor as int, record.wire_bits()),
        cursor,
        record,
    );
}

/// The field of `width_bits` bits found at `cursor`.
pub open spec fn spec_read_fixed(bits: Seq<bool>, cursor: nat, width_bits: nat) -> Result<
    (nat, nat),
    CdisError,
> {
    if cursor + width_bits > bits.len() {
        Err(CdisError::OutOfBounds)
    } else {
        Ok((value_of(bits.subrange(cursor as int, (cursor + width_bits) as int)), cursor + width_bits))
    }
}

/// Reads a field of a fixed width between 1 and 64 bits.
pub(crate) fn read_fixed(buf: &BitBuffer, cursor: usize, width_bits: usize) -> (r: Result<
    (u64, usize),
    CdisError,
>)
    requires
        1 <= width_bits <= 64,
    ensures
        match spec_read_fixed(buf@, cursor as nat, width_bits as nat) {
            Ok((value, next)) => {
                &&& r is Ok
                &&& r->Ok_0.0 == value
                &&& r->Ok_0.1 == next
                &&& value < vstd::arithmetic::power2::pow2(width_bits as nat)
                &&& next <= buf@.len()
            },
            Err(e) => r == Err::<(u64, usize), CdisError>(e),
        },
{
    let capacity = buf.capacity();
    if cursor > capacity || width_bits > capacity - cursor {
        return Err(CdisError::OutOfBounds);
    }
    let value = buf.get(cursor, width_bits);
    Ok((value, cursor + width_bits))
}

/// A fixed-width field is found wherever its bits stand.
pub proof fn lemma_read_fixed_wire(bits: Seq<bool>, cursor: nat, width_bits: nat, value: nat)
    requires
        value < vstd::arithmetic::power2::pow2(width_bits),
        holds_at(bits, cursor as int, bits_of(value, width_bits)),
    ensures
        spec_read_fixed(bits, cursor, width_bits) == Ok::<(nat, nat), CdisError>(
            (value, cursor + width_bits),
        ),
{
    lemma_bits_of_len(value, width_bits);
    lemma_value_of_bits_of(value, width_bits);
}

/// The signed field of `width_bits` bits found at `cursor`.
pub open spec fn spec_read_signed(bits: Seq<bool>, cursor: nat, width_bits: nat) -> Result<
    (int, nat),
    CdisError,
> {
    match spec_read_fixed(bits, cursor, width_bits) {
        Ok((raw, next)) => Ok((signed_value(raw, width_bits), next)),
        Err(e) => Err(e),
    }
}

/// Reads a two's complement field of a fixed width between 1 and 32 bits.
pub(crate) fn read_signed(buf: &BitBuffer, cursor: usize, width_bits: usize) -> (r: Result<
    (i64, usize),
    CdisError,
>)
    requires
        1 <= width_bits <= 32,
    ensures
        match spec_read_signed(buf@, cursor as nat, width_bits as nat) {
            Ok((value, next)) => {
                &&& r is Ok
                &&& r->Ok_0.0 == value
                &&& r->Ok_0.1 == next
                &&& fits_signed(value, width_bits as nat)
                &&& next <= buf@.len()
            },
            Err(e) => r == Err::<(i64, usize), CdisError>(e),
        },
{
    let (raw, next) = read_fixed(buf, cursor, width_bits)?;
    proof {
        lemma2_to64();
        lemma_signed_value_fits(raw as nat, width_bits as nat);
        lemma_pow2_unfold(width_bits as nat);
        if width_bits < 32 {
            lemma_pow2_strictly_increases(width_bits as nat, 32);
        }
    }
    let value: i64 = if raw >= power_of_two(width_bits - 1) {
        raw as i64 - power_of_two(width_bits) as i64
    } else {
        raw as i64
    };
    Ok((value, next))
}

/// A signed fixed-width field is found wherever its bits stand.
pub proof fn lemma_read_signed_wire(bits: Seq<bool>, cursor: nat, width_bits: nat, value: int)
    requires
        fits_signed(value, width_bits),
        holds_at(bits, cursor as int, signed_bits(value, width_bits)),
    ensures
        spec_read_signed(bits, cursor, width_bits) == Ok::<(int, nat), CdisError>(
            (value, cursor + width_bits),
        ),
{
    lemma_signed_round_trip(value, width_bits);
    lemma_read_fixed_wire(
        bits,
        cursor,
        width_bits,
        crate::bits::twos_complement(value, width_bits),
    );
}

/// What stands at `cursor` for an optional field whose presence is known.
pub open spec fn spec_parse_optional<R: ParseCdis>(
    present: bool,
    bits: Seq<bool>,
    cursor: nat,
) -> Result<(Option<R>, nat), CdisError> {
    if present {
        match R::spec_parse(bits, cursor) {
            Ok((value, next)) => Ok((Some(value), next)),
            Err(e) => Err(e),
        }
    } else {
        Ok((None, cursor))
    }
}

/// Reads an optional field. Presence is decided by the caller's flag alone:
/// an absent field consumes no bits.
pub fn parse_when_present<R: ParseCdis>(present: bool, buf: &BitBuffer, cursor: usize) -> (r:
    Result<(Option<R>, usize), CdisError>)
    requires
        cursor <= buf@.len(),
    ensures
        match spec_parse_optional::<R>(present, buf@, cursor as nat) {
            Ok((field, next)) => {
                &&& r is Ok
                &&& r->Ok_0.0 == field
                &&& r->Ok_0.1 == next
                &&& optional_wf(field)
                &&& cursor <= next <= buf@.len()
                &&& field.is_some() == present
            },
            Err(e) => r == Err::<(Option<R>, usize), CdisError>(e),
        },
{
    if present {
        match R::parse(buf, cursor) {
            Ok((value, next)) => Ok((Some(value), next)),
            Err(e) => Err(e),
        }
    } else {
        Ok((None, cursor))
    }
}

/// An optional field is found wherever its wire form stands, given its presence.
pub proof fn lemma_parse_optional_wire<R: ParseCdis>(bits: Seq<bool>, cursor: nat, field: Option<R>)
    requires
        optional_wf(field),
        holds_at(bits, cursor as int, optional_bits(field)),
    ensures
        spec_parse_optional::<R>(field.is_some(), bits, cursor) == Ok::<(Option<R>, nat), CdisError>(
            (field, cursor + optional_bits(field).len()),
        ),
{
    match field {
        Some(value) => {
            R::lemma_parse_wire(bits, cursor, value);
        },
        None => {},
    }
}

/// What stands at `cursor` for a run of `count` records.
pub open spec fn spec_parse_sequence<R: ParseCdis>(bits: Seq<bool>, cursor: nat, count: nat) -> Result<
    (Seq<R>, nat),
    CdisError,
>
    decreases count,
{
    if count == 0 {
        Ok((Seq::empty(), cursor))
    } else {
        match spec_parse_sequence::<R>(bits, cursor, (count - 1) as nat) {
            Ok((items, mid)) => match R::spec_parse(bits, mid) {
                Ok((item, next)) => Ok((items.push(item), next)),
                Err(e) => Err(e),
            },
            Err(e) => Err(e),
        }
    }
}

/// Reads a run of `count` records.
pub fn parse_sequence<R: ParseCdis>(buf: &BitBuffer, cursor: usize, count: usize) -> (r: Result<
    (Vec<R>, usize),
    CdisError,
>)
    requires
        cursor <= buf@.len(),
    ensures
        match spec_parse_sequence::<R>(buf@, cursor as nat, count as nat) {
            Ok((items, next)) => {
                &&& r is Ok
                &&& r->Ok_0.0@ == items
                &&& r->Ok_0.1 == next
                &&& sequence_wf(items)
                &&& items.len() == count
                &&& cursor <= next <= buf@.len()
            },
            Err(e) => r == Err::<(Vec<R>, usize), CdisError>(e),
        },
{
    let mut items: Vec<R> = Vec::new();
    let mut at = cursor;
    let mut i: usize = 0;
    while i < count
        invariant
            i <= count,
            cursor <= at <= buf@.len(),
            spec_parse_sequence::<R>(buf@, cursor as nat, i as nat) == Ok::<
                (Seq<R>, nat),
                CdisError,
            >((items@, at as nat)),
            sequence_wf(items@),
            items@.len() == i,
        decreases count - i,
    {
        match R::parse(buf, at) {
            Ok((item, next)) => {
                let ghost before = items@;
                items.push(item);
                proof {
                    assert(spec_parse_sequence::<R>(buf@, cursor as nat, (i + 1) as nat) == Ok::<
                        (Seq<R>, nat),
                        CdisError,
                    >((before.push(item), next as nat)));
                }
                at = next;
            },
            Err(e) => {
                proof {
                    assert(spec_parse_sequence::<R>(buf@, cursor as nat, (i + 1) as nat) == Err::<
                        (Seq<R>, nat),
                        CdisError,
                    >(e));
                    lemma_parse_sequence_error::<R>(buf@, cursor as nat, (i + 1) as nat, count as nat);
                }
                return Err(e);
            },
        }
        i = i + 1;
    }
    Ok((items, at))
}

/// Once a run fails at some length, it fails the same way at every greater length.
pub proof fn lemma_parse_sequence_error<R: ParseCdis>(
    bits: Seq<bool>,
    cursor: nat,
    short: nat,
    long: nat,
)
    requires
        short <= long,
        spec_parse_sequence::<R>(bits, cursor, short) is Err,
    ensures
        spec_parse_sequence::<R>(bits, cursor, long) == spec_parse_sequence::<R>(
            bits,
            cursor,
            short,
        ),
    decreases long,
{
    if short < long {
        lemma_parse_sequence_error::<R>(bits, cursor, short, (long - 1) as nat);
    }
}

/// A run of well-formed records is found wherever its wire form stands.
pub proof fn lemma_parse_sequence_wire<R: ParseCdis>(bits: Seq<bool>, cursor: nat, items: Seq<R>)
    requires
        sequence_wf(items),
        holds_at(bits, cursor as int, sequence_bits(items)),
    ensures
        spec_parse_sequence::<R>(bits, cursor, items.len()) == Ok::<(Seq<R>, nat), CdisError>(
            (items, cursor + sequence_bits(items).len()),
        ),
    decreases items.len(),
{
    if items.len() > 0 {
        let front = items.drop_last();
        lemma_holds_concat(bits, cursor as int, sequence_bits(front), items.last().wire_bits());
        assert(sequence_wf(front));
        lemma_parse_sequence_wire::<R>(bits, cursor, front);
        R::lemma_parse_wire(bits, cursor + sequence_bits(front).len(), items.last());
        assert(front.push(items.last()) =~= items);
        assert(front.len() == (items.len() - 1) as nat);
    } else {
        assert(items =~= Seq::empty());
    }
}

impl ParseCdis for u8 {
    open spec fn spec_parse(bits: Seq<bool>, cursor: nat) -> Result<(Self, nat), CdisError> {
        match spec_read_fixed(bits, cursor, 8) {
            Ok((value, next)) => Ok((value as u8, next)),
            Err(e) => Err(e),
        }
    }

    fn parse(buf: &BitBuffer, cursor: usize) -> (r: Result<(Self, usize), CdisError>) {
        proof {
            lemma2_to64();
        }
        match read_fixed(buf, cursor, 8) {
            Ok((value, next)) => Ok((value as u8, next)),
            Err(e) => Err(e),
        }
    }

    proof fn lemma_parse_wire(bits: Seq<bool>, cursor: nat, record: Self) {
        lemma2_to64();
        lemma_bits_of_len(record as nat, 8);
        lemma_read_fixed_wire(bits, cursor, 8, record as nat);
    }
}

impl ParseCdis for u16 {
    open spec fn spec_parse(bits: Seq<bool>, cursor: nat) -> Result<(Self, nat), CdisError> {
        match spec_read_fixed(bits, cursor, 16) {
            Ok((value, next)) => Ok((value as u16, next)),
            Err(e) => Err(e),
        }
    }

    fn parse(buf: &BitBuffer, cursor: usize) -> (r: Result<(Self, usize), CdisError>) {
        proof {
            lemma2_to64();
        }
        match read_fixed(buf, cursor, 16) {
            Ok((value, next)) => Ok((value as u16, next)),
            Err(e) => Err(e),
        }
    }

    proof fn lemma_parse_wire(bits: Seq<bool>, cursor: nat, record: Self) {
        lemma2_to64();
        lemma_bits_of_len(record as nat, 16);
        lemma_read_fixed_wire(bits, cursor, 16, record as nat);
    }
}

} // verus!
