//! Runs of packets on the wire.
//!
//! Packets are laid in a bit buffer one after the other without any padding
//! between them. Only the run as a whole is padded, with clear bits, to a
//! whole number of octets.

use crate::bit_buffer::{bits_of_octets, octet_at, octets_of, BitBuffer};
use crate::bits::{
    holds_at, lemma_bits_of_value_of, lemma_holds_concat, lemma_overwrite_concat,
    lemma_overwrite_empty, lemma_overwrite_holds, lemma_value_of_bound, overwrite,
};
use crate::writing::SerializeCdis;
use vstd::arithmetic::power2::lemma2_to64;
use crate::constants::BUFFER_BITS;
use crate::error::CdisError;
use crate::pdu::{CdisPdu, CdisPduView};
use vstd::prelude::*;

verus! {

/// The packets of a run as mathematical values.
pub open spec fn packets_view(pdus: Seq<CdisPdu>) -> Seq<CdisPduView> {
    pdus.map_values(|pdu: CdisPdu| pdu@)
}

/// The contents of a buffer with every bit clear.
pub open spec fn cleared() -> Seq<bool> {
    Seq::new(BUFFER_BITS as nat, |i: int| false)
}

/// The bits of a run of packets laid one after the other, or the error of
/// the first packet that cannot be laid: one without a layout, one that is
/// not well formed, or one that no longer fits the buffer.
pub open spec fn spec_stream(pdus: Seq<CdisPduView>) -> Result<Seq<bool>, CdisError>
    decreases pdus.len(),
{
    if pdus.len() == 0 {
        Ok(Seq::empty())
    } else {
        match spec_stream(pdus.drop_last()) {
            Err(e) => Err(e),
            Ok(bits) => {
                let pdu = pdus.last();
                if !pdu.body.has_layout() {
                    Err(CdisError::UnsupportedPdu)
                } else if !pdu.wf() {
                    Err(CdisError::ValueOutOfRange)
                } else if bits.len() + pdu.wire_bits().len() > BUFFER_BITS {
                    Err(CdisError::OutOfBounds)
                } else {
                    Ok(bits + pdu.wire_bits())
                }
            },
        }
    }
}

/// The octets that carry a run of bits: the bits, padded with clear bits to a
/// whole number of octets.
pub open spec fn padded_octets(bits: Seq<bool>) -> Seq<u8> {
    octets_of(overwrite(cleared(), 0, bits), ((bits.len() + 7) / 8) as nat)
}

/// Once a run fails at some length, it fails the same way at every greater length.
pub proof fn lemma_stream_error(pdus: Seq<CdisPduView>, short: int)
    requires
        0 <= short <= pdus.len(),
        spec_stream(pdus.take(short)) is Err,
    ensures
        spec_stream(pdus) == spec_stream(pdus.take(short)),
    decreases pdus.len(),
{
    if short < pdus.len() {
        assert(pdus.drop_last().take(short) =~= pdus.take(short));
        lemma_stream_error(pdus.drop_last(), short);
    } else {
        assert(pdus.take(short) =~= pdus);
    }
}

/// Clears a buffer, lays a run of packets at its start and returns the
/// number of bits laid.
pub fn write_stream(buf: &mut BitBuffer, pdus: &Vec<CdisPdu>) -> (r: Result<usize, CdisError>)
    ensures
        final(buf)@.len() == BUFFER_BITS,
        match spec_stream(packets_view(pdus@)) {
            Ok(bits) => {
                &&& r is Ok
                &&& r->Ok_0 == bits.len()
                &&& bits.len() <= BUFFER_BITS
                &&& final(buf)@ == overwrite(cleared(), 0, bits)
            },
            Err(e) => r == Err::<usize, CdisError>(e),
        },
{
    *buf = BitBuffer::new();
    let ghost views = packets_view(pdus@);
    let ghost mut bits: Seq<bool> = Seq::empty();
    let mut cursor: usize = 0;
    let mut i: usize = 0;
    proof {
        lemma_overwrite_empty(cleared(), 0);
        assert(views.take(0) =~= Seq::<CdisPduView>::empty());
    }
    while i < pdus.len()
        invariant
            i <= pdus@.len(),
            views == packets_view(pdus@),
            views.len() == pdus@.len(),
            spec_stream(views.take(i as int)) == Ok::<Seq<bool>, CdisError>(bits),
            cursor == bits.len(),
            cursor <= BUFFER_BITS,
            buf@.len() == BUFFER_BITS,
            buf@ == overwrite(cleared(), 0, bits),
        decreases pdus@.len() - i,
    {
        let ghost before = buf@;
        proof {
            assert(views.take(i + 1).drop_last() =~= views.take(i as int));
            assert(views.take(i + 1).last() == pdus@[i as int]@);
        }
        match pdus[i].try_serialize(buf, cursor) {
            Ok(next) => {
                proof {
                    lemma_overwrite_concat(cleared(), 0, bits, pdus@[i as int]@.wire_bits());
                    bits = bits + pdus@[i as int]@.wire_bits();
                }
                cursor = next;
            },
            Err(e) => {
                proof {
                    assert(spec_stream(views.take(i + 1)) == Err::<Seq<bool>, CdisError>(e));
                    lemma_stream_error(views, i + 1);
                }
                return Err(e);
            },
        }
        i = i + 1;
    }
    proof {
        assert(views.take(i as int) =~= views);
    }
    Ok(cursor)
}

/// The run of packets found from `cursor` on in `bits`, of which `limit`
/// bits were received. The run ends where fewer than eight bits are left:
/// those are the padding.
pub open spec fn spec_parse_stream(bits: Seq<bool>, cursor: nat, limit: nat) -> Result<
    Seq<CdisPduView>,
    CdisError,
>
    decreases limit - cursor,
{
    if cursor + 8 > limit {
        Ok(Seq::empty())
    } else {
        match CdisPduView::spec_parse(bits, cursor, limit) {
            Err(e) => Err(e),
            Ok((pdu, next)) => if next <= cursor || next > limit {
                Err(CdisError::LengthMismatch)
            } else {
                match spec_parse_stream(bits, next, limit) {
                    Err(e) => Err(e),
                    Ok(rest) => Ok(seq![pdu] + rest),
                }
            },
        }
    }
}

/// The run of packets that a run of octets carries.
pub open spec fn spec_parse_octets(octets: Seq<u8>) -> Result<Seq<CdisPduView>, CdisError> {
    if 8 * octets.len() > BUFFER_BITS {
        Err(CdisError::OutOfBounds)
    } else {
        spec_parse_stream(
            overwrite(cleared(), 0, bits_of_octets(octets)),
            0,
            (8 * octets.len()) as nat,
        )
    }
}

/// `front` followed by what the rest of the run parses to.
pub open spec fn prepend(front: Seq<CdisPduView>, rest: Result<Seq<CdisPduView>, CdisError>) -> Result<
    Seq<CdisPduView>,
    CdisError,
> {
    match rest {
        Ok(packets) => Ok(front + packets),
        Err(e) => Err(e),
    }
}

/// Reads the run of packets that a run of octets carries.
///
/// Fails with `OutOfBounds` when there are more octets than a buffer holds,
/// and with the error of the first packet that cannot be read.
#[verifier::loop_isolation(false)]
pub fn parse(octets: &[u8]) -> (r: Result<Vec<CdisPdu>, CdisError>)
    ensures
        match spec_parse_octets(octets@) {
            Ok(packets) => r is Ok && packets_view(r->Ok_0@) == packets,
            Err(e) => r == Err::<Vec<CdisPdu>, CdisError>(e),
        },
{
    let buf = BitBuffer::from_bytes(octets)?;
    let limit = 8 * octets.len();
    let mut pdus: Vec<CdisPdu> = Vec::new();
    let mut cursor: usize = 0;
    proof {
        assert(packets_view(pdus@) =~= Seq::<CdisPduView>::empty());
        assert(Seq::<CdisPduView>::empty() + Seq::<CdisPduView>::empty() =~= Seq::<
            CdisPduView,
        >::empty());
        match spec_parse_stream(buf@, 0, limit as nat) {
            Ok(rest) => {
                assert(Seq::<CdisPduView>::empty() + rest =~= rest);
            },
            Err(_) => {},
        }
    }
    while limit - cursor >= 8
        invariant
            cursor <= limit <= BUFFER_BITS,
            spec_parse_stream(buf@, 0, limit as nat) == prepend(
                packets_view(pdus@),
                spec_parse_stream(buf@, cursor as nat, limit as nat),
            ),
        decreases limit - cursor,
    {
        let ghost before = packets_view(pdus@);
        match CdisPdu::parse(&buf, cursor, limit) {
            Ok((pdu, next)) => {
                proof {
                    let rest = spec_parse_stream(buf@, next as nat, limit as nat);
                    assert(packets_view(pdus@.push(pdu)) =~= before.push(pdu@));
                    match rest {
                        Ok(packets) => {
                            assert(before + (seq![pdu@] + packets) =~= before.push(pdu@) + packets);
                        },
                        Err(_) => {},
                    }
                }
                pdus.push(pdu);
                cursor = next;
            },
            Err(e) => {
                return Err(e);
            },
        }
    }
    proof {
        assert(packets_view(pdus@) + Seq::<CdisPduView>::empty() =~= packets_view(pdus@));
    }
    Ok(pdus)
}

/// The wire forms of a run of packets, one after the other.
pub open spec fn concat_bits(pdus: Seq<CdisPduView>) -> Seq<bool>
    decreases pdus.len(),
{
    if pdus.len() == 0 {
        Seq::empty()
    } else {
        pdus.first().wire_bits() + concat_bits(pdus.drop_first())
    }
}

/// The wire form of a run is that of the run without its last packet,
/// followed by that of the last packet.
#[verifier::rlimit(30)]
pub proof fn lemma_concat_bits_last(pdus: Seq<CdisPduView>)
    requires
        pdus.len() > 0,
    ensures
        concat_bits(pdus) == concat_bits(pdus.drop_last()) + pdus.last().wire_bits(),
    decreases pdus.len(),
{
    if pdus.len() == 1 {
        assert(pdus.drop_first() =~= Seq::<CdisPduView>::empty());
        assert(pdus.drop_last() =~= Seq::<CdisPduView>::empty());
        assert(concat_bits(pdus) =~= concat_bits(pdus.drop_last()) + pdus.last().wire_bits());
    } else {
        let rest = pdus.drop_first();
        lemma_concat_bits_last(rest);
        assert(rest.drop_last() =~= pdus.drop_last().drop_first());
        assert(pdus.drop_last().first() == pdus.first());
        assert(rest.last() == pdus.last());
        assert(concat_bits(pdus) =~= concat_bits(pdus.drop_last()) + pdus.last().wire_bits());
    }
}

/// A run that can be laid out is laid out as the wire forms of its packets
/// one after the other, and every packet of it is well formed.
pub proof fn lemma_stream_is_concat(pdus: Seq<CdisPduView>)
    requires
        spec_stream(pdus) is Ok,
    ensures
        spec_stream(pdus)->Ok_0 == concat_bits(pdus),
        spec_stream(pdus)->Ok_0.len() <= BUFFER_BITS,
        forall|i: int| 0 <= i < pdus.len() ==> (#[trigger] pdus[i]).wf(),
    decreases pdus.len(),
{
    if pdus.len() > 0 {
        lemma_stream_is_concat(pdus.drop_last());
        lemma_concat_bits_last(pdus);
        assert forall|i: int| 0 <= i < pdus.len() implies (#[trigger] pdus[i]).wf() by {
            if i < pdus.len() - 1 {
                assert(pdus.drop_last()[i] == pdus[i]);
            }
        }
    }
}

/// The octets of a bit string spell the bit string again.
pub proof fn lemma_octets_spell_bits(bits: Seq<bool>, count: nat)
    requires
        8 * count <= bits.len(),
    ensures
        bits_of_octets(octets_of(bits, count)) == bits.subrange(0, 8 * count as int),
    decreases count,
{
    if count == 0 {
        assert(bits_of_octets(octets_of(bits, 0)) =~= bits.subrange(0, 0));
    } else {
        let front = (count - 1) as nat;
        lemma_octets_spell_bits(bits, front);
        let last = bits.subrange(8 * front as int, 8 * front as int + 8);
        lemma_value_of_bound(last);
        lemma_bits_of_value_of(last);
        lemma2_to64();
        assert(octets_of(bits, count).drop_last() =~= octets_of(bits, front));
        assert(octets_of(bits, count).last() == octet_at(bits, front as int));
        assert(bits_of_octets(octets_of(bits, count)) =~= bits.subrange(0, 8 * count as int));
    }
}

/// A run of well-formed packets is found wherever the wire forms of its
/// packets stand one after the other, followed by fewer than eight bits of
/// padding.
#[verifier::rlimit(30)]
pub proof fn lemma_parse_stream_wire(
    bits: Seq<bool>,
    cursor: nat,
    limit: nat,
    pdus: Seq<CdisPduView>,
)
    requires
        forall|i: int| 0 <= i < pdus.len() ==> (#[trigger] pdus[i]).wf(),
        holds_at(bits, cursor as int, concat_bits(pdus)),
        cursor + concat_bits(pdus).len() <= limit < cursor + concat_bits(pdus).len() + 8,
    ensures
        spec_parse_stream(bits, cursor, limit) == Ok::<Seq<CdisPduView>, CdisError>(pdus),
    decreases pdus.len(),
{
    if pdus.len() == 0 {
        assert(pdus =~= Seq::<CdisPduView>::empty());
    } else {
        let pdu = pdus.first();
        let rest = pdus.drop_first();
        assert(pdus[0].wf());
        lemma_holds_concat(bits, cursor as int, pdu.wire_bits(), concat_bits(rest));
        CdisPduView::lemma_min_length(pdu);
        CdisPduView::lemma_parse_wire(bits, cursor, limit, pdu);
        assert forall|i: int| 0 <= i < rest.len() implies (#[trigger] rest[i]).wf() by {
            assert(rest[i] == pdus[i + 1]);
        }
        lemma_parse_stream_wire(bits, cursor + pdu.wire_bits().len(), limit, rest);
        assert(seq![pdu] + rest =~= pdus);
    }
}

/// The octets that carry a run of bits hold the bits and fewer than eight
/// bits of padding, and laid in a clear buffer they give the buffer that
/// the bits alone give.
pub proof fn lemma_padded_octets(bits: Seq<bool>)
    requires
        bits.len() <= BUFFER_BITS,
    ensures
        8 * padded_octets(bits).len() <= BUFFER_BITS,
        bits.len() <= 8 * padded_octets(bits).len() < bits.len() + 8,
        overwrite(cleared(), 0, bits_of_octets(padded_octets(bits))) == overwrite(
            cleared(),
            0,
            bits,
        ),
{
    let laid = overwrite(cleared(), 0, bits);
    let count = ((bits.len() + 7) / 8) as nat;
    lemma_octets_spell_bits(laid, count);
    assert(overwrite(cleared(), 0, laid.subrange(0, 8 * count as int)) =~= laid);
}

/// What a run of packets is laid out as, octet for octet, reads back as the
/// same run of packets.
#[verifier::rlimit(30)]
pub proof fn lemma_stream_round_trip(pdus: Seq<CdisPduView>)
    requires
        spec_stream(pdus) is Ok,
    ensures
        spec_parse_octets(padded_octets(spec_stream(pdus)->Ok_0)) == Ok::<
            Seq<CdisPduView>,
            CdisError,
        >(pdus),
{
    let bits = spec_stream(pdus)->Ok_0;
    let octets = padded_octets(bits);
    let laid = overwrite(cleared(), 0, bits);
    assert(bits == concat_bits(pdus) && bits.len() <= BUFFER_BITS && forall|i: int|
        0 <= i < pdus.len() ==> (#[trigger] pdus[i]).wf()) by {
        lemma_stream_is_concat(pdus);
    }
    assert(8 * octets.len() <= BUFFER_BITS && bits.len() <= 8 * octets.len() < bits.len() + 8
        && overwrite(cleared(), 0, bits_of_octets(octets)) == laid) by {
        lemma_padded_octets(bits);
    }
    assert(holds_at(laid, 0, bits)) by {
        lemma_overwrite_holds(cleared(), 0, bits);
    }
    assert(spec_parse_stream(laid, 0, (8 * octets.len()) as nat) == Ok::<
        Seq<CdisPduView>,
        CdisError,
    >(pdus)) by {
        lemma_parse_stream_wire(laid, 0, (8 * octets.len()) as nat, pdus);
    }
}

} // verus!
