//! Whole packets: a header followed by one body out of a closed set.

use crate::bit_buffer::BitBuffer;
use crate::bits::{
    bits_of, holds_at, lemma_bits_of_len, lemma_holds_concat, lemma_overwrite_concat, overwrite,
};
use crate::detonation::{Detonation, DetonationView};
use crate::entity_state::{EntityState, EntityStateView};
use crate::error::CdisError;
use crate::parsing::{lemma_read_fixed_wire, read_fixed, spec_read_fixed, ParseCdis};
use crate::types::UVINT8;
use crate::writing::SerializeCdis;
use vstd::arithmetic::power2::lemma2_to64;
use vstd::prelude::*;

verus! {

/// The packet type of an entity state record.
pub const ENTITY_STATE_PDU_TYPE: u8 = 1;

/// The packet type of a detonation record.
pub const DETONATION_PDU_TYPE: u8 = 3;

/// The longest packet, in bits, that the 14-bit length field of a header can announce.
pub const MAX_PDU_BITS: usize = 16383;

/// The header of a packet: protocol version (2 bits), exercise, packet type
/// (8 bits), timestamp (26 bits), the length of the whole packet in bits
/// (14 bits) and the status flags (8 bits).
#[derive(Clone, Copy, Debug, PartialEq, Eq)]
pub struct CdisHeader {
    pub protocol_version: u8,
    pub exercise_id: UVINT8,
    pub pdu_type: u8,
    pub timestamp: u32,
    pub length: u16,
    pub pdu_status: u8,
}

impl SerializeCdis for CdisHeader {
    open spec fn max_bits() -> nat {
        92
    }

    open spec fn wf(&self) -> bool {
        &&& self.protocol_version < 4
        &&& self.exercise_id.wf()
        &&& self.timestamp < 0x400_0000
        &&& self.length <= MAX_PDU_BITS
    }

    open spec fn wire_bits(&self) -> Seq<bool> {
        bits_of(self.protocol_version as nat, 2) + self.exercise_id.wire_bits() + bits_of(
            self.pdu_type as nat,
            8,
        ) + bits_of(self.timestamp as nat, 26) + bits_of(self.length as nat, 14) + bits_of(
            self.pdu_status as nat,
            8,
        )
    }

    fn is_valid(&self) -> (valid: bool) {
        self.protocol_version < 4 && self.exercise_id.is_valid() && self.timestamp < 0x400_0000
            && self.length as usize <= MAX_PDU_BITS
    }

    fn bit_length(&self) -> (n: usize) {
        proof {
            lemma_bits_of_len(self.protocol_version as nat, 2);
            lemma_bits_of_len(self.pdu_type as nat, 8);
            lemma_bits_of_len(self.timestamp as nat, 26);
            lemma_bits_of_len(self.length as nat, 14);
            lemma_bits_of_len(self.pdu_status as nat, 8);
        }
        58 + self.exercise_id.bit_length()
    }

    fn serialize(&self, buf: &mut BitBuffer, cursor: usize) -> (next: usize) {
        let ghost v = bits_of(self.protocol_version as nat, 2);
        let ghost x = self.exercise_id.wire_bits();
        let ghost t = bits_of(self.pdu_type as nat, 8);
        let ghost s = bits_of(self.timestamp as nat, 26);
        let ghost l = bits_of(self.length as nat, 14);
        let ghost f = bits_of(self.pdu_status as nat, 8);
        proof {
            lemma2_to64();
            lemma_bits_of_len(self.protocol_version as nat, 2);
            lemma_bits_of_len(self.pdu_type as nat, 8);
            lemma_bits_of_len(self.timestamp as nat, 26);
            lemma_bits_of_len(self.length as nat, 14);
            lemma_bits_of_len(self.pdu_status as nat, 8);
            lemma_overwrite_concat(old(buf)@, cursor as int, v, x);
            lemma_overwrite_concat(old(buf)@, cursor as int, v + x, t);
            lemma_overwrite_concat(old(buf)@, cursor as int, v + x + t, s);
            lemma_overwrite_concat(old(buf)@, cursor as int, v + x + t + s, l);
            lemma_overwrite_concat(old(buf)@, cursor as int, v + x + t + s + l, f);
        }
        let next = buf.put(cursor, 2, self.protocol_version as u64);
        let next = self.exercise_id.serialize(buf, next);
        let next = buf.put(next, 8, self.pdu_type as u64);
        let next = buf.put(next, 26, self.timestamp as u64);
        let next = buf.put(next, 14, self.length as u64);
        buf.put(next, 8, self.pdu_status as u64)
    }
}

impl ParseCdis for CdisHeader {
    open spec fn spec_parse(bits: Seq<bool>, cursor: nat) -> Result<(Self, nat), CdisError> {
        match spec_read_fixed(bits, cursor, 2) {
            Err(e) => Err(e),
            Ok((protocol_version, c1)) => match UVINT8::spec_parse(bits, c1) {
                Err(e) => Err(e),
                Ok((exercise_id, c2)) => match spec_read_fixed(bits, c2, 8) {
                    Err(e) => Err(e),
                    Ok((pdu_type, c3)) => match spec_read_fixed(bits, c3, 26) {
                        Err(e) => Err(e),
                        Ok((timestamp, c4)) => match spec_read_fixed(bits, c4, 14) {
                            Err(e) => Err(e),
                            Ok((length, c5)) => match spec_read_fixed(bits, c5, 8) {
                                Err(e) => Err(e),
                                Ok((pdu_status, c6)) => Ok(
                                    (
                                        CdisHeader {
                                            protocol_version: protocol_version as u8,
                                            exercise_id,
                                            pdu_type: pdu_type as u8,
                                            timestamp: timestamp as u32,
                                            length: length as u16,
                                            pdu_status: pdu_status as u8,
                                        },
                                        c6,
                                    ),
                                ),
                            },
                        },
                    },
                },
            },
        }
    }

    fn parse(buf: &BitBuffer, cursor: usize) -> (r: Result<(Self, usize), CdisError>)
        ensures
            r is Ok ==> r->Ok_0.1 > cursor,
    {
        proof {
            lemma2_to64();
        }
        let (protocol_version, next) = read_fixed(buf, cursor, 2)?;
        let (exercise_id, next) = UVINT8::parse(buf, next)?;
        let (pdu_type, next) = read_fixed(buf, next, 8)?;
        let (timestamp, next) = read_fixed(buf, next, 26)?;
        let (length, next) = read_fixed(buf, next, 14)?;
        let (pdu_status, next) = read_fixed(buf, next, 8)?;
        Ok(
            (
                CdisHeader {
                    protocol_version: protocol_version as u8,
                    exercise_id,
                    pdu_type: pdu_type as u8,
                    timestamp: timestamp as u32,
                    length: length as u16,
                    pdu_status: pdu_status as u8,
                },
                next,
            ),
        )
    }

    proof fn lemma_parse_wire(bits: Seq<bool>, cursor: nat, record: Self) {
        let v = bits_of(record.protocol_version as nat, 2);
        let x = record.exercise_id.wire_bits();
        let t = bits_of(record.pdu_type as nat, 8);
        let s = bits_of(record.timestamp as nat, 26);
        let l = bits_of(record.length as nat, 14);
        let f = bits_of(record.pdu_status as nat, 8);
        let at = cursor as int;
        lemma2_to64();
        lemma_bits_of_len(record.protocol_version as nat, 2);
        lemma_bits_of_len(record.pdu_type as nat, 8);
        lemma_bits_of_len(record.timestamp as nat, 26);
        lemma_bits_of_len(record.length as nat, 14);
        lemma_bits_of_len(record.pdu_status as nat, 8);
        lemma_holds_concat(bits, at, v + x + t + s + l, f);
        lemma_holds_concat(bits, at, v + x + t + s, l);
        lemma_holds_concat(bits, at, v + x + t, s);
        lemma_holds_concat(bits, at, v + x, t);
        lemma_holds_concat(bits, at, v, x);
        lemma_read_fixed_wire(bits, cursor, 2, record.protocol_version as nat);
        UVINT8::lemma_parse_wire(bits, cursor + 2, record.exercise_id);
        lemma_read_fixed_wire(bits, cursor + 2 + x.len(), 8, record.pdu_type as nat);
        lemma_read_fixed_wire(bits, cursor + 10 + x.len(), 26, record.timestamp as nat);
        lemma_read_fixed_wire(bits, cursor + 36 + x.len(), 14, record.length as nat);
        lemma_read_fixed_wire(bits, cursor + 50 + x.len(), 8, record.pdu_status as nat);
    }
}

/// The body of a packet. Only the entity state and the detonation have a
/// layout in this codec; the other types are named so that a packet of such a
/// type can be told apart and refused.
#[derive(Debug, PartialEq, Eq)]
pub enum CdisBody {
    EntityState(EntityState),
    Fire,
    Detonation(Detonation),
    Collision,
    CreateEntity,
    RemoveEntity,
    StartResume,
    StopFreeze,
    Acknowledge,
    ActionRequest,
    ActionResponse,
    DataQuery,
    SetData,
    Data,
    EventReport,
    Comment,
    ElectromagneticEmission,
    Designator,
    Transmitter,
    Signal,
    Receiver,
    Iff,
}

/// A body as a mathematical value.
pub enum CdisBodyView {
    EntityState(EntityStateView),
    Detonation(DetonationView),
    /// A body without a layout, known by its packet type alone.
    Bare(u8),
}

impl View for CdisBody {
    type V = CdisBodyView;

    open spec fn view(&self) -> CdisBodyView {
        match self {
            CdisBody::EntityState(body) => CdisBodyView::EntityState(body@),
            CdisBody::Detonation(body) => CdisBodyView::Detonation(body@),
            CdisBody::Fire => CdisBodyView::Bare(2),
            CdisBody::Collision => CdisBodyView::Bare(4),
            CdisBody::CreateEntity => CdisBodyView::Bare(11),
            CdisBody::RemoveEntity => CdisBodyView::Bare(12),
            CdisBody::StartResume => CdisBodyView::Bare(13),
            CdisBody::StopFreeze => CdisBodyView::Bare(14),
            CdisBody::Acknowledge => CdisBodyView::Bare(15),
            CdisBody::ActionRequest => CdisBodyView::Bare(16),
            CdisBody::ActionResponse => CdisBodyView::Bare(17),
            CdisBody::DataQuery => CdisBodyView::Bare(18),
            CdisBody::SetData => CdisBodyView::Bare(19),
            CdisBody::Data => CdisBodyView::Bare(20),
            CdisBody::EventReport => CdisBodyView::Bare(21),
            CdisBody::Comment => CdisBodyView::Bare(22),
            CdisBody::ElectromagneticEmission => CdisBodyView::Bare(23),
            CdisBody::Designator => CdisBodyView::Bare(24),
            CdisBody::Transmitter => CdisBodyView::Bare(25),
            CdisBody::Signal => CdisBodyView::Bare(26),
            CdisBody::Receiver => CdisBodyView::Bare(27),
            CdisBody::Iff => CdisBodyView::Bare(28),
        }
    }
}

impl CdisBodyView {
    /// The packet type that announces the body.
    pub open spec fn pdu_type(&self) -> u8 {
        match self {
            CdisBodyView::EntityState(_) => ENTITY_STATE_PDU_TYPE,
            CdisBodyView::Detonation(_) => DETONATION_PDU_TYPE,
            CdisBodyView::Bare(code) => *code,
        }
    }

    /// Whether the body has a layout in this codec.
    pub open spec fn has_layout(&self) -> bool {
        !(self is Bare)
    }

    /// Whether the body has a layout and is well formed.
    pub open spec fn wf(&self) -> bool {
        match self {
            CdisBodyView::EntityState(body) => body.wf(),
            CdisBodyView::Detonation(body) => body.wf(),
            CdisBodyView::Bare(_) => false,
        }
    }

    /// The wire form of the body; a body without a layout has none.
    pub open spec fn wire_bits(&self) -> Seq<bool> {
        match self {
            CdisBodyView::EntityState(body) => body.wire_bits(),
            CdisBodyView::Detonation(body) => body.wire_bits(),
            CdisBodyView::Bare(_) => Seq::empty(),
        }
    }
}

impl CdisBody {
    /// The packet type that announces the body.
    pub fn pdu_type(&self) -> (code: u8)
        ensures
            code == self@.pdu_type(),
    {
        match self {
            CdisBody::EntityState(_) => ENTITY_STATE_PDU_TYPE,
            CdisBody::Detonation(_) => DETONATION_PDU_TYPE,
            CdisBody::Fire => 2,
            CdisBody::Collision => 4,
            CdisBody::CreateEntity => 11,
            CdisBody::RemoveEntity => 12,
            CdisBody::StartResume => 13,
            CdisBody::StopFreeze => 14,
            CdisBody::Acknowledge => 15,
            CdisBody::ActionRequest => 16,
            CdisBody::ActionResponse => 17,
            CdisBody::DataQuery => 18,
            CdisBody::SetData => 19,
            CdisBody::Data => 20,
            CdisBody::EventReport => 21,
            CdisBody::Comment => 22,
            CdisBody::ElectromagneticEmission => 23,
            CdisBody::Designator => 24,
            CdisBody::Transmitter => 25,
            CdisBody::Signal => 26,
            CdisBody::Receiver => 27,
            CdisBody::Iff => 28,
        }
    }

    /// Whether the body has a layout in this codec.
    pub fn has_layout(&self) -> (has: bool)
        ensures
            has == self@.has_layout(),
    {
        match self {
            CdisBody::EntityState(_) => true,
            CdisBody::Detonation(_) => true,
            _ => false,
        }
    }

    /// Whether the body has a layout and every field of it fits its wire representation.
    pub fn is_valid(&self) -> (valid: bool)
        ensures
            valid == self@.wf(),
    {
        match self {
            CdisBody::EntityState(body) => body.is_valid(),
            CdisBody::Detonation(body) => body.is_valid(),
            _ => false,
        }
    }

    /// A copy of the body, equal to it in every field.
    pub fn duplicate(&self) -> (copy: CdisBody)
        ensures
            copy@ == self@,
    {
        match self {
            CdisBody::EntityState(body) => CdisBody::EntityState(body.duplicate()),
            CdisBody::Detonation(body) => CdisBody::Detonation(body.duplicate()),
            CdisBody::Fire => CdisBody::Fire,
            CdisBody::Collision => CdisBody::Collision,
            CdisBody::CreateEntity => CdisBody::CreateEntity,
            CdisBody::RemoveEntity => CdisBody::RemoveEntity,
            CdisBody::StartResume => CdisBody::StartResume,
            CdisBody::StopFreeze => CdisBody::StopFreeze,
            CdisBody::Acknowledge => CdisBody::Acknowledge,
            CdisBody::ActionRequest => CdisBody::ActionRequest,
            CdisBody::ActionResponse => CdisBody::ActionResponse,
            CdisBody::DataQuery => CdisBody::DataQuery,
            CdisBody::SetData => CdisBody::SetData,
            CdisBody::Data => CdisBody::Data,
            CdisBody::EventReport => CdisBody::EventReport,
            CdisBody::Comment => CdisBody::Comment,
            CdisBody::ElectromagneticEmission => CdisBody::ElectromagneticEmission,
            CdisBody::Designator => CdisBody::Designator,
            CdisBody::Transmitter => CdisBody::Transmitter,
            CdisBody::Signal => CdisBody::Signal,
            CdisBody::Receiver => CdisBody::Receiver,
            CdisBody::Iff => CdisBody::Iff,
        }
    }

    /// The number of bits of the body on the wire.
    pub fn bit_length(&self) -> (n: usize)
        requires
            self@.wf(),
        ensures
            n == self@.wire_bits().len(),
            n <= 53492,
    {
        match self {
            CdisBody::EntityState(body) => body.bit_length(),
            CdisBody::Detonation(body) => body.bit_length(),
            _ => 0,
        }
    }

    /// Writes the body where the caller has checked that it is well formed
    /// and that the buffer has room.
    pub fn serialize(&self, buf: &mut BitBuffer, cursor: usize) -> (next: usize)
        requires
            self@.wf(),
            cursor + self@.wire_bits().len() <= old(buf)@.len(),
        ensures
            next == cursor + self@.wire_bits().len(),
            final(buf)@ == overwrite(old(buf)@, cursor as int, self@.wire_bits()),
            final(buf)@.len() == old(buf)@.len(),
    {
        match self {
            CdisBody::EntityState(body) => body.serialize(buf, cursor),
            CdisBody::Detonation(body) => body.serialize(buf, cursor),
            _ => cursor,
        }
    }
}

/// A packet: a header and the body it announces.
#[derive(Debug, PartialEq, Eq)]
pub struct CdisPdu {
    pub header: CdisHeader,
    pub body: CdisBody,
}

/// A packet as a mathematical value.
pub struct CdisPduView {
    pub header: CdisHeader,
    pub body: CdisBodyView,
}

impl View for CdisPdu {
    type V = CdisPduView;

    open spec fn view(&self) -> CdisPduView {
        CdisPduView { header: self.header, body: self.body@ }
    }
}

/// The packet that [`CdisPdu::finalize`] makes of a header and a body.
pub open spec fn spec_finalize(header: CdisHeader, body: CdisBodyView) -> Result<
    CdisPduView,
    CdisError,
> {
    let sized = CdisHeader { pdu_type: body.pdu_type(), length: 0, ..header };
    let total = sized.wire_bits().len() + body.wire_bits().len();
    if !body.has_layout() {
        Err(CdisError::UnsupportedPdu)
    } else if !sized.wf() || !body.wf() || total > MAX_PDU_BITS {
        Err(CdisError::ValueOutOfRange)
    } else {
        Ok(CdisPduView { header: CdisHeader { length: total as u16, ..sized }, body })
    }
}

impl CdisPduView {
    /// The header and the body are well formed, and the header announces the
    /// type of the body and the length of the whole packet.
    pub open spec fn wf(&self) -> bool {
        &&& self.header.wf()
        &&& self.body.wf()
        &&& self.header.pdu_type == self.body.pdu_type()
        &&& self.header.length == self.wire_bits().len()
    }

    /// The wire form: the header, then the body.
    pub open spec fn wire_bits(&self) -> Seq<bool> {
        self.header.wire_bits() + self.body.wire_bits()
    }

    /// What stands at `cursor` of `bits`, of which `limit` bits were received.
    #[verifier::opaque]
    pub open spec fn spec_parse(bits: Seq<bool>, cursor: nat, limit: nat) -> Result<
        (CdisPduView, nat),
        CdisError,
    > {
        match CdisHeader::spec_parse(bits, cursor) {
            Err(e) => Err(e),
            Ok((header, c1)) => if c1 > limit || cursor + header.length > limit {
                Err(CdisError::TruncatedPacket)
            } else {
                match Self::spec_parse_body(bits, c1, header.pdu_type) {
                    Err(e) => Err(e),
                    Ok((body, c2)) => if c2 != cursor + header.length {
                        Err(CdisError::LengthMismatch)
                    } else {
                        Ok((CdisPduView { header, body }, c2))
                    },
                }
            },
        }
    }

    /// The body of the given packet type that stands at `cursor` of `bits`.
    pub open spec fn spec_parse_body(bits: Seq<bool>, cursor: nat, pdu_type: u8) -> Result<
        (CdisBodyView, nat),
        CdisError,
    > {
        if pdu_type == ENTITY_STATE_PDU_TYPE {
            match EntityStateView::spec_parse(bits, cursor) {
                Err(e) => Err(e),
                Ok((body, next)) => Ok((CdisBodyView::EntityState(body), next)),
            }
        } else if pdu_type == DETONATION_PDU_TYPE {
            match DetonationView::spec_parse(bits, cursor) {
                Err(e) => Err(e),
                Ok((body, next)) => Ok((CdisBodyView::Detonation(body), next)),
            }
        } else {
            Err(CdisError::UnsupportedPdu)
        }
    }

    /// A packet is at least as long as the fixed part of its header.
    pub proof fn lemma_min_length(pdu: CdisPduView)
        ensures
            pdu.wire_bits().len() >= 58,
    {
        lemma_bits_of_len(pdu.header.protocol_version as nat, 2);
        lemma_bits_of_len(pdu.header.pdu_type as nat, 8);
        lemma_bits_of_len(pdu.header.timestamp as nat, 26);
        lemma_bits_of_len(pdu.header.length as nat, 14);
        lemma_bits_of_len(pdu.header.pdu_status as nat, 8);
    }

    /// Parsing finds a well-formed packet wherever its wire form stands
    /// within the bits received.
    pub proof fn lemma_parse_wire(bits: Seq<bool>, cursor: nat, limit: nat, pdu: CdisPduView)
        requires
            pdu.wf(),
            holds_at(bits, cursor as int, pdu.wire_bits()),
            cursor + pdu.wire_bits().len() <= limit,
        ensures
            Self::spec_parse(bits, cursor, limit) == Ok::<(CdisPduView, nat), CdisError>(
                (pdu, cursor + pdu.wire_bits().len()),
            ),
    {
        reveal(CdisPduView::spec_parse);
        lemma_holds_concat(bits, cursor as int, pdu.header.wire_bits(), pdu.body.wire_bits());
        CdisHeader::lemma_parse_wire(bits, cursor, pdu.header);
        let c1: nat = cursor + pdu.header.wire_bits().len();
        match pdu.body {
            CdisBodyView::EntityState(body) => {
                EntityStateView::lemma_parse_wire(bits, c1, body);
            },
            CdisBodyView::Detonation(body) => {
                DetonationView::lemma_parse_wire(bits, c1, body);
            },
            CdisBodyView::Bare(_) => {},
        }
    }
}

impl CdisPdu {
    /// A packet made of `header` and `body`, with the packet type and the
    /// length of the header set to what the body calls for.
    ///
    /// Fails with `UnsupportedPdu` for a body without a layout, and with
    /// `ValueOutOfRange` when a field does not fit its wire representation or
    /// the packet is longer than the length field can announce.
    pub fn finalize(header: CdisHeader, body: CdisBody) -> (r: Result<CdisPdu, CdisError>)
        ensures
            match spec_finalize(header, body@) {
                Ok(pdu) => r is Ok && r->Ok_0@ == pdu && pdu.wf(),
                Err(e) => r == Err::<CdisPdu, CdisError>(e),
            },
    {
        if !body.has_layout() {
            return Err(CdisError::UnsupportedPdu);
        }
        let sized = CdisHeader { pdu_type: body.pdu_type(), length: 0, ..header };
        if !sized.is_valid() || !body.is_valid() {
            return Err(CdisError::ValueOutOfRange);
        }
        let total = sized.bit_length() + body.bit_length();
        proof {
            lemma_bits_of_len(0, 14);
            lemma_bits_of_len(total as nat, 14);
            lemma_bits_of_len(header.pdu_type as nat, 8);
            lemma_bits_of_len(body@.pdu_type() as nat, 8);
        }
        if total > MAX_PDU_BITS {
            return Err(CdisError::ValueOutOfRange);
        }
        let header = CdisHeader { length: total as u16, ..sized };
        Ok(CdisPdu { header, body })
    }

    /// A copy of the packet, equal to it in every field.
    pub fn duplicate(&self) -> (copy: CdisPdu)
        ensures
            copy@ == self@,
    {
        CdisPdu { header: self.header, body: self.body.duplicate() }
    }

    /// The length of the packet in bits, as its header announces it.
    pub fn pdu_length(&self) -> (bits: usize)
        ensures
            bits == self.header.length,
    {
        self.header.length as usize
    }

    /// Whether the packet is well formed.
    pub fn is_valid(&self) -> (valid: bool)
        ensures
            valid == self@.wf(),
    {
        if !self.header.is_valid() || !self.body.is_valid() {
            return false;
        }
        let total = self.header.bit_length() + self.body.bit_length();
        self.header.pdu_type == self.body.pdu_type() && self.header.length as usize == total
    }

    /// Writes the packet where the caller has checked that it is well formed
    /// and that the buffer has room, and returns the cursor that follows it.
    pub fn serialize(&self, buf: &mut BitBuffer, cursor: usize) -> (next: usize)
        requires
            self@.wf(),
            cursor + self@.wire_bits().len() <= old(buf)@.len(),
        ensures
            next == cursor + self@.wire_bits().len(),
            final(buf)@ == overwrite(old(buf)@, cursor as int, self@.wire_bits()),
            final(buf)@.len() == old(buf)@.len(),
    {
        proof {
            lemma_overwrite_concat(
                old(buf)@,
                cursor as int,
                self.header.wire_bits(),
                self.body@.wire_bits(),
            );
        }
        let next = self.header.serialize(buf, cursor);
        self.body.serialize(buf, next)
    }

    /// Writes the packet at `cursor` and returns the cursor that follows it.
    ///
    /// Fails with `UnsupportedPdu` for a body without a layout, with
    /// `ValueOutOfRange` for a packet that is not well formed, and with
    /// `OutOfBounds` when the buffer has no room. A failed call writes nothing.
    pub fn try_serialize(&self, buf: &mut BitBuffer, cursor: usize) -> (r: Result<usize, CdisError>)
        ensures
            final(buf)@.len() == old(buf)@.len(),
            match r {
                Ok(next) => {
                    &&& self@.wf()
                    &&& next == cursor + self@.wire_bits().len()
                    &&& next <= old(buf)@.len()
                    &&& final(buf)@ == overwrite(old(buf)@, cursor as int, self@.wire_bits())
                },
                Err(e) => {
                    &&& final(buf)@ == old(buf)@
                    &&& e == if !self@.body.has_layout() {
                        CdisError::UnsupportedPdu
                    } else if !self@.wf() {
                        CdisError::ValueOutOfRange
                    } else {
                        CdisError::OutOfBounds
                    }
                    &&& !self@.wf() || cursor + self@.wire_bits().len() > old(buf)@.len()
                },
            },
    {
        if !self.body.has_layout() {
            return Err(CdisError::UnsupportedPdu);
        }
        if !self.is_valid() {
            return Err(CdisError::ValueOutOfRange);
        }
        let capacity = buf.capacity();
        let length = self.header.length as usize;
        if cursor > capacity || length > capacity - cursor {
            return Err(CdisError::OutOfBounds);
        }
        Ok(self.serialize(buf, cursor))
    }

    /// Reads a packet at `cursor` of a buffer of which the first `limit` bits
    /// were received.
    ///
    /// Fails with `TruncatedPacket` when the header is cut short or announces
    /// more bits than were received, with `UnsupportedPdu` for a packet type without a
    /// layout, and with `LengthMismatch` when the body does not end where the
    /// header says it does.
    pub fn parse(buf: &BitBuffer, cursor: usize, limit: usize) -> (r: Result<
        (CdisPdu, usize),
        CdisError,
    >)
        ensures
            match CdisPduView::spec_parse(buf@, cursor as nat, limit as nat) {
                Ok((pdu, next)) => {
                    &&& r is Ok
                    &&& r->Ok_0.0@ == pdu
                    &&& r->Ok_0.1 == next
                    &&& pdu.header.wf()
                    &&& pdu.body.wf()
                    &&& pdu.header.pdu_type == pdu.body.pdu_type()
                    &&& cursor < next <= limit
                    &&& next <= buf@.len()
                },
                Err(e) => r == Err::<(CdisPdu, usize), CdisError>(e),
            },
    {
        proof {
            reveal(CdisPduView::spec_parse);
            lemma2_to64();
        }
        let (header, next) = CdisHeader::parse(buf, cursor)?;
        if next > limit || header.length as usize > limit - cursor {
            return Err(CdisError::TruncatedPacket);
        }
        let (body, next) = if header.pdu_type == ENTITY_STATE_PDU_TYPE {
            let (body, next) = EntityState::parse(buf, next)?;
            (CdisBody::EntityState(body), next)
        } else if header.pdu_type == DETONATION_PDU_TYPE {
            let (body, next) = Detonation::parse(buf, next)?;
            (CdisBody::Detonation(body), next)
        } else {
            return Err(CdisError::UnsupportedPdu);
        };
        if next != cursor + header.length as usize {
            return Err(CdisError::LengthMismatch);
        }
        Ok((CdisPdu { header, body }, next))
    }
}

} // verus!
