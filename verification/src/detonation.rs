//! The detonation record: the compressed form of the packet that reports the
//! impact or detonation of a munition.
//!
//! The record opens with its fields-present bitmap, one bit for each of the
//! four optional descriptor fields. The variable parameters come last, behind
//! an eight-bit count that is sent even when there are none.

use crate::bit_buffer::BitBuffer;
use crate::bits::{
    bits_of, holds_at, lemma_bits_of_len, lemma_holds_concat, lemma_overwrite_concat,
    lemma_overwrite_holds, lemma_value_of_bound, overwrite, value_of,
};
use crate::entity_state::{units_bit, UnitsDekameters, MAX_VARIABLE_PARAMETERS};
use crate::error::CdisError;
use crate::fields_present::{
    bitmap_of, count_present, lemma_bitmap_bits, lemma_none_present, lemma_popcount_value_of,
    lemma_read_flags_wire, popcount, read_flags, spec_read_flags, BodyProperties,
};
use crate::parsing::{
    lemma_parse_optional_wire, lemma_parse_sequence_wire, lemma_read_fixed_wire, parse_sequence,
    parse_when_present, read_fixed, spec_parse_optional, spec_parse_sequence, spec_read_fixed,
    ParseCdis,
};
use crate::types::{SVINT16, SVINT24};
use crate::records::{
    CdisVariableParameter, EntityCoordinateVector, EntityId, EntityType, LinearVelocity,
    WorldCoordinates,
};
use crate::types::UVINT8;
use crate::writing::{
    optional_bits, optional_length, sequence_bits, sequence_is_valid, sequence_length,
    sequence_wf, serialize_when_present, write_sequence, SerializeCdis,
};
use vstd::arithmetic::power2::lemma2_to64;
use vstd::prelude::*;

verus! {

/// The number of optional fields of a detonation record, and so the width of
/// its fields-present bitmap.
pub const DETONATION_FIELDS_PRESENT_LENGTH: usize = 4;

/// The unit in which a record gives a location relative to an entity.
#[derive(Clone, Copy, Debug, PartialEq, Eq, Structural)]
pub enum UnitsMeters {
    Centimeter,
    Meter,
}

/// The units of the two locations of a detonation record.
#[derive(Clone, Copy, Debug, PartialEq, Eq, Structural)]
pub struct DetonationUnits {
    pub world_location_altitude: UnitsDekameters,
    pub location_entity_coordinates: UnitsMeters,
}

/// The detonation record.
#[derive(Debug, PartialEq, Eq)]
pub struct Detonation {
    pub units: DetonationUnits,
    pub source_entity_id: EntityId,
    pub target_entity_id: EntityId,
    pub exploding_entity_id: EntityId,
    pub event_id: EntityId,
    pub entity_linear_velocity: LinearVelocity,
    pub location_in_world_coordinates: WorldCoordinates,
    pub descriptor_entity_type: EntityType,
    pub descriptor_warhead: Option<u16>,
    pub descriptor_fuze: Option<u16>,
    pub descriptor_quantity: Option<u8>,
    pub descriptor_rate: Option<u8>,
    pub location_in_entity_coordinates: EntityCoordinateVector,
    pub detonation_results: UVINT8,
    pub variable_parameters: Vec<CdisVariableParameter>,
}

/// A detonation record as a mathematical value.
pub struct DetonationView {
    pub units: DetonationUnits,
    pub source_entity_id: EntityId,
    pub target_entity_id: EntityId,
    pub exploding_entity_id: EntityId,
    pub event_id: EntityId,
    pub entity_linear_velocity: LinearVelocity,
    pub location_in_world_coordinates: WorldCoordinates,
    pub descriptor_entity_type: EntityType,
    pub descriptor_warhead: Option<u16>,
    pub descriptor_fuze: Option<u16>,
    pub descriptor_quantity: Option<u8>,
    pub descriptor_rate: Option<u8>,
    pub location_in_entity_coordinates: EntityCoordinateVector,
    pub detonation_results: UVINT8,
    pub variable_parameters: Seq<CdisVariableParameter>,
}

/// The unit of an entity-relative location as the bit that carries it.
pub open spec fn meters_bit(units: UnitsMeters) -> nat {
    match units {
        UnitsMeters::Centimeter => 0,
        UnitsMeters::Meter => 1,
    }
}

impl DetonationView {
    /// A record with the given units and identifiers, every number zero, no
    /// optional field and no variable parameter.
    pub open spec fn bare(
        units: DetonationUnits,
        source_entity_id: EntityId,
        target_entity_id: EntityId,
        exploding_entity_id: EntityId,
        event_id: EntityId,
    ) -> DetonationView {
        DetonationView {
            units,
            source_entity_id,
            target_entity_id,
            exploding_entity_id,
            event_id,
            entity_linear_velocity: LinearVelocity {
                x: SVINT16 { value: 0 },
                y: SVINT16 { value: 0 },
                z: SVINT16 { value: 0 },
            },
            location_in_world_coordinates: WorldCoordinates {
                latitude: 0,
                longitude: 0,
                altitude_msl: SVINT24 { value: 0 },
            },
            descriptor_entity_type: EntityType {
                kind: 0,
                domain: 0,
                country: 0,
                category: UVINT8 { value: 0 },
                subcategory: UVINT8 { value: 0 },
                specific: UVINT8 { value: 0 },
                extra: UVINT8 { value: 0 },
            },
            descriptor_warhead: None,
            descriptor_fuze: None,
            descriptor_quantity: None,
            descriptor_rate: None,
            location_in_entity_coordinates: EntityCoordinateVector {
                x: SVINT16 { value: 0 },
                y: SVINT16 { value: 0 },
                z: SVINT16 { value: 0 },
            },
            detonation_results: UVINT8 { value: 0 },
            variable_parameters: Seq::empty(),
        }
    }

    /// The record with the fields of `source` from the velocity to the result.
    pub open spec fn with_body_of(self, source: DetonationView) -> DetonationView {
        DetonationView {
            entity_linear_velocity: source.entity_linear_velocity,
            location_in_world_coordinates: source.location_in_world_coordinates,
            descriptor_entity_type: source.descriptor_entity_type,
            descriptor_warhead: source.descriptor_warhead,
            descriptor_fuze: source.descriptor_fuze,
            descriptor_quantity: source.descriptor_quantity,
            descriptor_rate: source.descriptor_rate,
            location_in_entity_coordinates: source.location_in_entity_coordinates,
            detonation_results: source.detonation_results,
            ..self
        }
    }

    /// The record with the variable parameters of `source`.
    pub open spec fn with_tail_of(self, source: DetonationView) -> DetonationView {
        DetonationView { variable_parameters: source.variable_parameters, ..self }
    }

    /// What stands at `cursor` of `bits` when a detonation record is read there.
    pub open spec fn spec_parse(bits: Seq<bool>, cursor: nat) -> Result<
        (DetonationView, nat),
        CdisError,
    > {
        match Self::spec_parse_head(bits, cursor) {
            Err(e) => Err(e),
            Ok((flags, head, c1)) => match Self::spec_parse_body(bits, c1, flags, head) {
                Err(e) => Err(e),
                Ok((with_body, c2)) => Self::spec_parse_tail(bits, c2, with_body),
            },
        }
    }

    /// Reads the bitmap, the two units and the four identifiers.
    #[verifier::opaque]
    pub open spec fn spec_parse_head(bits: Seq<bool>, cursor: nat) -> Result<
        (Seq<bool>, DetonationView, nat),
        CdisError,
    > {
        match spec_read_flags(bits, cursor, DETONATION_FIELDS_PRESENT_LENGTH as nat) {
            Err(e) => Err(e),
            Ok((flags, c0)) => match spec_read_fixed(bits, c0, 1) {
                Err(e) => Err(e),
                Ok((altitude, c1)) => match spec_read_fixed(bits, c1, 1) {
                    Err(e) => Err(e),
                    Ok((coordinates, c2)) => match EntityId::spec_parse(bits, c2) {
                        Err(e) => Err(e),
                        Ok((source, c3)) => match EntityId::spec_parse(bits, c3) {
                            Err(e) => Err(e),
                            Ok((target, c4)) => match EntityId::spec_parse(bits, c4) {
                                Err(e) => Err(e),
                                Ok((exploding, c5)) => match EntityId::spec_parse(bits, c5) {
                                    Err(e) => Err(e),
                                    Ok((event, c6)) => Ok(
                                        (
                                            flags,
                                            Self::bare(
                                                DetonationUnits {
                                                    world_location_altitude: if altitude == 1 {
                                                        UnitsDekameters::Dekameter
                                                    } else {
                                                        UnitsDekameters::Centimeter
                                                    },
                                                    location_entity_coordinates: if coordinates
                                                        == 1 {
                                                        UnitsMeters::Meter
                                                    } else {
                                                        UnitsMeters::Centimeter
                                                    },
                                                },
                                                source,
                                                target,
                                                exploding,
                                                event,
                                            ),
                                            c6,
                                        ),
                                    ),
                                },
                            },
                        },
                    },
                },
            },
        }
    }

    /// Reads the fields from the velocity to the result into `partial`, the
    /// optional ones as the bitmap `flags` announces them.
    #[verifier::opaque]
    pub open spec fn spec_parse_body(
        bits: Seq<bool>,
        cursor: nat,
        flags: Seq<bool>,
        partial: DetonationView,
    ) -> Result<(DetonationView, nat), CdisError> {
        match LinearVelocity::spec_parse(bits, cursor) {
            Err(e) => Err(e),
            Ok((entity_linear_velocity, b0)) => match WorldCoordinates::spec_parse(bits, b0) {
                Err(e) => Err(e),
                Ok((location_in_world_coordinates, b1)) => match EntityType::spec_parse(bits, b1) {
                    Err(e) => Err(e),
                    Ok((descriptor_entity_type, b2)) => match spec_parse_optional::<u16>(
                        flags[0],
                        bits,
                        b2,
                    ) {
                        Err(e) => Err(e),
                        Ok((descriptor_warhead, b3)) => match spec_parse_optional::<u16>(
                            flags[1],
                            bits,
                            b3,
                        ) {
                            Err(e) => Err(e),
                            Ok((descriptor_fuze, b4)) => match spec_parse_optional::<u8>(
                                flags[2],
                                bits,
                                b4,
                            ) {
                                Err(e) => Err(e),
                                Ok((descriptor_quantity, b5)) => match spec_parse_optional::<u8>(
                                    flags[3],
                                    bits,
                                    b5,
                                ) {
                                    Err(e) => Err(e),
                                    Ok((descriptor_rate, b6)) => match EntityCoordinateVector::spec_parse(
                                        bits,
                                        b6,
                                    ) {
                                        Err(e) => Err(e),
                                        Ok((location_in_entity_coordinates, b7)) => match UVINT8::spec_parse(
                                            bits,
                                            b7,
                                        ) {
                                            Err(e) => Err(e),
                                            Ok((detonation_results, b8)) => Ok(
                                                (
                                                    DetonationView {
                                                        entity_linear_velocity,
                                                        location_in_world_coordinates,
                                                        descriptor_entity_type,
                                                        descriptor_warhead,
                                                        descriptor_fuze,
                                                        descriptor_quantity,
                                                        descriptor_rate,
                                                        location_in_entity_coordinates,
                                                        detonation_results,
                                                        ..partial
                                                    },
                                                    b8,
                                                ),
                                            ),
                                        },
                                    },
                                },
                            },
                        },
                    },
                },
            },
        }
    }

    /// Reads the count and the variable parameters into `partial`.
    #[verifier::opaque]
    pub open spec fn spec_parse_tail(bits: Seq<bool>, cursor: nat, partial: DetonationView) -> Result<
        (DetonationView, nat),
        CdisError,
    > {
        match spec_read_fixed(bits, cursor, 8) {
            Err(e) => Err(e),
            Ok((count, t0)) => match spec_parse_sequence::<CdisVariableParameter>(bits, t0, count) {
                Err(e) => Err(e),
                Ok((variable_parameters, t1)) => Ok(
                    (DetonationView { variable_parameters, ..partial }, t1),
                ),
            },
        }
    }

    /// The head of a record is found wherever its wire form stands.
    pub proof fn lemma_parse_head_wire(bits: Seq<bool>, cursor: nat, record: DetonationView)
        requires
            record.head_wf(),
            holds_at(bits, cursor as int, record.head_bits()),
        ensures
            Self::spec_parse_head(bits, cursor) == Ok::<
                (Seq<bool>, DetonationView, nat),
                CdisError,
            >(
                (
                    record.presence(),
                    Self::bare(
                        record.units,
                        record.source_entity_id,
                        record.target_entity_id,
                        record.exploding_entity_id,
                        record.event_id,
                    ),
                    cursor + record.head_bits().len(),
                ),
            ),
    {
        reveal(DetonationView::spec_parse_head);
        let at = cursor as int;
        let flags = record.presence();
        let a = bits_of(units_bit(record.units.world_location_altitude), 1);
        let c = bits_of(meters_bit(record.units.location_entity_coordinates), 1);
        let s = record.source_entity_id.wire_bits();
        let t = record.target_entity_id.wire_bits();
        let x = record.exploding_entity_id.wire_bits();
        let e = record.event_id.wire_bits();
        lemma2_to64();
        lemma_bits_of_len(units_bit(record.units.world_location_altitude), 1);
        lemma_bits_of_len(meters_bit(record.units.location_entity_coordinates), 1);
        lemma_holds_concat(bits, at, flags + a + c + s + t + x, e);
        lemma_holds_concat(bits, at, flags + a + c + s + t, x);
        lemma_holds_concat(bits, at, flags + a + c + s, t);
        lemma_holds_concat(bits, at, flags + a + c, s);
        lemma_holds_concat(bits, at, flags + a, c);
        lemma_holds_concat(bits, at, flags, a);
        lemma_read_flags_wire(bits, cursor, flags);
        lemma_read_fixed_wire(bits, cursor + 4, 1, units_bit(record.units.world_location_altitude));
        lemma_read_fixed_wire(
            bits,
            cursor + 5,
            1,
            meters_bit(record.units.location_entity_coordinates),
        );
        EntityId::lemma_parse_wire(bits, cursor + 6, record.source_entity_id);
        EntityId::lemma_parse_wire(bits, cursor + 6 + s.len(), record.target_entity_id);
        EntityId::lemma_parse_wire(bits, cursor + 6 + s.len() + t.len(), record.exploding_entity_id);
        EntityId::lemma_parse_wire(
            bits,
            cursor + 6 + s.len() + t.len() + x.len(),
            record.event_id,
        );
    }

    /// The fields from the velocity to the result are found wherever their wire form stands.
    #[verifier::rlimit(50)]
    pub proof fn lemma_parse_body_wire(
        bits: Seq<bool>,
        cursor: nat,
        partial: DetonationView,
        record: DetonationView,
    )
        requires
            record.body_wf(),
            holds_at(bits, cursor as int, record.body_bits()),
        ensures
            Self::spec_parse_body(bits, cursor, record.presence(), partial) == Ok::<
                (DetonationView, nat),
                CdisError,
            >((partial.with_body_of(record), cursor + record.body_bits().len())),
    {
        reveal(DetonationView::spec_parse_body);
        let at = cursor as int;
        let b0 = record.entity_linear_velocity.wire_bits();
        let b1 = record.location_in_world_coordinates.wire_bits();
        let b2 = record.descriptor_entity_type.wire_bits();
        let b3 = optional_bits(record.descriptor_warhead);
        let b4 = optional_bits(record.descriptor_fuze);
        let b5 = optional_bits(record.descriptor_quantity);
        let b6 = optional_bits(record.descriptor_rate);
        let b7 = record.location_in_entity_coordinates.wire_bits();
        let b8 = record.detonation_results.wire_bits();
        lemma_holds_concat(bits, at, b0 + b1 + b2 + b3 + b4 + b5 + b6 + b7, b8);
        lemma_holds_concat(bits, at, b0 + b1 + b2 + b3 + b4 + b5 + b6, b7);
        lemma_holds_concat(bits, at, b0 + b1 + b2 + b3 + b4 + b5, b6);
        lemma_holds_concat(bits, at, b0 + b1 + b2 + b3 + b4, b5);
        lemma_holds_concat(bits, at, b0 + b1 + b2 + b3, b4);
        lemma_holds_concat(bits, at, b0 + b1 + b2, b3);
        lemma_holds_concat(bits, at, b0 + b1, b2);
        lemma_holds_concat(bits, at, b0, b1);
        LinearVelocity::lemma_parse_wire(bits, cursor, record.entity_linear_velocity);
        WorldCoordinates::lemma_parse_wire(
            bits,
            cursor + b0.len(),
            record.location_in_world_coordinates,
        );
        EntityType::lemma_parse_wire(bits, cursor + b0.len() + b1.len(), record.descriptor_entity_type);
        let c3: nat = cursor + b0.len() + b1.len() + b2.len();
        lemma_parse_optional_wire::<u16>(bits, c3, record.descriptor_warhead);
        lemma_parse_optional_wire::<u16>(bits, c3 + b3.len(), record.descriptor_fuze);
        lemma_parse_optional_wire::<u8>(bits, c3 + b3.len() + b4.len(), record.descriptor_quantity);
        lemma_parse_optional_wire::<u8>(
            bits,
            c3 + b3.len() + b4.len() + b5.len(),
            record.descriptor_rate,
        );
        let c7: nat = c3 + b3.len() + b4.len() + b5.len() + b6.len();
        EntityCoordinateVector::lemma_parse_wire(bits, c7, record.location_in_entity_coordinates);
        UVINT8::lemma_parse_wire(bits, c7 + b7.len(), record.detonation_results);
    }

    /// The variable parameters are found wherever their wire form stands behind their count.
    pub proof fn lemma_parse_tail_wire(
        bits: Seq<bool>,
        cursor: nat,
        partial: DetonationView,
        record: DetonationView,
    )
        requires
            record.tail_wf(),
            holds_at(bits, cursor as int, record.tail_bits()),
        ensures
            Self::spec_parse_tail(bits, cursor, partial) == Ok::<(DetonationView, nat), CdisError>(
                (partial.with_tail_of(record), cursor + record.tail_bits().len()),
            ),
    {
        reveal(DetonationView::spec_parse_tail);
        lemma2_to64();
        lemma_bits_of_len(record.variable_parameters.len(), 8);
        lemma_holds_concat(
            bits,
            cursor as int,
            bits_of(record.variable_parameters.len(), 8),
            sequence_bits(record.variable_parameters),
        );
        lemma_read_fixed_wire(bits, cursor, 8, record.variable_parameters.len());
        lemma_parse_sequence_wire::<CdisVariableParameter>(
            bits,
            cursor + 8,
            record.variable_parameters,
        );
    }

    /// Parsing finds a well-formed record wherever its wire form stands.
    pub proof fn lemma_parse_wire(bits: Seq<bool>, cursor: nat, record: DetonationView)
        requires
            record.wf(),
            holds_at(bits, cursor as int, record.wire_bits()),
        ensures
            Self::spec_parse(bits, cursor) == Ok::<(DetonationView, nat), CdisError>(
                (record, cursor + record.wire_bits().len()),
            ),
    {
        reveal(DetonationView::wf);
        reveal(DetonationView::wire_bits);
        let at = cursor as int;
        let head = record.head_bits();
        let body = record.body_bits();
        let tail = record.tail_bits();
        lemma_holds_concat(bits, at, head + body, tail);
        lemma_holds_concat(bits, at, head, body);
        let blank = Self::bare(
            record.units,
            record.source_entity_id,
            record.target_entity_id,
            record.exploding_entity_id,
            record.event_id,
        );
        let filled = blank.with_body_of(record);
        Self::lemma_parse_head_wire(bits, cursor, record);
        Self::lemma_parse_body_wire(bits, cursor + head.len(), blank, record);
        Self::lemma_parse_tail_wire(bits, cursor + head.len() + body.len(), filled, record);
        assert(filled.with_tail_of(record) == record);
    }

    /// A well-formed record that was written into a bit string is found where
    /// it was written, in every field, and the cursor after it is the one the
    /// write returned.
    pub proof fn lemma_parse_after_write(bits: Seq<bool>, cursor: nat, record: DetonationView)
        requires
            record.wf(),
            cursor + record.wire_bits().len() <= bits.len(),
        ensures
            Self::spec_parse(overwrite(bits, cursor as int, record.wire_bits()), cursor) == Ok::<
                (DetonationView, nat),
                CdisError,
            >((record, cursor + record.wire_bits().len())),
    {
        lemma_overwrite_holds(bits, cursor as int, record.wire_bits());
        Self::lemma_parse_wire(overwrite(bits, cursor as int, record.wire_bits()), cursor, record);
    }

    /// One flag per optional field, in declared order.
    pub open spec fn presence(&self) -> Seq<bool> {
        seq![
            self.descriptor_warhead.is_some(),
            self.descriptor_fuze.is_some(),
            self.descriptor_quantity.is_some(),
            self.descriptor_rate.is_some(),
        ]
    }

    /// Whether the four identifiers are well formed.
    pub open spec fn head_wf(&self) -> bool {
        &&& self.source_entity_id.wf()
        &&& self.target_entity_id.wf()
        &&& self.exploding_entity_id.wf()
        &&& self.event_id.wf()
    }

    /// Whether the fields from the velocity to the result are well formed.
    pub open spec fn body_wf(&self) -> bool {
        &&& self.entity_linear_velocity.wf()
        &&& self.location_in_world_coordinates.wf()
        &&& self.descriptor_entity_type.wf()
        &&& self.location_in_entity_coordinates.wf()
        &&& self.detonation_results.wf()
    }

    /// Whether there are at most 255 variable parameters, each well formed.
    pub open spec fn tail_wf(&self) -> bool {
        &&& self.variable_parameters.len() <= MAX_VARIABLE_PARAMETERS
        &&& sequence_wf(self.variable_parameters)
    }

    /// Whether every field is within the range of its wire representation.
    #[verifier::opaque]
    pub open spec fn wf(&self) -> bool {
        &&& self.head_wf()
        &&& self.body_wf()
        &&& self.tail_wf()
    }

    /// The bitmap, the two units and the four identifiers.
    pub open spec fn head_bits(&self) -> Seq<bool> {
        self.presence() + bits_of(units_bit(self.units.world_location_altitude), 1) + bits_of(
            meters_bit(self.units.location_entity_coordinates),
            1,
        ) + self.source_entity_id.wire_bits() + self.target_entity_id.wire_bits()
            + self.exploding_entity_id.wire_bits() + self.event_id.wire_bits()
    }

    /// The velocity, the location, the descriptor with its optional fields,
    /// the location relative to the target and the result.
    pub open spec fn body_bits(&self) -> Seq<bool> {
        self.entity_linear_velocity.wire_bits() + self.location_in_world_coordinates.wire_bits()
            + self.descriptor_entity_type.wire_bits() + optional_bits(self.descriptor_warhead)
            + optional_bits(self.descriptor_fuze) + optional_bits(self.descriptor_quantity)
            + optional_bits(self.descriptor_rate) + self.location_in_entity_coordinates.wire_bits()
            + self.detonation_results.wire_bits()
    }

    /// The variable parameters behind their eight-bit count.
    pub open spec fn tail_bits(&self) -> Seq<bool> {
        bits_of(self.variable_parameters.len(), 8) + sequence_bits(self.variable_parameters)
    }

    /// The wire form of the record.
    #[verifier::opaque]
    pub open spec fn wire_bits(&self) -> Seq<bool> {
        self.head_bits() + self.body_bits() + self.tail_bits()
    }

    /// A record without any optional field has an all-zero bitmap, and none
    /// of the optional fields contributes a bit to its wire form.
    pub proof fn lemma_bitmap_only(record: DetonationView)
        requires
            count_present(record.presence()) == 0,
        ensures
            value_of(record.presence()) == 0,
            record.body_bits() == record.entity_linear_velocity.wire_bits()
                + record.location_in_world_coordinates.wire_bits()
                + record.descriptor_entity_type.wire_bits()
                + record.location_in_entity_coordinates.wire_bits()
                + record.detonation_results.wire_bits(),
    {
        lemma_none_present(record.presence());
        let flags = record.presence();
        assert(!flags[0]);
        assert(!flags[1]);
        assert(!flags[2]);
        assert(!flags[3]);
        assert(record.body_bits() =~= record.entity_linear_velocity.wire_bits()
            + record.location_in_world_coordinates.wire_bits()
            + record.descriptor_entity_type.wire_bits()
            + record.location_in_entity_coordinates.wire_bits()
            + record.detonation_results.wire_bits());
    }

    /// The bitmap has as many 1-bits as the record has optional fields with a
    /// value, and written in as many bits as there are optional fields it
    /// spells the presence flags one by one.
    pub proof fn lemma_fields_present_consistency(record: DetonationView)
        ensures
            record.presence().len() == DETONATION_FIELDS_PRESENT_LENGTH,
            popcount(value_of(record.presence())) == count_present(record.presence()),
            bits_of(value_of(record.presence()), DETONATION_FIELDS_PRESENT_LENGTH as nat)
                == record.presence(),
    {
        lemma_popcount_value_of(record.presence());
        lemma_bitmap_bits(record.presence());
    }
}

impl View for Detonation {
    type V = DetonationView;

    open spec fn view(&self) -> DetonationView {
        DetonationView {
            units: self.units,
            source_entity_id: self.source_entity_id,
            target_entity_id: self.target_entity_id,
            exploding_entity_id: self.exploding_entity_id,
            event_id: self.event_id,
            entity_linear_velocity: self.entity_linear_velocity,
            location_in_world_coordinates: self.location_in_world_coordinates,
            descriptor_entity_type: self.descriptor_entity_type,
            descriptor_warhead: self.descriptor_warhead,
            descriptor_fuze: self.descriptor_fuze,
            descriptor_quantity: self.descriptor_quantity,
            descriptor_rate: self.descriptor_rate,
            location_in_entity_coordinates: self.location_in_entity_coordinates,
            detonation_results: self.detonation_results,
            variable_parameters: self.variable_parameters@,
        }
    }
}

impl Detonation {
    /// A copy of the record, equal to it in every field.
    pub fn duplicate(&self) -> (copy: Detonation)
        ensures
            copy@ == self@,
    {
        let mut parameters: Vec<CdisVariableParameter> = Vec::new();
        let mut i: usize = 0;
        while i < self.variable_parameters.len()
            invariant
                i <= self.variable_parameters@.len(),
                parameters@ == self.variable_parameters@.take(i as int),
            decreases self.variable_parameters@.len() - i,
        {
            parameters.push(self.variable_parameters[i]);
            i = i + 1;
            assert(parameters@ =~= self.variable_parameters@.take(i as int));
        }
        assert(parameters@ =~= self.variable_parameters@);
        Detonation {
            units: self.units,
            source_entity_id: self.source_entity_id,
            target_entity_id: self.target_entity_id,
            exploding_entity_id: self.exploding_entity_id,
            event_id: self.event_id,
            entity_linear_velocity: self.entity_linear_velocity,
            location_in_world_coordinates: self.location_in_world_coordinates,
            descriptor_entity_type: self.descriptor_entity_type,
            descriptor_warhead: self.descriptor_warhead,
            descriptor_fuze: self.descriptor_fuze,
            descriptor_quantity: self.descriptor_quantity,
            descriptor_rate: self.descriptor_rate,
            location_in_entity_coordinates: self.location_in_entity_coordinates,
            detonation_results: self.detonation_results,
            variable_parameters: parameters,
        }
    }

    /// A record with the given units and identifiers, every number zero, no
    /// optional field and no variable parameter.
    pub fn new(
        units: DetonationUnits,
        source_entity_id: EntityId,
        target_entity_id: EntityId,
        exploding_entity_id: EntityId,
        event_id: EntityId,
    ) -> (record: Detonation)
        ensures
            record@ == DetonationView::bare(
                units,
                source_entity_id,
                target_entity_id,
                exploding_entity_id,
                event_id,
            ),
    {
        Detonation {
            units,
            source_entity_id,
            target_entity_id,
            exploding_entity_id,
            event_id,
            entity_linear_velocity: LinearVelocity {
                x: SVINT16 { value: 0 },
                y: SVINT16 { value: 0 },
                z: SVINT16 { value: 0 },
            },
            location_in_world_coordinates: WorldCoordinates {
                latitude: 0,
                longitude: 0,
                altitude_msl: SVINT24 { value: 0 },
            },
            descriptor_entity_type: EntityType {
                kind: 0,
                domain: 0,
                country: 0,
                category: UVINT8 { value: 0 },
                subcategory: UVINT8 { value: 0 },
                specific: UVINT8 { value: 0 },
                extra: UVINT8 { value: 0 },
            },
            descriptor_warhead: None,
            descriptor_fuze: None,
            descriptor_quantity: None,
            descriptor_rate: None,
            location_in_entity_coordinates: EntityCoordinateVector {
                x: SVINT16 { value: 0 },
                y: SVINT16 { value: 0 },
                z: SVINT16 { value: 0 },
            },
            detonation_results: UVINT8 { value: 0 },
            variable_parameters: Vec::new(),
        }
    }

    fn parse_head(buf: &BitBuffer, cursor: usize) -> (r: Result<
        (Vec<bool>, Detonation, usize),
        CdisError,
    >)
        ensures
            match DetonationView::spec_parse_head(buf@, cursor as nat) {
                Ok((flags, record, next)) => {
                    &&& r is Ok
                    &&& r->Ok_0.0@ == flags
                    &&& r->Ok_0.1@ == record
                    &&& r->Ok_0.2 == next
                    &&& flags.len() == DETONATION_FIELDS_PRESENT_LENGTH
                    &&& record.head_wf()
                    &&& cursor <= next <= buf@.len()
                },
                Err(e) => r == Err::<(Vec<bool>, Detonation, usize), CdisError>(e),
            },
    {
        proof {
            reveal(DetonationView::spec_parse_head);
            lemma2_to64();
        }
        let (flags, next) = read_flags(buf, cursor, DETONATION_FIELDS_PRESENT_LENGTH)?;
        let (altitude, next) = read_fixed(buf, next, 1)?;
        let (coordinates, next) = read_fixed(buf, next, 1)?;
        let (source, next) = EntityId::parse(buf, next)?;
        let (target, next) = EntityId::parse(buf, next)?;
        let (exploding, next) = EntityId::parse(buf, next)?;
        let (event, next) = EntityId::parse(buf, next)?;
        let units = DetonationUnits {
            world_location_altitude: if altitude == 1 {
                UnitsDekameters::Dekameter
            } else {
                UnitsDekameters::Centimeter
            },
            location_entity_coordinates: if coordinates == 1 {
                UnitsMeters::Meter
            } else {
                UnitsMeters::Centimeter
            },
        };
        Ok((flags, Detonation::new(units, source, target, exploding, event), next))
    }

    fn parse_body(buf: &BitBuffer, cursor: usize, flags: &Vec<bool>, partial: Detonation) -> (r:
        Result<(Detonation, usize), CdisError>)
        requires
            cursor <= buf@.len(),
            flags@.len() == DETONATION_FIELDS_PRESENT_LENGTH,
        ensures
            match DetonationView::spec_parse_body(buf@, cursor as nat, flags@, partial@) {
                Ok((record, next)) => {
                    &&& r is Ok
                    &&& r->Ok_0.0@ == record
                    &&& r->Ok_0.1 == next
                    &&& record.body_wf()
                    &&& record == partial@.with_body_of(record)
                    &&& cursor <= next <= buf@.len()
                },
                Err(e) => r == Err::<(Detonation, usize), CdisError>(e),
            },
    {
        proof {
            reveal(DetonationView::spec_parse_body);
        }
        let mut record = partial;
        let (velocity, next) = LinearVelocity::parse(buf, cursor)?;
        let (location, next) = WorldCoordinates::parse(buf, next)?;
        let (entity_type, next) = EntityType::parse(buf, next)?;
        let (warhead, next) = parse_when_present::<u16>(flags[0], buf, next)?;
        let (fuze, next) = parse_when_present::<u16>(flags[1], buf, next)?;
        let (quantity, next) = parse_when_present::<u8>(flags[2], buf, next)?;
        let (rate, next) = parse_when_present::<u8>(flags[3], buf, next)?;
        let (coordinates, next) = EntityCoordinateVector::parse(buf, next)?;
        let (results, next) = UVINT8::parse(buf, next)?;
        record.entity_linear_velocity = velocity;
        record.location_in_world_coordinates = location;
        record.descriptor_entity_type = entity_type;
        record.descriptor_warhead = warhead;
        record.descriptor_fuze = fuze;
        record.descriptor_quantity = quantity;
        record.descriptor_rate = rate;
        record.location_in_entity_coordinates = coordinates;
        record.detonation_results = results;
        Ok((record, next))
    }

    fn parse_tail(buf: &BitBuffer, cursor: usize, partial: Detonation) -> (r: Result<
        (Detonation, usize),
        CdisError,
    >)
        requires
            cursor <= buf@.len(),
        ensures
            match DetonationView::spec_parse_tail(buf@, cursor as nat, partial@) {
                Ok((record, next)) => {
                    &&& r is Ok
                    &&& r->Ok_0.0@ == record
                    &&& r->Ok_0.1 == next
                    &&& record.tail_wf()
                    &&& record == partial@.with_tail_of(record)
                    &&& cursor <= next <= buf@.len()
                },
                Err(e) => r == Err::<(Detonation, usize), CdisError>(e),
            },
    {
        proof {
            reveal(DetonationView::spec_parse_tail);
            lemma2_to64();
        }
        let mut record = partial;
        let (count, next) = read_fixed(buf, cursor, 8)?;
        let (variable_parameters, next) = parse_sequence::<CdisVariableParameter>(
            buf,
            next,
            count as usize,
        )?;
        record.variable_parameters = variable_parameters;
        Ok((record, next))
    }

    /// Reads a detonation record at `cursor`.
    pub fn parse(buf: &BitBuffer, cursor: usize) -> (r: Result<(Detonation, usize), CdisError>)
        ensures
            match DetonationView::spec_parse(buf@, cursor as nat) {
                Ok((record, next)) => {
                    &&& r is Ok
                    &&& r->Ok_0.0@ == record
                    &&& r->Ok_0.1 == next
                    &&& record.wf()
                    &&& cursor <= next <= buf@.len()
                },
                Err(e) => r == Err::<(Detonation, usize), CdisError>(e),
            },
    {
        proof {
            reveal(DetonationView::wf);
            reveal(DetonationView::wire_bits);
        }
        let (flags, record, next) = Self::parse_head(buf, cursor)?;
        let (record, next) = Self::parse_body(buf, next, &flags, record)?;
        let (record, next) = Self::parse_tail(buf, next, record)?;
        Ok((record, next))
    }

    fn head_length(&self) -> (n: usize)
        requires
            self@.head_wf(),
        ensures
            n == self@.head_bits().len(),
            n <= 414,
    {
        proof {
            lemma_bits_of_len(units_bit(self.units.world_location_altitude), 1);
            lemma_bits_of_len(meters_bit(self.units.location_entity_coordinates), 1);
        }
        6 + self.source_entity_id.bit_length() + self.target_entity_id.bit_length()
            + self.exploding_entity_id.bit_length() + self.event_id.bit_length()
    }

    fn body_length(&self) -> (n: usize)
        requires
            self@.body_wf(),
        ensures
            n == self@.body_bits().len(),
            n <= 536,
    {
        let n0 = self.entity_linear_velocity.bit_length();
        let n1 = self.location_in_world_coordinates.bit_length();
        let n2 = self.descriptor_entity_type.bit_length();
        let n3 = optional_length(&self.descriptor_warhead);
        let n4 = optional_length(&self.descriptor_fuze);
        let n5 = optional_length(&self.descriptor_quantity);
        let n6 = optional_length(&self.descriptor_rate);
        let n7 = self.location_in_entity_coordinates.bit_length();
        let n8 = self.detonation_results.bit_length();
        n0 + n1 + n2 + n3 + n4 + n5 + n6 + n7 + n8
    }

    fn tail_length(&self) -> (n: usize)
        requires
            self@.tail_wf(),
        ensures
            n == self@.tail_bits().len(),
            n <= 52283,
    {
        proof {
            lemma_bits_of_len(self.variable_parameters@.len(), 8);
        }
        8 + sequence_length(&self.variable_parameters)
    }

    fn write_head(&self, buf: &mut BitBuffer, cursor: usize) -> (next: usize)
        requires
            self@.head_wf(),
            cursor + self@.head_bits().len() <= old(buf)@.len(),
        ensures
            next == cursor + self@.head_bits().len(),
            final(buf)@ == overwrite(old(buf)@, cursor as int, self@.head_bits()),
            final(buf)@.len() == old(buf)@.len(),
    {
        let bitmap = self.fields_present_field();
        let ghost flags = self@.presence();
        let ghost a = bits_of(units_bit(self.units.world_location_altitude), 1);
        let ghost c = bits_of(meters_bit(self.units.location_entity_coordinates), 1);
        let ghost s = self.source_entity_id.wire_bits();
        let ghost t = self.target_entity_id.wire_bits();
        let ghost x = self.exploding_entity_id.wire_bits();
        let ghost e = self.event_id.wire_bits();
        proof {
            lemma2_to64();
            lemma_value_of_bound(flags);
            lemma_bitmap_bits(flags);
            lemma_bits_of_len(units_bit(self.units.world_location_altitude), 1);
            lemma_bits_of_len(meters_bit(self.units.location_entity_coordinates), 1);
            lemma_overwrite_concat(old(buf)@, cursor as int, flags, a);
            lemma_overwrite_concat(old(buf)@, cursor as int, flags + a, c);
            lemma_overwrite_concat(old(buf)@, cursor as int, flags + a + c, s);
            lemma_overwrite_concat(old(buf)@, cursor as int, flags + a + c + s, t);
            lemma_overwrite_concat(old(buf)@, cursor as int, flags + a + c + s + t, x);
            lemma_overwrite_concat(old(buf)@, cursor as int, flags + a + c + s + t + x, e);
        }
        let next = buf.put(cursor, DETONATION_FIELDS_PRESENT_LENGTH, bitmap as u64);
        let altitude: u64 = match self.units.world_location_altitude {
            UnitsDekameters::Centimeter => 0,
            UnitsDekameters::Dekameter => 1,
        };
        let next = buf.put(next, 1, altitude);
        let coordinates: u64 = match self.units.location_entity_coordinates {
            UnitsMeters::Centimeter => 0,
            UnitsMeters::Meter => 1,
        };
        let next = buf.put(next, 1, coordinates);
        let next = self.source_entity_id.serialize(buf, next);
        let next = self.target_entity_id.serialize(buf, next);
        let next = self.exploding_entity_id.serialize(buf, next);
        self.event_id.serialize(buf, next)
    }

    fn write_body(&self, buf: &mut BitBuffer, cursor: usize) -> (next: usize)
        requires
            self@.body_wf(),
            cursor + self@.body_bits().len() <= old(buf)@.len(),
        ensures
            next == cursor + self@.body_bits().len(),
            final(buf)@ == overwrite(old(buf)@, cursor as int, self@.body_bits()),
            final(buf)@.len() == old(buf)@.len(),
    {
        let ghost b0 = self.entity_linear_velocity.wire_bits();
        let ghost b1 = self.location_in_world_coordinates.wire_bits();
        let ghost b2 = self.descriptor_entity_type.wire_bits();
        let ghost b3 = optional_bits(self.descriptor_warhead);
        let ghost b4 = optional_bits(self.descriptor_fuze);
        let ghost b5 = optional_bits(self.descriptor_quantity);
        let ghost b6 = optional_bits(self.descriptor_rate);
        let ghost b7 = self.location_in_entity_coordinates.wire_bits();
        let ghost b8 = self.detonation_results.wire_bits();
        proof {
            lemma_overwrite_concat(old(buf)@, cursor as int, b0, b1);
            lemma_overwrite_concat(old(buf)@, cursor as int, b0 + b1, b2);
            lemma_overwrite_concat(old(buf)@, cursor as int, b0 + b1 + b2, b3);
            lemma_overwrite_concat(old(buf)@, cursor as int, b0 + b1 + b2 + b3, b4);
            lemma_overwrite_concat(old(buf)@, cursor as int, b0 + b1 + b2 + b3 + b4, b5);
            lemma_overwrite_concat(old(buf)@, cursor as int, b0 + b1 + b2 + b3 + b4 + b5, b6);
            lemma_overwrite_concat(old(buf)@, cursor as int, b0 + b1 + b2 + b3 + b4 + b5 + b6, b7);
            lemma_overwrite_concat(
                old(buf)@,
                cursor as int,
                b0 + b1 + b2 + b3 + b4 + b5 + b6 + b7,
                b8,
            );
        }
        let next = self.entity_linear_velocity.serialize(buf, cursor);
        let next = self.location_in_world_coordinates.serialize(buf, next);
        let next = self.descriptor_entity_type.serialize(buf, next);
        let next = serialize_when_present(&self.descriptor_warhead, buf, next);
        let next = serialize_when_present(&self.descriptor_fuze, buf, next);
        let next = serialize_when_present(&self.descriptor_quantity, buf, next);
        let next = serialize_when_present(&self.descriptor_rate, buf, next);
        let next = self.location_in_entity_coordinates.serialize(buf, next);
        self.detonation_results.serialize(buf, next)
    }

    fn write_tail(&self, buf: &mut BitBuffer, cursor: usize) -> (next: usize)
        requires
            self@.tail_wf(),
            cursor + self@.tail_bits().len() <= old(buf)@.len(),
        ensures
            next == cursor + self@.tail_bits().len(),
            final(buf)@ == overwrite(old(buf)@, cursor as int, self@.tail_bits()),
            final(buf)@.len() == old(buf)@.len(),
    {
        proof {
            lemma2_to64();
            lemma_bits_of_len(self.variable_parameters@.len(), 8);
            lemma_overwrite_concat(
                old(buf)@,
                cursor as int,
                bits_of(self.variable_parameters@.len(), 8),
                sequence_bits(self.variable_parameters@),
            );
        }
        let next = buf.put(cursor, 8, self.variable_parameters.len() as u64);
        write_sequence(&self.variable_parameters, buf, next)
    }
}

impl SerializeCdis for Detonation {
    open spec fn max_bits() -> nat {
        53233
    }

    open spec fn wf(&self) -> bool {
        self@.wf()
    }

    open spec fn wire_bits(&self) -> Seq<bool> {
        self@.wire_bits()
    }

    fn is_valid(&self) -> (valid: bool) {
        proof {
            reveal(DetonationView::wf);
            reveal(DetonationView::wire_bits);
        }
        let head = self.source_entity_id.is_valid() && self.target_entity_id.is_valid()
            && self.exploding_entity_id.is_valid() && self.event_id.is_valid();
        let body = self.entity_linear_velocity.is_valid()
            && self.location_in_world_coordinates.is_valid()
            && self.descriptor_entity_type.is_valid()
            && self.location_in_entity_coordinates.is_valid() && self.detonation_results.is_valid();
        let tail = self.variable_parameters.len() <= MAX_VARIABLE_PARAMETERS && sequence_is_valid(
            &self.variable_parameters,
        );
        head && body && tail
    }

    fn bit_length(&self) -> (n: usize) {
        proof {
            reveal(DetonationView::wf);
            reveal(DetonationView::wire_bits);
        }
        self.head_length() + self.body_length() + self.tail_length()
    }

    fn serialize(&self, buf: &mut BitBuffer, cursor: usize) -> (next: usize) {
        proof {
            reveal(DetonationView::wf);
            reveal(DetonationView::wire_bits);
        }
        let ghost head = self@.head_bits();
        let ghost body = self@.body_bits();
        let ghost tail = self@.tail_bits();
        proof {
            lemma_overwrite_concat(old(buf)@, cursor as int, head, body);
            lemma_overwrite_concat(old(buf)@, cursor as int, head + body, tail);
        }
        let next = self.write_head(buf, cursor);
        let next = self.write_body(buf, next);
        self.write_tail(buf, next)
    }
}

impl BodyProperties for Detonation {
    open spec fn presence(&self) -> Seq<bool> {
        self@.presence()
    }

    fn fields_present_length(&self) -> (n: usize) {
        DETONATION_FIELDS_PRESENT_LENGTH
    }

    fn fields_present_field(&self) -> (bitmap: u16) {
        let flags: [bool; 4] = [
            self.descriptor_warhead.is_some(),
            self.descriptor_fuze.is_some(),
            self.descriptor_quantity.is_some(),
            self.descriptor_rate.is_some(),
        ];
        assert(flags@ =~= self@.presence());
        bitmap_of(flags.as_slice())
    }

    fn body_length_bits(&self) -> (n: usize) {
        self.bit_length()
    }
}

} // verus!
