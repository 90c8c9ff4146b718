//! The entity state record: the compressed form of the packet that reports
//! where an entity is and what it looks like.
//!
//! On the wire the record opens with its fields-present bitmap. The fields
//! follow in the order in which the struct declares them; the variable
//! parameters come last, behind their count, which is sent even when there
//! are none.

use crate::bit_buffer::BitBuffer;
use crate::bits::{
    bits_of, holds_at, lemma_bits_of_len, lemma_holds_concat, lemma_overwrite_concat,
    lemma_value_of_bound, overwrite, value_of,
};
use crate::error::CdisError;
use crate::fields_present::{
    bitmap_of, count_present, lemma_bitmap_bits, lemma_none_present, lemma_popcount_value_of,
    lemma_read_flags_wire, popcount, read_flags, spec_read_flags, BodyProperties,
};
use crate::parsing::{
    lemma_parse_optional_wire, lemma_parse_sequence_wire, lemma_read_fixed_wire, parse_sequence,
    parse_when_present, read_fixed, spec_parse_optional, spec_parse_sequence, spec_read_fixed,
    ParseCdis,
};
use crate::records::{
    optional_same, AngularVelocity, CdisDRParametersOther, CdisEntityAppearance,
    CdisEntityCapabilities, CdisEntityMarking, CdisEntityMarkingView, CdisVariableParameter,
    EntityId, EntityType, LinearAcceleration, LinearVelocity, Orientation, Same, WorldCoordinates,
};
use crate::types::{lemma_unsigned_ladder, UVINT8};
use crate::writing::{
    optional_bits, optional_is_valid, optional_length, optional_wf, sequence_bits,
    sequence_is_valid, sequence_length, sequence_wf, serialize_when_present, write_sequence,
    SerializeCdis,
};
use vstd::arithmetic::power2::lemma2_to64;
use vstd::prelude::*;

verus! {

/// The number of optional fields of an entity state record, and so the width
/// of its fields-present bitmap.
pub const FIELDS_PRESENT_LENGTH: usize = 12;

/// The most variable parameters that one record can carry.
pub const MAX_VARIABLE_PARAMETERS: usize = 255;

/// The unit in which a record gives its location.
#[derive(Clone, Copy, Debug, PartialEq, Eq, Structural)]
pub enum UnitsDekameters {
    Centimeter,
    Dekameter,
}

/// The entity state record.
#[derive(Debug, PartialEq, Eq)]
pub struct EntityState {
    pub units: UnitsDekameters,
    pub full_update_flag: bool,
    pub entity_id: EntityId,
    pub force_id: Option<UVINT8>,
    pub entity_type: Option<EntityType>,
    pub alternate_entity_type: Option<EntityType>,
    pub entity_linear_velocity: Option<LinearVelocity>,
    pub entity_location: Option<WorldCoordinates>,
    pub entity_orientation: Option<Orientation>,
    pub entity_appearance: Option<CdisEntityAppearance>,
    /// The dead-reckoning algorithm, a four-bit enumeration value.
    pub dr_algorithm: u8,
    pub dr_params_other: Option<CdisDRParametersOther>,
    pub dr_params_entity_linear_acceleration: Option<LinearAcceleration>,
    pub dr_params_entity_angular_velocity: Option<AngularVelocity>,
    pub entity_marking: Option<CdisEntityMarking>,
    pub capabilities: Option<CdisEntityCapabilities>,
    pub variable_parameters: Vec<CdisVariableParameter>,
}

/// An entity state record as a mathematical value.
pub struct EntityStateView {
    pub units: UnitsDekameters,
    pub full_update_flag: bool,
    pub entity_id: EntityId,
    pub force_id: Option<UVINT8>,
    pub entity_type: Option<EntityType>,
    pub alternate_entity_type: Option<EntityType>,
    pub entity_linear_velocity: Option<LinearVelocity>,
    pub entity_location: Option<WorldCoordinates>,
    pub entity_orientation: Option<Orientation>,
    pub entity_appearance: Option<CdisEntityAppearance>,
    pub dr_algorithm: u8,
    pub dr_params_other: Option<CdisDRParametersOther>,
    pub dr_params_entity_linear_acceleration: Option<LinearAcceleration>,
    pub dr_params_entity_angular_velocity: Option<AngularVelocity>,
    pub entity_marking: Option<CdisEntityMarkingView>,
    pub capabilities: Option<CdisEntityCapabilities>,
    pub variable_parameters: Seq<CdisVariableParameter>,
}

/// The view of an optional marking.
pub open spec fn marking_view(marking: Option<CdisEntityMarking>) -> Option<CdisEntityMarkingView> {
    match marking {
        Some(m) => Some(m@),
        None => None,
    }
}

/// The wire form of an optional marking: that of the marking, or nothing.
pub open spec fn marking_bits(marking: Option<CdisEntityMarkingView>) -> Seq<bool> {
    match marking {
        Some(m) => m.wire_bits(),
        None => Seq::empty(),
    }
}

/// An optional marking is well formed when it is absent or its value is.
pub open spec fn marking_wf(marking: Option<CdisEntityMarkingView>) -> bool {
    match marking {
        Some(m) => m.wf(),
        None => true,
    }
}

/// What stands at `cursor` for a marking whose presence is known.
pub open spec fn spec_parse_marking(present: bool, bits: Seq<bool>, cursor: nat) -> Result<
    (Option<CdisEntityMarkingView>, nat),
    CdisError,
> {
    if present {
        match CdisEntityMarkingView::spec_parse(bits, cursor) {
            Ok((marking, next)) => Ok((Some(marking), next)),
            Err(e) => Err(e),
        }
    } else {
        Ok((None, cursor))
    }
}

/// Reads a marking when the bitmap announces one.
pub fn parse_marking(present: bool, buf: &BitBuffer, cursor: usize) -> (r: Result<
    (Option<CdisEntityMarking>, usize),
    CdisError,
>)
    requires
        cursor <= buf@.len(),
    ensures
        match spec_parse_marking(present, buf@, cursor as nat) {
            Ok((marking, next)) => {
                &&& r is Ok
                &&& marking_view(r->Ok_0.0) == marking
                &&& r->Ok_0.1 == next
                &&& marking_wf(marking)
                &&& cursor <= next <= buf@.len()
                &&& marking.is_some() == present
            },
            Err(e) => r == Err::<(Option<CdisEntityMarking>, usize), CdisError>(e),
        },
{
    if present {
        let (marking, next) = CdisEntityMarking::parse(buf, cursor)?;
        Ok((Some(marking), next))
    } else {
        Ok((None, cursor))
    }
}

/// The unit as the bit that carries it.
pub open spec fn units_bit(units: UnitsDekameters) -> nat {
    match units {
        UnitsDekameters::Centimeter => 0,
        UnitsDekameters::Dekameter => 1,
    }
}

/// A flag as the bit that carries it.
pub open spec fn flag_bit(flag: bool) -> nat {
    if flag {
        1
    } else {
        0
    }
}

impl EntityStateView {
    /// A record for the given entity with no optional field and no variable parameter.
    pub open spec fn bare(
        units: UnitsDekameters,
        full_update_flag: bool,
        entity_id: EntityId,
    ) -> EntityStateView {
        EntityStateView {
            units,
            full_update_flag,
            entity_id,
            force_id: None,
            entity_type: None,
            alternate_entity_type: None,
            entity_linear_velocity: None,
            entity_location: None,
            entity_orientation: None,
            entity_appearance: None,
            dr_algorithm: 0,
            dr_params_other: None,
            dr_params_entity_linear_acceleration: None,
            dr_params_entity_angular_velocity: None,
            entity_marking: None,
            capabilities: None,
            variable_parameters: Seq::empty(),
        }
    }

    /// One flag per optional field, in declared order.
    pub open spec fn presence(&self) -> Seq<bool> {
        seq![
            self.force_id.is_some(),
            self.entity_type.is_some(),
            self.alternate_entity_type.is_some(),
            self.entity_linear_velocity.is_some(),
            self.entity_location.is_some(),
            self.entity_orientation.is_some(),
            self.entity_appearance.is_some(),
            self.dr_params_other.is_some(),
            self.dr_params_entity_linear_acceleration.is_some(),
            self.dr_params_entity_angular_velocity.is_some(),
            self.entity_marking.is_some(),
            self.capabilities.is_some(),
        ]
    }

    /// Whether the optional fields from the force identifier to the appearance are well formed.
    pub open spec fn kinematics_wf(&self) -> bool {
        &&& optional_wf(self.force_id)
        &&& optional_wf(self.entity_type)
        &&& optional_wf(self.alternate_entity_type)
        &&& optional_wf(self.entity_linear_velocity)
        &&& optional_wf(self.entity_location)
        &&& optional_wf(self.entity_orientation)
        &&& optional_wf(self.entity_appearance)
    }

    /// Whether the algorithm fits four bits and the optional parameters are well formed.
    pub open spec fn dead_reckoning_wf(&self) -> bool {
        &&& self.dr_algorithm < 16
        &&& optional_wf(self.dr_params_other)
        &&& optional_wf(self.dr_params_entity_linear_acceleration)
        &&& optional_wf(self.dr_params_entity_angular_velocity)
    }

    /// Whether the marking and the capabilities are well formed and there are
    /// at most 255 variable parameters, each well formed.
    pub open spec fn tail_wf(&self) -> bool {
        &&& marking_wf(self.entity_marking)
        &&& optional_wf(self.capabilities)
        &&& self.variable_parameters.len() <= MAX_VARIABLE_PARAMETERS
        &&& sequence_wf(self.variable_parameters)
    }

    /// Whether every field is within the range of its wire representation.
    #[verifier::opaque]
    pub open spec fn wf(&self) -> bool {
        &&& self.entity_id.wf()
        &&& self.kinematics_wf()
        &&& self.dead_reckoning_wf()
        &&& self.tail_wf()
    }

    /// The bitmap, the unit, the full-update flag and the entity identifier.
    pub open spec fn head_bits(&self) -> Seq<bool> {
        self.presence() + bits_of(units_bit(self.units), 1) + bits_of(
            flag_bit(self.full_update_flag),
            1,
        ) + self.entity_id.wire_bits()
    }

    /// The optional fields from the force identifier to the appearance.
    pub open spec fn kinematics_bits(&self) -> Seq<bool> {
        optional_bits(self.force_id)
            + optional_bits(self.entity_type)
            + optional_bits(self.alternate_entity_type)
            + optional_bits(self.entity_linear_velocity)
            + optional_bits(self.entity_location)
            + optional_bits(self.entity_orientation)
            + optional_bits(self.entity_appearance)
    }

    /// The dead-reckoning algorithm and the optional parameters that go with it.
    pub open spec fn dead_reckoning_bits(&self) -> Seq<bool> {
        bits_of(self.dr_algorithm as nat, 4) + optional_bits(self.dr_params_other)
            + optional_bits(self.dr_params_entity_linear_acceleration) + optional_bits(
            self.dr_params_entity_angular_velocity,
        )
    }

    /// The count of the variable parameters as it is sent.
    pub open spec fn parameter_count(&self) -> UVINT8 {
        UVINT8 { value: self.variable_parameters.len() as u32 }
    }

    /// The marking, the capabilities, and the variable parameters behind their count.
    pub open spec fn tail_bits(&self) -> Seq<bool> {
        marking_bits(self.entity_marking) + optional_bits(self.capabilities)
            + self.parameter_count().wire_bits() + sequence_bits(self.variable_parameters)
    }

    /// The wire form of the record.
    #[verifier::opaque]
    pub open spec fn wire_bits(&self) -> Seq<bool> {
        self.head_bits() + self.kinematics_bits() + self.dead_reckoning_bits() + self.tail_bits()
    }

    /// What stands at `cursor` of `bits` when an entity state record is read there.
    pub open spec fn spec_parse(bits: Seq<bool>, cursor: nat) -> Result<
        (EntityStateView, nat),
        CdisError,
    > {
        match spec_read_flags(bits, cursor, FIELDS_PRESENT_LENGTH as nat) {
            Err(e) => Err(e),
            Ok((flags, c0)) => match spec_read_fixed(bits, c0, 1) {
                Err(e) => Err(e),
                Ok((units, c1)) => match spec_read_fixed(bits, c1, 1) {
                    Err(e) => Err(e),
                    Ok((full, c2)) => match EntityId::spec_parse(bits, c2) {
                        Err(e) => Err(e),
                        Ok((entity_id, c3)) => match Self::spec_parse_kinematics(
                            bits,
                            c3,
                            flags,
                            Self::bare(
                                if units == 1 {
                                    UnitsDekameters::Dekameter
                                } else {
                                    UnitsDekameters::Centimeter
                                },
                                full == 1,
                                entity_id,
                            ),
                        ) {
                            Err(e) => Err(e),
                            Ok((with_kinematics, c4)) => match Self::spec_parse_dead_reckoning(
                                bits,
                                c4,
                                flags,
                                with_kinematics,
                            ) {
                                Err(e) => Err(e),
                                Ok((with_dead_reckoning, c5)) => Self::spec_parse_tail(
                                    bits,
                                    c5,
                                    flags,
                                    with_dead_reckoning,
                                ),
                            },
                        },
                    },
                },
            },
        }
    }

    /// Reads the optional fields from the force identifier to the appearance
    /// into `partial`, as the bitmap `flags` announces them.
    #[verifier::opaque]
    pub open spec fn spec_parse_kinematics(
        bits: Seq<bool>,
        cursor: nat,
        flags: Seq<bool>,
        partial: EntityStateView,
    ) -> Result<(EntityStateView, nat), CdisError> {
        match spec_parse_optional::<UVINT8>(flags[0], bits, cursor) {
            Err(e) => Err(e),
            Ok((force_id, k0)) =>
            match spec_parse_optional::<EntityType>(flags[1], bits, k0) {
                Err(e) => Err(e),
                Ok((entity_type, k1)) =>
                match spec_parse_optional::<EntityType>(flags[2], bits, k1) {
                    Err(e) => Err(e),
                    Ok((alternate_entity_type, k2)) =>
                    match spec_parse_optional::<LinearVelocity>(flags[3], bits, k2) {
                        Err(e) => Err(e),
                        Ok((entity_linear_velocity, k3)) =>
                        match spec_parse_optional::<WorldCoordinates>(flags[4], bits, k3) {
                            Err(e) => Err(e),
                            Ok((entity_location, k4)) =>
                            match spec_parse_optional::<Orientation>(flags[5], bits, k4) {
                                Err(e) => Err(e),
                                Ok((entity_orientation, k5)) =>
                                match spec_parse_optional::<CdisEntityAppearance>(flags[6], bits, k5) {
                                    Err(e) => Err(e),
                                    Ok((entity_appearance, k6)) => Ok((EntityStateView {
                                        force_id,
                                        entity_type,
                                        alternate_entity_type,
                                        entity_linear_velocity,
                                        entity_location,
                                        entity_orientation,
                                        entity_appearance,
                                        ..partial
                                    }, k6)),
                                }
                            }
                        }
                    }
                }
            }
        }
    }

    /// Reads the dead-reckoning algorithm and its optional parameters into `partial`.
    #[verifier::opaque]
    pub open spec fn spec_parse_dead_reckoning(
        bits: Seq<bool>,
        cursor: nat,
        flags: Seq<bool>,
        partial: EntityStateView,
    ) -> Result<(EntityStateView, nat), CdisError> {
        match spec_read_fixed(bits, cursor, 4) {
            Err(e) => Err(e),
            Ok((dr_algorithm, d0)) => match spec_parse_optional::<CdisDRParametersOther>(
                flags[7],
                bits,
                d0,
            ) {
                Err(e) => Err(e),
                Ok((dr_params_other, d1)) => match spec_parse_optional::<LinearAcceleration>(
                    flags[8],
                    bits,
                    d1,
                ) {
                    Err(e) => Err(e),
                    Ok((dr_params_entity_linear_acceleration, d2)) => match spec_parse_optional::<
                        AngularVelocity,
                    >(flags[9], bits, d2) {
                        Err(e) => Err(e),
                        Ok((dr_params_entity_angular_velocity, d3)) => Ok(
                            (
                                EntityStateView {
                                    dr_algorithm: dr_algorithm as u8,
                                    dr_params_other,
                                    dr_params_entity_linear_acceleration,
                                    dr_params_entity_angular_velocity,
                                    ..partial
                                },
                                d3,
                            ),
                        ),
                    },
                },
            },
        }
    }

    /// Reads the marking, the capabilities and the variable parameters into `partial`.
    #[verifier::opaque]
    pub open spec fn spec_parse_tail(
        bits: Seq<bool>,
        cursor: nat,
        flags: Seq<bool>,
        partial: EntityStateView,
    ) -> Result<(EntityStateView, nat), CdisError> {
        match spec_parse_marking(flags[10], bits, cursor) {
            Err(e) => Err(e),
            Ok((entity_marking, t0)) => match spec_parse_optional::<CdisEntityCapabilities>(
                flags[11],
                bits,
                t0,
            ) {
                Err(e) => Err(e),
                Ok((capabilities, t1)) => match UVINT8::spec_parse(bits, t1) {
                    Err(e) => Err(e),
                    Ok((count, t2)) => match spec_parse_sequence::<CdisVariableParameter>(
                        bits,
                        t2,
                        count.value as nat,
                    ) {
                        Err(e) => Err(e),
                        Ok((variable_parameters, t3)) => Ok(
                            (
                                EntityStateView {
                                    entity_marking,
                                    capabilities,
                                    variable_parameters,
                                    ..partial
                                },
                                t3,
                            ),
                        ),
                    },
                },
            },
        }
    }

    /// The record with the kinematic fields of `source`.
    pub open spec fn with_kinematics_of(self, source: EntityStateView) -> EntityStateView {
        EntityStateView {
            force_id: source.force_id,
            entity_type: source.entity_type,
            alternate_entity_type: source.alternate_entity_type,
            entity_linear_velocity: source.entity_linear_velocity,
            entity_location: source.entity_location,
            entity_orientation: source.entity_orientation,
            entity_appearance: source.entity_appearance,
            ..self
        }
    }

    /// The record with the dead-reckoning fields of `source`.
    pub open spec fn with_dead_reckoning_of(self, source: EntityStateView) -> EntityStateView {
        EntityStateView {
            dr_algorithm: source.dr_algorithm,
            dr_params_other: source.dr_params_other,
            dr_params_entity_linear_acceleration: source.dr_params_entity_linear_acceleration,
            dr_params_entity_angular_velocity: source.dr_params_entity_angular_velocity,
            ..self
        }
    }

    /// The record with the marking, capabilities and variable parameters of `source`.
    pub open spec fn with_tail_of(self, source: EntityStateView) -> EntityStateView {
        EntityStateView {
            entity_marking: source.entity_marking,
            capabilities: source.capabilities,
            variable_parameters: source.variable_parameters,
            ..self
        }
    }

    /// Parsing finds a well-formed record wherever its wire form stands.
    #[verifier::rlimit(30)]
    pub proof fn lemma_parse_wire(bits: Seq<bool>, cursor: nat, record: EntityStateView)
        requires
            record.wf(),
            holds_at(bits, cursor as int, record.wire_bits()),
        ensures
            Self::spec_parse(bits, cursor) == Ok::<(EntityStateView, nat), CdisError>(
                (record, cursor + record.wire_bits().len()),
            ),
    {
        reveal(EntityStateView::wf);
        reveal(EntityStateView::wire_bits);
        let at = cursor as int;
        let head = record.head_bits();
        let kin = record.kinematics_bits();
        let dr = record.dead_reckoning_bits();
        let tail = record.tail_bits();
        lemma2_to64();
        lemma_holds_concat(bits, at, head + kin + dr, tail);
        lemma_holds_concat(bits, at, head + kin, dr);
        lemma_holds_concat(bits, at, head, kin);
        Self::lemma_parse_head_wire(bits, cursor, record);
        let c3: nat = cursor + head.len();
        let c4: nat = c3 + kin.len();
        let c5: nat = c4 + dr.len();
        let blank = Self::bare(record.units, record.full_update_flag, record.entity_id);
        let moving = blank.with_kinematics_of(record);
        let reckoned = moving.with_dead_reckoning_of(record);
        Self::lemma_parse_kinematics_wire(bits, c3, blank, record);
        Self::lemma_parse_dead_reckoning_wire(bits, c4, moving, record);
        Self::lemma_parse_tail_wire(bits, c5, reckoned, record);
        assert(reckoned.with_tail_of(record) == record);
    }

    /// The head of a record is found wherever its wire form stands.
    pub proof fn lemma_parse_head_wire(bits: Seq<bool>, cursor: nat, record: EntityStateView)
        requires
            record.entity_id.wf(),
            holds_at(bits, cursor as int, record.head_bits()),
        ensures
            spec_read_flags(bits, cursor, FIELDS_PRESENT_LENGTH as nat) == Ok::<
                (Seq<bool>, nat),
                CdisError,
            >((record.presence(), cursor + 12)),
            spec_read_fixed(bits, cursor + 12, 1) == Ok::<(nat, nat), CdisError>(
                (units_bit(record.units), cursor + 13),
            ),
            spec_read_fixed(bits, cursor + 13, 1) == Ok::<(nat, nat), CdisError>(
                (flag_bit(record.full_update_flag), cursor + 14),
            ),
            EntityId::spec_parse(bits, cursor + 14) == Ok::<(EntityId, nat), CdisError>(
                (record.entity_id, cursor + record.head_bits().len()),
            ),
    {
        let at = cursor as int;
        lemma2_to64();
        let flags = record.presence();
        let u = bits_of(units_bit(record.units), 1);
        let f = bits_of(flag_bit(record.full_update_flag), 1);
        let id = record.entity_id.wire_bits();
        lemma_bits_of_len(units_bit(record.units), 1);
        lemma_bits_of_len(flag_bit(record.full_update_flag), 1);
        lemma_holds_concat(bits, at, flags + u + f, id);
        lemma_holds_concat(bits, at, flags + u, f);
        lemma_holds_concat(bits, at, flags, u);
        lemma_read_flags_wire(bits, cursor, flags);
        lemma_read_fixed_wire(bits, cursor + 12, 1, units_bit(record.units));
        lemma_read_fixed_wire(bits, cursor + 13, 1, flag_bit(record.full_update_flag));
        EntityId::lemma_parse_wire(bits, cursor + 14, record.entity_id);
    }

    /// The optional fields from the force identifier to the appearance are
    /// found wherever their wire form stands.
    #[verifier::rlimit(50)]
    pub proof fn lemma_parse_kinematics_wire(
        bits: Seq<bool>,
        cursor: nat,
        partial: EntityStateView,
        record: EntityStateView,
    )
        requires
            record.kinematics_wf(),
            holds_at(bits, cursor as int, record.kinematics_bits()),
        ensures
            Self::spec_parse_kinematics(bits, cursor, record.presence(), partial) == Ok::<
                (EntityStateView, nat),
                CdisError,
            >((partial.with_kinematics_of(record), cursor + record.kinematics_bits().len())),
    {
        reveal(EntityStateView::spec_parse_kinematics);
        let at = cursor as int;
        let b0 = optional_bits(record.force_id);
        let b1 = optional_bits(record.entity_type);
        let b2 = optional_bits(record.alternate_entity_type);
        let b3 = optional_bits(record.entity_linear_velocity);
        let b4 = optional_bits(record.entity_location);
        let b5 = optional_bits(record.entity_orientation);
        let b6 = optional_bits(record.entity_appearance);
        lemma_holds_concat(bits, at, b0 + b1 + b2 + b3 + b4 + b5, b6);
        lemma_holds_concat(bits, at, b0 + b1 + b2 + b3 + b4, b5);
        lemma_holds_concat(bits, at, b0 + b1 + b2 + b3, b4);
        lemma_holds_concat(bits, at, b0 + b1 + b2, b3);
        lemma_holds_concat(bits, at, b0 + b1, b2);
        lemma_holds_concat(bits, at, b0, b1);
        lemma_parse_optional_wire::<UVINT8>(bits, cursor, record.force_id);
        lemma_parse_optional_wire::<EntityType>(bits, cursor + b0.len(), record.entity_type);
        lemma_parse_optional_wire::<EntityType>(bits, cursor + b0.len() + b1.len(), record.alternate_entity_type);
        lemma_parse_optional_wire::<LinearVelocity>(bits, cursor + b0.len() + b1.len() + b2.len(), record.entity_linear_velocity);
        lemma_parse_optional_wire::<WorldCoordinates>(bits, cursor + b0.len() + b1.len() + b2.len() + b3.len(), record.entity_location);
        lemma_parse_optional_wire::<Orientation>(bits, cursor + b0.len() + b1.len() + b2.len() + b3.len() + b4.len(), record.entity_orientation);
        lemma_parse_optional_wire::<CdisEntityAppearance>(bits, cursor + b0.len() + b1.len() + b2.len() + b3.len() + b4.len() + b5.len(), record.entity_appearance);
    }

    /// The dead-reckoning fields are found wherever their wire form stands.
    pub proof fn lemma_parse_dead_reckoning_wire(
        bits: Seq<bool>,
        cursor: nat,
        partial: EntityStateView,
        record: EntityStateView,
    )
        requires
            record.dead_reckoning_wf(),
            holds_at(bits, cursor as int, record.dead_reckoning_bits()),
        ensures
            Self::spec_parse_dead_reckoning(bits, cursor, record.presence(), partial) == Ok::<
                (EntityStateView, nat),
                CdisError,
            >(
                (
                    partial.with_dead_reckoning_of(record),
                    cursor + record.dead_reckoning_bits().len(),
                ),
            ),
    {
        reveal(EntityStateView::spec_parse_dead_reckoning);
        let at = cursor as int;
        lemma2_to64();
        let a = bits_of(record.dr_algorithm as nat, 4);
        lemma_bits_of_len(record.dr_algorithm as nat, 4);
        let e0 = optional_bits(record.dr_params_other);
        let e1 = optional_bits(record.dr_params_entity_linear_acceleration);
        let e2 = optional_bits(record.dr_params_entity_angular_velocity);
        lemma_holds_concat(bits, at, a + e0 + e1, e2);
        lemma_holds_concat(bits, at, a + e0, e1);
        lemma_holds_concat(bits, at, a, e0);
        lemma_read_fixed_wire(bits, cursor, 4, record.dr_algorithm as nat);
        lemma_parse_optional_wire::<CdisDRParametersOther>(bits, cursor + 4, record.dr_params_other);
        lemma_parse_optional_wire::<LinearAcceleration>(bits, cursor + 4 + e0.len(), record.dr_params_entity_linear_acceleration);
        lemma_parse_optional_wire::<AngularVelocity>(bits, cursor + 4 + e0.len() + e1.len(), record.dr_params_entity_angular_velocity);
    }

    /// The marking, the capabilities and the variable parameters are found
    /// wherever their wire form stands.
    pub proof fn lemma_parse_tail_wire(
        bits: Seq<bool>,
        cursor: nat,
        partial: EntityStateView,
        record: EntityStateView,
    )
        requires
            record.tail_wf(),
            holds_at(bits, cursor as int, record.tail_bits()),
        ensures
            Self::spec_parse_tail(bits, cursor, record.presence(), partial) == Ok::<
                (EntityStateView, nat),
                CdisError,
            >((partial.with_tail_of(record), cursor + record.tail_bits().len())),
    {
        reveal(EntityStateView::spec_parse_tail);
        let at = cursor as int;
        let m = marking_bits(record.entity_marking);
        let c = optional_bits(record.capabilities);
        let n = record.parameter_count().wire_bits();
        let v = sequence_bits(record.variable_parameters);
        lemma_holds_concat(bits, at, m + c + n, v);
        lemma_holds_concat(bits, at, m + c, n);
        lemma_holds_concat(bits, at, m, c);
        match record.entity_marking {
            Some(marking) => {
                CdisEntityMarkingView::lemma_parse_wire(bits, cursor, marking);
            },
            None => {},
        }
        lemma_parse_optional_wire::<CdisEntityCapabilities>(
            bits,
            cursor + m.len(),
            record.capabilities,
        );
        lemma_unsigned_ladder(8);
        UVINT8::lemma_parse_wire(bits, cursor + m.len() + c.len(), record.parameter_count());
        lemma_parse_sequence_wire::<CdisVariableParameter>(
            bits,
            cursor + m.len() + c.len() + n.len(),
            record.variable_parameters,
        );
    }

    /// A record without any optional field has an all-zero bitmap, and its
    /// wire form is the bitmap followed by the mandatory fields and the
    /// variable parameters behind their count.
    pub proof fn lemma_bitmap_only(record: EntityStateView)
        requires
            count_present(record.presence()) == 0,
        ensures
            value_of(record.presence()) == 0,
            record.wire_bits() == record.presence() + bits_of(units_bit(record.units), 1) + bits_of(
                flag_bit(record.full_update_flag),
                1,
            ) + record.entity_id.wire_bits() + bits_of(record.dr_algorithm as nat, 4)
                + record.parameter_count().wire_bits() + sequence_bits(record.variable_parameters),
            record.wire_bits().len() == FIELDS_PRESENT_LENGTH + 2
                + record.entity_id.wire_bits().len() + 4
                + record.parameter_count().wire_bits().len() + sequence_bits(
                record.variable_parameters,
            ).len(),
    {
        reveal(EntityStateView::wf);
        reveal(EntityStateView::wire_bits);
        lemma_none_present(record.presence());
        let flags = record.presence();
        assert(!flags[0]);
        assert(!flags[1]);
        assert(!flags[2]);
        assert(!flags[3]);
        assert(!flags[4]);
        assert(!flags[5]);
        assert(!flags[6]);
        assert(!flags[7]);
        assert(!flags[8]);
        assert(!flags[9]);
        assert(!flags[10]);
        assert(!flags[11]);
        lemma_bits_of_len(units_bit(record.units), 1);
        lemma_bits_of_len(flag_bit(record.full_update_flag), 1);
        lemma_bits_of_len(record.dr_algorithm as nat, 4);
        assert(record.kinematics_bits() =~= Seq::<bool>::empty());
        assert(record.dead_reckoning_bits() =~= bits_of(record.dr_algorithm as nat, 4));
        assert(record.tail_bits() =~= record.parameter_count().wire_bits() + sequence_bits(
            record.variable_parameters,
        ));
        assert(record.wire_bits() =~= record.presence() + bits_of(units_bit(record.units), 1)
            + bits_of(flag_bit(record.full_update_flag), 1) + record.entity_id.wire_bits()
            + bits_of(record.dr_algorithm as nat, 4) + record.parameter_count().wire_bits()
            + sequence_bits(record.variable_parameters));
    }

    /// The bitmap has as many 1-bits as the record has optional fields with a
    /// value, and written in as many bits as there are optional fields it
    /// spells the presence flags one by one.
    pub proof fn lemma_fields_present_consistency(record: EntityStateView)
        ensures
            record.presence().len() == FIELDS_PRESENT_LENGTH,
            popcount(value_of(record.presence())) == count_present(record.presence()),
            bits_of(value_of(record.presence()), FIELDS_PRESENT_LENGTH as nat)
                == record.presence(),
    {
        lemma_popcount_value_of(record.presence());
        lemma_bitmap_bits(record.presence());
    }

    /// A well-formed record that was written into a bit string is found where
    /// it was written, in every field, and the cursor after it is the one the
    /// write returned.
    pub proof fn lemma_parse_after_write(bits: Seq<bool>, cursor: nat, record: EntityStateView)
        requires
            record.wf(),
            cursor + record.wire_bits().len() <= bits.len(),
        ensures
            Self::spec_parse(overwrite(bits, cursor as int, record.wire_bits()), cursor) == Ok::<
                (EntityStateView, nat),
                CdisError,
            >((record, cursor + record.wire_bits().len())),
    {
        crate::bits::lemma_overwrite_holds(bits, cursor as int, record.wire_bits());
        Self::lemma_parse_wire(overwrite(bits, cursor as int, record.wire_bits()), cursor, record);
    }

    /// A record read back from its own wire form has the presence flags it was written with.
    pub proof fn lemma_presence_round_trip(bits: Seq<bool>, cursor: nat, record: EntityStateView)
        requires
            record.wf(),
            holds_at(bits, cursor as int, record.wire_bits()),
        ensures
            Self::spec_parse(bits, cursor) is Ok,
            Self::spec_parse(bits, cursor)->Ok_0.0.presence() == record.presence(),
    {
        Self::lemma_parse_wire(bits, cursor, record);
    }
}

impl View for EntityState {
    type V = EntityStateView;

    open spec fn view(&self) -> EntityStateView {
        EntityStateView {
            units: self.units,
            full_update_flag: self.full_update_flag,
            entity_id: self.entity_id,
            force_id: self.force_id,
            entity_type: self.entity_type,
            alternate_entity_type: self.alternate_entity_type,
            entity_linear_velocity: self.entity_linear_velocity,
            entity_location: self.entity_location,
            entity_orientation: self.entity_orientation,
            entity_appearance: self.entity_appearance,
            dr_algorithm: self.dr_algorithm,
            dr_params_other: self.dr_params_other,
            dr_params_entity_linear_acceleration: self.dr_params_entity_linear_acceleration,
            dr_params_entity_angular_velocity: self.dr_params_entity_angular_velocity,
            entity_marking: marking_view(self.entity_marking),
            capabilities: self.capabilities,
            variable_parameters: self.variable_parameters@,
        }
    }
}

impl EntityState {
    /// A record for the given entity with no optional field and no variable parameter.
    pub fn new(units: UnitsDekameters, full_update_flag: bool, entity_id: EntityId) -> (record:
        EntityState)
        ensures
            record@ == EntityStateView::bare(units, full_update_flag, entity_id),
    {
        EntityState {
            units,
            full_update_flag,
            entity_id,
            force_id: None,
            entity_type: None,
            alternate_entity_type: None,
            entity_linear_velocity: None,
            entity_location: None,
            entity_orientation: None,
            entity_appearance: None,
            dr_algorithm: 0,
            dr_params_other: None,
            dr_params_entity_linear_acceleration: None,
            dr_params_entity_angular_velocity: None,
            entity_marking: None,
            capabilities: None,
            variable_parameters: Vec::new(),
        }
    }

    /// A copy of the record, equal to it in every field.
    pub fn duplicate(&self) -> (copy: EntityState)
        ensures
            copy@ == self@,
    {
        let mut parameters: Vec<CdisVariableParameter> = Vec::new();
        let mut i: usize = 0;
        while i < self.variable_parameters.len()
            invariant
                i <= self.variable_parameters@.len(),
                parameters@ == self.variable_parameters@.take(i as int),
            decreases self.variable_parameters@.len() - i,
        {
            parameters.push(self.variable_parameters[i]);
            i = i + 1;
            assert(parameters@ =~= self.variable_parameters@.take(i as int));
        }
        assert(parameters@ =~= self.variable_parameters@);
        let marking = match &self.entity_marking {
            Some(m) => Some(m.duplicate()),
            None => None,
        };
        EntityState {
            units: self.units,
            full_update_flag: self.full_update_flag,
            entity_id: self.entity_id,
            force_id: self.force_id,
            entity_type: self.entity_type,
            alternate_entity_type: self.alternate_entity_type,
            entity_linear_velocity: self.entity_linear_velocity,
            entity_location: self.entity_location,
            entity_orientation: self.entity_orientation,
            entity_appearance: self.entity_appearance,
            dr_algorithm: self.dr_algorithm,
            dr_params_other: self.dr_params_other,
            dr_params_entity_linear_acceleration: self.dr_params_entity_linear_acceleration,
            dr_params_entity_angular_velocity: self.dr_params_entity_angular_velocity,
            entity_marking: marking,
            capabilities: self.capabilities,
            variable_parameters: parameters,
        }
    }

    /// Whether two optional markings are both absent or hold equal markings.
    pub fn same_marking(a: &Option<CdisEntityMarking>, b: &Option<CdisEntityMarking>) -> (same: bool)
        ensures
            same == (marking_view(*a) == marking_view(*b)),
    {
        match (a, b) {
            (Some(x), Some(y)) => x.same(y),
            (None, None) => true,
            _ => false,
        }
    }

    /// Whether two runs of variable parameters are equal item by item.
    pub fn same_parameters(a: &Vec<CdisVariableParameter>, b: &Vec<CdisVariableParameter>) -> (same:
        bool)
        ensures
            same == (a@ == b@),
    {
        if a.len() != b.len() {
            return false;
        }
        let mut i: usize = 0;
        while i < a.len()
            invariant
                i <= a@.len(),
                a@.len() == b@.len(),
                a@.take(i as int) == b@.take(i as int),
            decreases a@.len() - i,
        {
            if !a[i].same(&b[i]) {
                assert(a@[i as int] != b@[i as int]);
                return false;
            }
            i = i + 1;
            assert(a@.take(i as int) =~= a@.take(i - 1).push(a@[i - 1]));
            assert(b@.take(i as int) =~= b@.take(i - 1).push(b@[i - 1]));
        }
        assert(a@.take(i as int) =~= a@);
        assert(b@.take(i as int) =~= b@);
        true
    }

    fn same_kinematics(&self, other: &EntityState) -> (same: bool)
        ensures
            same == (self@.with_kinematics_of(other@) == self@),
    {
        optional_same(&self.force_id, &other.force_id)
            && optional_same(&self.entity_type, &other.entity_type)
            && optional_same(&self.alternate_entity_type, &other.alternate_entity_type)
            && optional_same(&self.entity_linear_velocity, &other.entity_linear_velocity)
            && optional_same(&self.entity_location, &other.entity_location)
            && optional_same(&self.entity_orientation, &other.entity_orientation)
            && optional_same(&self.entity_appearance, &other.entity_appearance)
    }

    fn same_dead_reckoning(&self, other: &EntityState) -> (same: bool)
        ensures
            same == (self@.with_dead_reckoning_of(other@) == self@),
    {
        self.dr_algorithm == other.dr_algorithm && optional_same(
            &self.dr_params_other,
            &other.dr_params_other,
        ) && optional_same(
            &self.dr_params_entity_linear_acceleration,
            &other.dr_params_entity_linear_acceleration,
        ) && optional_same(
            &self.dr_params_entity_angular_velocity,
            &other.dr_params_entity_angular_velocity,
        )
    }

    fn same_tail(&self, other: &EntityState) -> (same: bool)
        ensures
            same == (self@.with_tail_of(other@) == self@),
    {
        Self::same_marking(&self.entity_marking, &other.entity_marking) && optional_same(
            &self.capabilities,
            &other.capabilities,
        ) && Self::same_parameters(&self.variable_parameters, &other.variable_parameters)
    }

    /// Whether two records are equal in every field.
    pub fn same(&self, other: &EntityState) -> (same: bool)
        ensures
            same == (self@ == other@),
    {
        let units_same = match (self.units, other.units) {
            (UnitsDekameters::Centimeter, UnitsDekameters::Centimeter) => true,
            (UnitsDekameters::Dekameter, UnitsDekameters::Dekameter) => true,
            _ => false,
        };
        let head_same = units_same && self.full_update_flag == other.full_update_flag
            && self.entity_id.same(&other.entity_id);
        let kinematics_same = self.same_kinematics(other);
        let dead_reckoning_same = self.same_dead_reckoning(other);
        let tail_same = self.same_tail(other);
        proof {
            if head_same && kinematics_same && dead_reckoning_same && tail_same {
                assert(self@ == other@);
            }
        }
        head_same && kinematics_same && dead_reckoning_same && tail_same
    }

    fn head_length(&self) -> (n: usize)
        requires
            self.entity_id.wf(),
        ensures
            n == self@.head_bits().len(),
            n <= 116,
    {
        proof {
            lemma_bits_of_len(units_bit(self.units), 1);
            lemma_bits_of_len(flag_bit(self.full_update_flag), 1);
        }
        14 + self.entity_id.bit_length()
    }

    fn kinematics_length(&self) -> (n: usize)
        requires
            self@.kinematics_wf(),
        ensures
            n == self@.kinematics_bits().len(),
            n <= 610,
    {
        let n0 = optional_length(&self.force_id);
        let n1 = optional_length(&self.entity_type);
        let n2 = optional_length(&self.alternate_entity_type);
        let n3 = optional_length(&self.entity_linear_velocity);
        let n4 = optional_length(&self.entity_location);
        let n5 = optional_length(&self.entity_orientation);
        let n6 = optional_length(&self.entity_appearance);
        n0 + n1 + n2 + n3 + n4 + n5 + n6
    }

    fn dead_reckoning_length(&self) -> (n: usize)
        requires
            self@.dead_reckoning_wf(),
        ensures
            n == self@.dead_reckoning_bits().len(),
            n <= 328,
    {
        proof {
            lemma_bits_of_len(self.dr_algorithm as nat, 4);
        }
        let n0 = optional_length(&self.dr_params_other);
        let n1 = optional_length(&self.dr_params_entity_linear_acceleration);
        let n2 = optional_length(&self.dr_params_entity_angular_velocity);
        4 + n0 + n1 + n2
    }

    fn tail_length(&self) -> (n: usize)
        requires
            self@.tail_wf(),
        ensures
            n == self@.tail_bits().len(),
            n <= 52438,
    {
        proof {
            lemma_unsigned_ladder(8);
        }
        let n0 = optional_length(&self.entity_marking);
        let n1 = optional_length(&self.capabilities);
        let count = UVINT8::new(self.variable_parameters.len() as u32);
        let n2 = count.bit_length();
        let n3 = sequence_length(&self.variable_parameters);
        n0 + n1 + n2 + n3
    }

    fn write_head(&self, buf: &mut BitBuffer, cursor: usize) -> (next: usize)
        requires
            self.entity_id.wf(),
            cursor + self@.head_bits().len() <= old(buf)@.len(),
        ensures
            next == cursor + self@.head_bits().len(),
            final(buf)@ == overwrite(old(buf)@, cursor as int, self@.head_bits()),
            final(buf)@.len() == old(buf)@.len(),
    {
        let bitmap = self.fields_present_field();
        let ghost flags = self@.presence();
        let ghost u = bits_of(units_bit(self.units), 1);
        let ghost f = bits_of(flag_bit(self.full_update_flag), 1);
        let ghost id = self.entity_id.wire_bits();
        proof {
            lemma2_to64();
            lemma_value_of_bound(flags);
            lemma_bitmap_bits(flags);
            lemma_bits_of_len(units_bit(self.units), 1);
            lemma_bits_of_len(flag_bit(self.full_update_flag), 1);
            lemma_overwrite_concat(old(buf)@, cursor as int, flags, u);
            lemma_overwrite_concat(old(buf)@, cursor as int, flags + u, f);
            lemma_overwrite_concat(old(buf)@, cursor as int, flags + u + f, id);
        }
        let next = buf.put(cursor, FIELDS_PRESENT_LENGTH, bitmap as u64);
        let units: u64 = match self.units {
            UnitsDekameters::Centimeter => 0,
            UnitsDekameters::Dekameter => 1,
        };
        let next = buf.put(next, 1, units);
        let full: u64 = if self.full_update_flag {
            1
        } else {
            0
        };
        let next = buf.put(next, 1, full);
        self.entity_id.serialize(buf, next)
    }

    fn write_kinematics(&self, buf: &mut BitBuffer, cursor: usize) -> (next: usize)
        requires
            self@.kinematics_wf(),
            cursor + self@.kinematics_bits().len() <= old(buf)@.len(),
        ensures
            next == cursor + self@.kinematics_bits().len(),
            final(buf)@ == overwrite(old(buf)@, cursor as int, self@.kinematics_bits()),
            final(buf)@.len() == old(buf)@.len(),
    {
        let ghost b0 = optional_bits(self.force_id);
        let ghost b1 = optional_bits(self.entity_type);
        let ghost b2 = optional_bits(self.alternate_entity_type);
        let ghost b3 = optional_bits(self.entity_linear_velocity);
        let ghost b4 = optional_bits(self.entity_location);
        let ghost b5 = optional_bits(self.entity_orientation);
        let ghost b6 = optional_bits(self.entity_appearance);
        proof {
            lemma_overwrite_concat(old(buf)@, cursor as int, b0, b1);
            lemma_overwrite_concat(old(buf)@, cursor as int, b0 + b1, b2);
            lemma_overwrite_concat(old(buf)@, cursor as int, b0 + b1 + b2, b3);
            lemma_overwrite_concat(old(buf)@, cursor as int, b0 + b1 + b2 + b3, b4);
            lemma_overwrite_concat(old(buf)@, cursor as int, b0 + b1 + b2 + b3 + b4, b5);
            lemma_overwrite_concat(old(buf)@, cursor as int, b0 + b1 + b2 + b3 + b4 + b5, b6);
        }
        let next = serialize_when_present(&self.force_id, buf, cursor);
        let next = serialize_when_present(&self.entity_type, buf, next);
        let next = serialize_when_present(&self.alternate_entity_type, buf, next);
        let next = serialize_when_present(&self.entity_linear_velocity, buf, next);
        let next = serialize_when_present(&self.entity_location, buf, next);
        let next = serialize_when_present(&self.entity_orientation, buf, next);
        serialize_when_present(&self.entity_appearance, buf, next)
    }

    fn write_dead_reckoning(&self, buf: &mut BitBuffer, cursor: usize) -> (next: usize)
        requires
            self@.dead_reckoning_wf(),
            cursor + self@.dead_reckoning_bits().len() <= old(buf)@.len(),
        ensures
            next == cursor + self@.dead_reckoning_bits().len(),
            final(buf)@ == overwrite(old(buf)@, cursor as int, self@.dead_reckoning_bits()),
            final(buf)@.len() == old(buf)@.len(),
    {
        let ghost a = bits_of(self.dr_algorithm as nat, 4);
        let ghost e0 = optional_bits(self.dr_params_other);
        let ghost e1 = optional_bits(self.dr_params_entity_linear_acceleration);
        let ghost e2 = optional_bits(self.dr_params_entity_angular_velocity);
        proof {
            lemma2_to64();
            lemma_bits_of_len(self.dr_algorithm as nat, 4);
            lemma_overwrite_concat(old(buf)@, cursor as int, a, e0);
            lemma_overwrite_concat(old(buf)@, cursor as int, a + e0, e1);
            lemma_overwrite_concat(old(buf)@, cursor as int, a + e0 + e1, e2);
        }
        let next = buf.put(cursor, 4, self.dr_algorithm as u64);
        let next = serialize_when_present(&self.dr_params_other, buf, next);
        let next = serialize_when_present(&self.dr_params_entity_linear_acceleration, buf, next);
        serialize_when_present(&self.dr_params_entity_angular_velocity, buf, next)
    }

    fn write_tail(&self, buf: &mut BitBuffer, cursor: usize) -> (next: usize)
        requires
            self@.tail_wf(),
            cursor + self@.tail_bits().len() <= old(buf)@.len(),
        ensures
            next == cursor + self@.tail_bits().len(),
            final(buf)@ == overwrite(old(buf)@, cursor as int, self@.tail_bits()),
            final(buf)@.len() == old(buf)@.len(),
    {
        let ghost m = marking_bits(self@.entity_marking);
        let ghost c = optional_bits(self.capabilities);
        let ghost n = self@.parameter_count().wire_bits();
        let ghost v = sequence_bits(self.variable_parameters@);
        proof {
            lemma_unsigned_ladder(8);
            lemma_overwrite_concat(old(buf)@, cursor as int, m, c);
            lemma_overwrite_concat(old(buf)@, cursor as int, m + c, n);
            lemma_overwrite_concat(old(buf)@, cursor as int, m + c + n, v);
        }
        let next = serialize_when_present(&self.entity_marking, buf, cursor);
        let next = serialize_when_present(&self.capabilities, buf, next);
        let count = UVINT8::new(self.variable_parameters.len() as u32);
        let next = count.serialize(buf, next);
        write_sequence(&self.variable_parameters, buf, next)
    }

    fn parse_kinematics(buf: &BitBuffer, cursor: usize, flags: &Vec<bool>, partial: EntityState) -> (r:
        Result<(EntityState, usize), CdisError>)
        requires
            cursor <= buf@.len(),
            flags@.len() == FIELDS_PRESENT_LENGTH,
        ensures
            match EntityStateView::spec_parse_kinematics(buf@, cursor as nat, flags@, partial@) {
                Ok((record, next)) => {
                    &&& r is Ok
                    &&& r->Ok_0.0@ == record
                    &&& r->Ok_0.1 == next
                    &&& record.kinematics_wf()
                    &&& record == partial@.with_kinematics_of(record)
                    &&& cursor <= next <= buf@.len()
                },
                Err(e) => r == Err::<(EntityState, usize), CdisError>(e),
            },
    {
        reveal(EntityStateView::spec_parse_kinematics);
        let mut record = partial;
        let (force_id, next) = parse_when_present::<UVINT8>(flags[0], buf, cursor)?;
        let (entity_type, next) = parse_when_present::<EntityType>(flags[1], buf, next)?;
        let (alternate_entity_type, next) = parse_when_present::<EntityType>(flags[2], buf, next)?;
        let (entity_linear_velocity, next) = parse_when_present::<LinearVelocity>(flags[3], buf, next)?;
        let (entity_location, next) = parse_when_present::<WorldCoordinates>(flags[4], buf, next)?;
        let (entity_orientation, next) = parse_when_present::<Orientation>(flags[5], buf, next)?;
        let (entity_appearance, next) = parse_when_present::<CdisEntityAppearance>(flags[6], buf, next)?;
        record.force_id = force_id;
        record.entity_type = entity_type;
        record.alternate_entity_type = alternate_entity_type;
        record.entity_linear_velocity = entity_linear_velocity;
        record.entity_location = entity_location;
        record.entity_orientation = entity_orientation;
        record.entity_appearance = entity_appearance;
        Ok((record, next))
    }

    fn parse_dead_reckoning(
        buf: &BitBuffer,
        cursor: usize,
        flags: &Vec<bool>,
        partial: EntityState,
    ) -> (r: Result<(EntityState, usize), CdisError>)
        requires
            cursor <= buf@.len(),
            flags@.len() == FIELDS_PRESENT_LENGTH,
        ensures
            match EntityStateView::spec_parse_dead_reckoning(
                buf@,
                cursor as nat,
                flags@,
                partial@,
            ) {
                Ok((record, next)) => {
                    &&& r is Ok
                    &&& r->Ok_0.0@ == record
                    &&& r->Ok_0.1 == next
                    &&& record.dead_reckoning_wf()
                    &&& record == partial@.with_dead_reckoning_of(record)
                    &&& cursor <= next <= buf@.len()
                },
                Err(e) => r == Err::<(EntityState, usize), CdisError>(e),
            },
    {
        proof {
            reveal(EntityStateView::spec_parse_dead_reckoning);
            lemma2_to64();
        }
        let mut record = partial;
        let (dr_algorithm, next) = read_fixed(buf, cursor, 4)?;
        let (other, next) = parse_when_present::<CdisDRParametersOther>(flags[7], buf, next)?;
        let (acceleration, next) = parse_when_present::<LinearAcceleration>(flags[8], buf, next)?;
        let (velocity, next) = parse_when_present::<AngularVelocity>(flags[9], buf, next)?;
        record.dr_algorithm = dr_algorithm as u8;
        record.dr_params_other = other;
        record.dr_params_entity_linear_acceleration = acceleration;
        record.dr_params_entity_angular_velocity = velocity;
        Ok((record, next))
    }

    fn parse_tail(buf: &BitBuffer, cursor: usize, flags: &Vec<bool>, partial: EntityState) -> (r:
        Result<(EntityState, usize), CdisError>)
        requires
            cursor <= buf@.len(),
            flags@.len() == FIELDS_PRESENT_LENGTH,
        ensures
            match EntityStateView::spec_parse_tail(buf@, cursor as nat, flags@, partial@) {
                Ok((record, next)) => {
                    &&& r is Ok
                    &&& r->Ok_0.0@ == record
                    &&& r->Ok_0.1 == next
                    &&& record.tail_wf()
                    &&& record == partial@.with_tail_of(record)
                    &&& cursor <= next <= buf@.len()
                },
                Err(e) => r == Err::<(EntityState, usize), CdisError>(e),
            },
    {
        proof {
            reveal(EntityStateView::spec_parse_tail);
            lemma_unsigned_ladder(8);
        }
        let mut record = partial;
        let (entity_marking, next) = parse_marking(flags[10], buf, cursor)?;
        let (capabilities, next) = parse_when_present::<CdisEntityCapabilities>(
            flags[11],
            buf,
            next,
        )?;
        let (count, next) = UVINT8::parse(buf, next)?;
        let (variable_parameters, next) = parse_sequence::<CdisVariableParameter>(
            buf,
            next,
            count.value as usize,
        )?;
        record.entity_marking = entity_marking;
        record.capabilities = capabilities;
        record.variable_parameters = variable_parameters;
        Ok((record, next))
    }

    /// Reads an entity state record at `cursor`.
    pub fn parse(buf: &BitBuffer, cursor: usize) -> (r: Result<(EntityState, usize), CdisError>)
        ensures
            match EntityStateView::spec_parse(buf@, cursor as nat) {
                Ok((record, next)) => {
                    &&& r is Ok
                    &&& r->Ok_0.0@ == record
                    &&& r->Ok_0.1 == next
                    &&& record.wf()
                    &&& cursor <= next <= buf@.len()
                },
                Err(e) => r == Err::<(EntityState, usize), CdisError>(e),
            },
    {
        proof {
            reveal(EntityStateView::wf);
            reveal(EntityStateView::wire_bits);
        }
        proof {
            lemma2_to64();
        }
        let (flags, next) = read_flags(buf, cursor, FIELDS_PRESENT_LENGTH)?;
        let (units, next) = read_fixed(buf, next, 1)?;
        let (full, next) = read_fixed(buf, next, 1)?;
        let (entity_id, next) = EntityId::parse(buf, next)?;
        let units = if units == 1 {
            UnitsDekameters::Dekameter
        } else {
            UnitsDekameters::Centimeter
        };
        let record = EntityState::new(units, full == 1, entity_id);
        let (record, next) = Self::parse_kinematics(buf, next, &flags, record)?;
        let (record, next) = Self::parse_dead_reckoning(buf, next, &flags, record)?;
        let (record, next) = Self::parse_tail(buf, next, &flags, record)?;
        Ok((record, next))
    }
}

impl SerializeCdis for EntityState {
    open spec fn max_bits() -> nat {
        53492
    }

    open spec fn wf(&self) -> bool {
        self@.wf()
    }

    open spec fn wire_bits(&self) -> Seq<bool> {
        self@.wire_bits()
    }

    fn is_valid(&self) -> (valid: bool) {
        proof {
            reveal(EntityStateView::wf);
            reveal(EntityStateView::wire_bits);
        }
        let kinematics = optional_is_valid(&self.force_id) && optional_is_valid(&self.entity_type) && optional_is_valid(&self.alternate_entity_type) && optional_is_valid(&self.entity_linear_velocity) && optional_is_valid(&self.entity_location) && optional_is_valid(&self.entity_orientation) && optional_is_valid(&self.entity_appearance);
        let dead_reckoning = self.dr_algorithm < 16 && optional_is_valid(&self.dr_params_other)
            && optional_is_valid(&self.dr_params_entity_linear_acceleration) && optional_is_valid(
            &self.dr_params_entity_angular_velocity,
        );
        let tail = optional_is_valid(&self.entity_marking) && optional_is_valid(&self.capabilities)
            && self.variable_parameters.len() <= MAX_VARIABLE_PARAMETERS && sequence_is_valid(
            &self.variable_parameters,
        );
        self.entity_id.is_valid() && kinematics && dead_reckoning && tail
    }

    fn bit_length(&self) -> (n: usize)
        ensures
            n <= 53492,
    {
        proof {
            reveal(EntityStateView::wf);
            reveal(EntityStateView::wire_bits);
        }
        self.head_length() + self.kinematics_length() + self.dead_reckoning_length()
            + self.tail_length()
    }

    fn serialize(&self, buf: &mut BitBuffer, cursor: usize) -> (next: usize) {
        proof {
            reveal(EntityStateView::wf);
            reveal(EntityStateView::wire_bits);
        }
        let ghost head = self@.head_bits();
        let ghost kin = self@.kinematics_bits();
        let ghost dr = self@.dead_reckoning_bits();
        let ghost tail = self@.tail_bits();
        proof {
            lemma_overwrite_concat(old(buf)@, cursor as int, head, kin);
            lemma_overwrite_concat(old(buf)@, cursor as int, head + kin, dr);
            lemma_overwrite_concat(old(buf)@, cursor as int, head + kin + dr, tail);
        }
        let next = self.write_head(buf, cursor);
        let next = self.write_kinematics(buf, next);
        let next = self.write_dead_reckoning(buf, next);
        self.write_tail(buf, next)
    }
}

impl BodyProperties for EntityState {
    open spec fn presence(&self) -> Seq<bool> {
        self@.presence()
    }

    fn fields_present_length(&self) -> (n: usize) {
        FIELDS_PRESENT_LENGTH
    }

    fn fields_present_field(&self) -> (bitmap: u16) {
        let flags: [bool; 12] = [
            self.force_id.is_some(),
            self.entity_type.is_some(),
            self.alternate_entity_type.is_some(),
            self.entity_linear_velocity.is_some(),
            self.entity_location.is_some(),
            self.entity_orientation.is_some(),
            self.entity_appearance.is_some(),
            self.dr_params_other.is_some(),
            self.dr_params_entity_linear_acceleration.is_some(),
            self.dr_params_entity_angular_velocity.is_some(),
            self.entity_marking.is_some(),
            self.capabilities.is_some(),
        ];
        assert(flags@ =~= self@.presence());
        bitmap_of(flags.as_slice())
    }

    fn body_length_bits(&self) -> (n: usize) {
        self.bit_length()
    }
}

} // verus!
