//! The entity state body and the records it is made of.

use crate::dis::enumerations::{
    ArticulatedPartsTypeClass, ArticulatedPartsTypeMetric, AttachedParts, DeadReckoningAlgorithm,
    EntityCapabilities, EntityMarkingCharacterSet, ForceId, PduType, VariableParameterRecordType,
};
use crate::dis::model::{
    BodyInfo, EntityId, EntityType, Interaction, Location, Orientation, VectorF32,
};
use crate::dis::transmitter::add_capped;
use vstd::prelude::*;

verus! {

/// The length in octets of an entity state body without variable parameters.
pub const BASE_ENTITY_STATE_BODY_LENGTH: u16 = 132;

/// The length in octets of one variable parameter.
pub const VARIABLE_PARAMETER_RECORD_LENGTH: u16 = 16;

/// Why an entity state body is not valid.
#[derive(Clone, Copy, Debug, PartialEq, Eq, Structural)]
pub enum EntityStateValidationError {
    SomeFieldNotOkError,
}

/// The body of an entity state packet.
#[derive(Debug)]
pub struct EntityState {
    pub entity_id: EntityId,
    pub force_id: ForceId,
    pub entity_type: EntityType,
    pub alternative_entity_type: EntityType,
    pub entity_linear_velocity: VectorF32,
    pub entity_location: Location,
    pub entity_orientation: Orientation,
    pub entity_appearance: EntityAppearance,
    pub dead_reckoning_parameters: DrParameters,
    pub entity_marking: EntityMarking,
    pub entity_capabilities: EntityCapabilities,
    pub variable_parameters: Vec<VariableParameter>,
}

/// The appearance of an entity: the 32-bit appearance record, read according
/// to the kind of entity.
#[derive(Clone, Copy, Debug, PartialEq, Eq, Structural)]
pub enum EntityAppearance {
    LandPlatform(u32),
    AirPlatform(u32),
    SurfacePlatform(u32),
    SubsurfacePlatform(u32),
    SpacePlatform(u32),
    Munition(u32),
    LifeForms(u32),
    Environmental(u32),
    CulturalFeature(u32),
    Supply(u32),
    Radio(u32),
    Expendable(u32),
    SensorEmitter(u32),
    Unspecified(u32),
}

impl Default for EntityAppearance {
    fn default() -> (appearance: EntityAppearance)
        ensures
            appearance == EntityAppearance::Unspecified(0),
    {
        EntityAppearance::Unspecified(0u32)
    }
}

impl EntityAppearance {
    pub open spec fn spec_record(self) -> u32 {
        match self {
            EntityAppearance::LandPlatform(record) => record,
            EntityAppearance::AirPlatform(record) => record,
            EntityAppearance::SurfacePlatform(record) => record,
            EntityAppearance::SubsurfacePlatform(record) => record,
            EntityAppearance::SpacePlatform(record) => record,
            EntityAppearance::Munition(record) => record,
            EntityAppearance::LifeForms(record) => record,
            EntityAppearance::Environmental(record) => record,
            EntityAppearance::CulturalFeature(record) => record,
            EntityAppearance::Supply(record) => record,
            EntityAppearance::Radio(record) => record,
            EntityAppearance::Expendable(record) => record,
            EntityAppearance::SensorEmitter(record) => record,
            EntityAppearance::Unspecified(record) => record,
        }
    }

    /// The 32-bit appearance record, whatever the kind of entity.
    pub fn record(self) -> (record: u32)
        ensures
            record == self.spec_record(),
    {
        match self {
            EntityAppearance::LandPlatform(record) => record,
            EntityAppearance::AirPlatform(record) => record,
            EntityAppearance::SurfacePlatform(record) => record,
            EntityAppearance::SubsurfacePlatform(record) => record,
            EntityAppearance::SpacePlatform(record) => record,
            EntityAppearance::Munition(record) => record,
            EntityAppearance::LifeForms(record) => record,
            EntityAppearance::Environmental(record) => record,
            EntityAppearance::CulturalFeature(record) => record,
            EntityAppearance::Supply(record) => record,
            EntityAppearance::Radio(record) => record,
            EntityAppearance::Expendable(record) => record,
            EntityAppearance::SensorEmitter(record) => record,
            EntityAppearance::Unspecified(record) => record,
        }
    }
}

/// The marking of an entity: a character set and up to eleven characters.
#[derive(Debug)]
pub struct EntityMarking {
    pub marking_character_set: EntityMarkingCharacterSet,
    pub marking_string: String,
}

impl Default for EntityMarking {
    fn default() -> (marking: EntityMarking)
        ensures
            marking.marking_character_set == EntityMarkingCharacterSet(0),
            marking.marking_string@ == "default"@,
    {
        EntityMarking {
            marking_character_set: EntityMarkingCharacterSet(0),
            marking_string: "default".to_owned(),
        }
    }
}

/// A variable parameter of an entity.
#[derive(Clone, Copy, Debug, PartialEq, Eq, Structural)]
pub struct VariableParameter {
    pub parameter_type_designator: VariableParameterRecordType,
    pub changed_attached_indicator: u8,
    pub articulation_attachment_id: u16,
    pub parameter: ParameterVariant,
}

/// The payload of a variable parameter: one of a closed set of shapes.
#[derive(Clone, Copy, Debug, PartialEq, Eq, Structural)]
pub enum ParameterVariant {
    Attached(AttachedPart),
    Articulated(ArticulatedPart),
}

#[derive(Clone, Copy, Debug, PartialEq, Eq, Structural)]
pub struct AttachedPart {
    pub parameter_type: AttachedParts,
    pub attached_part_type: EntityType,
}

/// An articulated part; the value is a single-precision number held as its bit pattern.
#[derive(Clone, Copy, Debug, PartialEq, Eq, Structural)]
pub struct ArticulatedPart {
    pub type_metric: ArticulatedPartsTypeMetric,
    pub type_class: ArticulatedPartsTypeClass,
    pub parameter_value: u32,
}

impl EntityState {
    /// Whether every field but the three given to [`EntityState::new`] has its default value.
    pub open spec fn has_defaults(&self) -> bool {
        &&& self.alternative_entity_type == (EntityType {
            kind: 0,
            domain: 0,
            country: 0,
            category: 0,
            subcategory: 0,
            specific: 0,
            extra: 0,
        })
        &&& self.entity_linear_velocity == (VectorF32 {
            first_vector_component: 0,
            second_vector_component: 0,
            third_vector_component: 0,
        })
        &&& self.entity_location == (Location { x_coordinate: 0, y_coordinate: 0, z_coordinate: 0 })
        &&& self.entity_orientation == (Orientation { psi: 0, theta: 0, phi: 0 })
        &&& self.entity_appearance == EntityAppearance::Unspecified(0)
        &&& self.dead_reckoning_parameters.is_default()
        &&& self.entity_marking.marking_character_set == EntityMarkingCharacterSet(0)
        &&& self.entity_marking.marking_string@ == "default"@
        &&& self.entity_capabilities == EntityCapabilities(0)
        &&& self.variable_parameters@.len() == 0
    }

    /// A body for the given entity, with every other field at its default.
    pub fn new(entity_id: EntityId, force_id: ForceId, entity_type: EntityType) -> (body:
        EntityState)
        ensures
            body.entity_id == entity_id,
            body.force_id == force_id,
            body.entity_type == entity_type,
            body.has_defaults(),
    {
        EntityState {
            entity_id,
            force_id,
            entity_type,
            alternative_entity_type: EntityType::default(),
            entity_linear_velocity: VectorF32::default(),
            entity_location: Location::default(),
            entity_orientation: Orientation::default(),
            entity_appearance: EntityAppearance::default(),
            dead_reckoning_parameters: DrParameters::default(),
            entity_marking: EntityMarking::default(),
            entity_capabilities: EntityCapabilities(0),
            variable_parameters: Vec::new(),
        }
    }

    /// A builder that starts from the body of entity `(0, 0, 0)` with defaults throughout.
    pub fn builder() -> (builder: EntityStateBuilder)
        ensures
            builder.0.entity_id == (EntityId { site: 0, application: 0, entity: 0 }),
            builder.0.force_id == ForceId(0),
            builder.0.has_defaults(),
    {
        EntityStateBuilder::new()
    }
}

/// Builds an entity state body field by field.
pub struct EntityStateBuilder(pub EntityState);

impl EntityStateBuilder {
    pub fn new() -> (builder: EntityStateBuilder)
        ensures
            builder.0.entity_id == (EntityId { site: 0, application: 0, entity: 0 }),
            builder.0.force_id == ForceId(0),
            builder.0.entity_type == (EntityType {
                kind: 0,
                domain: 0,
                country: 0,
                category: 0,
                subcategory: 0,
                specific: 0,
                extra: 0,
            }),
            builder.0.has_defaults(),
    {
        EntityStateBuilder(
            EntityState::new(EntityId::default(), ForceId(0), EntityType::default()),
        )
    }

    pub fn build(self) -> (body: EntityState)
        ensures
            body == self.0,
    {
        self.0
    }

    pub fn with_entity_id(self, entity_id: EntityId) -> (builder: EntityStateBuilder)
        ensures
            builder.0 == (EntityState { entity_id, ..self.0 }),
    {
        let mut builder = self;
        builder.0.entity_id = entity_id;
        builder
    }

    pub fn with_force_id(self, force_id: ForceId) -> (builder: EntityStateBuilder)
        ensures
            builder.0 == (EntityState { force_id, ..self.0 }),
    {
        let mut builder = self;
        builder.0.force_id = force_id;
        builder
    }

    pub fn with_entity_type(self, entity_type: EntityType) -> (builder: EntityStateBuilder)
        ensures
            builder.0 == (EntityState { entity_type, ..self.0 }),
    {
        let mut builder = self;
        builder.0.entity_type = entity_type;
        builder
    }

    pub fn with_velocity(self, entity_linear_velocity: VectorF32) -> (builder: EntityStateBuilder)
        ensures
            builder.0 == (EntityState { entity_linear_velocity, ..self.0 }),
    {
        let mut builder = self;
        builder.0.entity_linear_velocity = entity_linear_velocity;
        builder
    }

    pub fn with_location(self, entity_location: Location) -> (builder: EntityStateBuilder)
        ensures
            builder.0 == (EntityState { entity_location, ..self.0 }),
    {
        let mut builder = self;
        builder.0.entity_location = entity_location;
        builder
    }

    pub fn with_orientation(self, entity_orientation: Orientation) -> (builder: EntityStateBuilder)
        ensures
            builder.0 == (EntityState { entity_orientation, ..self.0 }),
    {
        let mut builder = self;
        builder.0.entity_orientation = entity_orientation;
        builder
    }

    pub fn with_variable_parameter(self, parameter: VariableParameter) -> (builder:
        EntityStateBuilder)
        ensures
            builder.0.variable_parameters@ == self.0.variable_parameters@.push(parameter),
            builder.0.entity_id == self.0.entity_id,
            builder.0.force_id == self.0.force_id,
            builder.0.entity_type == self.0.entity_type,
            builder.0.alternative_entity_type == self.0.alternative_entity_type,
            builder.0.entity_linear_velocity == self.0.entity_linear_velocity,
            builder.0.entity_location == self.0.entity_location,
            builder.0.entity_orientation == self.0.entity_orientation,
            builder.0.entity_appearance == self.0.entity_appearance,
            builder.0.dead_reckoning_parameters == self.0.dead_reckoning_parameters,
            builder.0.entity_marking == self.0.entity_marking,
            builder.0.entity_capabilities == self.0.entity_capabilities,
    {
        let mut builder = self;
        builder.0.variable_parameters.push(parameter);
        builder
    }
}

impl BodyInfo for EntityState {
    /// The fixed part and sixteen octets for each variable parameter.
    open spec fn spec_body_length(&self) -> nat {
        BASE_ENTITY_STATE_BODY_LENGTH as nat + VARIABLE_PARAMETER_RECORD_LENGTH as nat
            * self.variable_parameters@.len()
    }

    fn body_length(&self) -> (octets: u16) {
        let count = self.variable_parameters.len();
        assert(VARIABLE_PARAMETER_RECORD_LENGTH == 16 && BASE_ENTITY_STATE_BODY_LENGTH == 132);
        let total = if count > 0xfff {
            0xffff
        } else {
            add_capped(132, 16 * count)
        };
        total as u16
    }

    open spec fn spec_body_type(&self) -> PduType {
        PduType::EntityState
    }

    fn body_type(&self) -> (t: PduType) {
        PduType::EntityState
    }
}

impl Interaction for EntityState {
    open spec fn spec_originator(&self) -> Option<EntityId> {
        Some(self.entity_id)
    }

    open spec fn spec_receiver(&self) -> Option<EntityId> {
        None
    }

    fn originator(&self) -> (id: Option<&EntityId>) {
        Some(&self.entity_id)
    }

    fn receiver(&self) -> (id: Option<&EntityId>) {
        None
    }
}

/// The dead-reckoning parameters of an entity.
#[derive(Clone, Copy, Debug, PartialEq, Eq)]
pub struct DrParameters {
    pub algorithm: DeadReckoningAlgorithm,
    pub other_parameters: DrOtherParameters,
    pub linear_acceleration: VectorF32,
    pub angular_velocity: VectorF32,
}

impl DrParameters {
    pub open spec fn is_default(&self) -> bool {
        &&& self.algorithm == DeadReckoningAlgorithm(0)
        &&& self.other_parameters matches DrOtherParameters::Unused(octets)
        &&& forall|i: int| 0 <= i < 15 ==> octets[i] == 0
        &&& self.linear_acceleration == (VectorF32 {
            first_vector_component: 0,
            second_vector_component: 0,
            third_vector_component: 0,
        })
        &&& self.angular_velocity == (VectorF32 {
            first_vector_component: 0,
            second_vector_component: 0,
            third_vector_component: 0,
        })
    }
}

impl Default for DrParameters {
    fn default() -> (parameters: DrParameters)
        ensures
            parameters.is_default(),
    {
        DrParameters {
            algorithm: DeadReckoningAlgorithm(0),
            other_parameters: DrOtherParameters::default(),
            linear_acceleration: VectorF32::default(),
            angular_velocity: VectorF32::default(),
        }
    }
}

/// The additional dead-reckoning parameters: one of a closed set of shapes.
///
/// Which shape is held is independent of the dead-reckoning algorithm of the
/// record that carries it; nothing here reconciles the two.
#[derive(Clone, Copy, Debug, PartialEq, Eq)]
pub enum DrOtherParameters {
    /// No additional data: fifteen octets that are carried as they are.
    Unused([u8; 15]),
    LocalEulerAngles(DrEulerAngles),
    WorldOrientationQuaternion(DrWorldOrientationQuaternion),
}

impl Default for DrOtherParameters {
    fn default() -> (parameters: DrOtherParameters)
        ensures
            parameters matches DrOtherParameters::Unused(octets) && forall|i: int|
                0 <= i < 15 ==> octets[i] == 0,
    {
        DrOtherParameters::Unused([0u8;15])
    }
}

#[derive(Clone, Copy, Debug, PartialEq, Eq, Structural)]
pub struct DrEulerAngles {
    pub local_yaw: VectorF32,
    pub local_pitch: VectorF32,
    pub local_roll: VectorF32,
}

impl Default for DrEulerAngles {
    fn default() -> (angles: DrEulerAngles)
        ensures
            angles.local_yaw == (VectorF32 {
                first_vector_component: 0,
                second_vector_component: 0,
                third_vector_component: 0,
            }),
            angles.local_pitch == angles.local_yaw,
            angles.local_roll == angles.local_yaw,
    {
        DrEulerAngles {
            local_yaw: VectorF32::default(),
            local_pitch: VectorF32::default(),
            local_roll: VectorF32::default(),
        }
    }
}

#[derive(Clone, Copy, Debug, PartialEq, Eq, Structural)]
pub struct DrWorldOrientationQuaternion {
    pub nil: u16,
    pub x: VectorF32,
    pub y: VectorF32,
    pub z: VectorF32,
}

impl Default for DrWorldOrientationQuaternion {
    fn default() -> (quaternion: DrWorldOrientationQuaternion)
        ensures
            quaternion.nil == 0,
            quaternion.x == (VectorF32 {
                first_vector_component: 0,
                second_vector_component: 0,
                third_vector_component: 0,
            }),
            quaternion.y == quaternion.x,
            quaternion.z == quaternion.x,
    {
        DrWorldOrientationQuaternion {
            nil: 0,
            x: VectorF32::default(),
            y: VectorF32::default(),
            z: VectorF32::default(),
        }
    }
}

} // verus!
