//! Records and traits shared by the packet bodies.

use crate::dis::acknowledge::Acknowledge;
use crate::dis::action_response::ActionResponse;
use crate::dis::entity_state::EntityState;
use crate::dis::enumerations::PduType;
use crate::dis::transmitter::Transmitter;
use vstd::prelude::*;

verus! {

/// The identifier of an entity: site, application and entity number.
#[derive(Clone, Copy, Debug, PartialEq, Eq, Structural)]
pub struct EntityId {
    pub site: u16,
    pub application: u16,
    pub entity: u16,
}

impl EntityId {
    pub fn new(site: u16, application: u16, entity: u16) -> (id: EntityId)
        ensures
            id == (EntityId { site, application, entity }),
    {
        EntityId { site, application, entity }
    }
}

impl Default for EntityId {
    fn default() -> (id: EntityId)
        ensures
            id == (EntityId { site: 0, application: 0, entity: 0 }),
    {
        EntityId { site: 0, application: 0, entity: 0 }
    }
}

/// The type of an entity.
#[derive(Clone, Copy, Debug, PartialEq, Eq, Structural)]
pub struct EntityType {
    pub kind: u8,
    pub domain: u8,
    pub country: u16,
    pub category: u8,
    pub subcategory: u8,
    pub specific: u8,
    pub extra: u8,
}

impl Default for EntityType {
    fn default() -> (t: EntityType)
        ensures
            t == (EntityType {
                kind: 0,
                domain: 0,
                country: 0,
                category: 0,
                subcategory: 0,
                specific: 0,
                extra: 0,
            }),
    {
        EntityType {
            kind: 0,
            domain: 0,
            country: 0,
            category: 0,
            subcategory: 0,
            specific: 0,
            extra: 0,
        }
    }
}

/// Three single-precision components, each as its bit pattern.
#[derive(Clone, Copy, Debug, PartialEq, Eq, Structural)]
pub struct VectorF32 {
    pub first_vector_component: u32,
    pub second_vector_component: u32,
    pub third_vector_component: u32,
}

impl VectorF32 {
    pub fn new(first: u32, second: u32, third: u32) -> (v: VectorF32)
        ensures
            v == (VectorF32 {
                first_vector_component: first,
                second_vector_component: second,
                third_vector_component: third,
            }),
    {
        VectorF32 {
            first_vector_component: first,
            second_vector_component: second,
            third_vector_component: third,
        }
    }
}

impl Default for VectorF32 {
    fn default() -> (v: VectorF32)
        ensures
            v == (VectorF32 {
                first_vector_component: 0,
                second_vector_component: 0,
                third_vector_component: 0,
            }),
    {
        VectorF32 { first_vector_component: 0, second_vector_component: 0, third_vector_component: 0 }
    }
}

/// A location in world coordinates: three double-precision components, each
/// as its bit pattern.
#[derive(Clone, Copy, Debug, PartialEq, Eq, Structural)]
pub struct Location {
    pub x_coordinate: u64,
    pub y_coordinate: u64,
    pub z_coordinate: u64,
}

impl Default for Location {
    fn default() -> (l: Location)
        ensures
            l == (Location { x_coordinate: 0, y_coordinate: 0, z_coordinate: 0 }),
    {
        Location { x_coordinate: 0, y_coordinate: 0, z_coordinate: 0 }
    }
}

/// An orientation: three single-precision Euler angles, each as its bit pattern.
#[derive(Clone, Copy, Debug, PartialEq, Eq, Structural)]
pub struct Orientation {
    pub psi: u32,
    pub theta: u32,
    pub phi: u32,
}

impl Default for Orientation {
    fn default() -> (o: Orientation)
        ensures
            o == (Orientation { psi: 0, theta: 0, phi: 0 }),
    {
        Orientation { psi: 0, theta: 0, phi: 0 }
    }
}

/// A datum of fixed size.
#[derive(Clone, Copy, Debug, PartialEq, Eq, Structural)]
pub struct FixedDatum {
    pub datum_id: u32,
    pub datum_value: u32,
}

/// A datum of variable size.
#[derive(Debug, PartialEq, Eq)]
pub struct VariableDatum {
    pub datum_id: u32,
    pub datum_value: Vec<u8>,
}

/// The body of a packet: one of a closed set of shapes.
#[derive(Debug)]
pub enum PduBody {
    EntityState(EntityState),
    Acknowledge(Acknowledge),
    ActionResponse(ActionResponse),
    Transmitter(Transmitter),
}

/// What every body can say about itself.
pub trait BodyInfo {
    /// The length of the body in octets.
    spec fn spec_body_length(&self) -> nat;

    /// The length of the body in octets, saturated to what the 16-bit length
    /// field of a packet can hold.
    fn body_length(&self) -> (octets: u16)
        ensures
            octets == if self.spec_body_length() > 0xffff {
                0xffff
            } else {
                self.spec_body_length()
            },
    ;

    spec fn spec_body_type(&self) -> PduType;

    /// The type of the packet that carries the body.
    fn body_type(&self) -> (t: PduType)
        ensures
            t == self.spec_body_type(),
    ;
}

/// The entities that a body names as its sender and its receiver.
pub trait Interaction {
    spec fn spec_originator(&self) -> Option<EntityId>;

    spec fn spec_receiver(&self) -> Option<EntityId>;

    fn originator(&self) -> (id: Option<&EntityId>)
        ensures
            match id {
                Some(e) => self.spec_originator() == Some(*e),
                None => self.spec_originator().is_none(),
            },
    ;

    fn receiver(&self) -> (id: Option<&EntityId>)
        ensures
            match id {
                Some(e) => self.spec_receiver() == Some(*e),
                None => self.spec_receiver().is_none(),
            },
    ;
}

} // verus!
