//! Enumerations of the protocol, each carried as its integer encoding.
//!
//! The tables that name the values are kept outside this crate; a value that
//! no table names is as valid here as one that is named.

use vstd::prelude::*;

verus! {

#[derive(Clone, Copy, Debug, PartialEq, Eq, Structural)]
pub struct AcknowledgeFlag(pub u16);

#[derive(Clone, Copy, Debug, PartialEq, Eq, Structural)]
pub struct ResponseFlag(pub u16);

#[derive(Clone, Copy, Debug, PartialEq, Eq, Structural)]
pub struct RequestStatus(pub u32);

#[derive(Clone, Copy, Debug, PartialEq, Eq, Structural)]
pub struct ForceId(pub u8);

#[derive(Clone, Copy, Debug, PartialEq, Eq, Structural)]
pub struct EntityCapabilities(pub u32);

#[derive(Clone, Copy, Debug, PartialEq, Eq, Structural)]
pub struct EntityMarkingCharacterSet(pub u8);

#[derive(Clone, Copy, Debug, PartialEq, Eq, Structural)]
pub struct DeadReckoningAlgorithm(pub u8);

#[derive(Clone, Copy, Debug, PartialEq, Eq, Structural)]
pub struct VariableParameterRecordType(pub u8);

#[derive(Clone, Copy, Debug, PartialEq, Eq, Structural)]
pub struct AttachedParts(pub u32);

#[derive(Clone, Copy, Debug, PartialEq, Eq, Structural)]
pub struct ArticulatedPartsTypeMetric(pub u32);

#[derive(Clone, Copy, Debug, PartialEq, Eq, Structural)]
pub struct ArticulatedPartsTypeClass(pub u32);

#[derive(Clone, Copy, Debug, PartialEq, Eq, Structural)]
pub struct VariableRecordType(pub u32);

#[derive(Clone, Copy, Debug, PartialEq, Eq, Structural)]
pub struct TransmitterTransmitState(pub u8);

#[derive(Clone, Copy, Debug, PartialEq, Eq, Structural)]
pub struct TransmitterInputSource(pub u8);

#[derive(Clone, Copy, Debug, PartialEq, Eq, Structural)]
pub struct TransmitterAntennaPatternType(pub u16);

#[derive(Clone, Copy, Debug, PartialEq, Eq, Structural)]
pub struct TransmitterCryptoSystem(pub u16);

#[derive(Clone, Copy, Debug, PartialEq, Eq, Structural)]
pub struct TransmitterMajorModulation(pub u16);

#[derive(Clone, Copy, Debug, PartialEq, Eq, Structural)]
pub struct TransmitterModulationTypeSystem(pub u16);

#[derive(Clone, Copy, Debug, PartialEq, Eq, Structural)]
pub struct TransmitterAntennaPatternReferenceSystem(pub u8);

/// The type of a packet.
#[derive(Clone, Copy, Debug, PartialEq, Eq, Structural)]
pub enum PduType {
    Other,
    EntityState,
    Fire,
    Detonation,
    Acknowledge,
    ActionResponse,
    Transmitter,
    Unspecified(u8),
}

/// The force identifier of a friendly entity.
pub const FORCE_ID_FRIENDLY: u8 = 1;

/// The force identifier of an opposing entity.
pub const FORCE_ID_OPPOSING: u8 = 2;

/// The force identifier of a neutral entity.
pub const FORCE_ID_NEUTRAL: u8 = 3;

impl PduType {
    pub open spec fn spec_code(self) -> u8 {
        match self {
            PduType::Other => 0,
            PduType::EntityState => 1,
            PduType::Fire => 2,
            PduType::Detonation => 3,
            PduType::Acknowledge => 15,
            PduType::ActionResponse => 17,
            PduType::Transmitter => 25,
            PduType::Unspecified(code) => code,
        }
    }

    pub open spec fn spec_from_code(code: u8) -> PduType {
        if code == 0 {
            PduType::Other
        } else if code == 1 {
            PduType::EntityState
        } else if code == 2 {
            PduType::Fire
        } else if code == 3 {
            PduType::Detonation
        } else if code == 15 {
            PduType::Acknowledge
        } else if code == 17 {
            PduType::ActionResponse
        } else if code == 25 {
            PduType::Transmitter
        } else {
            PduType::Unspecified(code)
        }
    }

    /// The integer that stands for the type on the wire.
    pub fn code(self) -> (code: u8)
        ensures
            code == self.spec_code(),
    {
        match self {
            PduType::Other => 0,
            PduType::EntityState => 1,
            PduType::Fire => 2,
            PduType::Detonation => 3,
            PduType::Acknowledge => 15,
            PduType::ActionResponse => 17,
            PduType::Transmitter => 25,
            PduType::Unspecified(code) => code,
        }
    }

    /// The type that an integer stands for. Every integer has a type, and the
    /// code of that type is the integer again.
    pub fn from_code(code: u8) -> (t: PduType)
        ensures
            t == Self::spec_from_code(code),
            t.spec_code() == code,
    {
        if code == 0 {
            PduType::Other
        } else if code == 1 {
            PduType::EntityState
        } else if code == 2 {
            PduType::Fire
        } else if code == 3 {
            PduType::Detonation
        } else if code == 15 {
            PduType::Acknowledge
        } else if code == 17 {
            PduType::ActionResponse
        } else if code == 25 {
            PduType::Transmitter
        } else {
            PduType::Unspecified(code)
        }
    }
}

} // verus!
