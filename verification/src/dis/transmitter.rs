//! The transmitter body and the records it is made of.

use crate::dis::enumerations::{
    PduType, TransmitterAntennaPatternReferenceSystem, TransmitterAntennaPatternType,
    TransmitterCryptoSystem, TransmitterInputSource, TransmitterMajorModulation,
    TransmitterModulationTypeSystem, TransmitterTransmitState, VariableRecordType,
};
use crate::dis::model::{
    BodyInfo, EntityId, EntityType, Interaction, Location, Orientation, PduBody, VectorF32,
};
use vstd::prelude::*;

verus! {

/// The length in octets of a transmitter body without its optional parts.
pub const BASE_TRANSMITTER_BODY_LENGTH: u16 = 104;

/// The length in octets of a beam antenna pattern.
pub const BEAM_ANTENNA_PATTERN_OCTETS: u16 = 40;

/// The length in octets of a variable transmitter parameter without its fields.
pub const BASE_VTP_RECORD_LENGTH: usize = 6;

/// The body of a transmitter packet. Bandwidth and power are single-precision
/// numbers, held as their bit patterns.
#[derive(Debug)]
pub struct Transmitter {
    pub radio_reference_id: EntityId,
    pub radio_number: u16,
    pub radio_type: EntityType,
    pub transmit_state: TransmitterTransmitState,
    pub input_source: TransmitterInputSource,
    pub antenna_location: Location,
    pub relative_antenna_location: VectorF32,
    pub antenna_pattern_type: TransmitterAntennaPatternType,
    pub frequency: u64,
    pub transmit_frequency_bandwidth: u32,
    pub power: u32,
    pub modulation_type: ModulationType,
    pub crypto_system: TransmitterCryptoSystem,
    pub crypto_key_id: CryptoKeyId,
    pub modulation_parameters: Option<Vec<u8>>,
    pub antenna_pattern: Option<BeamAntennaPattern>,
    pub variable_transmitter_parameters: Vec<VariableTransmitterParameter>,
}

/// The length in octets of a variable transmitter parameter with `fields`
/// octets of fields, padded to the next multiple of eight.
pub open spec fn spec_length_padded(fields: nat) -> nat {
    let unpadded = BASE_VTP_RECORD_LENGTH as nat + fields;
    (unpadded + (8 - unpadded % 8) % 8) as nat
}

/// The summed padded lengths of a run of variable transmitter parameters.
pub open spec fn parameters_length(items: Seq<VariableTransmitterParameter>) -> nat
    decreases items.len(),
{
    if items.len() == 0 {
        0
    } else {
        parameters_length(items.drop_last()) + spec_length_padded(items.last().fields@.len())
    }
}

/// `total + extra`, saturated to what a 16-bit length can hold.
pub(crate) fn add_capped(total: usize, extra: usize) -> (sum: usize)
    requires
        total <= 0xffff,
    ensures
        sum == if total + extra > 0xffff {
            0xffff
        } else {
            total + extra
        },
{
    if extra > 0xffff - total {
        0xffff
    } else {
        total + extra
    }
}

impl Default for Transmitter {
    fn default() -> (body: Transmitter)
        ensures
            body.is_default(),
    {
        Self::new()
    }
}

impl Transmitter {
    /// Whether the body is the default one: every number zero, no optional
    /// part and no variable parameter.
    pub open spec fn is_default(&self) -> bool {
        &&& self.radio_reference_id == (EntityId { site: 0, application: 0, entity: 0 })
        &&& self.radio_number == 0
        &&& self.radio_type == (EntityType {
            kind: 0,
            domain: 0,
            country: 0,
            category: 0,
            subcategory: 0,
            specific: 0,
            extra: 0,
        })
        &&& self.transmit_state == TransmitterTransmitState(0)
        &&& self.input_source == TransmitterInputSource(0)
        &&& self.antenna_location == (Location { x_coordinate: 0, y_coordinate: 0, z_coordinate: 0 })
        &&& self.relative_antenna_location == (VectorF32 {
            first_vector_component: 0,
            second_vector_component: 0,
            third_vector_component: 0,
        })
        &&& self.antenna_pattern_type == TransmitterAntennaPatternType(0)
        &&& self.frequency == 0
        &&& self.transmit_frequency_bandwidth == 0
        &&& self.power == 0
        &&& self.modulation_type.is_default()
        &&& self.crypto_system == TransmitterCryptoSystem(0)
        &&& self.crypto_key_id == (CryptoKeyId {
            pseudo_crypto_key: 0,
            crypto_mode: CryptoMode::Baseband,
        })
        &&& self.modulation_parameters.is_none()
        &&& self.antenna_pattern.is_none()
        &&& self.variable_transmitter_parameters@.len() == 0
    }

    /// The default body.
    pub fn new() -> (body: Transmitter)
        ensures
            body.is_default(),
    {
        Transmitter {
            radio_reference_id: EntityId::default(),
            radio_number: 0,
            radio_type: EntityType::default(),
            transmit_state: TransmitterTransmitState(0),
            input_source: TransmitterInputSource(0),
            antenna_location: Location::default(),
            relative_antenna_location: VectorF32::default(),
            antenna_pattern_type: TransmitterAntennaPatternType(0),
            frequency: 0,
            transmit_frequency_bandwidth: 0,
            power: 0,
            modulation_type: ModulationType::new(),
            crypto_system: TransmitterCryptoSystem(0),
            crypto_key_id: CryptoKeyId { pseudo_crypto_key: 0, crypto_mode: CryptoMode::Baseband },
            modulation_parameters: None,
            antenna_pattern: None,
            variable_transmitter_parameters: Vec::new(),
        }
    }

    /// The body as the body of a packet.
    pub fn into_pdu_body(self) -> (body: PduBody)
        ensures
            body == PduBody::Transmitter(self),
    {
        PduBody::Transmitter(self)
    }

    /// The number of octets of the modulation parameters, none when absent.
    pub open spec fn modulation_length(&self) -> nat {
        match self.modulation_parameters {
            Some(parameters) => parameters@.len(),
            None => 0,
        }
    }

    /// The number of octets of the antenna pattern, none when absent.
    pub open spec fn antenna_length(&self) -> nat {
        if self.antenna_pattern.is_some() {
            BEAM_ANTENNA_PATTERN_OCTETS as nat
        } else {
            0
        }
    }
}

impl BodyInfo for Transmitter {
    /// The fixed part, the modulation parameters, the antenna pattern and the
    /// padded variable transmitter parameters.
    open spec fn spec_body_length(&self) -> nat {
        BASE_TRANSMITTER_BODY_LENGTH as nat + self.modulation_length() + self.antenna_length()
            + parameters_length(self.variable_transmitter_parameters@)
    }

    fn body_length(&self) -> (octets: u16) {
        let modulation = match &self.modulation_parameters {
            Some(parameters) => parameters.len(),
            None => 0,
        };
        let antenna: usize = match &self.antenna_pattern {
            Some(_) => BEAM_ANTENNA_PATTERN_OCTETS as usize,
            None => 0,
        };
        let mut total = add_capped(BASE_TRANSMITTER_BODY_LENGTH as usize, modulation);
        total = add_capped(total, antenna);
        let ghost fixed = BASE_TRANSMITTER_BODY_LENGTH as nat + self.modulation_length()
            + self.antenna_length();
        let mut i: usize = 0;
        while i < self.variable_transmitter_parameters.len()
            invariant
                i <= self.variable_transmitter_parameters@.len(),
                fixed == BASE_TRANSMITTER_BODY_LENGTH as nat + self.modulation_length()
                    + self.antenna_length(),
                total == if fixed + parameters_length(
                    self.variable_transmitter_parameters@.take(i as int),
                ) > 0xffff {
                    0xffff
                } else {
                    fixed + parameters_length(self.variable_transmitter_parameters@.take(i as int))
                },
            decreases self.variable_transmitter_parameters@.len() - i,
        {
            let fields = self.variable_transmitter_parameters[i].fields.len();
            proof {
                assert(self.variable_transmitter_parameters@.take(i + 1).drop_last()
                    =~= self.variable_transmitter_parameters@.take(i as int));
            }
            let padded = if fields > 0xffff {
                0xffff
            } else {
                self.variable_transmitter_parameters[i].length_padded()
            };
            total = add_capped(total, padded);
            i = i + 1;
        }
        proof {
            assert(self.variable_transmitter_parameters@.take(i as int)
                =~= self.variable_transmitter_parameters@);
        }
        total as u16
    }

    open spec fn spec_body_type(&self) -> PduType {
        PduType::Transmitter
    }

    fn body_type(&self) -> (t: PduType) {
        PduType::Transmitter
    }
}

impl Interaction for Transmitter {
    open spec fn spec_originator(&self) -> Option<EntityId> {
        Some(self.radio_reference_id)
    }

    open spec fn spec_receiver(&self) -> Option<EntityId> {
        None
    }

    fn originator(&self) -> (id: Option<&EntityId>) {
        Some(&self.radio_reference_id)
    }

    fn receiver(&self) -> (id: Option<&EntityId>) {
        None
    }
}

/// The kind of modulation of a transmission.
#[derive(Clone, Copy, Debug, PartialEq, Eq, Structural)]
pub struct ModulationType {
    pub spread_spectrum: SpreadSpectrum,
    pub major_modulation: TransmitterMajorModulation,
    pub radio_system: TransmitterModulationTypeSystem,
}

impl Default for ModulationType {
    fn default() -> (m: ModulationType)
        ensures
            m.is_default(),
    {
        Self::new()
    }
}

impl ModulationType {
    pub open spec fn is_default(&self) -> bool {
        *self == (ModulationType {
            spread_spectrum: SpreadSpectrum {
                frequency_hopping: false,
                pseudo_noise: false,
                time_hopping: false,
            },
            major_modulation: TransmitterMajorModulation(0),
            radio_system: TransmitterModulationTypeSystem(0),
        })
    }

    /// No spread spectrum, and the zero value of both enumerations.
    pub fn new() -> (m: ModulationType)
        ensures
            m.is_default(),
    {
        ModulationType {
            spread_spectrum: SpreadSpectrum::new(),
            major_modulation: TransmitterMajorModulation(0),
            radio_system: TransmitterModulationTypeSystem(0),
        }
    }

    pub fn with_spread_spectrum(self, spread_spectrum: SpreadSpectrum) -> (m: ModulationType)
        ensures
            m == (ModulationType { spread_spectrum, ..self }),
    {
        let mut m = self;
        m.spread_spectrum = spread_spectrum;
        m
    }

    pub fn with_major_modulation(self, major_modulation: TransmitterMajorModulation) -> (m:
        ModulationType)
        ensures
            m == (ModulationType { major_modulation, ..self }),
    {
        let mut m = self;
        m.major_modulation = major_modulation;
        m
    }

    pub fn with_radio_system(self, radio_system: TransmitterModulationTypeSystem) -> (m:
        ModulationType)
        ensures
            m == (ModulationType { radio_system, ..self }),
    {
        let mut m = self;
        m.radio_system = radio_system;
        m
    }
}

/// Which spread spectrum techniques a transmission uses.
#[derive(Clone, Copy, Debug, PartialEq, Eq, Structural)]
pub struct SpreadSpectrum {
    pub frequency_hopping: bool,
    pub pseudo_noise: bool,
    pub time_hopping: bool,
}

impl Default for SpreadSpectrum {
    fn default() -> (s: SpreadSpectrum)
        ensures
            s == (SpreadSpectrum {
                frequency_hopping: false,
                pseudo_noise: false,
                time_hopping: false,
            }),
    {
        Self::new()
    }
}

impl SpreadSpectrum {
    /// No technique in use.
    pub fn new() -> (s: SpreadSpectrum)
        ensures
            s == (SpreadSpectrum {
                frequency_hopping: false,
                pseudo_noise: false,
                time_hopping: false,
            }),
    {
        SpreadSpectrum { frequency_hopping: false, pseudo_noise: false, time_hopping: false }
    }

    pub fn new_with_values(frequency_hopping: bool, pseudo_noise: bool, time_hopping: bool) -> (s:
        SpreadSpectrum)
        ensures
            s == (SpreadSpectrum { frequency_hopping, pseudo_noise, time_hopping }),
    {
        SpreadSpectrum { frequency_hopping, pseudo_noise, time_hopping }
    }

    pub fn with_frequency_hopping(self) -> (s: SpreadSpectrum)
        ensures
            s == (SpreadSpectrum { frequency_hopping: true, ..self }),
    {
        let mut s = self;
        s.frequency_hopping = true;
        s
    }

    pub fn with_pseudo_noise(self) -> (s: SpreadSpectrum)
        ensures
            s == (SpreadSpectrum { pseudo_noise: true, ..self }),
    {
        let mut s = self;
        s.pseudo_noise = true;
        s
    }

    pub fn with_time_hopping(self) -> (s: SpreadSpectrum)
        ensures
            s == (SpreadSpectrum { time_hopping: true, ..self }),
    {
        let mut s = self;
        s.time_hopping = true;
        s
    }
}

/// The key of an encrypted transmission and the mode the key is used in.
#[derive(Clone, Copy, Debug, PartialEq, Eq, Structural)]
pub struct CryptoKeyId {
    pub pseudo_crypto_key: u16,
    pub crypto_mode: CryptoMode,
}

#[derive(Clone, Copy, Debug, PartialEq, Eq, Structural)]
pub enum CryptoMode {
    Baseband,
    Diphase,
}

impl Default for CryptoMode {
    fn default() -> (mode: CryptoMode)
        ensures
            mode == CryptoMode::Baseband,
    {
        CryptoMode::Baseband
    }
}

impl From<bool> for CryptoMode {
    fn from(value: bool) -> (mode: CryptoMode) {
        match value {
            true => CryptoMode::Diphase,
            false => CryptoMode::Baseband,
        }
    }
}

impl vstd::std_specs::convert::FromSpecImpl<bool> for CryptoMode {
    open spec fn obeys_from_spec() -> bool {
        true
    }

    /// A set bit is diphase, a clear bit is baseband.
    open spec fn from_spec(value: bool) -> CryptoMode {
        if value {
            CryptoMode::Diphase
        } else {
            CryptoMode::Baseband
        }
    }
}

/// The pattern of a beam antenna. Beamwidths, field components and phase are
/// single-precision numbers, held as their bit patterns.
#[derive(Clone, Copy, Debug, PartialEq, Eq, Structural)]
pub struct BeamAntennaPattern {
    pub beam_direction: Orientation,
    pub azimuth_beamwidth: u32,
    pub elevation_beamwidth: u32,
    pub reference_system: TransmitterAntennaPatternReferenceSystem,
    pub e_z: u32,
    pub e_x: u32,
    pub phase: u32,
}

impl Default for BeamAntennaPattern {
    fn default() -> (p: BeamAntennaPattern)
        ensures
            p.is_default(),
    {
        Self::new()
    }
}

impl BeamAntennaPattern {
    pub open spec fn is_default(&self) -> bool {
        *self == (BeamAntennaPattern {
            beam_direction: Orientation { psi: 0, theta: 0, phi: 0 },
            azimuth_beamwidth: 0,
            elevation_beamwidth: 0,
            reference_system: TransmitterAntennaPatternReferenceSystem(0),
            e_z: 0,
            e_x: 0,
            phase: 0,
        })
    }

    /// A pattern with every number zero.
    pub fn new() -> (p: BeamAntennaPattern)
        ensures
            p.is_default(),
    {
        BeamAntennaPattern {
            beam_direction: Orientation::default(),
            azimuth_beamwidth: 0,
            elevation_beamwidth: 0,
            reference_system: TransmitterAntennaPatternReferenceSystem(0),
            e_z: 0,
            e_x: 0,
            phase: 0,
        }
    }

    pub fn with_beam_direction(self, beam_direction: Orientation) -> (p: BeamAntennaPattern)
        ensures
            p == (BeamAntennaPattern { beam_direction, ..self }),
    {
        let mut p = self;
        p.beam_direction = beam_direction;
        p
    }

    pub fn with_azimuth_beamwidth(self, azimuth_beamwidth: u32) -> (p: BeamAntennaPattern)
        ensures
            p == (BeamAntennaPattern { azimuth_beamwidth, ..self }),
    {
        let mut p = self;
        p.azimuth_beamwidth = azimuth_beamwidth;
        p
    }

    pub fn with_elevation_beamwidth(self, elevation_beamwidth: u32) -> (p: BeamAntennaPattern)
        ensures
            p == (BeamAntennaPattern { elevation_beamwidth, ..self }),
    {
        let mut p = self;
        p.elevation_beamwidth = elevation_beamwidth;
        p
    }

    pub fn with_reference_system(
        self,
        reference_system: TransmitterAntennaPatternReferenceSystem,
    ) -> (p: BeamAntennaPattern)
        ensures
            p == (BeamAntennaPattern { reference_system, ..self }),
    {
        let mut p = self;
        p.reference_system = reference_system;
        p
    }

    pub fn with_e_z(self, e_z: u32) -> (p: BeamAntennaPattern)
        ensures
            p == (BeamAntennaPattern { e_z, ..self }),
    {
        let mut p = self;
        p.e_z = e_z;
        p
    }

    pub fn with_e_x(self, e_x: u32) -> (p: BeamAntennaPattern)
        ensures
            p == (BeamAntennaPattern { e_x, ..self }),
    {
        let mut p = self;
        p.e_x = e_x;
        p
    }

    pub fn with_phase(self, phase: u32) -> (p: BeamAntennaPattern)
        ensures
            p == (BeamAntennaPattern { phase, ..self }),
    {
        let mut p = self;
        p.phase = phase;
        p
    }
}

/// A variable transmitter parameter: a record type and its fields.
#[derive(Debug)]
pub struct VariableTransmitterParameter {
    pub record_type: VariableRecordType,
    pub fields: Vec<u8>,
}

impl VariableTransmitterParameter {
    /// A parameter of record type zero without fields.
    pub fn new() -> (p: VariableTransmitterParameter)
        ensures
            p.record_type == VariableRecordType(0),
            p.fields@.len() == 0,
    {
        VariableTransmitterParameter { record_type: VariableRecordType(0), fields: Vec::new() }
    }

    pub fn with_record_type(self, record_type: VariableRecordType) -> (p:
        VariableTransmitterParameter)
        ensures
            p == (VariableTransmitterParameter { record_type, ..self }),
    {
        let mut p = self;
        p.record_type = record_type;
        p
    }

    pub fn with_fields(self, fields: Vec<u8>) -> (p: VariableTransmitterParameter)
        ensures
            p == (VariableTransmitterParameter { fields, ..self }),
    {
        let mut p = self;
        p.fields = fields;
        p
    }

    /// The length of the record in octets: the six octets of its head and its
    /// fields, padded to the next multiple of eight.
    pub fn length_padded(&self) -> (octets: usize)
        requires
            self.fields@.len() + 13 <= usize::MAX,
        ensures
            octets == spec_length_padded(self.fields@.len()),
            octets % 8 == 0,
            BASE_VTP_RECORD_LENGTH + self.fields@.len() <= octets < BASE_VTP_RECORD_LENGTH
                + self.fields@.len() + 8,
    {
        let unpadded = BASE_VTP_RECORD_LENGTH + self.fields.len();
        let remainder = unpadded % 8;
        let padding = (8 - remainder) % 8;
        unpadded + padding
    }
}

} // verus!
