use cdis::dis::acknowledge::{Acknowledge, AcknowledgeBuilder};
use cdis::dis::action_response::{ActionResponse, ActionResponseBuilder};
use cdis::dis::entity_state::{
    DrOtherParameters, DrParameters, EntityAppearance, EntityMarking, EntityState,
    ParameterVariant, VariableParameter, ArticulatedPart,
};
use cdis::dis::enumerations::{
    AcknowledgeFlag, ArticulatedPartsTypeClass, ArticulatedPartsTypeMetric, ForceId, PduType,
    RequestStatus, ResponseFlag, TransmitterMajorModulation, TransmitterModulationTypeSystem,
    VariableParameterRecordType, VariableRecordType, FORCE_ID_FRIENDLY,
};
use cdis::dis::model::{
    BodyInfo, EntityId, EntityType, FixedDatum, Interaction, Orientation, PduBody, VariableDatum,
    VectorF32,
};
use cdis::dis::transmitter::{
    BeamAntennaPattern, CryptoMode, ModulationType, SpreadSpectrum, Transmitter,
    VariableTransmitterParameter,
};

#[test]
fn acknowledge_builder_sets_each_field() {
    let body = AcknowledgeBuilder::new()
        .with_origination_id(EntityId::new(1, 2, 3))
        .with_receiving_id(EntityId::new(4, 5, 6))
        .with_acknowledge_flag(AcknowledgeFlag(2))
        .with_response_flag(ResponseFlag(1))
        .with_request_id(55)
        .build();
    assert_eq!(
        body,
        Acknowledge {
            originating_id: EntityId::new(1, 2, 3),
            receiving_id: EntityId::new(4, 5, 6),
            acknowledge_flag: AcknowledgeFlag(2),
            response_flag: ResponseFlag(1),
            request_id: 55,
        }
    );
    assert_eq!(AcknowledgeBuilder::new().build(), Acknowledge::default());
    assert_eq!(AcknowledgeBuilder::default().build(), Acknowledge::default());
    assert_eq!(AcknowledgeBuilder::new_from_body(body).with_request_id(1).build().request_id, 1);
    assert_eq!(
        AcknowledgeBuilder::new_from_body(body).with_request_id(1).build().originating_id,
        EntityId::new(1, 2, 3)
    );
}

#[test]
fn action_response_builder_sets_each_field() {
    let body = ActionResponseBuilder::new()
        .with_origination_id(EntityId::new(10, 20, 30))
        .with_receiving_id(EntityId::new(40, 50, 60))
        .with_request_id(55)
        .with_request_status(RequestStatus(3))
        .with_fixed_datums(vec![FixedDatum { datum_id: 1, datum_value: 2 }])
        .with_variable_datums(vec![VariableDatum { datum_id: 9, datum_value: vec![1, 2, 3] }])
        .build();
    assert_eq!(body.originating_id, EntityId::new(10, 20, 30));
    assert_eq!(body.receiving_id, EntityId::new(40, 50, 60));
    assert_eq!(body.request_id, 55);
    assert_eq!(body.request_status, RequestStatus(3));
    assert_eq!(body.fixed_datum_records, vec![FixedDatum { datum_id: 1, datum_value: 2 }]);
    assert_eq!(
        body.variable_datum_records,
        vec![VariableDatum { datum_id: 9, datum_value: vec![1, 2, 3] }]
    );
    let blank: ActionResponse = ActionResponseBuilder::default().build();
    assert_eq!(blank.request_id, 0);
    assert!(blank.fixed_datum_records.is_empty() && blank.variable_datum_records.is_empty());
    let rebuilt = ActionResponseBuilder::new_from_body(body).with_request_id(56).build();
    assert_eq!((rebuilt.request_id, rebuilt.request_status), (56, RequestStatus(3)));
}

#[test]
fn modulation_and_spread_spectrum_builders() {
    let spread = SpreadSpectrum::new().with_frequency_hopping().with_time_hopping();
    assert_eq!(spread, SpreadSpectrum::new_with_values(true, false, true));
    assert_eq!(SpreadSpectrum::new().with_pseudo_noise(), SpreadSpectrum::new_with_values(false, true, false));
    assert_eq!(SpreadSpectrum::default(), SpreadSpectrum::new_with_values(false, false, false));
    let modulation = ModulationType::new()
        .with_spread_spectrum(spread)
        .with_major_modulation(TransmitterMajorModulation(3))
        .with_radio_system(TransmitterModulationTypeSystem(6));
    assert_eq!(
        modulation,
        ModulationType {
            spread_spectrum: spread,
            major_modulation: TransmitterMajorModulation(3),
            radio_system: TransmitterModulationTypeSystem(6),
        }
    );
    assert_eq!(ModulationType::default(), ModulationType::new());
    assert_eq!(CryptoMode::from(true), CryptoMode::Diphase);
    assert_eq!(CryptoMode::from(false), CryptoMode::Baseband);
    assert_eq!(CryptoMode::default(), CryptoMode::Baseband);
}

#[test]
fn beam_antenna_pattern_builder() {
    let pattern = BeamAntennaPattern::new()
        .with_beam_direction(Orientation { psi: 1, theta: 2, phi: 3 })
        .with_azimuth_beamwidth(1.5f32.to_bits())
        .with_elevation_beamwidth(2.5f32.to_bits())
        .with_e_z(4)
        .with_e_x(5)
        .with_phase(6);
    assert_eq!(f32::from_bits(pattern.azimuth_beamwidth), 1.5);
    assert_eq!(f32::from_bits(pattern.elevation_beamwidth), 2.5);
    assert_eq!(pattern.beam_direction, Orientation { psi: 1, theta: 2, phi: 3 });
    assert_eq!((pattern.e_z, pattern.e_x, pattern.phase), (4, 5, 6));
    assert_eq!(BeamAntennaPattern::default(), BeamAntennaPattern::new());
}

#[test]
fn variable_transmitter_parameter_is_padded_to_eight_octets() {
    let lengths = [(0usize, 8usize), (1, 8), (2, 8), (3, 16), (10, 16), (11, 24), (18, 24)];
    for (fields, padded) in lengths {
        let parameter = VariableTransmitterParameter::new()
            .with_record_type(VariableRecordType(4))
            .with_fields(vec![0; fields]);
        assert_eq!(parameter.length_padded(), padded);
        assert_eq!(parameter.record_type, VariableRecordType(4));
    }
    assert!(VariableTransmitterParameter::new().fields.is_empty());
}

#[test]
fn transmitter_body_length_sums_its_parts() {
    let mut body = Transmitter::new();
    assert_eq!(body.body_length(), 104);
    assert_eq!(body.body_type(), PduType::Transmitter);
    body.modulation_parameters = Some(vec![0; 10]);
    assert_eq!(body.body_length(), 114);
    body.antenna_pattern = Some(BeamAntennaPattern::new());
    assert_eq!(body.body_length(), 154);
    body.variable_transmitter_parameters = vec![
        VariableTransmitterParameter::new().with_fields(vec![0; 3]),
        VariableTransmitterParameter::new(),
    ];
    assert_eq!(body.body_length(), 154 + 16 + 8);
    body.radio_reference_id = EntityId::new(7, 8, 9);
    assert_eq!(body.originator(), Some(&EntityId::new(7, 8, 9)));
    assert_eq!(body.receiver(), None);

    body.modulation_parameters = Some(vec![0; 70000]);
    assert_eq!(body.body_length(), 0xFFFF);
    body.modulation_parameters = Some(vec![0; 0xFFFF - 104 - 40 - 24]);
    assert_eq!(body.body_length(), 0xFFFF);
    body.modulation_parameters = Some(vec![0; 0xFFFF - 104 - 40 - 24 - 1]);
    assert_eq!(body.body_length(), 0xFFFE);
    assert!(matches!(Transmitter::default().into_pdu_body(), PduBody::Transmitter(_)));
}

#[test]
fn entity_state_body_starts_from_defaults() {
    let kind = EntityType { kind: 1, domain: 2, country: 3, category: 4, subcategory: 5, specific: 6, extra: 7 };
    let body = EntityState::new(EntityId::new(1, 1, 1), ForceId(FORCE_ID_FRIENDLY), kind);
    assert_eq!(body.entity_id, EntityId::new(1, 1, 1));
    assert_eq!(body.force_id, ForceId(1));
    assert_eq!(body.entity_type, kind);
    assert_eq!(body.alternative_entity_type, EntityType::default());
    assert_eq!(body.entity_linear_velocity, VectorF32::default());
    assert_eq!(body.entity_appearance, EntityAppearance::Unspecified(0));
    assert_eq!(body.dead_reckoning_parameters, DrParameters::default());
    assert_eq!(body.dead_reckoning_parameters.other_parameters, DrOtherParameters::Unused([0; 15]));
    assert_eq!(body.entity_marking.marking_string, "default");
    assert_eq!(EntityMarking::default().marking_string, "default");
    assert_eq!(body.body_length(), 132);
    assert_eq!(body.body_type(), PduType::EntityState);
    assert_eq!(body.originator(), Some(&EntityId::new(1, 1, 1)));
    assert_eq!(body.receiver(), None);
    assert_eq!(EntityAppearance::AirPlatform(9).record(), 9);

    let parameter = VariableParameter {
        parameter_type_designator: VariableParameterRecordType(0),
        changed_attached_indicator: 0,
        articulation_attachment_id: 0,
        parameter: ParameterVariant::Articulated(ArticulatedPart {
            type_metric: ArticulatedPartsTypeMetric(1),
            type_class: ArticulatedPartsTypeClass(4096),
            parameter_value: 1.0f32.to_bits(),
        }),
    };
    let built = EntityState::builder()
        .with_entity_id(EntityId::new(2, 3, 4))
        .with_force_id(ForceId(2))
        .with_entity_type(kind)
        .with_velocity(VectorF32::new(1, 2, 3))
        .with_variable_parameter(parameter)
        .with_variable_parameter(parameter)
        .build();
    assert_eq!(built.entity_id, EntityId::new(2, 3, 4));
    assert_eq!(built.entity_linear_velocity, VectorF32::new(1, 2, 3));
    assert_eq!(built.body_length(), 132 + 32);
}

#[test]
fn packet_types_have_codes() {
    for code in 0..=255u8 {
        assert_eq!(PduType::from_code(code).code(), code);
    }
    assert_eq!(PduType::from_code(1), PduType::EntityState);
    assert_eq!(PduType::from_code(3), PduType::Detonation);
    assert_eq!(PduType::from_code(99), PduType::Unspecified(99));
}
