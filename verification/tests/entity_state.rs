use cdis::bit_buffer::BitBuffer;
use cdis::entity_state::{EntityState, UnitsDekameters, FIELDS_PRESENT_LENGTH};
use cdis::error::CdisError;
use cdis::fields_present::BodyProperties;
use cdis::records::{
    AngularVelocity, CdisArticulatedPart, CdisAttachedPart, CdisDRParametersOther,
    CdisEntityAppearance, CdisEntityCapabilities, CdisEntityMarking, CdisVariableParameter,
    DrParametersKind, EntityId, EntityType, LinearAcceleration, LinearVelocity, Orientation,
    WorldCoordinates,
};
use cdis::types::{SVINT12, SVINT14, SVINT16, SVINT24, UVINT16, UVINT32, UVINT8};
use cdis::writing::{try_serialize, SerializeCdis};

fn id(site: u32, application: u32, entity: u32) -> EntityId {
    EntityId::new(UVINT16::new(site), UVINT16::new(application), UVINT16::new(entity))
}

fn tank() -> EntityType {
    EntityType::new(1, 1, 153, UVINT8::new(1), UVINT8::new(2), UVINT8::new(3), UVINT8::new(0))
}

fn full_record() -> EntityState {
    let mut record = EntityState::new(UnitsDekameters::Centimeter, true, id(1, 1, 1));
    record.force_id = Some(UVINT8::new(1));
    record.entity_type = Some(tank());
    record.alternate_entity_type = Some(tank());
    record.entity_linear_velocity =
        Some(LinearVelocity::new(SVINT16::new(100), SVINT16::new(-200), SVINT16::new(3)));
    record.entity_location = Some(WorldCoordinates::new(0x1234_5678, -0x0765_4321, SVINT24::new(-12)));
    record.entity_orientation = Some(Orientation::new(-4096, 4095, 17));
    record.entity_appearance = Some(CdisEntityAppearance(0xDEAD_BEEF));
    record.dr_algorithm = 4;
    record.dr_params_other = Some(CdisDRParametersOther {
        parameters_type: 2,
        head: 0xABCD,
        x: 1,
        y: 0xFFFF_FFFF,
        z: 0x8000_0000,
    });
    record.dr_params_entity_linear_acceleration =
        Some(LinearAcceleration::new(SVINT14::new(-8192), SVINT14::new(8191), SVINT14::new(0)));
    record.dr_params_entity_angular_velocity =
        Some(AngularVelocity::new(SVINT12::new(-1), SVINT12::new(2047), SVINT12::new(-2048)));
    record.entity_marking = Some(CdisEntityMarking::new(true, vec![1, 2, 63, 0, 17]));
    record.capabilities = Some(CdisEntityCapabilities(UVINT32::new(0x1F)));
    record.variable_parameters = vec![
        CdisVariableParameter::ArticulatedPart(CdisArticulatedPart {
            change_indicator: 7,
            attachment_id: 0x1234,
            type_metric: 31,
            type_class: 4096,
            parameter_value: 0x3F80_0000,
        }),
        CdisVariableParameter::AttachedPart(CdisAttachedPart {
            detached: true,
            attachment_id: 9,
            parameter_type: 896,
            attached_part_type: tank(),
        }),
    ];
    record
}

#[test]
fn friendly_entity_without_optional_descriptors() {
    let mut record = EntityState::new(UnitsDekameters::Dekameter, true, id(1, 1, 1));
    record.force_id = Some(UVINT8::new(1));

    let mut buf = BitBuffer::new();
    let end = try_serialize(&record, &mut buf, 0).unwrap();

    // Bitmap 12; units 1; full update 1; identifier 3 x 10; force 5;
    // dead-reckoning algorithm 4; parameter count 5.
    assert_eq!(end, FIELDS_PRESENT_LENGTH + 1 + 1 + 30 + 5 + 4 + 5);
    assert_eq!(end, record.body_length_bits());
    assert_eq!(
        buf.to_bytes(8).unwrap(),
        vec![
            0b10000000, 0b0000_1_1_00, 0b00000001, 0b00000000, 0b01_000000, 0b0001_0_000,
            0b1_0000_0_00, 0b00_000000,
        ]
    );

    let (decoded, next) = EntityState::parse(&buf, 0).unwrap();
    assert_eq!(next, end);
    assert_eq!(decoded, record);
    assert!(decoded.same(&record));
}

#[test]
fn record_without_optional_fields_is_bitmap_and_mandatory_fields() {
    let record = EntityState::new(UnitsDekameters::Centimeter, false, id(300, 2, 65535));
    assert_eq!(record.fields_present_field(), 0);
    assert_eq!(record.fields_present_length(), 12);

    let mut buf = BitBuffer::new();
    let end = try_serialize(&record, &mut buf, 0).unwrap();
    // Bitmap 12; units 1; full update 1; identifier 13 + 10 + 18;
    // dead-reckoning algorithm 4; parameter count 5.
    assert_eq!(end, 12 + 2 + 41 + 4 + 5);
    let octets = buf.to_bytes(2).unwrap();
    assert_eq!(octets, vec![0b00000000, 0b0000_0_0_01]);

    let (decoded, next) = EntityState::parse(&buf, 0).unwrap();
    assert_eq!((decoded.fields_present_field(), next), (0, end));
    assert_eq!(decoded, record);
}

#[test]
fn bitmap_counts_the_fields_present() {
    let mut record = EntityState::new(UnitsDekameters::Centimeter, false, id(1, 2, 3));
    record.entity_type = Some(tank());
    record.entity_orientation = Some(Orientation::new(0, 0, 0));
    record.capabilities = Some(CdisEntityCapabilities(UVINT32::new(0)));
    let bitmap = record.fields_present_field();
    assert_eq!(bitmap, 0b0100_0100_0001);
    assert_eq!(bitmap.count_ones(), 3);

    let full = full_record();
    assert_eq!(full.fields_present_field(), 0b1111_1111_1111);
    assert_eq!(full.fields_present_field().count_ones(), 12);
}

#[test]
fn full_record_round_trips_at_an_odd_offset() {
    let record = full_record();
    assert!(record.is_valid());
    let mut buf = BitBuffer::new();
    let end = try_serialize(&record, &mut buf, 13).unwrap();
    assert_eq!(end, 13 + record.bit_length());

    let (decoded, next) = EntityState::parse(&buf, 13).unwrap();
    assert_eq!(next, end);
    assert_eq!(decoded, record);
    assert_eq!(decoded.fields_present_field(), record.fields_present_field());
    assert_eq!(decoded.duplicate(), record);
}

#[test]
fn every_single_optional_field_round_trips_alone() {
    let full = full_record();
    for bit in 0..12 {
        let mut record = EntityState::new(UnitsDekameters::Dekameter, false, id(9, 8, 7));
        match bit {
            0 => record.force_id = full.force_id,
            1 => record.entity_type = full.entity_type,
            2 => record.alternate_entity_type = full.alternate_entity_type,
            3 => record.entity_linear_velocity = full.entity_linear_velocity,
            4 => record.entity_location = full.entity_location,
            5 => record.entity_orientation = full.entity_orientation,
            6 => record.entity_appearance = full.entity_appearance,
            7 => record.dr_params_other = full.dr_params_other,
            8 => {
                record.dr_params_entity_linear_acceleration =
                    full.dr_params_entity_linear_acceleration
            }
            9 => record.dr_params_entity_angular_velocity = full.dr_params_entity_angular_velocity,
            10 => record.entity_marking = Some(CdisEntityMarking::new(false, vec![31, 0, 5])),
            _ => record.capabilities = full.capabilities,
        }
        assert_eq!(record.fields_present_field(), 1 << (11 - bit));
        let mut buf = BitBuffer::new();
        let end = try_serialize(&record, &mut buf, 0).unwrap();
        let (decoded, next) = EntityState::parse(&buf, 0).unwrap();
        assert_eq!(next, end);
        assert_eq!(decoded, record);
    }
}

#[test]
fn field_out_of_range_is_refused_and_nothing_is_written() {
    let mut record = full_record();
    record.dr_algorithm = 16;
    let mut buf = BitBuffer::new();
    assert_eq!(try_serialize(&record, &mut buf, 0), Err(CdisError::ValueOutOfRange));
    assert_eq!(buf.to_bytes(4).unwrap(), vec![0, 0, 0, 0]);

    let mut record = full_record();
    record.entity_orientation = Some(Orientation::new(4096, 0, 0));
    assert!(!record.is_valid());
    let mut record = full_record();
    record.entity_type = Some(EntityType::new(
        16,
        0,
        0,
        UVINT8::new(0),
        UVINT8::new(0),
        UVINT8::new(0),
        UVINT8::new(0),
    ));
    assert!(!record.is_valid());
    let mut record = full_record();
    record.entity_marking = Some(CdisEntityMarking::new(false, vec![32]));
    assert!(!record.is_valid());
    let mut record = full_record();
    record.entity_marking = Some(CdisEntityMarking::new(true, vec![0; 16]));
    assert!(!record.is_valid());
    let mut record = full_record();
    record.entity_location = Some(WorldCoordinates::new(0x4000_0000, 0, SVINT24::new(0)));
    assert!(!record.is_valid());
}

#[test]
fn record_that_does_not_fit_is_refused_and_nothing_is_written() {
    let record = full_record();
    let length = record.bit_length();
    let mut buf = BitBuffer::new();
    assert_eq!(try_serialize(&record, &mut buf, 96000 - length + 1), Err(CdisError::OutOfBounds));
    assert_eq!(buf.to_bytes(12000).unwrap(), vec![0u8; 12000]);
    assert_eq!(try_serialize(&record, &mut buf, 96000 - length), Ok(96000));
}

#[test]
fn unknown_parameter_designator_is_malformed() {
    let mut record = EntityState::new(UnitsDekameters::Dekameter, false, id(1, 1, 1));
    record.variable_parameters = vec![CdisVariableParameter::ArticulatedPart(
        CdisArticulatedPart {
            change_indicator: 0,
            attachment_id: 0,
            type_metric: 0,
            type_class: 0,
            parameter_value: 0,
        },
    )];
    let mut buf = BitBuffer::new();
    let end = try_serialize(&record, &mut buf, 0).unwrap();
    assert!(EntityState::parse(&buf, 0).is_ok());
    // The designator is the three bits behind the count.
    let designator_at = end - 77 - 3;
    cdis::bit_buffer::write_unsigned(&mut buf, designator_at, 3, 5).unwrap();
    assert_eq!(EntityState::parse(&buf, 0).err(), Some(CdisError::UnknownDiscriminant));
}

#[test]
fn parse_fails_where_the_buffer_ends() {
    let buf = BitBuffer::new();
    assert_eq!(EntityState::parse(&buf, 96000 - 11).err(), Some(CdisError::OutOfBounds));
    assert_eq!(EntityState::parse(&buf, 96000 - 40).err(), Some(CdisError::OutOfBounds));
    assert!(EntityState::parse(&buf, 96000 - 58).is_ok());
}

#[test]
fn kind_of_dead_reckoning_parameters_is_a_closed_set() {
    let mut other = CdisDRParametersOther { parameters_type: 0, head: 0, x: 0, y: 0, z: 0 };
    assert_eq!(other.kind(), Ok(DrParametersKind::Unused));
    other.parameters_type = 1;
    assert_eq!(other.kind(), Ok(DrParametersKind::LocalEulerAngles));
    other.parameters_type = 2;
    assert_eq!(other.kind(), Ok(DrParametersKind::WorldOrientationQuaternion));
    other.parameters_type = 3;
    assert_eq!(other.kind(), Err(CdisError::UnknownDiscriminant));
}
