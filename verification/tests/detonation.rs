use cdis::bit_buffer::BitBuffer;
use cdis::detonation::{Detonation, DetonationUnits, UnitsMeters};
use cdis::entity_state::UnitsDekameters;
use cdis::fields_present::BodyProperties;
use cdis::records::{EntityCoordinateVector, EntityId, EntityType, LinearVelocity, WorldCoordinates};
use cdis::types::{SVINT16, SVINT24, UVINT16, UVINT8};
use cdis::writing::{try_serialize, SerializeCdis};

fn detonation_without_optional_fields() -> Detonation {
    Detonation {
        units: DetonationUnits {
            world_location_altitude: UnitsDekameters::Dekameter,
            location_entity_coordinates: UnitsMeters::Centimeter,
        },
        source_entity_id: EntityId::new(UVINT16::new(1), UVINT16::new(1), UVINT16::new(1)),
        target_entity_id: EntityId::new(UVINT16::new(2), UVINT16::new(2), UVINT16::new(2)),
        exploding_entity_id: EntityId::new(UVINT16::new(1), UVINT16::new(1), UVINT16::new(2)),
        event_id: EntityId::new(UVINT16::new(1), UVINT16::new(1), UVINT16::new(3)),
        entity_linear_velocity: LinearVelocity::new(
            SVINT16::new(1),
            SVINT16::new(1),
            SVINT16::new(1),
        ),
        location_in_world_coordinates: WorldCoordinates::new(0, 0, SVINT24::new(1)),
        descriptor_entity_type: EntityType::new(
            2,
            2,
            0,
            UVINT8::new(0),
            UVINT8::new(0),
            UVINT8::new(0),
            UVINT8::new(0),
        ),
        descriptor_warhead: None,
        descriptor_fuze: None,
        descriptor_quantity: None,
        descriptor_rate: None,
        location_in_entity_coordinates: EntityCoordinateVector::new(
            SVINT16::new(0),
            SVINT16::new(0),
            SVINT16::new(0),
        ),
        detonation_results: UVINT8::new(0),
        variable_parameters: vec![],
    }
}

#[test]
fn serialize_detonation_no_fields_present() {
    let cdis_body = detonation_without_optional_fields();

    let mut buf = BitBuffer::new();
    let cursor = try_serialize(&cdis_body, &mut buf, 0).unwrap();

    assert_eq!(cursor, cdis_body.body_length_bits());
    assert_eq!(cursor, 317);
    assert_eq!(cdis_body.fields_present_field(), 0);

    let expected: [u8; 40] = [
        0b0000_1_0_00, 0b00000001, 0b00000000, 0b01_000000, 0b0001_0000, 0b000010_00,
        0b00000010, 0b00000000, 0b10_000000, 0b0001_0000, 0b000001_00, 0b00000010,
        0b00000000, 0b01_000000, 0b0001_0000, 0b000011_00, 0b00000001, 0b00000000,
        0b01_000000, 0b00010000, 0b00000000, 0b00000000, 0b00000000, 0b00000000,
        0b00000000, 0b00000000, 0b00000000, 0b00000000, 0b00000000, 0b00001001,
        0b00010000, 0b00000000, 0b00000000, 0b00000000, 0b00000000, 0b00000000,
        0b00000000, 0b00000000, 0b00000000, 0b00000000,
    ];
    // flags 4; units 1 + 1; four identifiers of 3 x 10 bits; velocity 3 x 10;
    // location 31 + 32 + 18; entity type 4 + 4 + 9 + 4 x 5; no descriptor
    // fields; entity coordinates 3 x 10; result 5; parameter count 8.
    assert_eq!(buf.to_bytes(40).unwrap(), expected.to_vec());
}

#[test]
fn detonation_optional_fields_follow_the_bitmap() {
    let mut cdis_body = detonation_without_optional_fields();
    cdis_body.descriptor_fuze = Some(0x1234);
    cdis_body.descriptor_rate = Some(7);

    assert_eq!(cdis_body.fields_present_field(), 0b0101);
    assert!(cdis_body.is_valid());
    assert_eq!(cdis_body.bit_length(), 317 + 16 + 8);
}

#[test]
fn detonation_round_trips() {
    let mut cdis_body = detonation_without_optional_fields();
    cdis_body.descriptor_warhead = Some(1000);
    cdis_body.descriptor_quantity = Some(255);
    cdis_body.detonation_results = UVINT8::new(27);
    cdis_body.location_in_entity_coordinates =
        EntityCoordinateVector::new(SVINT16::new(-32768), SVINT16::new(32767), SVINT16::new(-1));
    cdis_body.variable_parameters = vec![cdis::records::CdisVariableParameter::ArticulatedPart(
        cdis::records::CdisArticulatedPart {
            change_indicator: 1,
            attachment_id: 2,
            type_metric: 3,
            type_class: 4,
            parameter_value: 5,
        },
    )];

    let mut buf = BitBuffer::new();
    let end = try_serialize(&cdis_body, &mut buf, 3).unwrap();
    let (decoded, next) = Detonation::parse(&buf, 3).unwrap();
    assert_eq!(next, end);
    assert_eq!(decoded, cdis_body);
    assert_eq!(decoded.fields_present_field(), 0b1010);
    assert_eq!(cdis_body.duplicate(), cdis_body);

    let bare = detonation_without_optional_fields();
    let mut buf = BitBuffer::new();
    let end = try_serialize(&bare, &mut buf, 0).unwrap();
    assert_eq!(Detonation::parse(&buf, 0).unwrap(), (bare, end));
}
