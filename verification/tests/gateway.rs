use bytes::Bytes;
use cdis::entity_state::{EntityState, UnitsDekameters};
use cdis::error::CdisError;
use cdis::gateway::{Decoder, Encoder, GatewayMode};
use cdis::pdu::{CdisBody, CdisHeader, CdisPdu};
use cdis::records::{
    AngularVelocity, CdisDRParametersOther, CdisEntityAppearance, CdisEntityCapabilities,
    CdisEntityMarking, EntityId, EntityType, LinearAcceleration, LinearVelocity, Orientation,
    WorldCoordinates,
};
use cdis::types::{SVINT12, SVINT14, SVINT16, SVINT24, UVINT16, UVINT32, UVINT8};

fn id(site: u32, application: u32, entity: u32) -> EntityId {
    EntityId::new(UVINT16::new(site), UVINT16::new(application), UVINT16::new(entity))
}

fn full_record(entity: EntityId) -> EntityState {
    let kind = EntityType::new(1, 2, 78, UVINT8::new(1), UVINT8::new(0), UVINT8::new(0), UVINT8::new(0));
    let mut record = EntityState::new(UnitsDekameters::Dekameter, true, entity);
    record.force_id = Some(UVINT8::new(1));
    record.entity_type = Some(kind);
    record.alternate_entity_type = Some(kind);
    record.entity_linear_velocity =
        Some(LinearVelocity::new(SVINT16::new(10), SVINT16::new(0), SVINT16::new(-3)));
    record.entity_location = Some(WorldCoordinates::new(1000, -2000, SVINT24::new(30)));
    record.entity_orientation = Some(Orientation::new(1, 2, 3));
    record.entity_appearance = Some(CdisEntityAppearance(0));
    record.dr_algorithm = 2;
    record.dr_params_other =
        Some(CdisDRParametersOther { parameters_type: 0, head: 0, x: 0, y: 0, z: 0 });
    record.dr_params_entity_linear_acceleration =
        Some(LinearAcceleration::new(SVINT14::new(0), SVINT14::new(0), SVINT14::new(0)));
    record.dr_params_entity_angular_velocity =
        Some(AngularVelocity::new(SVINT12::new(0), SVINT12::new(0), SVINT12::new(0)));
    record.entity_marking = Some(CdisEntityMarking::new(true, vec![20, 1, 14, 11]));
    record.capabilities = Some(CdisEntityCapabilities(UVINT32::new(0)));
    record
}

fn header() -> CdisHeader {
    CdisHeader {
        protocol_version: 1,
        exercise_id: UVINT8::new(7),
        pdu_type: 0,
        timestamp: 0x123_4567,
        length: 0,
        pdu_status: 0,
    }
}

#[test]
fn second_packet_is_restored_from_history() {
    let mut encoder = Encoder::new(GatewayMode::PartialUpdate);
    let mut decoder = Decoder::new(GatewayMode::PartialUpdate);

    let first = full_record(id(1, 1, 1));
    let mut second = full_record(id(1, 1, 1));
    second.entity_location = Some(WorldCoordinates::new(1001, -2000, SVINT24::new(30)));

    let sent_first = encoder.encode_record(&first).unwrap();
    assert_eq!(sent_first, first);
    let sent_second = encoder.encode_record(&second).unwrap();
    assert!(!sent_second.full_update_flag);
    assert_eq!(sent_second.entity_location, second.entity_location);
    assert_eq!(sent_second.force_id, None);
    assert_eq!(sent_second.entity_type, None);
    assert_eq!(sent_second.entity_marking, None);
    assert_eq!(sent_second.capabilities, None);
    assert_eq!(sent_second.dr_algorithm, 2);
    assert_eq!(sent_second.entity_id, second.entity_id);

    let restored_first = decoder.decode_record(&sent_first).unwrap();
    assert_eq!(restored_first, first);
    let restored_second = decoder.decode_record(&sent_second).unwrap();
    assert_eq!(restored_second, second);
}

#[test]
fn differential_packet_for_unknown_entity_is_missing_history() {
    let mut encoder = Encoder::new(GatewayMode::PartialUpdate);
    let mut decoder = Decoder::new(GatewayMode::PartialUpdate);

    let first = full_record(id(1, 1, 1));
    let mut second = full_record(id(1, 1, 1));
    second.entity_orientation = Some(Orientation::new(3, 2, 1));
    encoder.encode_record(&first).unwrap();
    let sent_second = encoder.encode_record(&second).unwrap();

    assert_eq!(decoder.decode_record(&sent_second), Err(CdisError::MissingHistory));
    assert!(!decoder.knows(&id(1, 1, 1)));
}

#[test]
fn history_is_kept_per_entity() {
    let mut encoder = Encoder::new(GatewayMode::PartialUpdate);
    let mut decoder = Decoder::new(GatewayMode::PartialUpdate);

    let a = full_record(id(1, 1, 1));
    let b = full_record(id(1, 1, 2));
    let sent_a = encoder.encode_record(&a).unwrap();
    let sent_b = encoder.encode_record(&b).unwrap();
    // The second entity is new to the encoder: sent in full.
    assert_eq!(sent_b, b);
    assert!(encoder.knows(&id(1, 1, 1)) && encoder.knows(&id(1, 1, 2)));
    assert!(!encoder.knows(&id(2, 1, 1)));

    decoder.decode_record(&sent_a).unwrap();
    let mut b2 = full_record(id(1, 1, 2));
    b2.force_id = Some(UVINT8::new(2));
    let sent_b2 = encoder.encode_record(&b2).unwrap();
    // The decoder has seen entity (1,1,1) only.
    assert_eq!(decoder.decode_record(&sent_b2), Err(CdisError::MissingHistory));
    decoder.decode_record(&sent_b).unwrap();
    assert_eq!(decoder.decode_record(&sent_b2).unwrap(), b2);
}

#[test]
fn unchanged_record_is_sent_without_optional_fields() {
    let mut encoder = Encoder::new(GatewayMode::PartialUpdate);
    let mut decoder = Decoder::new(GatewayMode::PartialUpdate);
    let record = full_record(id(4, 5, 6));
    let first = encoder.encode_record(&record).unwrap();
    let again = encoder.encode_record(&record).unwrap();
    assert_eq!(again, {
        let mut bare = EntityState::new(UnitsDekameters::Dekameter, false, id(4, 5, 6));
        bare.dr_algorithm = 2;
        bare
    });
    decoder.decode_record(&first).unwrap();
    assert_eq!(decoder.decode_record(&again).unwrap(), record);
}

#[test]
fn stateless_gateway_sends_and_expects_everything() {
    let mut encoder = Encoder::new(GatewayMode::FullUpdate);
    let mut decoder = Decoder::new(GatewayMode::FullUpdate);
    assert_eq!(encoder.mode(), GatewayMode::FullUpdate);
    assert_eq!(decoder.mode(), GatewayMode::FullUpdate);

    let record = full_record(id(1, 1, 1));
    assert_eq!(encoder.encode_record(&record).unwrap(), record);
    assert_eq!(encoder.encode_record(&record).unwrap(), record);
    assert_eq!(decoder.decode_record(&record).unwrap(), record);

    let mut partial = full_record(id(1, 1, 1));
    partial.force_id = None;
    assert_eq!(decoder.decode_record(&partial), Err(CdisError::MissingHistory));
}

#[test]
fn forgotten_entity_is_sent_in_full_again() {
    let mut encoder = Encoder::new(GatewayMode::PartialUpdate);
    let mut decoder = Decoder::new(GatewayMode::PartialUpdate);
    let record = full_record(id(1, 1, 1));
    let sent = encoder.encode_record(&record).unwrap();
    decoder.decode_record(&sent).unwrap();

    encoder.forget(&id(1, 1, 1));
    assert!(!encoder.knows(&id(1, 1, 1)));
    assert_eq!(encoder.encode_record(&record).unwrap(), record);

    let differential = encoder.encode_record(&record).unwrap();
    decoder.forget(&id(1, 1, 1));
    assert_eq!(decoder.decode_record(&differential), Err(CdisError::MissingHistory));
}

#[test]
fn identifier_out_of_range_is_refused() {
    let mut encoder = Encoder::new(GatewayMode::PartialUpdate);
    let mut decoder = Decoder::new(GatewayMode::PartialUpdate);
    let mut record = full_record(id(1, 1, 1));
    record.entity_id.site = UVINT16 { value: 70000 };
    assert_eq!(encoder.encode_record(&record), Err(CdisError::ValueOutOfRange));
    assert_eq!(decoder.decode_record(&record), Err(CdisError::ValueOutOfRange));
}

#[test]
fn packets_travel_as_octets_between_encoder_and_decoder() {
    let mut encoder = Encoder::new(GatewayMode::PartialUpdate);
    let mut decoder = Decoder::new(GatewayMode::PartialUpdate);

    let first = full_record(id(1, 1, 1));
    let mut second = full_record(id(1, 1, 1));
    second.entity_location = Some(WorldCoordinates::new(1001, -2000, SVINT24::new(30)));
    let other = full_record(id(1, 1, 2));

    let pdus = vec![
        CdisPdu::finalize(header(), CdisBody::EntityState(first)).unwrap(),
        CdisPdu::finalize(header(), CdisBody::EntityState(other)).unwrap(),
        CdisPdu::finalize(header(), CdisBody::EntityState(second)).unwrap(),
    ];

    let wire = encoder.encode_buffer(&pdus).unwrap();
    // The third packet travels as header, bitmap, units and flag, identifier,
    // location, dead-reckoning algorithm and parameter count.
    let total_bits: usize =
        encoder_lengths(&pdus[0], &pdus[1]) + 63 + 12 + 2 + 30 + 81 + 4 + 5;
    assert_eq!(wire.len(), (total_bits + 7) / 8);

    let restored = decoder.decode_buffer(Bytes::from(wire)).unwrap();
    assert_eq!(restored, pdus);
}

fn encoder_lengths(a: &CdisPdu, b: &CdisPdu) -> usize {
    a.pdu_length() + b.pdu_length()
}

#[test]
fn run_of_packets_stops_at_the_first_refused() {
    let mut decoder = Decoder::new(GatewayMode::PartialUpdate);
    let mut differential = full_record(id(1, 1, 1));
    differential.force_id = None;
    differential.full_update_flag = false;
    let pdus = vec![
        CdisPdu::finalize(header(), CdisBody::EntityState(full_record(id(1, 1, 2)))).unwrap(),
        CdisPdu::finalize(header(), CdisBody::EntityState(differential)).unwrap(),
        CdisPdu::finalize(header(), CdisBody::EntityState(full_record(id(1, 1, 3)))).unwrap(),
    ];
    assert_eq!(decoder.decode_pdus(&pdus), Err(CdisError::MissingHistory));
    assert!(decoder.knows(&id(1, 1, 2)));
    assert!(!decoder.knows(&id(1, 1, 1)));
    assert!(!decoder.knows(&id(1, 1, 3)));
}
