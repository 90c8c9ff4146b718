use cdis::bit_buffer::{write_unsigned, BitBuffer};
use cdis::detonation::{Detonation, DetonationUnits, UnitsMeters};
use cdis::entity_state::{EntityState, UnitsDekameters};
use cdis::error::CdisError;
use cdis::pdu::{CdisBody, CdisHeader, CdisPdu, MAX_PDU_BITS};
use cdis::records::{
    CdisArticulatedPart, CdisVariableParameter, EntityId, Orientation,
};
use cdis::types::{UVINT16, UVINT8};
use cdis::wire::parse;

fn id(site: u32, application: u32, entity: u32) -> EntityId {
    EntityId::new(UVINT16::new(site), UVINT16::new(application), UVINT16::new(entity))
}

fn header() -> CdisHeader {
    CdisHeader {
        protocol_version: 1,
        exercise_id: UVINT8::new(7),
        pdu_type: 0,
        timestamp: 0x123_4567,
        length: 0,
        pdu_status: 0x80,
    }
}

fn entity_state() -> EntityState {
    let mut record = EntityState::new(UnitsDekameters::Dekameter, true, id(1, 1, 1));
    record.force_id = Some(UVINT8::new(1));
    record.entity_orientation = Some(Orientation::new(1, -1, 0));
    record
}

fn detonation() -> Detonation {
    Detonation::new(
        DetonationUnits {
            world_location_altitude: UnitsDekameters::Centimeter,
            location_entity_coordinates: UnitsMeters::Meter,
        },
        id(1, 1, 1),
        id(2, 2, 2),
        id(3, 3, 3),
        id(4, 4, 4),
    )
}

#[test]
fn finalize_sets_type_and_length() {
    let pdu = CdisPdu::finalize(header(), CdisBody::EntityState(entity_state())).unwrap();
    assert_eq!(pdu.header.pdu_type, 1);
    // Header 2 + 5 + 8 + 26 + 14 + 8; body 12 + 2 + 30 + 5 + 39 + 4 + 5.
    assert_eq!(pdu.header.length, 63 + 97);
    assert_eq!(pdu.pdu_length(), 160);
    assert!(pdu.is_valid());
    assert_eq!(pdu.header.timestamp, 0x123_4567);
    assert_eq!(pdu.header.pdu_status, 0x80);

    let pdu = CdisPdu::finalize(header(), CdisBody::Detonation(detonation())).unwrap();
    assert_eq!(pdu.header.pdu_type, 3);
    assert!(pdu.is_valid());
}

#[test]
fn packet_round_trips() {
    for body in [CdisBody::EntityState(entity_state()), CdisBody::Detonation(detonation())] {
        let pdu = CdisPdu::finalize(header(), body).unwrap();
        let mut buf = BitBuffer::new();
        let end = pdu.try_serialize(&mut buf, 5).unwrap();
        assert_eq!(end, 5 + pdu.pdu_length());
        assert_eq!(CdisPdu::parse(&buf, 5, end).unwrap(), (pdu.duplicate(), end));
        assert_eq!(CdisPdu::parse(&buf, 5, end - 1).err(), Some(CdisError::TruncatedPacket));
    }
}

#[test]
fn header_is_laid_out_field_by_field() {
    let pdu = CdisPdu::finalize(header(), CdisBody::EntityState(entity_state())).unwrap();
    let mut buf = BitBuffer::new();
    pdu.try_serialize(&mut buf, 0).unwrap();
    // Version 01; exercise 0 0111; type 0000_0001; timestamp in 26 bits;
    // length 160 in 14 bits; status 1000_0000; then the bitmap of the body.
    assert_eq!(
        buf.to_bytes(8).unwrap()[..7],
        [
            0b01_0_0111_0, 0b0000001_0, 0b10010001, 0b10100010, 0b10110011, 0b1_0000001,
            0b0100000_1,
        ]
    );
    assert_eq!(buf.to_bytes(8).unwrap()[7] >> 1, 0b0000000);
}

#[test]
fn body_without_layout_is_unsupported() {
    assert_eq!(CdisPdu::finalize(header(), CdisBody::Fire).err(), Some(CdisError::UnsupportedPdu));
    let pdu = CdisPdu { header: header(), body: CdisBody::Transmitter };
    assert!(!pdu.is_valid());
    let mut buf = BitBuffer::new();
    assert_eq!(pdu.try_serialize(&mut buf, 0), Err(CdisError::UnsupportedPdu));
    assert_eq!(CdisBody::Iff.pdu_type(), 28);
    assert_eq!(CdisBody::Collision.duplicate(), CdisBody::Collision);

    // A header that announces a packet type without a layout.
    let mut wire = CdisPdu::finalize(header(), CdisBody::EntityState(entity_state())).unwrap();
    wire.header.pdu_type = 2;
    let mut buf = BitBuffer::new();
    assert_eq!(wire.try_serialize(&mut buf, 0), Err(CdisError::ValueOutOfRange));
    wire.header.pdu_type = 1;
    let end = wire.try_serialize(&mut buf, 0).unwrap();
    write_unsigned(&mut buf, 7, 8, 2).unwrap();
    assert_eq!(CdisPdu::parse(&buf, 0, end).err(), Some(CdisError::UnsupportedPdu));
}

#[test]
fn packet_with_wrong_length_is_refused() {
    let mut pdu = CdisPdu::finalize(header(), CdisBody::EntityState(entity_state())).unwrap();
    pdu.header.length += 1;
    assert!(!pdu.is_valid());
    let mut buf = BitBuffer::new();
    assert_eq!(pdu.try_serialize(&mut buf, 0), Err(CdisError::ValueOutOfRange));

    pdu.header.length -= 1;
    let end = pdu.try_serialize(&mut buf, 0).unwrap();
    // Overwrite the length field with a smaller and with a larger claim.
    write_unsigned(&mut buf, 41, 14, 159).unwrap();
    assert_eq!(CdisPdu::parse(&buf, 0, end).err(), Some(CdisError::LengthMismatch));
    write_unsigned(&mut buf, 41, 14, 161).unwrap();
    assert_eq!(CdisPdu::parse(&buf, 0, end).err(), Some(CdisError::TruncatedPacket));
    assert_eq!(CdisPdu::parse(&buf, 0, end + 1).err(), Some(CdisError::LengthMismatch));
}

#[test]
fn packet_longer_than_the_length_field_is_refused() {
    let mut record = entity_state();
    record.variable_parameters = vec![
        CdisVariableParameter::ArticulatedPart(CdisArticulatedPart {
            change_indicator: 0,
            attachment_id: 0,
            type_metric: 0,
            type_class: 0,
            parameter_value: 0,
        });
        210
    ];
    assert!(80 * 210 > MAX_PDU_BITS);
    assert_eq!(
        CdisPdu::finalize(header(), CdisBody::EntityState(record)).err(),
        Some(CdisError::ValueOutOfRange)
    );
    let mut bad = header();
    bad.protocol_version = 4;
    assert_eq!(
        CdisPdu::finalize(bad, CdisBody::EntityState(entity_state())).err(),
        Some(CdisError::ValueOutOfRange)
    );
}

#[test]
fn run_of_octets_is_read_packet_by_packet() {
    let first = CdisPdu::finalize(header(), CdisBody::EntityState(entity_state())).unwrap();
    let second = CdisPdu::finalize(header(), CdisBody::Detonation(detonation())).unwrap();
    let mut buf = BitBuffer::new();
    let mid = first.try_serialize(&mut buf, 0).unwrap();
    let end = second.try_serialize(&mut buf, mid).unwrap();
    let octets = buf.to_bytes((end + 7) / 8).unwrap();

    assert_eq!(parse(&octets).unwrap(), vec![first.duplicate(), second.duplicate()]);
    assert_eq!(parse(&[]).unwrap(), vec![]);
    // Cut in the middle of the second packet.
    assert_eq!(parse(&octets[..octets.len() - 2]).err(), Some(CdisError::TruncatedPacket));
    // Cut in the middle of the first header.
    assert_eq!(parse(&octets[..4]).err(), Some(CdisError::TruncatedPacket));
    assert_eq!(parse(&vec![0u8; 12001]).err(), Some(CdisError::OutOfBounds));
}
