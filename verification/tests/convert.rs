use cdis::convert::{
    decode_capabilities, decode_entity_id, decode_entity_type, decode_force_id,
    decode_other_parameters, encode_capabilities, encode_entity_id, encode_entity_type,
    encode_force_id, encode_other_parameters,
};
use cdis::dis::enumerations::{EntityCapabilities, ForceId};
use cdis::dis::model::{EntityId, EntityType};
use cdis::records::CdisDRParametersOther;
use cdis::types::{UVINT16, UVINT8};
use cdis::writing::SerializeCdis;

#[test]
fn entity_identifier_goes_there_and_back() {
    let id = EntityId::new(1, 500, 65535);
    let compressed = encode_entity_id(&id);
    assert_eq!(
        (compressed.site.value, compressed.application.value, compressed.entity.value),
        (1, 500, 65535)
    );
    assert!(compressed.is_valid());
    assert_eq!(decode_entity_id(&compressed), id);

    let mut beyond = compressed;
    beyond.site = UVINT16 { value: 70000 };
    assert_eq!(decode_entity_id(&beyond).site, 65535);
}

#[test]
fn entity_type_saturates_its_narrow_fields() {
    let kind = EntityType { kind: 3, domain: 2, country: 225, category: 1, subcategory: 200, specific: 0, extra: 255 };
    let compressed = encode_entity_type(&kind);
    assert!(compressed.is_valid());
    assert_eq!(decode_entity_type(&compressed), kind);

    let wide = EntityType { kind: 16, domain: 255, country: 512, ..kind };
    let compressed = encode_entity_type(&wide);
    assert_eq!((compressed.kind, compressed.domain, compressed.country), (15, 15, 511));
    assert!(compressed.is_valid());

    let mut beyond = compressed;
    beyond.category = UVINT8 { value: 300 };
    assert_eq!(decode_entity_type(&beyond).category, 255);
}

#[test]
fn force_and_capabilities_are_carried_as_they_are() {
    assert_eq!(encode_force_id(ForceId(3)).value, 3);
    assert_eq!(decode_force_id(&encode_force_id(ForceId(255))), ForceId(255));
    assert_eq!(decode_force_id(&UVINT8 { value: 256 }), ForceId(255));
    let capabilities = EntityCapabilities(0xFFFF_FFFF);
    assert_eq!(decode_capabilities(&encode_capabilities(capabilities)), capabilities);
}

#[test]
fn fifteen_octets_spell_the_other_parameters() {
    let octets: [u8; 15] = [2, 0xAB, 0xCD, 1, 2, 3, 4, 0xFF, 0xFE, 0xFD, 0xFC, 0x80, 0, 0, 1];
    let item = encode_other_parameters(&octets);
    assert_eq!(
        item,
        CdisDRParametersOther {
            parameters_type: 2,
            head: 0xABCD,
            x: 0x0102_0304,
            y: 0xFFFE_FDFC,
            z: 0x8000_0001,
        }
    );
    assert_eq!(decode_other_parameters(&item), octets);
}
