//! The integer fields of full-size records as fields of compressed records,
//! and back.
//!
//! A field that is narrower in the compressed record than in the full-size
//! one is saturated on the way in: a value beyond the range of the narrow
//! field is carried as the largest value of that field. Quantities that are
//! floating-point numbers in the full-size record are not converted here.

use crate::dis::enumerations::{EntityCapabilities, ForceId};
use crate::dis::model::{EntityId as DisEntityId, EntityType as DisEntityType};
use crate::records::{CdisDRParametersOther, CdisEntityCapabilities, EntityId, EntityType};
use crate::types::{lemma_unsigned_ladder, UVINT16, UVINT32, UVINT8};
use crate::writing::SerializeCdis;
use vstd::arithmetic::div_mod::lemma_fundamental_div_mod_converse;
use vstd::prelude::*;

verus! {

/// The smaller of a number and a limit.
pub open spec fn capped(value: int, limit: int) -> int {
    if value > limit {
        limit
    } else {
        value
    }
}

/// The compressed form of an entity identifier.
pub open spec fn spec_encode_entity_id(item: DisEntityId) -> EntityId {
    EntityId {
        site: UVINT16 { value: item.site as u32 },
        application: UVINT16 { value: item.application as u32 },
        entity: UVINT16 { value: item.entity as u32 },
    }
}

/// The full-size form of an entity identifier.
pub open spec fn spec_decode_entity_id(id: EntityId) -> DisEntityId {
    DisEntityId {
        site: capped(id.site.value as int, 0xffff) as u16,
        application: capped(id.application.value as int, 0xffff) as u16,
        entity: capped(id.entity.value as int, 0xffff) as u16,
    }
}

/// The compressed form of an entity type: kind and domain saturated to four
/// bits, the country to nine.
pub open spec fn spec_encode_entity_type(item: DisEntityType) -> EntityType {
    EntityType {
        kind: capped(item.kind as int, 15) as u8,
        domain: capped(item.domain as int, 15) as u8,
        country: capped(item.country as int, 511) as u16,
        category: UVINT8 { value: item.category as u32 },
        subcategory: UVINT8 { value: item.subcategory as u32 },
        specific: UVINT8 { value: item.specific as u32 },
        extra: UVINT8 { value: item.extra as u32 },
    }
}

/// The full-size form of an entity type.
pub open spec fn spec_decode_entity_type(item: EntityType) -> DisEntityType {
    DisEntityType {
        kind: item.kind,
        domain: item.domain,
        country: item.country,
        category: capped(item.category.value as int, 0xff) as u8,
        subcategory: capped(item.subcategory.value as int, 0xff) as u8,
        specific: capped(item.specific.value as int, 0xff) as u8,
        extra: capped(item.extra.value as int, 0xff) as u8,
    }
}

/// Whether an entity type can be carried without loss.
pub open spec fn entity_type_fits(item: DisEntityType) -> bool {
    item.kind <= 15 && item.domain <= 15 && item.country <= 511
}

/// The additional dead-reckoning parameters that fifteen octets spell: the
/// kind in the first octet, a 16-bit head, and three 32-bit components, each
/// most significant octet first.
pub open spec fn spec_encode_other_parameters(octets: Seq<u8>) -> CdisDRParametersOther {
    CdisDRParametersOther {
        parameters_type: octets[0],
        head: (octets[1] as int * 0x100 + octets[2] as int) as u16,
        x: (octets[3] as int * 0x100_0000 + octets[4] as int * 0x1_0000 + octets[5] as int * 0x100
            + octets[6] as int) as u32,
        y: (octets[7] as int * 0x100_0000 + octets[8] as int * 0x1_0000 + octets[9] as int * 0x100
            + octets[10] as int) as u32,
        z: (octets[11] as int * 0x100_0000 + octets[12] as int * 0x1_0000 + octets[13] as int
            * 0x100 + octets[14] as int) as u32,
    }
}

/// The fifteen octets that spell the additional dead-reckoning parameters.
pub open spec fn spec_decode_other_parameters(item: CdisDRParametersOther) -> Seq<u8> {
    seq![
        item.parameters_type,
        (item.head / 0x100) as u8,
        (item.head % 0x100) as u8,
        (item.x / 0x100_0000) as u8,
        (item.x / 0x1_0000 % 0x100) as u8,
        (item.x / 0x100 % 0x100) as u8,
        (item.x % 0x100) as u8,
        (item.y / 0x100_0000) as u8,
        (item.y / 0x1_0000 % 0x100) as u8,
        (item.y / 0x100 % 0x100) as u8,
        (item.y % 0x100) as u8,
        (item.z / 0x100_0000) as u8,
        (item.z / 0x1_0000 % 0x100) as u8,
        (item.z / 0x100 % 0x100) as u8,
        (item.z % 0x100) as u8,
    ]
}

/// An entity identifier comes back from its compressed form as it went in.
pub proof fn lemma_entity_id_round_trip(item: DisEntityId)
    ensures
        spec_encode_entity_id(item).wf(),
        spec_decode_entity_id(spec_encode_entity_id(item)) == item,
{
    lemma_unsigned_ladder(16);
}

/// An entity type whose kind, domain and country fit their narrow fields
/// comes back from its compressed form as it went in.
pub proof fn lemma_entity_type_round_trip(item: DisEntityType)
    requires
        entity_type_fits(item),
    ensures
        spec_encode_entity_type(item).wf(),
        spec_decode_entity_type(spec_encode_entity_type(item)) == item,
{
    lemma_unsigned_ladder(8);
}

/// Four octets come back from the 32-bit number they spell, most
/// significant octet first.
pub proof fn lemma_four_octets(a: u8, b: u8, c: u8, d: u8)
    ensures
        ({
            let v = a as int * 0x100_0000 + b as int * 0x1_0000 + c as int * 0x100 + d as int;
            &&& 0 <= v <= 0xffff_ffff
            &&& v / 0x100_0000 == a
            &&& v / 0x1_0000 % 0x100 == b
            &&& v / 0x100 % 0x100 == c
            &&& v % 0x100 == d
        }),
{
    let v = a as int * 0x100_0000 + b as int * 0x1_0000 + c as int * 0x100 + d as int;
    lemma_fundamental_div_mod_converse(
        v,
        0x100_0000,
        a as int,
        b as int * 0x1_0000 + c as int * 0x100 + d as int,
    );
    lemma_fundamental_div_mod_converse(
        v,
        0x1_0000,
        a as int * 0x100 + b as int,
        c as int * 0x100 + d as int,
    );
    lemma_fundamental_div_mod_converse(a as int * 0x100 + b as int, 0x100, a as int, b as int);
    lemma_fundamental_div_mod_converse(
        v,
        0x100,
        a as int * 0x1_0000 + b as int * 0x100 + c as int,
        d as int,
    );
    lemma_fundamental_div_mod_converse(
        a as int * 0x1_0000 + b as int * 0x100 + c as int,
        0x100,
        a as int * 0x100 + b as int,
        c as int,
    );
}

/// Fifteen octets come back from the additional dead-reckoning parameters
/// they spell as they went in.
pub proof fn lemma_other_parameters_round_trip(octets: Seq<u8>)
    requires
        octets.len() == 15,
    ensures
        spec_decode_other_parameters(spec_encode_other_parameters(octets)) == octets,
{
    let item = spec_encode_other_parameters(octets);
    let back = spec_decode_other_parameters(item);
    lemma_four_octets(0, 0, octets[1], octets[2]);
    lemma_four_octets(octets[3], octets[4], octets[5], octets[6]);
    lemma_four_octets(octets[7], octets[8], octets[9], octets[10]);
    lemma_four_octets(octets[11], octets[12], octets[13], octets[14]);
    assert(back.len() == 15);
    assert(back[0] == octets[0]);
    assert(back[1] == octets[1] && back[2] == octets[2]);
    assert(back[3] == octets[3] && back[4] == octets[4] && back[5] == octets[5] && back[6]
        == octets[6]);
    assert(back[7] == octets[7] && back[8] == octets[8] && back[9] == octets[9] && back[10]
        == octets[10]);
    assert(back[11] == octets[11] && back[12] == octets[12] && back[13] == octets[13] && back[14]
        == octets[14]);
    assert(back =~= octets);
}

/// The compressed form of an entity identifier.
pub fn encode_entity_id(item: &DisEntityId) -> (id: EntityId)
    ensures
        id == spec_encode_entity_id(*item),
        id.wf(),
{
    proof {
        lemma_unsigned_ladder(16);
    }
    EntityId {
        site: UVINT16 { value: item.site as u32 },
        application: UVINT16 { value: item.application as u32 },
        entity: UVINT16 { value: item.entity as u32 },
    }
}

/// The full-size form of an entity identifier; a number beyond 16 bits is
/// carried as the largest 16-bit number.
pub fn decode_entity_id(id: &EntityId) -> (item: DisEntityId)
    ensures
        item == spec_decode_entity_id(*id),
{
    DisEntityId {
        site: cap_u16(id.site.value),
        application: cap_u16(id.application.value),
        entity: cap_u16(id.entity.value),
    }
}

fn cap_u16(value: u32) -> (capped_value: u16)
    ensures
        capped_value == capped(value as int, 0xffff),
{
    if value > 0xffff {
        0xffff
    } else {
        value as u16
    }
}

fn cap_u8(value: u32) -> (capped_value: u8)
    ensures
        capped_value == capped(value as int, 0xff),
{
    if value > 0xff {
        0xff
    } else {
        value as u8
    }
}

/// The compressed form of an entity type.
pub fn encode_entity_type(item: &DisEntityType) -> (t: EntityType)
    ensures
        t == spec_encode_entity_type(*item),
        t.wf(),
{
    proof {
        lemma_unsigned_ladder(8);
    }
    EntityType {
        kind: if item.kind > 15 {
            15
        } else {
            item.kind
        },
        domain: if item.domain > 15 {
            15
        } else {
            item.domain
        },
        country: if item.country > 511 {
            511
        } else {
            item.country
        },
        category: UVINT8 { value: item.category as u32 },
        subcategory: UVINT8 { value: item.subcategory as u32 },
        specific: UVINT8 { value: item.specific as u32 },
        extra: UVINT8 { value: item.extra as u32 },
    }
}

/// The full-size form of an entity type.
pub fn decode_entity_type(item: &EntityType) -> (t: DisEntityType)
    ensures
        t == spec_decode_entity_type(*item),
{
    DisEntityType {
        kind: item.kind,
        domain: item.domain,
        country: item.country,
        category: cap_u8(item.category.value),
        subcategory: cap_u8(item.subcategory.value),
        specific: cap_u8(item.specific.value),
        extra: cap_u8(item.extra.value),
    }
}

/// The compressed form of a force identifier.
pub fn encode_force_id(item: ForceId) -> (force: UVINT8)
    ensures
        force.value == item.0,
        force.wf(),
{
    proof {
        lemma_unsigned_ladder(8);
    }
    UVINT8 { value: item.0 as u32 }
}

/// The full-size form of a force identifier.
pub fn decode_force_id(force: &UVINT8) -> (item: ForceId)
    ensures
        item.0 == capped(force.value as int, 0xff),
{
    ForceId(cap_u8(force.value))
}

/// The compressed form of the capabilities of an entity.
pub fn encode_capabilities(item: EntityCapabilities) -> (capabilities: CdisEntityCapabilities)
    ensures
        capabilities.0.value == item.0,
        capabilities.wf(),
{
    proof {
        lemma_unsigned_ladder(32);
    }
    CdisEntityCapabilities(UVINT32 { value: item.0 })
}

/// The full-size form of the capabilities of an entity.
pub fn decode_capabilities(capabilities: &CdisEntityCapabilities) -> (item: EntityCapabilities)
    ensures
        item.0 == capabilities.0.value,
{
    EntityCapabilities(capabilities.0.value)
}

/// The additional dead-reckoning parameters that fifteen octets spell.
pub fn encode_other_parameters(octets: &[u8; 15]) -> (item: CdisDRParametersOther)
    ensures
        item == spec_encode_other_parameters(octets@),
{
    CdisDRParametersOther {
        parameters_type: octets[0],
        head: octets[1] as u16 * 0x100 + octets[2] as u16,
        x: octets[3] as u32 * 0x100_0000 + octets[4] as u32 * 0x1_0000 + octets[5] as u32 * 0x100
            + octets[6] as u32,
        y: octets[7] as u32 * 0x100_0000 + octets[8] as u32 * 0x1_0000 + octets[9] as u32 * 0x100
            + octets[10] as u32,
        z: octets[11] as u32 * 0x100_0000 + octets[12] as u32 * 0x1_0000 + octets[13] as u32 * 0x100
            + octets[14] as u32,
    }
}

/// The fifteen octets that spell the additional dead-reckoning parameters.
pub fn decode_other_parameters(item: &CdisDRParametersOther) -> (octets: [u8; 15])
    ensures
        octets@ == spec_decode_other_parameters(*item),
{
    let octets: [u8; 15] = [
        item.parameters_type,
        (item.head / 0x100) as u8,
        (item.head % 0x100) as u8,
        (item.x / 0x100_0000) as u8,
        (item.x / 0x1_0000 % 0x100) as u8,
        (item.x / 0x100 % 0x100) as u8,
        (item.x % 0x100) as u8,
        (item.y / 0x100_0000) as u8,
        (item.y / 0x1_0000 % 0x100) as u8,
        (item.y / 0x100 % 0x100) as u8,
        (item.y % 0x100) as u8,
        (item.z / 0x100_0000) as u8,
        (item.z / 0x1_0000 % 0x100) as u8,
        (item.z / 0x100 % 0x100) as u8,
        (item.z % 0x100) as u8,
    ];
    assert(octets@ =~= spec_decode_other_parameters(*item));
    octets
}

} // verus!
