//! The gateway: the stateful translation between full records and the
//! differential records that travel on the wire.
//!
//! An encoder and a decoder each keep, for every entity they have seen, the
//! last full record of that entity. The encoder sends a field only when it
//! differs from the one it sent last; the decoder restores an omitted field
//! from the one it received last. The two tables stay equal as long as the
//! decoder processes every packet of an entity in the order the encoder
//! produced them.
//!
//! A field that was omitted and that no earlier packet supplies is never
//! filled with zeros: the decoder reports `MissingHistory`, and the caller is
//! expected to ask the sender for a full update.

use crate::bit_buffer::{create_bit_buffer, BitBuffer};
use crate::bits::lemma_bits_of_len;
use crate::entity_state::{flag_bit, marking_view, EntityState, EntityStateView};
use crate::error::CdisError;
use crate::pdu::{
    spec_finalize, CdisBody, CdisBodyView, CdisHeader, CdisPdu, CdisPduView,
    ENTITY_STATE_PDU_TYPE,
};
use crate::records::{optional_same, CdisEntityMarking, EntityId, Same};
use crate::wire::{
    lemma_stream_round_trip, packets_view, padded_octets, parse, spec_parse_octets, spec_stream,
    write_stream,
};
use crate::writing::{optional_bits, optional_wf, SerializeCdis};
use std::collections::HashMap;
use vstd::prelude::*;

verus! {

/// How a gateway treats the optional fields of a record.
#[derive(Clone, Copy, Debug, PartialEq, Eq, Structural)]
pub enum GatewayMode {
    /// Every record is sent in full; the table of earlier records is never read.
    FullUpdate,
    /// A record is sent as its difference from the last record of its entity.
    PartialUpdate,
}

/// The key under which the records of an entity are kept.
pub open spec fn key_of(id: EntityId) -> u64 {
    (id.site.value as int * 0x1_0000_0000 + id.application.value as int * 0x1_0000
        + id.entity.value as int) as u64
}

/// Different well-formed identifiers have different keys.
pub proof fn lemma_key_injective(a: EntityId, b: EntityId)
    requires
        a.wf(),
        b.wf(),
        key_of(a) == key_of(b),
    ensures
        a == b,
{
    crate::types::lemma_unsigned_ladder(16);
}

/// The field to send: the new value when there is one and it differs from the old.
pub open spec fn changed<T>(new: Option<T>, old: Option<T>) -> Option<T> {
    if new.is_some() && new != old {
        new
    } else {
        None
    }
}

/// The field to keep: the new value when there is one, else the old.
pub open spec fn merged<T>(new: Option<T>, old: Option<T>) -> Option<T> {
    if new.is_some() {
        new
    } else {
        old
    }
}

/// Whether every optional field of a record holds a value.
pub open spec fn is_complete(record: EntityStateView) -> bool {
    &&& record.force_id.is_some()
    &&& record.entity_type.is_some()
    &&& record.alternate_entity_type.is_some()
    &&& record.entity_linear_velocity.is_some()
    &&& record.entity_location.is_some()
    &&& record.entity_orientation.is_some()
    &&& record.entity_appearance.is_some()
    &&& record.dr_params_other.is_some()
    &&& record.dr_params_entity_linear_acceleration.is_some()
    &&& record.dr_params_entity_angular_velocity.is_some()
    &&& record.entity_marking.is_some()
    &&& record.capabilities.is_some()
}

/// Whether a record is a full update: complete, and flagged as such.
pub open spec fn is_full(record: EntityStateView) -> bool {
    record.full_update_flag && is_complete(record)
}

/// `new` as a differential record against `old`: the mandatory fields of
/// `new`, and of the optional fields those that differ from `old`.
pub open spec fn difference(new: EntityStateView, old: EntityStateView) -> EntityStateView {
    EntityStateView {
        full_update_flag: false,
        force_id: changed(new.force_id, old.force_id),
        entity_type: changed(new.entity_type, old.entity_type),
        alternate_entity_type: changed(new.alternate_entity_type, old.alternate_entity_type),
        entity_linear_velocity: changed(new.entity_linear_velocity, old.entity_linear_velocity),
        entity_location: changed(new.entity_location, old.entity_location),
        entity_orientation: changed(new.entity_orientation, old.entity_orientation),
        entity_appearance: changed(new.entity_appearance, old.entity_appearance),
        dr_params_other: changed(new.dr_params_other, old.dr_params_other),
        dr_params_entity_linear_acceleration: changed(new.dr_params_entity_linear_acceleration, old.dr_params_entity_linear_acceleration),
        dr_params_entity_angular_velocity: changed(new.dr_params_entity_angular_velocity, old.dr_params_entity_angular_velocity),
        entity_marking: changed(new.entity_marking, old.entity_marking),
        capabilities: changed(new.capabilities, old.capabilities),
        ..new
    }
}

/// `new` laid over `old`: the mandatory fields of `new`, and each optional
/// field from `new` where it has one, else from `old`.
pub open spec fn overlay(new: EntityStateView, old: EntityStateView) -> EntityStateView {
    EntityStateView {
        full_update_flag: true,
        force_id: merged(new.force_id, old.force_id),
        entity_type: merged(new.entity_type, old.entity_type),
        alternate_entity_type: merged(new.alternate_entity_type, old.alternate_entity_type),
        entity_linear_velocity: merged(new.entity_linear_velocity, old.entity_linear_velocity),
        entity_location: merged(new.entity_location, old.entity_location),
        entity_orientation: merged(new.entity_orientation, old.entity_orientation),
        entity_appearance: merged(new.entity_appearance, old.entity_appearance),
        dr_params_other: merged(new.dr_params_other, old.dr_params_other),
        dr_params_entity_linear_acceleration: merged(new.dr_params_entity_linear_acceleration, old.dr_params_entity_linear_acceleration),
        dr_params_entity_angular_velocity: merged(new.dr_params_entity_angular_velocity, old.dr_params_entity_angular_velocity),
        entity_marking: merged(new.entity_marking, old.entity_marking),
        capabilities: merged(new.capabilities, old.capabilities),
        ..new
    }
}

/// One step of the encoder: the table after the step and the record to send.
pub open spec fn encode_step(
    mode: GatewayMode,
    history: Map<u64, EntityStateView>,
    input: EntityStateView,
) -> Result<(Map<u64, EntityStateView>, EntityStateView), CdisError> {
    let key = key_of(input.entity_id);
    if !input.entity_id.wf() {
        Err(CdisError::ValueOutOfRange)
    } else if mode == GatewayMode::FullUpdate || !history.contains_key(key) {
        let emitted = EntityStateView { full_update_flag: true, ..input };
        Ok((history.insert(key, emitted), emitted))
    } else {
        Ok((history.insert(key, overlay(input, history[key])), difference(input, history[key])))
    }
}

/// One step of the decoder: the table after the step and the record restored.
pub open spec fn decode_step(
    mode: GatewayMode,
    history: Map<u64, EntityStateView>,
    received: EntityStateView,
) -> Result<(Map<u64, EntityStateView>, EntityStateView), CdisError> {
    let key = key_of(received.entity_id);
    if !received.entity_id.wf() {
        Err(CdisError::ValueOutOfRange)
    } else if is_complete(received) {
        let restored = EntityStateView { full_update_flag: true, ..received };
        Ok((history.insert(key, restored), restored))
    } else if mode == GatewayMode::FullUpdate || !history.contains_key(key) {
        Err(CdisError::MissingHistory)
    } else if !is_complete(overlay(received, history[key])) {
        Err(CdisError::MissingHistory)
    } else {
        Ok((history.insert(key, overlay(received, history[key])), overlay(received, history[key])))
    }
}

/// An encoder and a decoder that hold equal tables: whatever full record the
/// encoder is given, the decoder restores from what the encoder sends exactly
/// that record, in every field, and the two tables are equal again afterwards.
pub proof fn lemma_decode_restores_input(
    mode: GatewayMode,
    history: Map<u64, EntityStateView>,
    input: EntityStateView,
)
    requires
        input.entity_id.wf(),
        is_full(input),
    ensures
        encode_step(mode, history, input) is Ok,
        decode_step(mode, history, encode_step(mode, history, input)->Ok_0.1) == Ok::<
            (Map<u64, EntityStateView>, EntityStateView),
            CdisError,
        >((encode_step(mode, history, input)->Ok_0.0, input)),
{
    let key = key_of(input.entity_id);
    if mode == GatewayMode::FullUpdate || !history.contains_key(key) {
        assert((EntityStateView { full_update_flag: true, ..input }) == input);
    } else {
        let old = history[key];
        let sent = difference(input, old);
        assert(overlay(input, old) == input);
        if is_complete(sent) {
            assert((EntityStateView { full_update_flag: true, ..sent }) == input);
        } else {
            assert(overlay(sent, old) == input);
        }
    }
}

/// A record with an omitted field, for an entity that the decoder has never
/// seen, is refused for want of history.
pub proof fn lemma_missing_history(
    mode: GatewayMode,
    history: Map<u64, EntityStateView>,
    received: EntityStateView,
)
    requires
        received.entity_id.wf(),
        !is_complete(received),
        !history.contains_key(key_of(received.entity_id)),
    ensures
        decode_step(mode, history, received) == Err::<
            (Map<u64, EntityStateView>, EntityStateView),
            CdisError,
        >(CdisError::MissingHistory),
{
}

/// A first record and a second one for the same entity, both full: the
/// decoder, having processed what the encoder sent for the first, restores
/// the second in every field, the unchanged ones from its history.
pub proof fn lemma_second_packet_restored(first: EntityStateView, second: EntityStateView)
    requires
        first.entity_id.wf(),
        first.entity_id == second.entity_id,
        is_full(first),
        is_full(second),
    ensures
        ({
            let mode = GatewayMode::PartialUpdate;
            let empty = Map::<u64, EntityStateView>::empty();
            let (table, sent_first) = encode_step(mode, empty, first)->Ok_0;
            let (table_after, sent_second) = encode_step(mode, table, second)->Ok_0;
            let (restored_table, restored_first) = decode_step(mode, empty, sent_first)->Ok_0;
            &&& sent_second == difference(second, first)
            &&& restored_first == first
            &&& restored_table == table
            &&& decode_step(mode, restored_table, sent_second) == Ok::<
                (Map<u64, EntityStateView>, EntityStateView),
                CdisError,
            >((table_after, second))
        }),
{
    let mode = GatewayMode::PartialUpdate;
    let empty = Map::<u64, EntityStateView>::empty();
    lemma_decode_restores_input(mode, empty, first);
    let table = encode_step(mode, empty, first)->Ok_0.0;
    assert((EntityStateView { full_update_flag: true, ..first }) == first);
    assert(table.contains_key(key_of(first.entity_id)));
    assert(table[key_of(first.entity_id)] == first);
    lemma_decode_restores_input(mode, table, second);
}

/// A field to send takes no more bits than the field it was taken from.
pub proof fn lemma_changed_shorter<R: SerializeCdis>(new: Option<R>, old: Option<R>)
    ensures
        optional_bits(changed(new, old)).len() <= optional_bits(new).len(),
        optional_wf(new) ==> optional_wf(changed(new, old)),
{
}

/// The head of a differential record is as long as that of the record it was taken from.
pub proof fn lemma_difference_head(new: EntityStateView, old: EntityStateView)
    ensures
        difference(new, old).head_bits().len() == new.head_bits().len(),
{
    let sent = difference(new, old);
    assert(sent.presence().len() == new.presence().len());
    lemma_bits_of_len(flag_bit(sent.full_update_flag), 1);
    lemma_bits_of_len(flag_bit(new.full_update_flag), 1);
}

/// The kinematic fields of a differential record are well formed when those
/// of the record it was taken from are, and take no more bits.
pub proof fn lemma_difference_kinematics(new: EntityStateView, old: EntityStateView)
    requires
        new.kinematics_wf(),
    ensures
        difference(new, old).kinematics_wf(),
        difference(new, old).kinematics_bits().len() <= new.kinematics_bits().len(),
{
    lemma_changed_shorter(new.force_id, old.force_id);
    lemma_changed_shorter(new.entity_type, old.entity_type);
    lemma_changed_shorter(new.alternate_entity_type, old.alternate_entity_type);
    lemma_changed_shorter(new.entity_linear_velocity, old.entity_linear_velocity);
    lemma_changed_shorter(new.entity_location, old.entity_location);
    lemma_changed_shorter(new.entity_orientation, old.entity_orientation);
    lemma_changed_shorter(new.entity_appearance, old.entity_appearance);
}

/// The dead-reckoning fields of a differential record are well formed when
/// those of the record it was taken from are, and take no more bits.
pub proof fn lemma_difference_dead_reckoning(new: EntityStateView, old: EntityStateView)
    requires
        new.dead_reckoning_wf(),
    ensures
        difference(new, old).dead_reckoning_wf(),
        difference(new, old).dead_reckoning_bits().len() <= new.dead_reckoning_bits().len(),
{
    lemma_changed_shorter(new.dr_params_other, old.dr_params_other);
    lemma_changed_shorter(
        new.dr_params_entity_linear_acceleration,
        old.dr_params_entity_linear_acceleration,
    );
    lemma_changed_shorter(
        new.dr_params_entity_angular_velocity,
        old.dr_params_entity_angular_velocity,
    );
}

/// The marking, capabilities and variable parameters of a differential
/// record are well formed when those of the record it was taken from are,
/// and take no more bits.
pub proof fn lemma_difference_tail(new: EntityStateView, old: EntityStateView)
    requires
        new.tail_wf(),
    ensures
        difference(new, old).tail_wf(),
        difference(new, old).tail_bits().len() <= new.tail_bits().len(),
{
    lemma_changed_shorter(new.capabilities, old.capabilities);
}

/// A differential record is well formed when the record it was taken from
/// is, and takes no more bits on the wire.
pub proof fn lemma_difference_shorter(new: EntityStateView, old: EntityStateView)
    requires
        new.wf(),
    ensures
        difference(new, old).wf(),
        difference(new, old).wire_bits().len() <= new.wire_bits().len(),
{
    reveal(EntityStateView::wf);
    reveal(EntityStateView::wire_bits);
    lemma_difference_head(new, old);
    lemma_difference_kinematics(new, old);
    lemma_difference_dead_reckoning(new, old);
    lemma_difference_tail(new, old);
}

/// A record flagged as a full update is as well formed and as long on the
/// wire as the record itself.
pub proof fn lemma_flagged_same_length(record: EntityStateView)
    ensures
        (EntityStateView { full_update_flag: true, ..record }).wf() == record.wf(),
        (EntityStateView { full_update_flag: true, ..record }).wire_bits().len()
            == record.wire_bits().len(),
{
    reveal(EntityStateView::wf);
    reveal(EntityStateView::wire_bits);
    let flagged = EntityStateView { full_update_flag: true, ..record };
    lemma_bits_of_len(flag_bit(true), 1);
    lemma_bits_of_len(flag_bit(record.full_update_flag), 1);
    assert(flagged.presence() =~= record.presence());
    assert(flagged.head_bits().len() == record.head_bits().len());
    assert(flagged.kinematics_bits() == record.kinematics_bits());
    assert(flagged.dead_reckoning_bits() == record.dead_reckoning_bits());
    assert(flagged.tail_bits() == record.tail_bits());
}

/// An encoder and a decoder that hold equal tables: whatever well-formed
/// packet with a full record the encoder is given, the decoder restores from
/// the packet sent exactly the packet given, header and all, and the two
/// tables are equal again afterwards. A packet that carries no entity state
/// record goes through both as it is.
pub proof fn lemma_packet_restored(
    mode: GatewayMode,
    history: Map<u64, EntityStateView>,
    pdu: CdisPduView,
)
    requires
        pdu.body matches CdisBodyView::EntityState(record) ==> pdu.wf() && is_full(record),
    ensures
        encode_packet(mode, history, pdu) is Ok,
        decode_packet(mode, history, encode_packet(mode, history, pdu)->Ok_0.1) == Ok::<
            (Map<u64, EntityStateView>, CdisPduView),
            CdisError,
        >((encode_packet(mode, history, pdu)->Ok_0.0, pdu)),
{
    match pdu.body {
        CdisBodyView::EntityState(record) => {
            assert(record.entity_id.wf()) by {
                reveal(EntityStateView::wf);
            }
            lemma_decode_restores_input(mode, history, record);
            let emitted = encode_step(mode, history, record)->Ok_0.1;
            let key = key_of(record.entity_id);
            let sized = CdisHeader { pdu_type: ENTITY_STATE_PDU_TYPE, length: 0, ..pdu.header };
            lemma_bits_of_len(0, 14);
            lemma_bits_of_len(pdu.header.length as nat, 14);
            assert(sized.wire_bits().len() == pdu.header.wire_bits().len());
            assert(emitted.wf() && emitted.wire_bits().len() <= record.wire_bits().len()) by {
                lemma_flagged_same_length(record);
                if !(mode == GatewayMode::FullUpdate || !history.contains_key(key)) {
                    lemma_difference_shorter(record, history[key]);
                }
            }
            let sent = spec_finalize(pdu.header, CdisBodyView::EntityState(emitted))->Ok_0;
            let resized = CdisHeader { pdu_type: ENTITY_STATE_PDU_TYPE, length: 0, ..sent.header };
            assert(resized == sized);
            assert(spec_finalize(sent.header, CdisBodyView::EntityState(record)) == Ok::<
                CdisPduView,
                CdisError,
            >(pdu));
        },
        _ => {},
    }
}

/// An encoder and a decoder that hold equal tables: whatever run of packets
/// the encoder is given, provided that each entity state packet of it is
/// well formed and carries a full record, the decoder restores from the run
/// sent exactly the run given, and the two tables are equal again afterwards.
pub proof fn lemma_run_restored(
    mode: GatewayMode,
    history: Map<u64, EntityStateView>,
    pdus: Seq<CdisPduView>,
)
    requires
        forall|i: int|
            0 <= i < pdus.len() ==> ((#[trigger] pdus[i]).body matches CdisBodyView::EntityState(
                record,
            ) ==> pdus[i].wf() && is_full(record)),
    ensures
        encode_all(mode, history, pdus).1 is Ok,
        encode_all(mode, history, pdus).1->Ok_0.len() == pdus.len(),
        decode_all(mode, history, encode_all(mode, history, pdus).1->Ok_0) == (
            encode_all(mode, history, pdus).0,
            Ok::<Seq<CdisPduView>, CdisError>(pdus),
        ),
    decreases pdus.len(),
{
    if pdus.len() > 0 {
        let front = pdus.drop_last();
        assert forall|i: int| 0 <= i < front.len() implies ((#[trigger] front[i]).body matches CdisBodyView::EntityState(
            record,
        ) ==> front[i].wf() && is_full(record)) by {
            assert(front[i] == pdus[i]);
        }
        lemma_run_restored(mode, history, front);
        let (table, sent) = encode_all(mode, history, front);
        assert(pdus[pdus.len() - 1] == pdus.last());
        lemma_packet_restored(mode, table, pdus.last());
        let packet = encode_packet(mode, table, pdus.last())->Ok_0.1;
        let all_sent = sent->Ok_0.push(packet);
        assert(all_sent.drop_last() =~= sent->Ok_0);
        assert(all_sent.last() == packet);
        assert(front.push(pdus.last()) =~= pdus);
    } else {
        assert(pdus =~= Seq::<CdisPduView>::empty());
    }
}

/// From full packets to octets and back: the octets that an encoder sends
/// for a run of packets, read and restored by a decoder that holds the same
/// table as the encoder held, give exactly the run of packets, and the two
/// tables are equal again afterwards.
pub proof fn lemma_gateway_round_trip(
    mode: GatewayMode,
    history: Map<u64, EntityStateView>,
    pdus: Seq<CdisPduView>,
)
    requires
        forall|i: int|
            0 <= i < pdus.len() ==> ((#[trigger] pdus[i]).body matches CdisBodyView::EntityState(
                record,
            ) ==> pdus[i].wf() && is_full(record)),
        spec_stream(encode_all(mode, history, pdus).1->Ok_0) is Ok,
    ensures
        ({
            let (table, sent) = encode_all(mode, history, pdus);
            let octets = padded_octets(spec_stream(sent->Ok_0)->Ok_0);
            &&& sent is Ok
            &&& spec_parse_octets(octets) == Ok::<Seq<CdisPduView>, CdisError>(sent->Ok_0)
            &&& decode_all(mode, history, sent->Ok_0) == (
                table,
                Ok::<Seq<CdisPduView>, CdisError>(pdus),
            )
        }),
{
    lemma_run_restored(mode, history, pdus);
    lemma_stream_round_trip(encode_all(mode, history, pdus).1->Ok_0);
}

/// The table of a gateway as a mathematical value.
pub open spec fn table_view(lookup: Map<u64, EntityState>) -> Map<u64, EntityStateView> {
    lookup.map_values(|record: EntityState| record@)
}

/// The key under which the records of an entity are kept.
fn history_key(id: &EntityId) -> (key: u64)
    requires
        id.wf(),
    ensures
        key == key_of(*id),
{
    proof {
        crate::types::lemma_unsigned_ladder(16);
    }
    id.site.value as u64 * 0x1_0000_0000 + id.application.value as u64 * 0x1_0000
        + id.entity.value as u64
}

/// The field to send: the new value when there is one and it differs from the old.
pub fn changed_field<R: Same + Copy>(new: &Option<R>, old: &Option<R>) -> (field: Option<R>)
    ensures
        field == changed(*new, *old),
{
    match new {
        Some(value) => if optional_same(new, old) {
            None
        } else {
            Some(*value)
        },
        None => None,
    }
}

/// The field to keep: the new value when there is one, else the old.
pub fn merged_field<R: Copy>(new: &Option<R>, old: &Option<R>) -> (field: Option<R>)
    ensures
        field == merged(*new, *old),
{
    match new {
        Some(value) => Some(*value),
        None => match old {
            Some(value) => Some(*value),
            None => None,
        },
    }
}

/// The marking to send: the new one when there is one and it differs from the old.
pub fn changed_marking(new: &Option<CdisEntityMarking>, old: &Option<CdisEntityMarking>) -> (field:
    Option<CdisEntityMarking>)
    ensures
        marking_view(field) == changed(marking_view(*new), marking_view(*old)),
{
    match new {
        Some(value) => if EntityState::same_marking(new, old) {
            None
        } else {
            Some(value.duplicate())
        },
        None => None,
    }
}

/// The marking to keep: the new one when there is one, else the old.
pub fn merged_marking(new: &Option<CdisEntityMarking>, old: &Option<CdisEntityMarking>) -> (field:
    Option<CdisEntityMarking>)
    ensures
        marking_view(field) == merged(marking_view(*new), marking_view(*old)),
{
    match new {
        Some(value) => Some(value.duplicate()),
        None => match old {
            Some(value) => Some(value.duplicate()),
            None => None,
        },
    }
}

/// `new` as a differential record against `old`.
pub fn difference_of(new: &EntityState, old: &EntityState) -> (record: EntityState)
    ensures
        record@ == difference(new@, old@),
{
    let mut record = new.duplicate();
    record.full_update_flag = false;
    record.force_id = changed_field(&new.force_id, &old.force_id);
    record.entity_type = changed_field(&new.entity_type, &old.entity_type);
    record.alternate_entity_type = changed_field(&new.alternate_entity_type, &old.alternate_entity_type);
    record.entity_linear_velocity = changed_field(&new.entity_linear_velocity, &old.entity_linear_velocity);
    record.entity_location = changed_field(&new.entity_location, &old.entity_location);
    record.entity_orientation = changed_field(&new.entity_orientation, &old.entity_orientation);
    record.entity_appearance = changed_field(&new.entity_appearance, &old.entity_appearance);
    record.dr_params_other = changed_field(&new.dr_params_other, &old.dr_params_other);
    record.dr_params_entity_linear_acceleration = changed_field(&new.dr_params_entity_linear_acceleration, &old.dr_params_entity_linear_acceleration);
    record.dr_params_entity_angular_velocity = changed_field(&new.dr_params_entity_angular_velocity, &old.dr_params_entity_angular_velocity);
    record.entity_marking = changed_marking(&new.entity_marking, &old.entity_marking);
    record.capabilities = changed_field(&new.capabilities, &old.capabilities);
    record
}

/// `new` laid over `old`.
pub fn overlay_of(new: &EntityState, old: &EntityState) -> (record: EntityState)
    ensures
        record@ == overlay(new@, old@),
{
    let mut record = new.duplicate();
    record.full_update_flag = true;
    record.force_id = merged_field(&new.force_id, &old.force_id);
    record.entity_type = merged_field(&new.entity_type, &old.entity_type);
    record.alternate_entity_type = merged_field(&new.alternate_entity_type, &old.alternate_entity_type);
    record.entity_linear_velocity = merged_field(&new.entity_linear_velocity, &old.entity_linear_velocity);
    record.entity_location = merged_field(&new.entity_location, &old.entity_location);
    record.entity_orientation = merged_field(&new.entity_orientation, &old.entity_orientation);
    record.entity_appearance = merged_field(&new.entity_appearance, &old.entity_appearance);
    record.dr_params_other = merged_field(&new.dr_params_other, &old.dr_params_other);
    record.dr_params_entity_linear_acceleration = merged_field(&new.dr_params_entity_linear_acceleration, &old.dr_params_entity_linear_acceleration);
    record.dr_params_entity_angular_velocity = merged_field(&new.dr_params_entity_angular_velocity, &old.dr_params_entity_angular_velocity);
    record.entity_marking = merged_marking(&new.entity_marking, &old.entity_marking);
    record.capabilities = merged_field(&new.capabilities, &old.capabilities);
    record
}

/// Whether every optional field of a record holds a value.
pub fn complete(record: &EntityState) -> (all: bool)
    ensures
        all == is_complete(record@),
{
    record.force_id.is_some()
        && record.entity_type.is_some()
        && record.alternate_entity_type.is_some()
        && record.entity_linear_velocity.is_some()
        && record.entity_location.is_some()
        && record.entity_orientation.is_some()
        && record.entity_appearance.is_some()
        && record.dr_params_other.is_some()
        && record.dr_params_entity_linear_acceleration.is_some()
        && record.dr_params_entity_angular_velocity.is_some()
        && record.entity_marking.is_some()
        && record.capabilities.is_some()
}

/// `record` flagged as a full update.
pub fn flagged_full(record: &EntityState) -> (full: EntityState)
    ensures
        full@ == (EntityStateView { full_update_flag: true, ..record@ }),
{
    let mut full = record.duplicate();
    full.full_update_flag = true;
    full
}

/// Stores `record` in a table under `key`.
pub fn remember(lookup: &mut HashMap<u64, EntityState>, key: u64, record: EntityState)
    ensures
        table_view(final(lookup)@) == table_view(old(lookup)@).insert(key, record@),
{
    broadcast use vstd::std_specs::hash::group_hash_axioms;

    lookup.insert(key, record);
    assert(table_view(lookup@) =~= table_view(old(lookup)@).insert(key, record@));
}

/// Plans one step of the encoder without touching the table: the record to
/// send and the record to keep for the entity.
pub fn plan_encode(mode: GatewayMode, lookup: &HashMap<u64, EntityState>, record: &EntityState) -> (r:
    Result<(EntityState, EntityState), CdisError>)
    ensures
        match encode_step(mode, table_view(lookup@), record@) {
            Ok((table, emitted)) => {
                &&& r is Ok
                &&& r->Ok_0.0@ == emitted
                &&& table == table_view(lookup@).insert(key_of(record@.entity_id), r->Ok_0.1@)
            },
            Err(e) => r == Err::<(EntityState, EntityState), CdisError>(e),
        },
{
    broadcast use vstd::std_specs::hash::group_hash_axioms;

    if !record.entity_id.is_valid() {
        return Err(CdisError::ValueOutOfRange);
    }
    let key = history_key(&record.entity_id);
    let partial = match mode {
        GatewayMode::PartialUpdate => true,
        GatewayMode::FullUpdate => false,
    };
    match lookup.get(&key) {
        Some(old) => if partial {
            Ok((difference_of(record, old), overlay_of(record, old)))
        } else {
            Ok((flagged_full(record), flagged_full(record)))
        },
        None => Ok((flagged_full(record), flagged_full(record))),
    }
}

/// Plans one step of the decoder without touching the table: the record
/// restored, which is also the record to keep for the entity.
pub fn plan_decode(mode: GatewayMode, lookup: &HashMap<u64, EntityState>, record: &EntityState) -> (r:
    Result<EntityState, CdisError>)
    ensures
        match decode_step(mode, table_view(lookup@), record@) {
            Ok((table, restored)) => {
                &&& r is Ok
                &&& r->Ok_0@ == restored
                &&& table == table_view(lookup@).insert(key_of(record@.entity_id), restored)
            },
            Err(e) => r == Err::<EntityState, CdisError>(e),
        },
{
    broadcast use vstd::std_specs::hash::group_hash_axioms;

    if !record.entity_id.is_valid() {
        return Err(CdisError::ValueOutOfRange);
    }
    let key = history_key(&record.entity_id);
    if complete(record) {
        return Ok(flagged_full(record));
    }
    let partial = match mode {
        GatewayMode::PartialUpdate => true,
        GatewayMode::FullUpdate => false,
    };
    if !partial {
        return Err(CdisError::MissingHistory);
    }
    let restored = match lookup.get(&key) {
        Some(old) => overlay_of(record, old),
        None => {
            return Err(CdisError::MissingHistory);
        },
    };
    if !complete(&restored) {
        return Err(CdisError::MissingHistory);
    }
    Ok(restored)
}

/// One step of the encoder on a packet. A packet that carries an entity
/// state record has the record replaced by the one to send and its header
/// brought up to date; any other packet goes through as it is.
pub open spec fn encode_packet(
    mode: GatewayMode,
    history: Map<u64, EntityStateView>,
    pdu: CdisPduView,
) -> Result<(Map<u64, EntityStateView>, CdisPduView), CdisError> {
    match pdu.body {
        CdisBodyView::EntityState(record) => match encode_step(mode, history, record) {
            Err(e) => Err(e),
            Ok((table, emitted)) => match spec_finalize(
                pdu.header,
                CdisBodyView::EntityState(emitted),
            ) {
                Err(e) => Err(e),
                Ok(packet) => Ok((table, packet)),
            },
        },
        _ => Ok((history, pdu)),
    }
}

/// One step of the decoder on a packet. A packet that carries an entity
/// state record has the record replaced by the one restored and its header
/// brought up to date; any other packet goes through as it is.
pub open spec fn decode_packet(
    mode: GatewayMode,
    history: Map<u64, EntityStateView>,
    pdu: CdisPduView,
) -> Result<(Map<u64, EntityStateView>, CdisPduView), CdisError> {
    match pdu.body {
        CdisBodyView::EntityState(record) => match decode_step(mode, history, record) {
            Err(e) => Err(e),
            Ok((table, restored)) => match spec_finalize(
                pdu.header,
                CdisBodyView::EntityState(restored),
            ) {
                Err(e) => Err(e),
                Ok(packet) => Ok((table, packet)),
            },
        },
        _ => Ok((history, pdu)),
    }
}

/// A run of encoder steps: the table after the last packet that was
/// accepted, and the packets to send or the error of the first packet that
/// was refused.
pub open spec fn encode_all(
    mode: GatewayMode,
    history: Map<u64, EntityStateView>,
    pdus: Seq<CdisPduView>,
) -> (Map<u64, EntityStateView>, Result<Seq<CdisPduView>, CdisError>)
    decreases pdus.len(),
{
    if pdus.len() == 0 {
        (history, Ok(Seq::empty()))
    } else {
        let (table, sent) = encode_all(mode, history, pdus.drop_last());
        match sent {
            Err(e) => (table, Err(e)),
            Ok(packets) => match encode_packet(mode, table, pdus.last()) {
                Err(e) => (table, Err(e)),
                Ok((next_table, packet)) => (next_table, Ok(packets.push(packet))),
            },
        }
    }
}

/// A run of decoder steps: the table after the last packet that was
/// accepted, and the packets restored or the error of the first packet that
/// was refused.
pub open spec fn decode_all(
    mode: GatewayMode,
    history: Map<u64, EntityStateView>,
    pdus: Seq<CdisPduView>,
) -> (Map<u64, EntityStateView>, Result<Seq<CdisPduView>, CdisError>)
    decreases pdus.len(),
{
    if pdus.len() == 0 {
        (history, Ok(Seq::empty()))
    } else {
        let (table, restored) = decode_all(mode, history, pdus.drop_last());
        match restored {
            Err(e) => (table, Err(e)),
            Ok(packets) => match decode_packet(mode, table, pdus.last()) {
                Err(e) => (table, Err(e)),
                Ok((next_table, packet)) => (next_table, Ok(packets.push(packet))),
            },
        }
    }
}

/// Once a run of encoder steps fails at some length, it stays as it is at every greater length.
pub proof fn lemma_encode_all_error(
    mode: GatewayMode,
    history: Map<u64, EntityStateView>,
    pdus: Seq<CdisPduView>,
    short: int,
)
    requires
        0 <= short <= pdus.len(),
        encode_all(mode, history, pdus.take(short)).1 is Err,
    ensures
        encode_all(mode, history, pdus) == encode_all(mode, history, pdus.take(short)),
    decreases pdus.len(),
{
    if short < pdus.len() {
        assert(pdus.drop_last().take(short) =~= pdus.take(short));
        lemma_encode_all_error(mode, history, pdus.drop_last(), short);
    } else {
        assert(pdus.take(short) =~= pdus);
    }
}

/// Once a run of decoder steps fails at some length, it stays as it is at every greater length.
pub proof fn lemma_decode_all_error(
    mode: GatewayMode,
    history: Map<u64, EntityStateView>,
    pdus: Seq<CdisPduView>,
    short: int,
)
    requires
        0 <= short <= pdus.len(),
        decode_all(mode, history, pdus.take(short)).1 is Err,
    ensures
        decode_all(mode, history, pdus) == decode_all(mode, history, pdus.take(short)),
    decreases pdus.len(),
{
    if short < pdus.len() {
        assert(pdus.drop_last().take(short) =~= pdus.take(short));
        lemma_decode_all_error(mode, history, pdus.drop_last(), short);
    } else {
        assert(pdus.take(short) =~= pdus);
    }
}

/// One step of the encoder on a packet, with the table updated when the step succeeds.
pub fn encode_packet_with(mode: GatewayMode, lookup: &mut HashMap<u64, EntityState>, pdu: &CdisPdu) -> (r:
    Result<CdisPdu, CdisError>)
    ensures
        match encode_packet(mode, table_view(old(lookup)@), pdu@) {
            Ok((table, packet)) => {
                &&& r is Ok
                &&& r->Ok_0@ == packet
                &&& table_view(final(lookup)@) == table
            },
            Err(e) => r == Err::<CdisPdu, CdisError>(e) && final(lookup)@ == old(lookup)@,
        },
{
    match &pdu.body {
        CdisBody::EntityState(record) => {
            let (emitted, kept) = plan_encode(mode, lookup, record)?;
            let packet = CdisPdu::finalize(pdu.header, CdisBody::EntityState(emitted))?;
            let key = history_key(&record.entity_id);
            remember(lookup, key, kept);
            Ok(packet)
        },
        _ => Ok(pdu.duplicate()),
    }
}

/// One step of the decoder on a packet, with the table updated when the step succeeds.
pub fn decode_packet_with(mode: GatewayMode, lookup: &mut HashMap<u64, EntityState>, pdu: &CdisPdu) -> (r:
    Result<CdisPdu, CdisError>)
    ensures
        match decode_packet(mode, table_view(old(lookup)@), pdu@) {
            Ok((table, packet)) => {
                &&& r is Ok
                &&& r->Ok_0@ == packet
                &&& table_view(final(lookup)@) == table
            },
            Err(e) => r == Err::<CdisPdu, CdisError>(e) && final(lookup)@ == old(lookup)@,
        },
{
    match &pdu.body {
        CdisBody::EntityState(record) => {
            let restored = plan_decode(mode, lookup, record)?;
            let kept = restored.duplicate();
            let packet = CdisPdu::finalize(pdu.header, CdisBody::EntityState(restored))?;
            let key = history_key(&record.entity_id);
            remember(lookup, key, kept);
            Ok(packet)
        },
        _ => Ok(pdu.duplicate()),
    }
}

/// Declares the `Bytes` buffer of the `bytes` crate, whose inside the verifier does not see.
#[verifier::external_type_specification]
#[verifier::external_body]
pub struct ExBytes(bytes::Bytes);

/// The octets that a `Bytes` buffer holds, in order.
pub uninterp spec fn bytes_octets(buffer: bytes::Bytes) -> Seq<u8>;

/// Calls `Bytes::as_ref`: the contents of the buffer as a slice of octets.
#[verifier::external_body]
fn bytes_as_slice(buffer: &bytes::Bytes) -> (octets: &[u8])
    ensures
        octets@ == bytes_octets(*buffer),
{
    buffer.as_ref()
}

/// The encoding side of a gateway.
pub struct Encoder {
    mode: GatewayMode,
    cdis_buffer: BitBuffer,
    lookup: HashMap<u64, EntityState>,
}

impl Encoder {
    /// The last full record of every entity seen so far.
    pub closed spec fn history(&self) -> Map<u64, EntityStateView> {
        table_view(self.lookup@)
    }

    /// The mode the gateway was made with.
    pub closed spec fn spec_mode(&self) -> GatewayMode {
        self.mode
    }

    /// An encoder that has seen no entity yet.
    pub fn new(mode: GatewayMode) -> (encoder: Encoder)
        ensures
            encoder.spec_mode() == mode,
            encoder.history() == Map::<u64, EntityStateView>::empty(),
    {
        let encoder = Encoder {
            mode,
            cdis_buffer: create_bit_buffer(),
            lookup: HashMap::new(),
        };
        assert(table_view(encoder.lookup@) =~= Map::<u64, EntityStateView>::empty());
        encoder
    }

    /// The mode the encoder was made with.
    pub fn mode(&self) -> (mode: GatewayMode)
        ensures
            mode == self.spec_mode(),
    {
        self.mode
    }

    /// Whether the encoder holds a record of the entity.
    pub fn knows(&self, id: &EntityId) -> (known: bool)
        ensures
            known == (id.wf() && self.history().contains_key(key_of(*id))),
    {
        broadcast use vstd::std_specs::hash::group_hash_axioms;

        if !id.is_valid() {
            return false;
        }
        let key = history_key(id);
        self.lookup.contains_key(&key)
    }

    /// Drops the record of an entity, so that the next record of the entity
    /// is sent in full. An identifier out of range names no entity.
    pub fn forget(&mut self, id: &EntityId)
        ensures
            final(self).spec_mode() == old(self).spec_mode(),
            final(self).history() == if id.wf() {
                old(self).history().remove(key_of(*id))
            } else {
                old(self).history()
            },
    {
        broadcast use vstd::std_specs::hash::group_hash_axioms;

        if id.is_valid() {
            let key = history_key(id);
            let _ = self.lookup.remove(&key);
            assert(table_view(self.lookup@) =~= table_view(old(self).lookup@).remove(key));
        }
    }

    /// Turns a full record into the record to send and remembers the full one.
    ///
    /// Fails with `ValueOutOfRange`, leaving the table as it is, when the
    /// entity identifier of the record is out of range.
    pub fn encode_record(&mut self, record: &EntityState) -> (r: Result<EntityState, CdisError>)
        ensures
            final(self).spec_mode() == old(self).spec_mode(),
            match encode_step(old(self).spec_mode(), old(self).history(), record@) {
                Ok((table, emitted)) => {
                    &&& r is Ok
                    &&& r->Ok_0@ == emitted
                    &&& final(self).history() == table
                },
                Err(e) => r == Err::<EntityState, CdisError>(e) && final(self).history() == old(
                    self,
                ).history(),
            },
    {
        let (emitted, kept) = plan_encode(self.mode, &self.lookup, record)?;
        let key = history_key(&record.entity_id);
        remember(&mut self.lookup, key, kept);
        Ok(emitted)
    }

    /// Turns a run of full packets into the packets to send.
    ///
    /// The run stops at the first packet that is refused; the packets before
    /// it have been remembered, the refused one has not.
    pub fn encode_pdus(&mut self, pdus: &[CdisPdu]) -> (r: Result<Vec<CdisPdu>, CdisError>)
        ensures
            final(self).spec_mode() == old(self).spec_mode(),
            final(self).history() == encode_all(
                old(self).spec_mode(),
                old(self).history(),
                packets_view(pdus@),
            ).0,
            match encode_all(old(self).spec_mode(), old(self).history(), packets_view(pdus@)).1 {
                Ok(packets) => r is Ok && packets_view(r->Ok_0@) == packets,
                Err(e) => r == Err::<Vec<CdisPdu>, CdisError>(e),
            },
    {
        let ghost views = packets_view(pdus@);
        let ghost start = self.history();
        let mut sent: Vec<CdisPdu> = Vec::new();
        let mut i: usize = 0;
        proof {
            assert(views.take(0) =~= Seq::<CdisPduView>::empty());
            assert(packets_view(sent@) =~= Seq::<CdisPduView>::empty());
        }
        while i < pdus.len()
            invariant
                i <= pdus@.len(),
                views == packets_view(pdus@),
                self.mode == old(self).mode,
                start == table_view(old(self).lookup@),
                encode_all(self.mode, start, views.take(i as int)) == (
                    table_view(self.lookup@),
                    Ok::<Seq<CdisPduView>, CdisError>(packets_view(sent@)),
                ),
            decreases pdus@.len() - i,
        {
            proof {
                assert(views.take(i + 1).drop_last() =~= views.take(i as int));
                assert(views.take(i + 1).last() == pdus@[i as int]@);
            }
            let ghost before = packets_view(sent@);
            match encode_packet_with(self.mode, &mut self.lookup, &pdus[i]) {
                Ok(packet) => {
                    proof {
                        assert(packets_view(sent@.push(packet)) =~= before.push(packet@));
                    }
                    sent.push(packet);
                },
                Err(e) => {
                    proof {
                        lemma_encode_all_error(self.mode, start, views, i + 1);
                    }
                    return Err(e);
                },
            }
            i = i + 1;
        }
        proof {
            assert(views.take(i as int) =~= views);
        }
        Ok(sent)
    }

    /// Lays a run of packets out as octets: the packets one after the other,
    /// the run padded with clear bits to a whole number of octets.
    ///
    /// Fails with the error of the first packet that cannot be laid out: one
    /// without a layout, one that is not well formed, or one that no longer
    /// fits the buffer.
    pub fn writing(&mut self, cdis_pdus: &Vec<CdisPdu>) -> (r: Result<Vec<u8>, CdisError>)
        ensures
            final(self).spec_mode() == old(self).spec_mode(),
            final(self).history() == old(self).history(),
            match spec_stream(packets_view(cdis_pdus@)) {
                Ok(bits) => r is Ok && r->Ok_0@ == padded_octets(bits),
                Err(e) => r == Err::<Vec<u8>, CdisError>(e),
            },
    {
        let total_bits = write_stream(&mut self.cdis_buffer, cdis_pdus)?;
        let count = if total_bits % 8 == 0 {
            total_bits / 8
        } else {
            total_bits / 8 + 1
        };
        self.cdis_buffer.to_bytes(count)
    }

    /// Turns a run of full packets into the octets to send.
    pub fn encode_buffer(&mut self, pdus: &[CdisPdu]) -> (r: Result<Vec<u8>, CdisError>)
        ensures
            final(self).spec_mode() == old(self).spec_mode(),
            final(self).history() == encode_all(
                old(self).spec_mode(),
                old(self).history(),
                packets_view(pdus@),
            ).0,
            match encode_all(old(self).spec_mode(), old(self).history(), packets_view(pdus@)).1 {
                Ok(packets) => match spec_stream(packets) {
                    Ok(bits) => r is Ok && r->Ok_0@ == padded_octets(bits),
                    Err(e) => r == Err::<Vec<u8>, CdisError>(e),
                },
                Err(e) => r == Err::<Vec<u8>, CdisError>(e),
            },
    {
        let cdis_pdus = self.encode_pdus(pdus)?;
        self.writing(&cdis_pdus)
    }
}

/// The decoding side of a gateway.
pub struct Decoder {
    mode: GatewayMode,
    lookup: HashMap<u64, EntityState>,
}

impl Decoder {
    /// The last full record of every entity seen so far.
    pub closed spec fn history(&self) -> Map<u64, EntityStateView> {
        table_view(self.lookup@)
    }

    /// The mode the gateway was made with.
    pub closed spec fn spec_mode(&self) -> GatewayMode {
        self.mode
    }

    /// A decoder that has seen no entity yet.
    pub fn new(mode: GatewayMode) -> (decoder: Decoder)
        ensures
            decoder.spec_mode() == mode,
            decoder.history() == Map::<u64, EntityStateView>::empty(),
    {
        let decoder = Decoder { mode, lookup: HashMap::new() };
        assert(table_view(decoder.lookup@) =~= Map::<u64, EntityStateView>::empty());
        decoder
    }

    /// The mode the decoder was made with.
    pub fn mode(&self) -> (mode: GatewayMode)
        ensures
            mode == self.spec_mode(),
    {
        self.mode
    }

    /// Whether the decoder holds a record of the entity.
    pub fn knows(&self, id: &EntityId) -> (known: bool)
        ensures
            known == (id.wf() && self.history().contains_key(key_of(*id))),
    {
        broadcast use vstd::std_specs::hash::group_hash_axioms;

        if !id.is_valid() {
            return false;
        }
        let key = history_key(id);
        self.lookup.contains_key(&key)
    }

    /// Drops the record of an entity, so that a differential record of the
    /// entity is refused until a full one has arrived. An identifier out of
    /// range names no entity.
    pub fn forget(&mut self, id: &EntityId)
        ensures
            final(self).spec_mode() == old(self).spec_mode(),
            final(self).history() == if id.wf() {
                old(self).history().remove(key_of(*id))
            } else {
                old(self).history()
            },
    {
        broadcast use vstd::std_specs::hash::group_hash_axioms;

        if id.is_valid() {
            let key = history_key(id);
            let _ = self.lookup.remove(&key);
            assert(table_view(self.lookup@) =~= table_view(old(self).lookup@).remove(key));
        }
    }

    /// Restores the full record from a record received and remembers it.
    ///
    /// Fails with `MissingHistory`, leaving the table as it is, when a field
    /// was omitted and no earlier record of the entity supplies it.
    pub fn decode_record(&mut self, record: &EntityState) -> (r: Result<EntityState, CdisError>)
        ensures
            final(self).spec_mode() == old(self).spec_mode(),
            match decode_step(old(self).spec_mode(), old(self).history(), record@) {
                Ok((table, restored)) => {
                    &&& r is Ok
                    &&& r->Ok_0@ == restored
                    &&& final(self).history() == table
                },
                Err(e) => r == Err::<EntityState, CdisError>(e) && final(self).history() == old(
                    self,
                ).history(),
            },
    {
        let restored = plan_decode(self.mode, &self.lookup, record)?;
        let key = history_key(&record.entity_id);
        let kept = restored.duplicate();
        remember(&mut self.lookup, key, kept);
        Ok(restored)
    }

    /// Reads the packets that a run of octets carries.
    pub fn parsing(&self, octets: &[u8]) -> (r: Result<Vec<CdisPdu>, CdisError>)
        ensures
            match spec_parse_octets(octets@) {
                Ok(packets) => r is Ok && packets_view(r->Ok_0@) == packets,
                Err(e) => r == Err::<Vec<CdisPdu>, CdisError>(e),
            },
    {
        parse(octets)
    }

    /// Restores the full packets from a run of packets received.
    ///
    /// The run stops at the first packet that is refused; the packets before
    /// it have been remembered, the refused one has not.
    pub fn decode_pdus(&mut self, pdus: &[CdisPdu]) -> (r: Result<Vec<CdisPdu>, CdisError>)
        ensures
            final(self).spec_mode() == old(self).spec_mode(),
            final(self).history() == decode_all(
                old(self).spec_mode(),
                old(self).history(),
                packets_view(pdus@),
            ).0,
            match decode_all(old(self).spec_mode(), old(self).history(), packets_view(pdus@)).1 {
                Ok(packets) => r is Ok && packets_view(r->Ok_0@) == packets,
                Err(e) => r == Err::<Vec<CdisPdu>, CdisError>(e),
            },
    {
        let ghost views = packets_view(pdus@);
        let ghost start = self.history();
        let mut restored: Vec<CdisPdu> = Vec::new();
        let mut i: usize = 0;
        proof {
            assert(views.take(0) =~= Seq::<CdisPduView>::empty());
            assert(packets_view(restored@) =~= Seq::<CdisPduView>::empty());
        }
        while i < pdus.len()
            invariant
                i <= pdus@.len(),
                views == packets_view(pdus@),
                self.mode == old(self).mode,
                start == table_view(old(self).lookup@),
                decode_all(self.mode, start, views.take(i as int)) == (
                    table_view(self.lookup@),
                    Ok::<Seq<CdisPduView>, CdisError>(packets_view(restored@)),
                ),
            decreases pdus@.len() - i,
        {
            proof {
                assert(views.take(i + 1).drop_last() =~= views.take(i as int));
                assert(views.take(i + 1).last() == pdus@[i as int]@);
            }
            let ghost before = packets_view(restored@);
            match decode_packet_with(self.mode, &mut self.lookup, &pdus[i]) {
                Ok(packet) => {
                    proof {
                        assert(packets_view(restored@.push(packet)) =~= before.push(packet@));
                    }
                    restored.push(packet);
                },
                Err(e) => {
                    proof {
                        lemma_decode_all_error(self.mode, start, views, i + 1);
                    }
                    return Err(e);
                },
            }
            i = i + 1;
        }
        proof {
            assert(views.take(i as int) =~= views);
        }
        Ok(restored)
    }

    /// Reads the packets that a buffer of octets carries and restores the
    /// full packets from them.
    pub fn decode_buffer(&mut self, bytes_in: bytes::Bytes) -> (r: Result<Vec<CdisPdu>, CdisError>)
        ensures
            final(self).spec_mode() == old(self).spec_mode(),
            match spec_parse_octets(bytes_octets(bytes_in)) {
                Ok(received) => {
                    &&& final(self).history() == decode_all(
                        old(self).spec_mode(),
                        old(self).history(),
                        received,
                    ).0
                    &&& match decode_all(old(self).spec_mode(), old(self).history(), received).1 {
                        Ok(packets) => r is Ok && packets_view(r->Ok_0@) == packets,
                        Err(e) => r == Err::<Vec<CdisPdu>, CdisError>(e),
                    }
                },
                Err(e) => r == Err::<Vec<CdisPdu>, CdisError>(e) && final(self).history() == old(
                    self,
                ).history(),
            },
    {
        let octets = bytes_as_slice(&bytes_in);
        let received = self.parsing(octets)?;
        self.decode_pdus(received.as_slice())
    }
}

} // verus!
