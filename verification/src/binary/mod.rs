//! Compact binary encodings of events for UDP transmission.
//!
//! A binary event is a 10-byte header (event type, then timestamp, both
//! little-endian) followed by the encoding of its payload. Payload records
//! are read back only from at least as many bytes as the record occupies in
//! memory, which for action events is more than their encoding holds.

pub mod event_types;

use crate::bytes::{
    be_u128, be_value, le_u16, le_u32, le_u64, lemma_be_u128_roundtrip, lemma_le_u16_roundtrip,
    lemma_le_u32_roundtrip, lemma_le_u64_roundtrip, push_le_u16, push_le_u32, push_le_u64, read_le_u16,
    read_le_u16_spec, read_le_u32, read_le_u32_spec, read_le_u64, read_le_u64_spec, u128_from_be_bytes,
    u128_to_be_bytes,
};
use crate::events::{is_handler_execution, Event, EventError, EventErrorView};
use crate::protocol::BinarySerializable;
use crate::types::PlayerId;
use crate::utils::current_timestamp;
use vstd::prelude::*;
use vstd::slice::slice_subrange;

verus! {

/// Size of the binary event header: the event type and the timestamp.
pub const BINARY_EVENT_HEADER_SIZE: usize = 10;

/// In-memory size of a position update record; fewer bytes are rejected.
pub const POSITION_UPDATE_RECORD_SIZE: usize = 44;

/// Size of an action event record as written: the player's 16 ID bytes,
/// the action type, the action data and the timestamp offset; fewer bytes
/// are rejected.
pub const ACTION_EVENT_RECORD_SIZE: usize = 23;

/// A vector of three single-precision coordinates, each held as its
/// IEEE-754 bit pattern (what the wire format carries).
#[derive(Debug, Clone, Copy, PartialEq, Eq, Structural)]
pub struct PackedVec3 {
    pub x_bits: u32,
    pub y_bits: u32,
    pub z_bits: u32,
}

/// The twelve bytes of a packed vector.
pub open spec fn packed_vec3_bytes(v: PackedVec3) -> Seq<u8> {
    le_u32(v.x_bits) + le_u32(v.y_bits) + le_u32(v.z_bits)
}

/// The packed vector whose bytes start at `at`.
pub open spec fn read_packed_vec3_spec(b: Seq<u8>, at: int) -> PackedVec3 {
    PackedVec3 {
        x_bits: read_le_u32_spec(b, at),
        y_bits: read_le_u32_spec(b, at + 4),
        z_bits: read_le_u32_spec(b, at + 8),
    }
}

fn push_packed_vec3(out: &mut Vec<u8>, v: PackedVec3)
    ensures
        final(out)@ == old(out)@ + packed_vec3_bytes(v),
{
    push_le_u32(out, v.x_bits);
    push_le_u32(out, v.y_bits);
    push_le_u32(out, v.z_bits);
    assert(final(out)@ =~= old(out)@ + packed_vec3_bytes(v));
}

fn read_packed_vec3(b: &[u8], at: usize) -> (r: PackedVec3)
    requires
        at < 64,
        at + 12 <= b@.len(),
    ensures
        r == read_packed_vec3_spec(b@, at as int),
{
    PackedVec3 { x_bits: read_le_u32(b, at), y_bits: read_le_u32(b, at + 4), z_bits: read_le_u32(b, at + 8) }
}

proof fn lemma_packed_vec3_roundtrip(v: PackedVec3, b: Seq<u8>, at: int)
    requires
        0 <= at,
        at + 12 <= b.len(),
        b.subrange(at, at + 12) == packed_vec3_bytes(v),
    ensures
        read_packed_vec3_spec(b, at) == v,
{
    let s = b.subrange(at, at + 12);
    assert(b.subrange(at, at + 4) =~= s.subrange(0, 4));
    assert(b.subrange(at + 4, at + 8) =~= s.subrange(4, 8));
    assert(b.subrange(at + 8, at + 12) =~= s.subrange(8, 12));
    assert(s.subrange(0, 4) =~= le_u32(v.x_bits));
    assert(s.subrange(4, 8) =~= le_u32(v.y_bits));
    assert(s.subrange(8, 12) =~= le_u32(v.z_bits));
    lemma_le_u32_roundtrip(v.x_bits, b, at);
    lemma_le_u32_roundtrip(v.y_bits, b, at + 4);
    lemma_le_u32_roundtrip(v.z_bits, b, at + 8);
}

/// Copies sixteen bytes starting at `at`.
fn read_id_bytes(b: &[u8], at: usize) -> (r: [u8; 16])
    requires
        at < 64,
        at + 16 <= b@.len(),
    ensures
        r@ == b@.subrange(at as int, at + 16),
{
    let mut out = [0u8; 16];
    let mut k: usize = 0;
    while k < 16
        invariant
            k <= 16,
            at < 64,
            at + 16 <= b@.len(),
            out@.len() == 16,
            forall|j: int| 0 <= j < k ==> out@[j] == b@[at + j],
        decreases 16 - k,
    {
        out.set(k, b[at + k]);
        k = k + 1;
    }
    assert(out@ =~= b@.subrange(at as int, at + 16));
    out
}

fn push_id_bytes(out: &mut Vec<u8>, id: &[u8; 16])
    ensures
        final(out)@ == old(out)@ + id@,
{
    let mut k: usize = 0;
    while k < 16
        invariant
            k <= 16,
            id@.len() == 16,
            out@ == old(out)@ + id@.subrange(0, k as int),
        decreases 16 - k,
    {
        out.push(id[k]);
        k = k + 1;
        assert(out@ =~= old(out)@ + id@.subrange(0, k as int));
    }
    assert(id@.subrange(0, 16) =~= id@);
}

/// Binary event: a typed header around a payload record.
#[derive(Debug, Clone)]
pub struct BinaryEvent<T> {
    pub event_type: u16,
    pub timestamp: u64,
    pub data: T,
}

impl<T: BinarySerializable> BinaryEvent<T> {
    /// Creates an event of the given type stamped with the current time
    /// (seconds since the Unix epoch).
    pub fn new(event_type: u16, data: T) -> (r: Self)
        ensures
            r.event_type == event_type,
            r.data == data,
    {
        BinaryEvent { event_type, timestamp: current_timestamp(), data }
    }
}

impl<T: BinarySerializable> BinarySerializable for BinaryEvent<T> {
    open spec fn binary_encoding(&self) -> Option<Seq<u8>> {
        match self.data.binary_encoding() {
            Some(b) => Some(le_u16(self.event_type) + le_u64(self.timestamp) + b),
            None => None,
        }
    }

    open spec fn binary_decodable(data: Seq<u8>) -> bool {
        data.len() >= 10 && T::binary_decodable(data.subrange(10, data.len() as int))
    }

    open spec fn binary_decodes(data: Seq<u8>, v: Self) -> bool {
        &&& v.event_type == read_le_u16_spec(data, 0)
        &&& v.timestamp == read_le_u64_spec(data, 2)
        &&& T::binary_decodes(data.subrange(10, data.len() as int), v.data)
    }

    /// The payload's own error.
    open spec fn binary_encoding_error(&self) -> EventErrorView {
        self.data.binary_encoding_error()
    }

    /// Too short for the header, or the payload decoder's own error.
    open spec fn binary_decoding_error(data: Seq<u8>) -> EventErrorView {
        if data.len() < 10 {
            EventErrorView::HandlerExecution("Binary data too short"@)
        } else {
            T::binary_decoding_error(data.subrange(10, data.len() as int))
        }
    }

    fn serialize_binary(&self) -> (r: Result<Vec<u8>, EventError>) {
        let mut buffer: Vec<u8> = Vec::new();
        push_le_u16(&mut buffer, self.event_type);
        push_le_u64(&mut buffer, self.timestamp);
        match self.data.serialize_binary() {
            Ok(data_bytes) => {
                let mut data_bytes = data_bytes;
                buffer.append(&mut data_bytes);
                Ok(buffer)
            },
            Err(e) => Err(e),
        }
    }

    fn deserialize_binary(data: &[u8]) -> (r: Result<Self, EventError>)
        ensures
            data@.len() < 10 ==> (r matches Err(e) && is_handler_execution(e, "Binary data too short"@)),
    {
        proof {
            reveal_strlit("Binary data too short");
        }
        if data.len() < 10 {
            return Err(EventError::HandlerExecution("Binary data too short".to_owned()));
        }
        let event_type = read_le_u16(data, 0);
        let timestamp = read_le_u64(data, 2);
        match T::deserialize_binary(slice_subrange(data, 10, data.len())) {
            Ok(inner) => Ok(BinaryEvent { event_type, timestamp, data: inner }),
            Err(e) => Err(e),
        }
    }
}

impl<T: BinarySerializable> Event for BinaryEvent<T> {
    open spec fn event_encoding(&self) -> Option<Seq<u8>> {
        self.binary_encoding()
    }

    open spec fn event_decodes(data: Seq<u8>, v: Self) -> bool {
        Self::binary_decodes(data, v)
    }

    open spec fn event_decodable(data: Seq<u8>) -> bool {
        Self::binary_decodable(data)
    }

    open spec fn event_encoding_error(&self) -> EventErrorView {
        self.binary_encoding_error()
    }

    open spec fn event_decoding_error(data: Seq<u8>) -> EventErrorView {
        Self::binary_decoding_error(data)
    }

    fn serialize(&self) -> (r: Result<Vec<u8>, EventError>) {
        self.serialize_binary()
    }

    fn deserialize(data: &[u8]) -> (r: Result<Self, EventError>) {
        Self::deserialize_binary(data)
    }
}

/// Binary position update: the player's UUID bytes, position, velocity and
/// a sequence number.
#[derive(Debug, Clone, Copy)]
pub struct BinaryPositionUpdate {
    pub player_id: [u8; 16],
    pub position: PackedVec3,
    pub velocity: PackedVec3,
    pub sequence: u32,
}

impl BinarySerializable for BinaryPositionUpdate {
    open spec fn binary_encoding(&self) -> Option<Seq<u8>> {
        Some(self.player_id@ + packed_vec3_bytes(self.position) + packed_vec3_bytes(self.velocity) + le_u32(
            self.sequence,
        ))
    }

    open spec fn binary_decodable(data: Seq<u8>) -> bool {
        data.len() >= 44
    }

    /// Never raised: a position update always serializes.
    open spec fn binary_encoding_error(&self) -> EventErrorView {
        EventErrorView::Serialization(Seq::empty())
    }

    open spec fn binary_decoding_error(data: Seq<u8>) -> EventErrorView {
        EventErrorView::HandlerExecution("Binary position data too short"@)
    }

    open spec fn binary_decodes(data: Seq<u8>, v: Self) -> bool {
        &&& v.player_id@ == data.subrange(0, 16)
        &&& v.position == read_packed_vec3_spec(data, 16)
        &&& v.velocity == read_packed_vec3_spec(data, 28)
        &&& v.sequence == read_le_u32_spec(data, 40)
    }

    fn serialize_binary(&self) -> (r: Result<Vec<u8>, EventError>)
        ensures
            r is Ok,
    {
        let mut buffer: Vec<u8> = Vec::new();
        push_id_bytes(&mut buffer, &self.player_id);
        push_packed_vec3(&mut buffer, self.position);
        push_packed_vec3(&mut buffer, self.velocity);
        push_le_u32(&mut buffer, self.sequence);
        Ok(buffer)
    }

    fn deserialize_binary(data: &[u8]) -> (r: Result<Self, EventError>)
        ensures
            data@.len() < 44 ==> (r matches Err(e) && is_handler_execution(e, "Binary position data too short"@)),
    {
        if data.len() < POSITION_UPDATE_RECORD_SIZE {
            return Err(EventError::HandlerExecution("Binary position data too short".to_owned()));
        }
        let player_id = read_id_bytes(data, 0);
        let position = read_packed_vec3(data, 16);
        let velocity = read_packed_vec3(data, 28);
        let sequence = read_le_u32(data, 40);
        Ok(BinaryPositionUpdate { player_id, position, velocity, sequence })
    }
}

impl BinaryPositionUpdate {
    /// Creates a position update for a player.
    pub fn new(player_id: PlayerId, position: PackedVec3, velocity: PackedVec3, sequence: u32) -> (r: Self)
        ensures
            r.player_id@ == be_u128(player_id.0),
            r.position == position,
            r.velocity == velocity,
            r.sequence == sequence,
    {
        BinaryPositionUpdate { player_id: u128_to_be_bytes(player_id.0), position, velocity, sequence }
    }

    /// The player ID held in the record.
    pub fn get_player_id(&self) -> (r: Result<PlayerId, EventError>)
        ensures
            r matches Ok(id) && id.0 == be_value(self.player_id@, 16),
    {
        Ok(PlayerId(u128_from_be_bytes(&self.player_id)))
    }
}

/// Binary action event: a player input.
#[derive(Debug, Clone, Copy)]
pub struct BinaryActionEvent {
    pub player_id: [u8; 16],
    pub action_type: u8,
    pub action_data: u32,
    /// Offset from the packet timestamp, for precision.
    pub timestamp_offset: u16,
}

impl BinarySerializable for BinaryActionEvent {
    open spec fn binary_encoding(&self) -> Option<Seq<u8>> {
        Some(self.player_id@ + seq![self.action_type] + le_u32(self.action_data) + le_u16(self.timestamp_offset))
    }

    open spec fn binary_decodable(data: Seq<u8>) -> bool {
        data.len() >= 23
    }

    /// Never raised: an action event always serializes.
    open spec fn binary_encoding_error(&self) -> EventErrorView {
        EventErrorView::Serialization(Seq::empty())
    }

    open spec fn binary_decoding_error(data: Seq<u8>) -> EventErrorView {
        EventErrorView::HandlerExecution("Binary action data too short"@)
    }

    open spec fn binary_decodes(data: Seq<u8>, v: Self) -> bool {
        &&& v.player_id@ == data.subrange(0, 16)
        &&& v.action_type == data[16]
        &&& v.action_data == read_le_u32_spec(data, 17)
        &&& v.timestamp_offset == read_le_u16_spec(data, 21)
    }

    fn serialize_binary(&self) -> (r: Result<Vec<u8>, EventError>)
        ensures
            r is Ok,
    {
        let mut buffer: Vec<u8> = Vec::new();
        push_id_bytes(&mut buffer, &self.player_id);
        buffer.push(self.action_type);
        push_le_u32(&mut buffer, self.action_data);
        push_le_u16(&mut buffer, self.timestamp_offset);
        Ok(buffer)
    }

    fn deserialize_binary(data: &[u8]) -> (r: Result<Self, EventError>)
        ensures
            data@.len() < 23 ==> (r matches Err(e) && is_handler_execution(e, "Binary action data too short"@)),
    {
        if data.len() < ACTION_EVENT_RECORD_SIZE {
            return Err(EventError::HandlerExecution("Binary action data too short".to_owned()));
        }
        let player_id = read_id_bytes(data, 0);
        let action_type = data[16];
        let action_data = read_le_u32(data, 17);
        let timestamp_offset = read_le_u16(data, 21);
        Ok(BinaryActionEvent { player_id, action_type, action_data, timestamp_offset })
    }
}

impl BinaryActionEvent {
    /// Creates an action event for a player.
    pub fn new(player_id: PlayerId, action_type: u8, action_data: u32, timestamp_offset: u16) -> (r: Self)
        ensures
            r.player_id@ == be_u128(player_id.0),
            r.action_type == action_type,
            r.action_data == action_data,
            r.timestamp_offset == timestamp_offset,
    {
        BinaryActionEvent { player_id: u128_to_be_bytes(player_id.0), action_type, action_data, timestamp_offset }
    }

    /// The player ID held in the record.
    pub fn get_player_id(&self) -> (r: Result<PlayerId, EventError>)
        ensures
            r matches Ok(id) && id.0 == be_value(self.player_id@, 16),
    {
        Ok(PlayerId(u128_from_be_bytes(&self.player_id)))
    }
}

/// Binary events carrying position updates.
pub type BinaryPositionEvent = BinaryEvent<BinaryPositionUpdate>;

/// Binary events carrying player actions.
pub type BinaryPlayerActionEvent = BinaryEvent<BinaryActionEvent>;

/// A record made for a player gives that player's ID back.
pub proof fn law_player_id_roundtrip(player_id: PlayerId)
    ensures
        be_value(be_u128(player_id.0), 16) == player_id.0,
{
    lemma_be_u128_roundtrip(player_id.0);
}

/// A position update reads back from its own encoding as itself.
pub proof fn law_position_update_roundtrip(u: BinaryPositionUpdate)
    ensures
        BinaryPositionUpdate::binary_decodable(u.binary_encoding()->0),
        BinaryPositionUpdate::binary_decodes(u.binary_encoding()->0, u),
{
    let b = u.binary_encoding()->0;
    assert(b.len() == 44);
    assert(b.subrange(0, 16) =~= u.player_id@);
    assert(b.subrange(16, 28) =~= packed_vec3_bytes(u.position));
    assert(b.subrange(28, 40) =~= packed_vec3_bytes(u.velocity));
    assert(b.subrange(40, 44) =~= le_u32(u.sequence));
    lemma_packed_vec3_roundtrip(u.position, b, 16);
    lemma_packed_vec3_roundtrip(u.velocity, b, 28);
    lemma_le_u32_roundtrip(u.sequence, b, 40);
}

/// An action event reads back from its own 23-byte encoding as itself.
pub proof fn law_action_event_roundtrip(a: BinaryActionEvent)
    ensures
        a.binary_encoding()->0.len() == 23,
        BinaryActionEvent::binary_decodable(a.binary_encoding()->0),
        BinaryActionEvent::binary_decodes(a.binary_encoding()->0, a),
        forall|v: BinaryActionEvent| BinaryActionEvent::binary_decodes(a.binary_encoding()->0, v) ==> v == a,
{
    let b = a.binary_encoding()->0;
    assert(b.len() == 23);
    assert(b.subrange(0, 16) =~= a.player_id@);
    assert(b[16] == a.action_type);
    assert(b.subrange(17, 21) =~= le_u32(a.action_data));
    assert(b.subrange(21, 23) =~= le_u16(a.timestamp_offset));
    lemma_le_u32_roundtrip(a.action_data, b, 17);
    lemma_le_u16_roundtrip(a.timestamp_offset, b, 21);
    assert forall|v: BinaryActionEvent| BinaryActionEvent::binary_decodes(b, v) implies v == a by {
        assert(v.player_id@ =~= a.player_id@);
        assert(v.player_id == a.player_id);
    }
}

/// A binary event whose payload reads back from its own encoding reads back
/// from the event's encoding as itself.
pub proof fn law_binary_event_roundtrip<T: BinarySerializable>(ev: BinaryEvent<T>)
    requires
        ev.data.binary_encoding() is Some,
        T::binary_decodable(ev.data.binary_encoding()->0),
        T::binary_decodes(ev.data.binary_encoding()->0, ev.data),
    ensures
        BinaryEvent::<T>::binary_decodable(ev.binary_encoding()->0),
        BinaryEvent::<T>::binary_decodes(ev.binary_encoding()->0, ev),
{
    let p = ev.data.binary_encoding()->0;
    let b = ev.binary_encoding()->0;
    assert(b.subrange(0, 2) =~= le_u16(ev.event_type));
    assert(b.subrange(2, 10) =~= le_u64(ev.timestamp));
    assert(b.subrange(10, b.len() as int) =~= p);
    lemma_le_u16_roundtrip(ev.event_type, b, 0);
    lemma_le_u64_roundtrip(ev.timestamp, b, 2);
}

} // verus!
