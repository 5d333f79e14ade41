use horizon_event_system::binary::event_types;
use horizon_event_system::binary::{
    BinaryActionEvent, BinaryEvent, BinaryPositionUpdate, PackedVec3, ACTION_EVENT_RECORD_SIZE,
    POSITION_UPDATE_RECORD_SIZE,
};
use horizon_event_system::events::{Event, EventError};
use horizon_event_system::protocol::{BinarySerializable, ProtocolEvent, Udp, Binary};
use horizon_event_system::types::PlayerId;

fn packed(x: f32, y: f32, z: f32) -> PackedVec3 {
    PackedVec3 { x_bits: x.to_bits(), y_bits: y.to_bits(), z_bits: z.to_bits() }
}

#[test]
fn position_update_round_trip() {
    let player = PlayerId(0x0011_2233_4455_6677_8899_aabb_ccdd_eeff);
    let update = BinaryPositionUpdate::new(player, packed(1.0, 2.5, -3.0), packed(0.0, 0.5, 9.0), 77);
    let bytes = update.serialize_binary().unwrap();
    assert_eq!(bytes.len(), POSITION_UPDATE_RECORD_SIZE);
    assert_eq!(&bytes[0..16], &player.0.to_be_bytes());
    assert_eq!(&bytes[16..20], &1.0f32.to_le_bytes());
    assert_eq!(&bytes[40..44], &77u32.to_le_bytes());
    let back = BinaryPositionUpdate::deserialize_binary(&bytes).unwrap();
    assert_eq!(back.player_id, update.player_id);
    assert_eq!(back.position, update.position);
    assert_eq!(back.velocity, update.velocity);
    assert_eq!(back.sequence, 77);
    assert_eq!(f32::from_bits(back.position.y_bits), 2.5);
    assert_eq!(back.get_player_id().unwrap(), player);
}

#[test]
fn short_position_data_is_rejected() {
    match BinaryPositionUpdate::deserialize_binary(&[0u8; 43]) {
        Err(EventError::HandlerExecution(m)) => assert_eq!(m, "Binary position data too short"),
        other => panic!("unexpected result: {:?}", other),
    }
}

#[test]
fn action_event_encoding() {
    let player = PlayerId(7);
    let action = BinaryActionEvent::new(player, 3, 0x0102_0304, 0x0506);
    let bytes = action.serialize_binary().unwrap();
    assert_eq!(bytes.len(), 23);
    assert_eq!(bytes[15], 7);
    assert_eq!(bytes[16], 3);
    assert_eq!(&bytes[17..21], &[4, 3, 2, 1]);
    assert_eq!(&bytes[21..23], &[6, 5]);
    assert_eq!(action.get_player_id().unwrap(), player);
}

#[test]
fn action_event_round_trip() {
    let action = BinaryActionEvent {
        player_id: [1u8; 16],
        action_type: 2,
        action_data: 3,
        timestamp_offset: 4,
    };
    let bytes = action.serialize_binary().unwrap();
    assert_eq!(bytes.len(), ACTION_EVENT_RECORD_SIZE);
    assert_eq!(bytes.len(), 23);
    let back = BinaryActionEvent::deserialize_binary(&bytes).unwrap();
    assert_eq!(back.player_id, [1u8; 16]);
    assert_eq!(back.action_type, 2);
    assert_eq!(back.action_data, 3);
    assert_eq!(back.timestamp_offset, 4);
    match BinaryActionEvent::deserialize_binary(&bytes[..22]) {
        Err(EventError::HandlerExecution(m)) => assert_eq!(m, "Binary action data too short"),
        other => panic!("unexpected result: {:?}", other),
    }
}

#[test]
fn binary_event_round_trip() {
    let update = BinaryPositionUpdate::new(PlayerId(5), packed(1.0, 1.0, 1.0), packed(2.0, 2.0, 2.0), 1);
    let event = BinaryEvent { event_type: event_types::POSITION_UPDATE, timestamp: 0x1122_3344_5566_7788, data: update };
    let bytes = event.serialize_binary().unwrap();
    assert_eq!(bytes.len(), 10 + POSITION_UPDATE_RECORD_SIZE);
    assert_eq!(&bytes[0..2], &[1, 0]);
    assert_eq!(&bytes[2..10], &[0x88, 0x77, 0x66, 0x55, 0x44, 0x33, 0x22, 0x11]);
    let back = BinaryEvent::<BinaryPositionUpdate>::deserialize_binary(&bytes).unwrap();
    assert_eq!(back.event_type, event_types::POSITION_UPDATE);
    assert_eq!(back.timestamp, 0x1122_3344_5566_7788);
    assert_eq!(back.data.sequence, 1);
    let via_event = <BinaryEvent<BinaryPositionUpdate> as Event>::serialize(&event).unwrap();
    assert_eq!(via_event, bytes);
    let via_protocol = <BinaryEvent<BinaryPositionUpdate> as ProtocolEvent<Udp, Binary>>::serialize_for_protocol(&event).unwrap();
    assert_eq!(via_protocol, bytes);
}

#[test]
fn short_binary_event_is_rejected() {
    match BinaryEvent::<BinaryPositionUpdate>::deserialize_binary(&[1, 0, 0, 0, 0, 0, 0, 0, 0]) {
        Err(EventError::HandlerExecution(m)) => assert_eq!(m, "Binary data too short"),
        other => panic!("unexpected result: {:?}", other),
    }
    // A full header with a short payload fails in the payload.
    match BinaryEvent::<BinaryPositionUpdate>::deserialize_binary(&[0u8; 20]) {
        Err(EventError::HandlerExecution(m)) => assert_eq!(m, "Binary position data too short"),
        other => panic!("unexpected result: {:?}", other),
    }
}

#[test]
fn new_binary_event_keeps_type_and_data() {
    let action = BinaryActionEvent::new(PlayerId(1), 2, 3, 4);
    let event = BinaryEvent::new(event_types::ACTION_EVENT, action);
    assert_eq!(event.event_type, 2);
    assert_eq!(event.data.action_data, 3);
}

#[test]
fn event_type_constants() {
    assert_eq!(event_types::POSITION_UPDATE, 1);
    assert_eq!(event_types::ACTION_EVENT, 2);
    assert_eq!(event_types::HEALTH_UPDATE, 3);
    assert_eq!(event_types::INVENTORY_UPDATE, 4);
}
