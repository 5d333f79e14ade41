use horizon_event_system::binary::{BinaryActionEvent, BinaryEvent};
use horizon_event_system::gorc::channels::{ChannelStats, MineralType, ReplicationPriority};
use horizon_event_system::gorc::multicast::MulticastManager;
use horizon_event_system::system::cache::SerializationBufferPool;
use horizon_event_system::system::udp_reliability::{
    process_received_packet, retransmission_decision, uses_sequence_buffer, ReliabilityMode, RetransmitDecision,
    SequenceBuffer,
};
use horizon_event_system::text::{find_char_from, push_decimal, str_contains, str_eq, str_starts_with};
use horizon_event_system::gorc::instance::GorcObjectId;
use horizon_event_system::serialization::{BinarySerializer, JsonSerializer, TypeErasedSerializer};
use horizon_event_system::types::{PlayerId, RegionId};
use horizon_event_system::utils::current_timestamp;

#[test]
fn retransmission_backs_off_exponentially() {
    assert_eq!(retransmission_decision(0, 3), RetransmitDecision::Retry { retries: 1, backoff_factor: 2 });
    assert_eq!(retransmission_decision(2, 3), RetransmitDecision::Retry { retries: 3, backoff_factor: 8 });
    assert_eq!(retransmission_decision(3, 3), RetransmitDecision::Drop);
    assert_eq!(retransmission_decision(7, 10), RetransmitDecision::Retry { retries: 8, backoff_factor: 32 });
}

#[test]
fn delivery_by_reliability_mode() {
    assert!(uses_sequence_buffer(ReliabilityMode::Ordered));
    assert!(uses_sequence_buffer(ReliabilityMode::Sequenced));
    assert!(!uses_sequence_buffer(ReliabilityMode::Reliable));
    let mut buffer = SequenceBuffer::new(4);
    assert_eq!(process_received_packet(&mut buffer, 9, vec![1], ReliabilityMode::Unreliable), vec![(9, vec![1])]);
    assert_eq!(buffer.next_expected, 0);
    assert_eq!(process_received_packet(&mut buffer, 5, vec![2], ReliabilityMode::Sequenced), vec![(5, vec![2])]);
    assert_eq!(buffer.next_expected, 6);
    assert!(process_received_packet(&mut buffer, 3, vec![3], ReliabilityMode::Sequenced).is_empty());
    assert!(process_received_packet(&mut buffer, 8, vec![4], ReliabilityMode::Ordered).is_empty());
    assert_eq!(process_received_packet(&mut buffer, 6, vec![5], ReliabilityMode::Ordered), vec![(6, vec![5])]);
    assert_eq!(
        process_received_packet(&mut buffer, 7, vec![6], ReliabilityMode::Ordered),
        vec![(7, vec![6]), (8, vec![4])]
    );
}

#[test]
fn sequence_buffer_has_a_bound() {
    let mut buffer = SequenceBuffer::new(1);
    assert!(buffer.process_packet(2, vec![2]).is_empty());
    assert!(buffer.process_packet(3, vec![3]).is_empty());
    assert_eq!(buffer.buffer.len(), 1);
    assert_eq!(buffer.process_packet(0, vec![0]), vec![(0, vec![0])]);
    assert_eq!(buffer.process_packet(1, vec![1]), vec![(1, vec![1]), (2, vec![2])]);
}

#[test]
fn priorities_rank() {
    assert_eq!(ReplicationPriority::Critical.rank(), 0);
    assert_eq!(ReplicationPriority::Low.rank(), 3);
    assert!(ReplicationPriority::High.is_more_urgent_than(&ReplicationPriority::Normal));
    assert!(!ReplicationPriority::Low.is_more_urgent_than(&ReplicationPriority::Low));
}

#[test]
fn channel_stats_track_peak() {
    let mut c = ChannelStats::default();
    c.update_subscriber_count(5);
    c.update_subscriber_count(2);
    assert_eq!(c.subscriber_count, 2);
    assert_eq!(c.peak_subscriber_count, 5);
    assert!(matches!(MineralType::default_mineral(), MineralType::Iron));
}

#[test]
fn serialization_pool_serializes_events() {
    let pool = SerializationBufferPool::new();
    let event = BinaryEvent { event_type: 2, timestamp: 1, data: BinaryActionEvent::new(PlayerId(1), 1, 1, 1) };
    let bytes = pool.serialize_event(&event).unwrap();
    assert_eq!(bytes.len(), 10 + 23);
}

#[test]
fn lod_rooms_are_counted() {
    let mut manager = MulticastManager::new();
    manager.record_lod_room();
    assert_eq!(manager.get_stats().lod_rooms, 1);
}

#[test]
fn text_helpers() {
    assert!(str_eq("abc", "abc"));
    assert!(!str_eq("abc", "abd"));
    assert!(str_starts_with("core:x", "core:"));
    assert!(!str_starts_with("co", "core:"));
    assert!(str_contains("client:chat:send", "chat"));
    assert!(str_contains("abc", ""));
    assert!(!str_contains("abc", "abcd"));
    assert_eq!(find_char_from("a:b:c", ':', 2), Some(3));
    assert_eq!(find_char_from("abc", ':', 0), None);
    let mut s = String::from("n=");
    push_decimal(&mut s, 1203);
    assert_eq!(s, "n=1203");
    let mut z = String::new();
    push_decimal(&mut z, 0);
    assert_eq!(z, "0");
}

#[test]
fn identifiers_and_time() {
    let a = PlayerId::new();
    let b = PlayerId::new();
    assert_ne!(a, b);
    assert_eq!(PlayerId::from_str(&a.to_string()).unwrap(), a);
    assert!(PlayerId::from_str("not-a-uuid").is_err());
    assert_ne!(RegionId::new(), RegionId::new());
    assert!(current_timestamp() > 1_600_000_000);
}

#[test]
fn fresh_ids_are_version_4_uuids() {
    for v in [PlayerId::new().0, RegionId::new().0, GorcObjectId::new().0] {
        assert_eq!((v >> 76) & 0xf, 4);
        assert_eq!((v >> 62) & 3, 2);
    }
}

#[test]
fn serializers_always_serialize_values() {
    let mut map = serde_json::Map::new();
    map.insert("k".to_string(), serde_json::Value::Bool(true));
    let v = serde_json::Value::Object(map);
    let json = JsonSerializer::new();
    let bytes = json.serialize_value(&v).unwrap();
    assert_eq!(bytes, b"{\"k\":true}".to_vec());
    assert_eq!(json.deserialize_value(&bytes).unwrap(), v);
    let bin = BinarySerializer::new();
    let framed = bin.serialize_value(&v).unwrap();
    assert_eq!(&framed[..2], &[0xBF, 0x00]);
    assert_eq!(bin.deserialize_value(&framed).unwrap(), v);
    assert!(bin.deserialize_value(&bytes).is_err());
}
