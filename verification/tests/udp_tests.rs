use horizon_event_system::events::EventError;
use horizon_event_system::system::udp::{
    build_packet, calculate_checksum, compress_payload, decode_payload, prepare_outgoing, verify_checksum,
    IncomingVerdict, UdpCompressionType, UdpConnection, UdpConnectionState,
};
use horizon_event_system::system::udp_reliability::{get_reliability_mode_for_event, ReliabilityMode, SequenceBuffer};
use horizon_event_system::system::udp_table::UdpConnectionTable;
use horizon_event_system::types::PlayerId;

#[test]
fn test_udp_event_system_creation() {
    let table = UdpConnectionTable::new();
    let stats = table.get_udp_stats(1024 * 1024, 1024 * 1024);
    assert_eq!(stats.connection_count, 0);
    assert_eq!(stats.total_bytes_sent, 0);
    assert_eq!(stats.total_bytes_received, 0);
}

#[test]
fn test_udp_connection_management() {
    let mut table = UdpConnectionTable::new();
    let player_id = PlayerId::new();
    let client_addr = "127.0.0.1:12345".to_string();
    let connection_id = "test_conn_1".to_string();

    table.add_udp_connection(client_addr.clone(), player_id, connection_id.clone());
    assert_eq!(table.get_udp_stats(0, 0).connection_count, 1);

    table.remove_udp_connection(&client_addr);
    assert_eq!(table.get_udp_stats(0, 0).connection_count, 0);
}

#[test]
fn test_reliability_modes() {
    assert_eq!(get_reliability_mode_for_event("player_connect"), ReliabilityMode::Reliable);
    assert_eq!(get_reliability_mode_for_event("position_update"), ReliabilityMode::Sequenced);
    assert_eq!(get_reliability_mode_for_event("chat_message"), ReliabilityMode::Ordered);
    assert_eq!(get_reliability_mode_for_event("unknown_event"), ReliabilityMode::Unreliable);
}

#[test]
fn test_sequence_buffer() {
    let mut buffer = SequenceBuffer::new(10);

    let delivered = buffer.process_packet(0, vec![1, 2, 3]);
    assert_eq!(delivered.len(), 1);
    assert_eq!(delivered[0].0, 0);

    let delivered = buffer.process_packet(2, vec![7, 8, 9]);
    assert_eq!(delivered.len(), 0);

    let delivered = buffer.process_packet(1, vec![4, 5, 6]);
    assert_eq!(delivered.len(), 2);
    assert_eq!(delivered[0].0, 1);
    assert_eq!(delivered[1].0, 2);
}

#[test]
fn checksum_values() {
    assert_eq!(calculate_checksum(&[]), 0);
    assert_eq!(calculate_checksum(&[1]), 1);
    assert_eq!(calculate_checksum(&[1, 2]), 33);
    assert_eq!(calculate_checksum(&[1, 2, 3]), 33 * 31 + 3);
    // wraps modulo 2^32
    let long = vec![255u8; 100];
    let mut expected = 0u32;
    for b in &long {
        expected = expected.wrapping_mul(31).wrapping_add(*b as u32);
    }
    assert_eq!(calculate_checksum(&long), expected);
}

#[test]
fn connection_sequences() {
    let mut c = UdpConnection::new("1.2.3.4:5".to_string(), PlayerId(1), "c".to_string());
    assert_eq!(c.state, UdpConnectionState::Connecting);
    assert_eq!(c.next_sequence(), 1);
    assert_eq!(c.next_sequence(), 2);
    c.out_sequence = u32::MAX;
    assert_eq!(c.next_sequence(), 0);
    assert!(c.is_sequence_valid(1));
    assert!(!c.is_sequence_valid(0));
    c.update_in_sequence(5);
    assert_eq!(c.in_sequence, 5);
    assert!(!c.is_sequence_valid(5));
    assert!(!c.is_sequence_valid(3));
    assert!(c.is_sequence_valid(9));
    c.update_in_sequence(2);
    assert_eq!(c.in_sequence, 5);
    c.in_sequence = u32::MAX;
    assert!(c.is_sequence_valid(0));
}

#[test]
fn packet_building() {
    let p = build_packet("chat", "src".to_string(), 9, 1234, vec![1, 2, 3], UdpCompressionType::Uncompressed);
    assert_eq!(p.header.version, 1);
    assert_eq!(p.header.event_type, "chat");
    assert_eq!(p.header.target_id, "");
    assert_eq!(p.header.total_size, 67);
    assert_eq!(p.checksum, calculate_checksum(&[1, 2, 3]));
    assert!(verify_checksum(&p).is_ok());
}

#[test]
fn checksum_mismatch_is_rejected() {
    let mut p = build_packet("chat", "src".to_string(), 1, 0, vec![1, 2, 3], UdpCompressionType::Uncompressed);
    p.checksum = p.checksum.wrapping_add(1);
    match verify_checksum(&p) {
        Err(EventError::HandlerExecution(m)) => assert_eq!(m, "Checksum mismatch"),
        other => panic!("unexpected result: {:?}", other),
    }
}

#[test]
fn compression_round_trip() {
    let payload = vec![0u8; 1000];
    let (body, compression) = compress_payload(payload.clone(), true, 64);
    assert_eq!(compression, UdpCompressionType::Deflate);
    assert!(body.len() < payload.len());
    let p = build_packet("big", "src".to_string(), 1, 0, body, compression);
    assert_eq!(decode_payload(&p).unwrap(), payload);
}

#[test]
fn small_or_disabled_payloads_stay_uncompressed() {
    let payload = vec![0u8; 1000];
    let (body, compression) = compress_payload(payload.clone(), false, 64);
    assert_eq!(compression, UdpCompressionType::Uncompressed);
    assert_eq!(body, payload);
    let (body, compression) = compress_payload(vec![1, 2, 3], true, 64);
    assert_eq!(compression, UdpCompressionType::Uncompressed);
    assert_eq!(body, vec![1, 2, 3]);
}

#[test]
fn lz4_and_corrupt_payloads_fail_to_decode() {
    let p = build_packet("x", "s".to_string(), 1, 0, vec![1, 2], UdpCompressionType::Lz4);
    match decode_payload(&p) {
        Err(EventError::HandlerExecution(m)) => assert_eq!(m, "LZ4 compression not implemented"),
        other => panic!("unexpected result: {:?}", other),
    }
    let p = build_packet("x", "s".to_string(), 1, 0, vec![0xFF; 8], UdpCompressionType::Deflate);
    assert!(matches!(decode_payload(&p), Err(EventError::HandlerExecution(_))));
}

#[test]
fn outgoing_packet_on_connection() {
    let player = PlayerId(0x1234);
    let mut c = UdpConnection::new("a".to_string(), player, "c".to_string());
    let p = prepare_outgoing(&mut c, "ev", vec![5, 6], 42, false, 0);
    assert_eq!(p.header.sequence, 1);
    assert_eq!(c.out_sequence, 1);
    assert_eq!(p.header.source_id, player.to_string());
    assert_eq!(p.header.timestamp, 42);
    assert_eq!(p.payload, vec![5, 6]);
}

#[test]
fn table_sends_and_receives() {
    let mut table = UdpConnectionTable::new();
    let player = PlayerId(77);
    table.add_udp_connection("peer".to_string(), player, "conn".to_string());
    assert_eq!(table.address_of(player), Some("peer".to_string()));
    match table.prepare_packet("nobody", "ev", vec![1], 0, false, 0) {
        Err(EventError::HandlerNotFound(m)) => assert_eq!(m, "No UDP connection to nobody"),
        other => panic!("unexpected result: {:?}", other),
    }
    let p = table.prepare_packet("peer", "ev", vec![1, 2, 3], 10, false, 0).unwrap();
    assert_eq!(p.header.sequence, 1);
    table.record_sent("peer", 100);
    assert_eq!(table.receive_packet(&p, "stranger", 50).unwrap(), IncomingVerdict::UnknownConnection);
    assert_eq!(table.receive_packet(&p, "peer", 50).unwrap(), IncomingVerdict::Accepted);
    assert_eq!(table.receive_packet(&p, "peer", 50).unwrap(), IncomingVerdict::OutOfSequence);
    let stats = table.get_udp_stats(1, 2);
    assert_eq!(stats.total_bytes_sent, 100);
    assert_eq!(stats.total_bytes_received, 50);
    assert_eq!(stats.send_buffer_size, 1);
    table.remove_udp_connection("peer");
    assert_eq!(table.address_of(player), None);
    assert!(!table.has_connection("peer"));
}

#[test]
fn ordered_delivery_hands_out_every_number_once_in_order() {
    let mut buffer = SequenceBuffer::new(16);
    let mut stream: Vec<(u32, Vec<u8>)> = Vec::new();
    for seq in [3u32, 1, 0, 1, 2, 5, 4] {
        stream.extend(buffer.process_packet(seq, vec![seq as u8 + 10]));
    }
    let expected: Vec<(u32, Vec<u8>)> = (0u32..6).map(|s| (s, vec![s as u8 + 10])).collect();
    assert_eq!(stream, expected);
    assert_eq!(buffer.next_expected, 6);
    assert!(buffer.buffer.is_empty());
}
