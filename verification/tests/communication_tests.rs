use horizon_event_system::communication::{
    CommunicationFactory, EndpointBuilder, ProtocolCompatible, TcpBinaryEndpoint, TcpJsonEndpoint, UdpJsonEndpoint,
};
use horizon_event_system::serialization::{BinaryFormat, JsonFormat};
use horizon_event_system::transport::{
    decode_length_prefix, length_prefix, TcpTransport, TransportProtocol, UdpTransport, MAX_MESSAGE_SIZE,
};

#[test]
fn test_compile_time_validation() {
    // These should compile fine
    let _tcp_json = CommunicationFactory::tcp_json();
    let _tcp_binary = CommunicationFactory::tcp_binary();
    let _udp_json = CommunicationFactory::udp_json();
    let _udp_binary = CommunicationFactory::udp_binary();
}

#[test]
fn test_transport_info() {
    assert_eq!(TcpJsonEndpoint::<()>::transport_info().name, "TCP");
    assert_eq!(TcpJsonEndpoint::<()>::transport_info().connection_oriented, true);
    assert_eq!(UdpJsonEndpoint::<()>::transport_info().connection_oriented, false);
}

#[test]
fn test_format_info() {
    assert_eq!(TcpJsonEndpoint::<()>::format_info().name, "JSON");
    assert_eq!(TcpJsonEndpoint::<()>::format_info().human_readable, true);
    assert_eq!(TcpBinaryEndpoint::<()>::format_info().human_readable, false);
}

#[test]
fn test_compatibility_notes() {
    let tcp_json = CommunicationFactory::tcp_json();
    let notes = tcp_json.compatibility_notes();
    assert!(!notes.is_empty());

    let udp_binary = CommunicationFactory::udp_binary();
    let notes = udp_binary.compatibility_notes();
    assert!(!notes.is_empty());
}

#[test]
fn compatibility_notes_of_each_combination() {
    assert_eq!(
        CommunicationFactory::tcp_json().compatibility_notes(),
        vec!["Standard web-compatible combination", "Good for debugging"]
    );
    assert_eq!(
        CommunicationFactory::tcp_binary().compatibility_notes(),
        vec!["High performance combination", "Compact message size"]
    );
    assert_eq!(
        CommunicationFactory::udp_json().compatibility_notes(),
        vec!["JSON overhead may be significant for UDP", "Consider binary format for better performance"]
    );
    assert_eq!(
        <(UdpTransport, BinaryFormat) as ProtocolCompatible>::compatibility_notes(),
        vec!["Optimal combination for UDP", "Minimal overhead"]
    );
    assert!(<(TcpTransport, JsonFormat) as ProtocolCompatible>::VALID);
}

#[test]
fn transport_constants() {
    assert_eq!(TcpTransport::NAME, "TCP");
    assert!(TcpTransport::RELIABLE);
    assert_eq!(UdpTransport::NAME, "UDP");
    assert!(!UdpTransport::RELIABLE);
    assert!(!UdpTransport::CONNECTION_ORIENTED);
    assert_eq!(TcpBinaryEndpoint::<()>::format_info().mime_type, "application/msgpack");
}

#[test]
fn endpoint_keeps_its_connection() {
    let builder: EndpointBuilder<TcpTransport, JsonFormat> = EndpointBuilder::new();
    let mut endpoint = builder.build(7u32);
    *endpoint.connection_mut() += 1;
    assert_eq!(*endpoint.connection_mut(), 8);
}

#[test]
fn length_prefix_is_big_endian() {
    assert_eq!(length_prefix(0x0102_0304), [1, 2, 3, 4]);
    assert_eq!(decode_length_prefix([0, 0, 1, 0]), Some(256));
    assert_eq!(decode_length_prefix(length_prefix(MAX_MESSAGE_SIZE)), Some(MAX_MESSAGE_SIZE));
}

#[test]
fn oversized_messages_are_refused() {
    assert_eq!(decode_length_prefix(length_prefix(MAX_MESSAGE_SIZE + 1)), None);
    assert_eq!(decode_length_prefix([0xFF, 0xFF, 0xFF, 0xFF]), None);
}
