use horizon_event_system::serialization::{
    add_binary_header, strip_binary_header, BinaryFormat, BinarySerializer, JsonFormat, JsonSerializer,
    SerializationError, SerializationFormat, SerializerFactory, TypeErasedSerializer,
};

fn test_message() -> serde_json::Value {
    let mut fields = serde_json::Map::new();
    fields.insert("id".to_string(), serde_json::Value::from(42u32));
    fields.insert("content".to_string(), serde_json::Value::from("Hello, World!"));
    serde_json::Value::Object(fields)
}

#[test]
fn test_json_serialization() {
    let serializer = JsonSerializer::new();
    let message = test_message();

    let bytes = serializer.serialize(&message).unwrap();
    let deserialized: serde_json::Value = serializer.deserialize(&bytes).unwrap();

    assert_eq!(message, deserialized);
}

#[test]
fn serialization_test_binary_serialization() {
    let serializer = BinarySerializer::new();
    let message = test_message();

    let bytes = serializer.serialize(&message).unwrap();
    let deserialized: serde_json::Value = serializer.deserialize(&bytes).unwrap();

    assert_eq!(message, deserialized);

    // Check that binary format has header
    assert_eq!(&bytes[0..2], [0xBF, 0x00]);
}

#[test]
fn test_format_constants() {
    assert_eq!(JsonFormat::NAME, "JSON");
    assert_eq!(JsonFormat::HUMAN_READABLE, true);
    assert_eq!(BinaryFormat::NAME, "Binary");
    assert_eq!(BinaryFormat::HUMAN_READABLE, false);
}

#[test]
fn mime_types_and_format_names() {
    assert_eq!(JsonFormat::MIME_TYPE, "application/json");
    assert_eq!(BinaryFormat::MIME_TYPE, "application/msgpack");
    assert_eq!(SerializerFactory::json().format_name(), "JSON");
    assert_eq!(SerializerFactory::binary().format_name(), "Binary");
}

#[test]
fn binary_header_is_prepended_to_json_text() {
    let framed = add_binary_header(b"{}");
    assert_eq!(framed, vec![0xBF, 0x00, b'{', b'}']);
    let rest = strip_binary_header(&framed).unwrap();
    assert_eq!(rest, b"{}");
}

#[test]
fn binary_data_without_header_is_invalid_format() {
    let serializer = BinarySerializer::new();
    match serializer.deserialize(b"{}") {
        Err(SerializationError::InvalidFormat(m)) => assert_eq!(m, "Missing binary format header"),
        other => panic!("unexpected result: {:?}", other),
    }
    match strip_binary_header(&[0xBF]) {
        Err(SerializationError::InvalidFormat(m)) => assert_eq!(m, "Missing binary format header"),
        other => panic!("unexpected result: {:?}", other),
    }
}

#[test]
fn binary_data_with_bad_json_is_binary_error() {
    let serializer = BinarySerializer::new();
    match serializer.deserialize(&[0xBF, 0x00, b'{']) {
        Err(SerializationError::Binary(_)) => {}
        other => panic!("unexpected result: {:?}", other),
    }
}

#[test]
fn bad_json_is_json_error() {
    let serializer = JsonSerializer::new();
    match serializer.deserialize(b"not json") {
        Err(SerializationError::Json(_)) => {}
        other => panic!("unexpected result: {:?}", other),
    }
}

#[test]
fn type_erased_serializers_round_trip() {
    let message = test_message();
    let json = SerializerFactory::json();
    let bytes = json.serialize_value(&message).unwrap();
    assert_eq!(json.deserialize_value(&bytes).unwrap(), message);
    let binary = SerializerFactory::binary();
    let bytes = binary.serialize_value(&message).unwrap();
    assert_eq!(&bytes[0..2], [0xBF, 0x00]);
    assert_eq!(binary.deserialize_value(&bytes).unwrap(), message);
}
