//! Serialization formats: JSON, and a binary framing that puts a two-byte
//! header in front of the JSON text.

use vstd::prelude::*;
use vstd::slice::slice_subrange;

verus! {

#[verifier::external_type_specification]
#[verifier::external_body]
pub struct ExJsonValue(serde_json::Value);

#[verifier::external_type_specification]
#[verifier::external_body]
pub struct ExJsonError(serde_json::Error);

/// The JSON value `serde_json::from_slice` reads from the bytes, or `None`
/// where it reports an error.
pub uninterp spec fn json_parse(data: Seq<u8>) -> Option<serde_json::Value>;

/// The bytes `serde_json::to_vec` writes for a JSON value.
pub uninterp spec fn json_bytes(value: serde_json::Value) -> Seq<u8>;

/// `serde_json::to_vec` on a JSON value: the bytes that `json_bytes` names.
/// It always succeeds: the serializer fails only when its writer does, and
/// writing into a `Vec` does not, or on a map key that is no string, and
/// the keys of a `Value` are strings.
#[verifier::external_body]
fn json_to_vec(value: &serde_json::Value) -> (r: Result<Vec<u8>, serde_json::Error>)
    ensures
        r is Ok,
        r matches Ok(bytes) ==> bytes@ == json_bytes(*value),
{
    serde_json::to_vec(value)
}

/// `serde_json::from_slice` into a JSON value: the value that `json_parse`
/// names for the bytes, or an error exactly where it names none.
#[verifier::external_body]
fn json_from_slice(data: &[u8]) -> (r: Result<serde_json::Value, serde_json::Error>)
    ensures
        match r {
            Ok(v) => json_parse(data@) == Some(v),
            Err(_) => json_parse(data@) is None,
        },
{
    serde_json::from_slice(data)
}

/// The display text of a `serde_json::Error`. Nothing is claimed of it.
#[verifier::external_body]
fn json_error_text(e: &serde_json::Error) -> String {
    format!("{}", e)
}

/// A serialization format: its name, whether it is human-readable, and its
/// MIME type.
pub trait SerializationFormat {
    /// The name of the format.
    const NAME: &'static str;
    /// Whether the format is human-readable.
    const HUMAN_READABLE: bool;
    /// The MIME type of the format.
    const MIME_TYPE: &'static str;

    /// The name of the format, as text.
    spec fn name_view() -> Seq<char>;

    /// Whether the format is human-readable.
    spec fn is_human_readable() -> bool;

    /// The MIME type of the format, as text.
    spec fn mime_view() -> Seq<char>;

    /// The name of the format.
    fn name() -> (r: &'static str)
        ensures
            r@ == Self::name_view(),
    ;

    /// Whether the format is human-readable.
    fn human_readable() -> (r: bool)
        ensures
            r == Self::is_human_readable(),
    ;

    /// The MIME type of the format.
    fn mime_type() -> (r: &'static str)
        ensures
            r@ == Self::mime_view(),
    ;
}

/// JSON serialization format marker.
#[derive(Debug, Clone, Copy)]
pub struct JsonFormat;

impl SerializationFormat for JsonFormat {
    const NAME: &'static str = "JSON";
    const HUMAN_READABLE: bool = true;
    const MIME_TYPE: &'static str = "application/json";

    open spec fn name_view() -> Seq<char> {
        "JSON"@
    }

    open spec fn is_human_readable() -> bool {
        true
    }

    open spec fn mime_view() -> Seq<char> {
        "application/json"@
    }

    fn name() -> (r: &'static str) {
        "JSON"
    }

    fn human_readable() -> (r: bool) {
        true
    }

    fn mime_type() -> (r: &'static str) {
        "application/json"
    }
}

/// Binary serialization format marker.
#[derive(Debug, Clone, Copy)]
pub struct BinaryFormat;

impl SerializationFormat for BinaryFormat {
    const NAME: &'static str = "Binary";
    const HUMAN_READABLE: bool = false;
    const MIME_TYPE: &'static str = "application/msgpack";

    open spec fn name_view() -> Seq<char> {
        "Binary"@
    }

    open spec fn is_human_readable() -> bool {
        false
    }

    open spec fn mime_view() -> Seq<char> {
        "application/msgpack"@
    }

    fn name() -> (r: &'static str) {
        "Binary"
    }

    fn human_readable() -> (r: bool) {
        false
    }

    fn mime_type() -> (r: &'static str) {
        "application/msgpack"
    }
}

/// Errors that can occur during serialization or deserialization.
#[derive(Debug)]
pub enum SerializationError {
    /// JSON serialization error.
    Json(serde_json::Error),
    /// Binary serialization error, with the message of the underlying error.
    Binary(String),
    /// Invalid data format.
    InvalidFormat(String),
}

/// The two magic bytes in front of binary-framed data.
pub open spec fn binary_header() -> Seq<u8> {
    seq![0xBFu8, 0x00u8]
}

/// Whether the data starts with the binary header.
pub open spec fn has_binary_header(data: Seq<u8>) -> bool {
    data.len() >= 2 && data[0] == 0xBFu8 && data[1] == 0x00u8
}

/// Frames JSON bytes as binary data: the header, then the bytes.
pub fn add_binary_header(json: &[u8]) -> (r: Vec<u8>)
    ensures
        r@ == binary_header() + json@,
{
    let mut result: Vec<u8> = Vec::new();
    result.push(0xBF);
    result.push(0x00);
    let mut i: usize = 0;
    while i < json.len()
        invariant
            i <= json@.len(),
            result@ == binary_header() + json@.subrange(0, i as int),
        decreases json@.len() - i,
    {
        result.push(json[i]);
        i = i + 1;
        assert(result@ =~= binary_header() + json@.subrange(0, i as int));
    }
    assert(json@.subrange(0, json@.len() as int) =~= json@);
    result
}

/// The bytes after the binary header, or the error for data without it.
pub fn strip_binary_header(data: &[u8]) -> (r: Result<&[u8], SerializationError>)
    ensures
        has_binary_header(data@) ==> (r matches Ok(rest) && rest@ == data@.skip(2)),
        !has_binary_header(data@) ==> (r matches Err(SerializationError::InvalidFormat(m))
            && m@ == "Missing binary format header"@),
{
    if data.len() < 2 || data[0] != 0xBF || data[1] != 0x00 {
        return Err(SerializationError::InvalidFormat("Missing binary format header".to_owned()));
    }
    Ok(slice_subrange(data, 2, data.len()))
}

/// Stripping the header from framed bytes gives the bytes back.
pub proof fn law_binary_frame_roundtrip(json: Seq<u8>)
    ensures
        has_binary_header(binary_header() + json),
        (binary_header() + json).skip(2) == json,
{
    assert((binary_header() + json).skip(2) =~= json);
}

/// A serializer that works on JSON values.
pub trait TypeErasedSerializer {
    /// Serializes a JSON value to bytes.
    fn serialize_value(&self, value: &serde_json::Value) -> Result<Vec<u8>, SerializationError>;

    /// Deserializes bytes to a JSON value.
    fn deserialize_value(&self, data: &[u8]) -> Result<serde_json::Value, SerializationError>;

    /// The format name, for debugging.
    fn format_name(&self) -> &'static str;
}

/// JSON serializer.
pub struct JsonSerializer {
    _private: (),
}

impl JsonSerializer {
    /// Creates a JSON serializer.
    pub fn new() -> Self {
        JsonSerializer { _private: () }
    }

    /// Serializes a JSON value to its text; this always succeeds.
    pub fn serialize(&self, value: &serde_json::Value) -> (r: Result<Vec<u8>, SerializationError>)
        ensures
            r matches Ok(bytes) && bytes@ == json_bytes(*value),
    {
        match json_to_vec(value) {
            Ok(bytes) => Ok(bytes),
            Err(e) => Err(SerializationError::Json(e)),
        }
    }

    /// Deserializes JSON text to the value it holds; it fails exactly on
    /// bytes that are no JSON value.
    pub fn deserialize(&self, data: &[u8]) -> (r: Result<serde_json::Value, SerializationError>)
        ensures
            match r {
                Ok(v) => json_parse(data@) == Some(v),
                Err(e) => json_parse(data@) is None && e is Json,
            },
    {
        match json_from_slice(data) {
            Ok(v) => Ok(v),
            Err(e) => Err(SerializationError::Json(e)),
        }
    }
}

impl TypeErasedSerializer for JsonSerializer {
    fn serialize_value(&self, value: &serde_json::Value) -> (r: Result<Vec<u8>, SerializationError>)
        ensures
            r matches Ok(bytes) && bytes@ == json_bytes(*value),
    {
        self.serialize(value)
    }

    fn deserialize_value(&self, data: &[u8]) -> (r: Result<serde_json::Value, SerializationError>)
        ensures
            match r {
                Ok(v) => json_parse(data@) == Some(v),
                Err(e) => json_parse(data@) is None && e is Json,
            },
    {
        self.deserialize(data)
    }

    fn format_name(&self) -> (r: &'static str)
        ensures
            r@ == JsonFormat::name_view(),
    {
        JsonFormat::name()
    }
}

/// Binary serializer: JSON text behind a two-byte header.
pub struct BinarySerializer {
    _private: (),
}

impl BinarySerializer {
    /// Creates a binary serializer.
    pub fn new() -> Self {
        BinarySerializer { _private: () }
    }

    /// Serializes a JSON value to its text behind the binary header; this
    /// always succeeds.
    pub fn serialize(&self, value: &serde_json::Value) -> (r: Result<Vec<u8>, SerializationError>)
        ensures
            r matches Ok(bytes) && bytes@ == binary_header() + json_bytes(*value),
    {
        match json_to_vec(value) {
            Ok(body) => Ok(add_binary_header(body.as_slice())),
            Err(e) => Err(SerializationError::Binary(json_error_text(&e))),
        }
    }

    /// Deserializes binary-framed data: data without the header is an
    /// invalid format; otherwise the rest is read as JSON, and a failure
    /// there is a binary error.
    pub fn deserialize(&self, data: &[u8]) -> (r: Result<serde_json::Value, SerializationError>)
        ensures
            !has_binary_header(data@) ==> (r matches Err(SerializationError::InvalidFormat(m))
                && m@ == "Missing binary format header"@),
            has_binary_header(data@) ==> match r {
                Ok(v) => json_parse(data@.skip(2)) == Some(v),
                Err(e) => json_parse(data@.skip(2)) is None && e is Binary,
            },
    {
        match strip_binary_header(data) {
            Ok(json_data) => match json_from_slice(json_data) {
                Ok(v) => Ok(v),
                Err(e) => Err(SerializationError::Binary(json_error_text(&e))),
            },
            Err(e) => Err(e),
        }
    }
}

impl TypeErasedSerializer for BinarySerializer {
    fn serialize_value(&self, value: &serde_json::Value) -> (r: Result<Vec<u8>, SerializationError>)
        ensures
            r matches Ok(bytes) && bytes@ == binary_header() + json_bytes(*value),
    {
        self.serialize(value)
    }

    fn deserialize_value(&self, data: &[u8]) -> (r: Result<serde_json::Value, SerializationError>)
        ensures
            !has_binary_header(data@) ==> (r matches Err(SerializationError::InvalidFormat(m))
                && m@ == "Missing binary format header"@),
            has_binary_header(data@) ==> match r {
                Ok(v) => json_parse(data@.skip(2)) == Some(v),
                Err(e) => json_parse(data@.skip(2)) is None && e is Binary,
            },
    {
        self.deserialize(data)
    }

    fn format_name(&self) -> (r: &'static str)
        ensures
            r@ == BinaryFormat::name_view(),
    {
        BinaryFormat::name()
    }
}

/// Factory for creating serializers.
pub struct SerializerFactory;

impl SerializerFactory {
    /// Creates a JSON serializer.
    pub fn json() -> JsonSerializer {
        JsonSerializer::new()
    }

    /// Creates a binary serializer.
    pub fn binary() -> BinarySerializer {
        BinarySerializer::new()
    }
}

/// Whether data of a type fits a format.
pub trait FormatCompatible<F: SerializationFormat> {
    fn is_compatible() -> bool;
}

impl FormatCompatible<JsonFormat> for String {
    fn is_compatible() -> (r: bool)
        ensures
            r,
    {
        true
    }
}

impl FormatCompatible<JsonFormat> for serde_json::Value {
    fn is_compatible() -> (r: bool)
        ensures
            r,
    {
        true
    }
}

} // verus!
